//! Decimal and upper-case hexadecimal rendering of numbers, the way the interpreter
//! shows registers, addresses and opcodes, and the joining of texts made of parts.
use vstd::prelude::*;

verus! {

/// The upper-case hexadecimal digit of a value below 16.
pub open spec fn hex_digit(d: int) -> char {
    if d < 10 {
        (d + 48) as char
    } else {
        (d + 55) as char
    }
}

/// The shortest upper-case hexadecimal rendering of `n` (`{:X}`).
pub open spec fn hex(n: nat) -> Seq<char>
    decreases n,
{
    if n < 16 {
        seq![hex_digit(n as int)]
    } else {
        hex(n / 16).push(hex_digit((n % 16) as int))
    }
}

/// `count` copies of the character `c`.
pub open spec fn repeat_char(c: char, count: nat) -> Seq<char> {
    Seq::new(count, |i: int| c)
}

/// `hex(n)` left-padded with zeros to at least `width` characters (`{:0width$X}`).
pub open spec fn hex_padded(n: nat, width: nat) -> Seq<char> {
    let digits = hex(n);
    if digits.len() < width {
        repeat_char('0', (width - digits.len()) as nat) + digits
    } else {
        digits
    }
}

/// The alternate form `{:#0width$X}`: a `0x` prefix, then zero-padded digits so that
/// the whole text has at least `width` characters.
pub open spec fn hex_prefixed(n: nat, width: nat) -> Seq<char> {
    seq!['0', 'x'] + hex_padded(n, if width >= 2 { (width - 2) as nat } else { 0 })
}

/// The texts `part(0)`, ..., `part(n - 1)`, one after another.
pub open spec fn concat_parts(n: nat, part: spec_fn(int) -> Seq<char>) -> Seq<char> {
    Seq::new(n, part).flatten()
}

/// A concatenation of no parts is empty, and one more part goes at the end.
pub proof fn lemma_concat_parts_push(n: nat, part: spec_fn(int) -> Seq<char>)
    ensures
        concat_parts(0, part) == Seq::<char>::empty(),
        concat_parts(n + 1, part) == concat_parts(n, part) + part(n as int),
{
    assert(Seq::new(n + 1, part) =~= Seq::new(n, part).push(part(n as int)));
    Seq::new(n, part).lemma_flatten_push(part(n as int));
}

/// Appends one character to a string.
///
/// Calls `String::push`, whose documentation says that it appends the given `char`
/// to the end of the string; the contract states exactly that.
#[verifier::external_body]
pub fn push_char(s: &mut String, c: char)
    ensures
        final(s)@ == old(s)@.push(c),
{
    s.push(c);
}

/// The character of a hexadecimal digit.
pub fn hex_digit_char(d: u64) -> (c: char)
    requires
        d < 16,
    ensures
        c == hex_digit(d as int),
{
    if d < 10 {
        ((d as u8) + 48) as char
    } else {
        ((d as u8) + 55) as char
    }
}

/// Appends `hex(n)` to `s`.
pub fn push_hex(s: &mut String, n: u64)
    ensures
        final(s)@ == old(s)@ + hex(n as nat),
    decreases n,
{
    if n < 16 {
        push_char(s, hex_digit_char(n));
        assert(s@ =~= old(s)@ + hex(n as nat));
    } else {
        push_hex(s, n / 16);
        push_char(s, hex_digit_char(n % 16));
        assert(s@ =~= old(s)@ + hex(n as nat));
    }
}

/// Appends `hex_padded(n, width)` to `s`.
pub fn push_hex_padded(s: &mut String, n: u64, width: usize)
    ensures
        final(s)@ == old(s)@ + hex_padded(n as nat, width as nat),
{
    let mut digits = String::new();
    push_hex(&mut digits, n);
    assert(digits@ =~= hex(n as nat));
    let len = digits.as_str().unicode_len();
    let ghost start = s@;
    if len < width {
        let mut k: usize = 0;
        while k < width - len
            invariant
                len < width,
                k <= width - len,
                s@ == start + repeat_char('0', k as nat),
            decreases width - len - k,
        {
            push_char(s, '0');
            k = k + 1;
            assert(s@ =~= start + repeat_char('0', k as nat));
        }
    }
    s.append(digits.as_str());
    assert(s@ =~= start + hex_padded(n as nat, width as nat));
}

/// Appends `hex_prefixed(n, width)` to `s`.
pub fn push_hex_prefixed(s: &mut String, n: u64, width: usize)
    requires
        width >= 2,
    ensures
        final(s)@ == old(s)@ + hex_prefixed(n as nat, width as nat),
{
    push_char(s, '0');
    push_char(s, 'x');
    push_hex_padded(s, n, width - 2);
    assert(s@ =~= old(s)@ + hex_prefixed(n as nat, width as nat));
}

/// The shortest decimal rendering of `n` (`{}`).
pub open spec fn dec(n: nat) -> Seq<char>
    decreases n,
{
    if n < 10 {
        seq![hex_digit(n as int)]
    } else {
        dec(n / 10).push(hex_digit((n % 10) as int))
    }
}

/// Appends `dec(n)` to `s`.
pub fn push_dec(s: &mut String, n: u64)
    ensures
        final(s)@ == old(s)@ + dec(n as nat),
    decreases n,
{
    if n < 10 {
        push_char(s, hex_digit_char(n));
        assert(s@ =~= old(s)@ + dec(n as nat));
    } else {
        push_dec(s, n / 10);
        push_char(s, hex_digit_char(n % 10));
        assert(s@ =~= old(s)@ + dec(n as nat));
    }
}

} // verus!
