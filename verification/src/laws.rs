//! Properties of the library that span instructions or calls: what decoding, rendering,
//! executing and drawing must satisfy, and how the keypad lies over the host keyboard.
use vstd::prelude::*;
use crate::cli::Args;
use crate::instruction::{Instruction, decode, op_a, reg_text, byte_text, addr_text};
use crate::hex::{hex, hex_digit, hex_padded, hex_prefixed};
use crate::machine::{MachineState, spec_execute, write_at, bcd, font};
use crate::screen::{drawn, collides, sprite_covers, sprite_bit};
use crate::keyboard::{HostKey, host_key_for};
use crate::chip8::{Chip8State, chip8_step, chip8_defined};

verus! {

/// Drawing the same sprite twice at the same place restores the display (XOR drawing),
/// and pixels the sprite does not cover are never touched.
pub proof fn lemma_draw_twice_restores(buf: Seq<bool>, mem: Seq<u8>, start: int, x0: int, y0: int, n: int)
    ensures
        drawn(drawn(buf, mem, start, x0, y0, n), mem, start, x0, y0, n) == buf,
        forall|p: int| 0 <= p < buf.len() && !sprite_covers(mem, start, x0, y0, n, p)
            ==> #[trigger] drawn(buf, mem, start, x0, y0, n)[p] == buf[p],
{
    assert(drawn(drawn(buf, mem, start, x0, y0, n), mem, start, x0, y0, n) =~= buf);
}

/// Redrawing a sprite reports a collision exactly when the first drawing lit some pixel:
/// on a blank display the first drawing never collides, and the second one collides
/// exactly when the sprite has a set bit on the display.
pub proof fn lemma_redraw_collides(buf: Seq<bool>, mem: Seq<u8>, start: int, x0: int, y0: int, n: int)
    requires
        buf.len() == 2048,
    ensures
        collides(drawn(buf, mem, start, x0, y0, n), mem, start, x0, y0, n)
            == exists|p: int| #[trigger] sprite_covers(mem, start, x0, y0, n, p) && !buf[p],
        (forall|p: int| 0 <= p < 2048 ==> !#[trigger] buf[p]) ==> {
            &&& !collides(buf, mem, start, x0, y0, n)
            &&& collides(drawn(buf, mem, start, x0, y0, n), mem, start, x0, y0, n)
                == exists|p: int| #[trigger] sprite_covers(mem, start, x0, y0, n, p)
        },
{
    let d = drawn(buf, mem, start, x0, y0, n);
    if collides(d, mem, start, x0, y0, n) {
        let p = choose|p: int| #[trigger] sprite_covers(mem, start, x0, y0, n, p) && d[p];
        assert(sprite_covers(mem, start, x0, y0, n, p) && !buf[p]);
    }
    if exists|p: int| #[trigger] sprite_covers(mem, start, x0, y0, n, p) && !buf[p] {
        let p = choose|p: int| #[trigger] sprite_covers(mem, start, x0, y0, n, p) && !buf[p];
        assert(sprite_covers(mem, start, x0, y0, n, p) && d[p]);
    }
    if forall|p: int| 0 <= p < 2048 ==> !#[trigger] buf[p] {
        if collides(buf, mem, start, x0, y0, n) {
            let p = choose|p: int| #[trigger] sprite_covers(mem, start, x0, y0, n, p) && buf[p];
            assert(!buf[p]);
        }
        if exists|p: int| #[trigger] sprite_covers(mem, start, x0, y0, n, p) {
            let p = choose|p: int| #[trigger] sprite_covers(mem, start, x0, y0, n, p);
            assert(sprite_covers(mem, start, x0, y0, n, p) && !buf[p]);
        }
    }
}

/// What is written is read back: after writing `data` at `start`, memory holds `data`
/// there and is unchanged elsewhere.
pub proof fn lemma_read_after_write(mem: Seq<u8>, data: Seq<u8>, start: int)
    requires
        0 <= start,
        start + data.len() <= mem.len(),
    ensures
        write_at(mem, data, start).len() == mem.len(),
        write_at(mem, data, start).subrange(start, start + data.len()) == data,
        forall|a: int| 0 <= a < mem.len() && !(start <= a < start + data.len())
            ==> #[trigger] write_at(mem, data, start)[a] == mem[a],
{
    assert(write_at(mem, data, start).subrange(start, start + data.len()) =~= data);
}

/// `2NNN` followed by `00EE` returns to the instruction after the call, with the
/// stack as it was before the call.
pub proof fn lemma_call_then_return(s: MachineState, args: Args, nnn: u16, r1: u8, r2: u8)
    requires
        s.instruction == Instruction::I2NNN(nnn),
    ensures
        ({
            let called = spec_execute(s, args, r1).0;
            let returned = spec_execute(MachineState { instruction: Instruction::I00EE, ..called }, args, r2).0;
            &&& called.pc == nnn
            &&& returned.pc == s.pc
            &&& returned.stack == s.stack
        }),
{
    let called = spec_execute(s, args, r1).0;
    assert(called.stack.drop_last() =~= s.stack);
}

/// `FX33` stores the decimal digits of `VX`: each is below ten and together they spell `VX`.
pub proof fn lemma_bcd_digits(b: u8)
    ensures
        bcd(b).len() == 3,
        bcd(b)[0] < 10 && bcd(b)[1] < 10 && bcd(b)[2] < 10,
        bcd(b)[0] * 100 + bcd(b)[1] * 10 + bcd(b)[2] == b,
{
}

/// `FX55` followed by `FX65` with the same `I` (the quirk that leaves `I` unchanged)
/// restores `V0`..`VX`, whatever the registers held in between.
pub proof fn lemma_save_then_load(s: MachineState, args: Args, x: usize, other_v: Seq<u8>, r1: u8, r2: u8)
    requires
        s.instruction == Instruction::IFX55(x),
        x < 16,
        s.i + x < 0x1000,
        s.memory.len() == 0x1000,
        s.v.len() == 16,
        other_v.len() == 16,
        args.memory_leave_i_unchanged,
    ensures
        ({
            let saved = spec_execute(s, args, r1).0;
            let loaded = spec_execute(MachineState { instruction: Instruction::IFX65(x), v: other_v, ..saved }, args, r2).0;
            &&& saved.i == s.i
            &&& forall|k: int| 0 <= k <= x ==> #[trigger] loaded.v[k] == s.v[k]
            &&& forall|k: int| x < k < 16 ==> #[trigger] loaded.v[k] == other_v[k]
        }),
{
}

/// `8XY4` adds with carry: for `X` other than `F`, the new `VX` plus 256 times the
/// carry flag in `VF` equals `VX + VY`.
pub proof fn lemma_add_with_carry(s: MachineState, args: Args, x: usize, y: usize, r: u8)
    requires
        s.instruction == Instruction::I8XY4(x, y),
        x < 15,
        y < 16,
        s.v.len() == 16,
    ensures
        ({
            let t = spec_execute(s, args, r).0;
            t.v[x as int] + 256 * t.v[15] == s.v[x as int] + s.v[y as int]
        }),
{
}

/// `FX29` points `I` at the font glyph of the digit in `VX`, which a freshly created
/// machine holds there.
pub proof fn lemma_font_glyph(s: MachineState, args: Args, x: usize, r: u8)
    requires
        s.instruction == Instruction::IFX29(x),
        x < 16,
        s.v.len() == 16,
        s.v[x as int] < 16,
        s.memory == write_at(Seq::new(0x1000, |a: int| 0u8), font(), 0x50),
    ensures
        ({
            let t = spec_execute(s, args, r).0;
            &&& t.i == 0x50 + 5 * s.v[x as int]
            &&& t.memory.subrange(t.i as int, t.i + 5) == font().subrange(5 * s.v[x as int], 5 * s.v[x as int] + 5)
        }),
{
    let t = spec_execute(s, args, r).0;
    let d = s.v[x as int];
    assert(t.memory.subrange(t.i as int, t.i + 5) =~= font().subrange(5 * d, 5 * d + 5));
}

/// Only `FX33` and `FX55` write memory; the stack changes only on `2NNN` and `00EE`.
pub proof fn lemma_memory_and_stack_frame(s: MachineState, args: Args, r: u8)
    ensures
        !(s.instruction is IFX33 || s.instruction is IFX55) ==> spec_execute(s, args, r).0.memory == s.memory,
        !(s.instruction is I2NNN || s.instruction is I00EE) ==> spec_execute(s, args, r).0.stack == s.stack,
{
}

/// The jump quirk changes the decoding of `BNNN` opcodes only.
pub proof fn lemma_jump_quirk_only_affects_b(op: u16)
    ensures
        op_a(op) != 0xB ==> decode(op, true) == decode(op, false),
        op_a(op) == 0xB ==> decode(op, false) is IBNNN && decode(op, true) is IBXNN,
{
}

/// `8XY6` shifts right: with `in` the shifted input (`VY` under the shift quirk, `VX`
/// otherwise) and `X` other than `F`, `in` is twice the new `VX` plus the bit shifted out,
/// which lands in `VF`; no other register changes.
#[verifier::spinoff_prover]
pub proof fn lemma_shift_right(s: MachineState, args: Args, x: usize, y: usize, r: u8)
    requires
        s.instruction == Instruction::I8XY6(x, y),
        x < 15,
        y < 16,
        s.v.len() == 16,
    ensures
        ({
            let input = if args.shift { s.v[y as int] } else { s.v[x as int] };
            let t = spec_execute(s, args, r).0;
            &&& 2 * t.v[x as int] + t.v[15] == input
            &&& t.v[15] < 2
            &&& forall|k: int| 0 <= k < 15 && k != x ==> #[trigger] t.v[k] == s.v[k]
        }),
{
}

/// `8XYE` shifts left: with `in` the shifted input (`VY` under the shift quirk, `VX`
/// otherwise) and `X` other than `F`, the new `VX` plus 256 times `VF` is twice `in`, so
/// `VF` receives bit 7 of `in`; no other register changes.
#[verifier::spinoff_prover]
pub proof fn lemma_shift_left(s: MachineState, args: Args, x: usize, y: usize, r: u8)
    requires
        s.instruction == Instruction::I8XYE(x, y),
        x < 15,
        y < 16,
        s.v.len() == 16,
    ensures
        ({
            let input = if args.shift { s.v[y as int] } else { s.v[x as int] };
            let t = spec_execute(s, args, r).0;
            &&& t.v[x as int] + 256 * t.v[15] == 2 * input
            &&& forall|k: int| 0 <= k < 15 && k != x ==> #[trigger] t.v[k] == s.v[k]
        }),
{
}

/// `8XY5` subtracts with borrow: for `X` other than `F`, the new `VX` is `VX - VY`, plus
/// 256 when `VF` is 0 (a borrow); `VF` is 1 when there was none.
#[verifier::spinoff_prover]
pub proof fn lemma_subtract_with_borrow(s: MachineState, args: Args, x: usize, y: usize, r: u8)
    requires
        s.instruction == Instruction::I8XY5(x, y),
        x < 15,
        y < 16,
        s.v.len() == 16,
    ensures
        ({
            let t = spec_execute(s, args, r).0;
            &&& t.v[15] < 2
            &&& t.v[x as int] == s.v[x as int] - s.v[y as int] + 256 * (1 - t.v[15])
        }),
{
}

/// `8XY7` subtracts the other way round: for `X` other than `F` and `Y` other than `X`,
/// the new `VX` is `VY - VX`, plus 256 when `VF` is 0 (a borrow); `VF` is 1 when there
/// was none.
#[verifier::spinoff_prover]
pub proof fn lemma_reverse_subtract_with_borrow(s: MachineState, args: Args, x: usize, y: usize, r: u8)
    requires
        s.instruction == Instruction::I8XY7(x, y),
        x < 15,
        y < 16,
        x != y,
        s.v.len() == 16,
    ensures
        ({
            let t = spec_execute(s, args, r).0;
            &&& t.v[15] < 2
            &&& t.v[x as int] == s.v[y as int] - s.v[x as int] + 256 * (1 - t.v[15])
        }),
{
}

/// The opcode an instruction is written as: the family nibble, then its operands in their
/// fields (`X` in the second nibble, `Y` in the third, `N`, `NN` or `NNN` at the low end).
pub open spec fn encode(i: Instruction) -> int {
    match i {
        Instruction::I00E0 => 0x00E0,
        Instruction::I00EE => 0x00EE,
        Instruction::I1NNN(nnn) => 0x1000 + nnn,
        Instruction::I2NNN(nnn) => 0x2000 + nnn,
        Instruction::I3XNN(x, nn) => 0x3000 + 256 * x + nn,
        Instruction::I4XNN(x, nn) => 0x4000 + 256 * x + nn,
        Instruction::I5XY0(x, y) => 0x5000 + 256 * x + 16 * y,
        Instruction::I6XNN(x, nn) => 0x6000 + 256 * x + nn,
        Instruction::I7XNN(x, nn) => 0x7000 + 256 * x + nn,
        Instruction::I8XY0(x, y) => 0x8000 + 256 * x + 16 * y,
        Instruction::I8XY1(x, y) => 0x8001 + 256 * x + 16 * y,
        Instruction::I8XY2(x, y) => 0x8002 + 256 * x + 16 * y,
        Instruction::I8XY3(x, y) => 0x8003 + 256 * x + 16 * y,
        Instruction::I8XY4(x, y) => 0x8004 + 256 * x + 16 * y,
        Instruction::I8XY5(x, y) => 0x8005 + 256 * x + 16 * y,
        Instruction::I8XY6(x, y) => 0x8006 + 256 * x + 16 * y,
        Instruction::I8XY7(x, y) => 0x8007 + 256 * x + 16 * y,
        Instruction::I8XYE(x, y) => 0x800E + 256 * x + 16 * y,
        Instruction::I9XY0(x, y) => 0x9000 + 256 * x + 16 * y,
        Instruction::IANNN(nnn) => 0xA000 + nnn,
        Instruction::IBXNN(x, nnn) => 0xB000 + 256 * x + nnn % 256,
        Instruction::IBNNN(nnn) => 0xB000 + nnn,
        Instruction::ICXNN(x, nn) => 0xC000 + 256 * x + nn,
        Instruction::IDXYN(x, y, n) => 0xD000 + 256 * x + 16 * y + n,
        Instruction::IEX9E(x) => 0xE09E + 256 * x,
        Instruction::IEXA1(x) => 0xE0A1 + 256 * x,
        Instruction::IFX07(x) => 0xF007 + 256 * x,
        Instruction::IFX0A(x) => 0xF00A + 256 * x,
        Instruction::IFX15(x) => 0xF015 + 256 * x,
        Instruction::IFX18(x) => 0xF018 + 256 * x,
        Instruction::IFX1E(x) => 0xF01E + 256 * x,
        Instruction::IFX29(x) => 0xF029 + 256 * x,
        Instruction::IFX33(x) => 0xF033 + 256 * x,
        Instruction::IFX55(x) => 0xF055 + 256 * x,
        Instruction::IFX65(x) => 0xF065 + 256 * x,
        Instruction::Invalid => -1,
    }
}

/// Decoding loses nothing: every opcode that decodes to an instruction is the opcode that
/// instruction is written as, under either reading of `BNNN`.
#[verifier::spinoff_prover]
pub proof fn lemma_decode_then_encode(op: u16, jump: bool)
    ensures
        decode(op, jump) != Instruction::Invalid ==> encode(decode(op, jump)) == op,
{
    let a = op as int / 4096;
    let x = (op as int / 256) % 16;
    let y = (op as int / 16) % 16;
    let n = op as int % 16;
    assert(op == 4096 * a + 256 * x + 16 * y + n && 0 <= a < 16) by (nonlinear_arith)
        requires a == op as int / 4096, x == (op as int / 256) % 16, y == (op as int / 16) % 16, n == op as int % 16, 0 <= op < 65536;
    assert(op as int % 256 == 16 * y + n && op as int % 4096 == 256 * x + 16 * y + n) by (nonlinear_arith)
        requires x == (op as int / 256) % 16, y == (op as int / 16) % 16, n == op as int % 16, 0 <= op < 65536;
}

/// Where a host key sits in the left-hand block of a QWERTY keyboard: rows `1 2 3 4`,
/// `Q W E R`, `A S D F`, `Z X C V`, as (row, column).
pub open spec fn host_key_position(k: HostKey) -> (int, int) {
    match k {
        HostKey::Num1 => (0, 0),
        HostKey::Num2 => (0, 1),
        HostKey::Num3 => (0, 2),
        HostKey::Num4 => (0, 3),
        HostKey::Q => (1, 0),
        HostKey::W => (1, 1),
        HostKey::E => (1, 2),
        HostKey::R => (1, 3),
        HostKey::A => (2, 0),
        HostKey::S => (2, 1),
        HostKey::D => (2, 2),
        HostKey::F => (2, 3),
        HostKey::Z => (3, 0),
        HostKey::X => (3, 1),
        HostKey::C => (3, 2),
        HostKey::V => (3, 3),
    }
}

/// Where a key sits on the CHIP-8 hexadecimal keypad: rows `1 2 3 C`, `4 5 6 D`,
/// `7 8 9 E`, `A 0 B F`, as (row, column).
pub open spec fn keypad_position(i: int) -> (int, int) {
    if i == 0x1 { (0, 0) } else if i == 0x2 { (0, 1) } else if i == 0x3 { (0, 2) } else if i == 0xC { (0, 3) }
    else if i == 0x4 { (1, 0) } else if i == 0x5 { (1, 1) } else if i == 0x6 { (1, 2) } else if i == 0xD { (1, 3) }
    else if i == 0x7 { (2, 0) } else if i == 0x8 { (2, 1) } else if i == 0x9 { (2, 2) } else if i == 0xE { (2, 3) }
    else if i == 0xA { (3, 0) } else if i == 0x0 { (3, 1) } else if i == 0xB { (3, 2) } else { (3, 3) }
}

/// Each keypad key is driven by the host key in the same place: the keypad's grid is laid
/// over the left-hand block of the host keyboard, so distinct keypad keys have distinct
/// host keys (and `set_keys` with host key `A` alone leaves exactly key `7` down).
#[verifier::spinoff_prover]
pub proof fn lemma_keypad_layout(i: int, j: int)
    requires
        0 <= i < 16,
        0 <= j < 16,
    ensures
        host_key_position(host_key_for(i)) == keypad_position(i),
        i != j ==> host_key_for(i) != host_key_for(j),
{
}

/// `DXYN` on the first-generation core sets `VF` to 1 exactly when the drawing turned off a
/// pixel that was lit, and to 0 otherwise.
#[verifier::spinoff_prover]
pub proof fn lemma_chip8_draw_flag(s: Chip8State)
    requires
        chip8_defined(s),
        s.screen_buffer.len() == 2048,
        op_a(s.opcode) == 0xD,
    ensures
        ({
            let t = chip8_step(s);
            &&& t.v[15] < 2
            &&& (t.v[15] == 1 <==> exists|p: int| 0 <= p < 2048 && #[trigger] s.screen_buffer[p] && !t.screen_buffer[p])
        }),
{
    let t = chip8_step(s);
    let x0 = s.v[crate::instruction::op_x(s.opcode)] % 64;
    let y0 = s.v[crate::instruction::op_y(s.opcode)] % 32;
    let n = crate::instruction::op_n(s.opcode);
    lemma_collision_is_lit_pixel_turned_off(s.screen_buffer, s.memory, s.i as int, x0 as int, y0 as int, n);
}

/// A drawing collides exactly when it turns off a pixel that was lit.
proof fn lemma_collision_is_lit_pixel_turned_off(buf: Seq<bool>, mem: Seq<u8>, start: int, x0: int, y0: int, n: int)
    requires
        buf.len() == 2048,
    ensures
        collides(buf, mem, start, x0, y0, n)
            == exists|p: int| 0 <= p < 2048 && #[trigger] buf[p] && !drawn(buf, mem, start, x0, y0, n)[p],
{
    let d = drawn(buf, mem, start, x0, y0, n);
    if collides(buf, mem, start, x0, y0, n) {
        let p = choose|p: int| #[trigger] sprite_covers(mem, start, x0, y0, n, p) && buf[p];
        assert(0 <= p < 2048 && buf[p] && !d[p]);
    }
    if exists|p: int| 0 <= p < 2048 && #[trigger] buf[p] && !d[p] {
        let p = choose|p: int| 0 <= p < 2048 && #[trigger] buf[p] && !d[p];
        assert(sprite_covers(mem, start, x0, y0, n, p) && buf[p]);
    }
}

/// `DXYN` on the machine, when it draws rather than waits for the next frame, sets `VF`
/// to 1 exactly when the drawing turned off a pixel that was lit, and to 0 otherwise.
#[verifier::spinoff_prover]
pub proof fn lemma_draw_flag(s: MachineState, args: Args, x: usize, y: usize, n: u8, r: u8)
    requires
        s.instruction == Instruction::IDXYN(x, y, n),
        !(args.vblank && !s.is_next_frame),
        s.back_buffer.len() == 2048,
        s.v.len() == 16,
    ensures
        ({
            let t = spec_execute(s, args, r).0;
            &&& t.v[15] < 2
            &&& (t.v[15] == 1 <==> exists|p: int| 0 <= p < 2048 && #[trigger] s.back_buffer[p] && !t.back_buffer[p])
        }),
{
    let x0 = s.v[x as int] % 64;
    let y0 = s.v[y as int] % 32;
    lemma_collision_is_lit_pixel_turned_off(s.back_buffer, s.memory, s.i as int, x0 as int, y0 as int, n as int);
}

/// The value of a hexadecimal digit character (`0`..`9`, `A`..`F`).
pub open spec fn digit_value(c: char) -> int {
    if (c as int) < 58 { c as int - 48 } else { c as int - 55 }
}

/// The register named at position `k` of an assembly text (`v` and one digit).
pub open spec fn reg_at(t: Seq<char>, k: int) -> usize {
    digit_value(t[k + 1]) as usize
}

/// The byte operand written at position `k` of an assembly text (`0x` and two digits).
pub open spec fn byte_at(t: Seq<char>, k: int) -> u8 {
    (16 * digit_value(t[k + 2]) + digit_value(t[k + 3])) as u8
}

/// The address operand written at position `k` of an assembly text (`0x` and three digits).
pub open spec fn addr_at(t: Seq<char>, k: int) -> u16 {
    (256 * digit_value(t[k + 2]) + 16 * digit_value(t[k + 3]) + digit_value(t[k + 4])) as u16
}

/// Reading an Octo assembly line back into an instruction: the mnemonic table of the
/// assembler, keyed by the characters that tell the forms apart (`jump`/`jump0`/`jumpX`
/// by the fifth character, `if` forms by their comparison and operand, register forms
/// by their operator `:=`, `+=`, `|=`, `&=`, `^=`, `-=`, `=-`, `>>=`, `<<=`).
pub open spec fn parse_text(t: Seq<char>, jump: bool) -> Instruction {
    if t.len() == 0 {
        Instruction::Invalid
    } else if t[0] == 'c' {
        Instruction::I00E0
    } else if t[0] == 'r' {
        Instruction::I00EE
    } else if t[0] == 'j' {
        if t[4] == ' ' {
            Instruction::I1NNN(addr_at(t, 5))
        } else if jump {
            Instruction::IBXNN(digit_value(t[4]) as usize, addr_at(t, 6))
        } else {
            Instruction::IBNNN(addr_at(t, 6))
        }
    } else if t[0] == ':' {
        Instruction::I2NNN(addr_at(t, 6))
    } else if t[0] == 'i' && t[1] == 'f' {
        let x = reg_at(t, 3);
        if t[6] == '-' {
            Instruction::IEX9E(x)
        } else if t[6] == 'k' {
            Instruction::IEXA1(x)
        } else if t[6] == '!' {
            if t[9] == 'v' { Instruction::I5XY0(x, reg_at(t, 9)) } else { Instruction::I3XNN(x, byte_at(t, 9)) }
        } else {
            if t[9] == 'v' { Instruction::I9XY0(x, reg_at(t, 9)) } else { Instruction::I4XNN(x, byte_at(t, 9)) }
        }
    } else if t[0] == 'i' {
        if t[2] == '+' {
            Instruction::IFX1E(reg_at(t, 5))
        } else if t[5] == 'h' {
            Instruction::IFX29(reg_at(t, 9))
        } else {
            Instruction::IANNN(addr_at(t, 5))
        }
    } else if t[0] == 'v' {
        let x = reg_at(t, 0);
        let op = t[3];
        if op == ':' {
            let c = t[6];
            if c == 'v' {
                Instruction::I8XY0(x, reg_at(t, 6))
            } else if c == '0' {
                Instruction::I6XNN(x, byte_at(t, 6))
            } else if c == 'r' {
                Instruction::ICXNN(x, byte_at(t, 13))
            } else if c == 'd' {
                Instruction::IFX07(x)
            } else {
                Instruction::IFX0A(x)
            }
        } else if op == '+' {
            if t[6] == 'v' { Instruction::I8XY4(x, reg_at(t, 6)) } else { Instruction::I7XNN(x, byte_at(t, 6)) }
        } else if op == '|' {
            Instruction::I8XY1(x, reg_at(t, 6))
        } else if op == '&' {
            Instruction::I8XY2(x, reg_at(t, 6))
        } else if op == '^' {
            Instruction::I8XY3(x, reg_at(t, 6))
        } else if op == '-' {
            Instruction::I8XY5(x, reg_at(t, 6))
        } else if op == '=' {
            Instruction::I8XY7(x, reg_at(t, 6))
        } else if op == '>' {
            Instruction::I8XY6(x, reg_at(t, 7))
        } else {
            Instruction::I8XYE(x, reg_at(t, 7))
        }
    } else if t[0] == 's' {
        if t[1] == 'p' {
            Instruction::IDXYN(reg_at(t, 7), reg_at(t, 10), digit_value(t[15]) as u8)
        } else {
            Instruction::IFX55(reg_at(t, 5))
        }
    } else if t[0] == 'd' {
        Instruction::IFX15(reg_at(t, 9))
    } else if t[0] == 'b' {
        if t[1] == 'u' { Instruction::IFX18(reg_at(t, 10)) } else { Instruction::IFX33(reg_at(t, 4)) }
    } else if t[0] == 'l' {
        Instruction::IFX65(reg_at(t, 5))
    } else {
        Instruction::Invalid
    }
}

/// A hexadecimal digit character reads back as its value.
proof fn lemma_digit_value(d: int)
    requires
        0 <= d < 16,
    ensures
        digit_value(hex_digit(d)) == d,
        hex_digit(d) != ' ' && hex_digit(d) != 'v',
{
}

/// A register operand below 16 is `v` and one digit.
proof fn lemma_reg_text(x: usize)
    requires
        x < 16,
    ensures
        reg_text(x) == seq!['v', hex_digit(x as int)],
        digit_value(hex_digit(x as int)) == x,
{
    reveal_strlit("v");
    assert(reg_text(x) =~= seq!['v', hex_digit(x as int)]);
    lemma_digit_value(x as int);
}

/// A byte operand is `0x` and two digits.
proof fn lemma_byte_text(nn: u8)
    ensures
        byte_text(nn) == seq!['0', 'x', hex_digit(nn as int / 16), hex_digit(nn as int % 16)],
        digit_value(hex_digit(nn as int / 16)) == nn as int / 16,
        digit_value(hex_digit(nn as int % 16)) == nn as int % 16,
{
    reveal_with_fuel(hex, 2);
    assert(hex_digit(0) == '0');
    assert(hex_padded(nn as nat, 2) =~= seq![hex_digit(nn as int / 16), hex_digit(nn as int % 16)]);
    assert(byte_text(nn) =~= seq!['0', 'x', hex_digit(nn as int / 16), hex_digit(nn as int % 16)]);
    lemma_digit_value(nn as int / 16);
    lemma_digit_value(nn as int % 16);
}

/// An address operand below `0x1000` is `0x` and three digits.
proof fn lemma_addr_text(nnn: u16)
    requires
        nnn < 4096,
    ensures
        addr_text(nnn) == seq!['0', 'x', hex_digit(nnn as int / 256), hex_digit((nnn as int / 16) % 16), hex_digit(nnn as int % 16)],
        digit_value(hex_digit(nnn as int / 256)) == nnn as int / 256,
        digit_value(hex_digit((nnn as int / 16) % 16)) == (nnn as int / 16) % 16,
        digit_value(hex_digit(nnn as int % 16)) == nnn as int % 16,
{
    reveal_with_fuel(hex, 3);
    assert(hex_digit(0) == '0');
    let n = nnn as int;
    assert(n / 16 / 16 == n / 256 && 0 <= (n / 16) % 16 < 16 && 0 <= n / 256 < 16);
    assert(hex_padded(nnn as nat, 3) =~= seq![hex_digit(n / 256), hex_digit((n / 16) % 16), hex_digit(n % 16)]);
    assert(addr_text(nnn) =~= seq!['0', 'x', hex_digit(n / 256), hex_digit((n / 16) % 16), hex_digit(n % 16)]);
    lemma_digit_value(n / 256);
    lemma_digit_value((n / 16) % 16);
    lemma_digit_value(n % 16);
}

/// A sprite height below 16 is `0x` and one digit.
proof fn lemma_nibble_text(n: u8)
    requires
        n < 16,
    ensures
        hex_prefixed(n as nat, 3) == seq!['0', 'x', hex_digit(n as int)],
        digit_value(hex_digit(n as int)) == n,
{
    assert(hex_prefixed(n as nat, 3) =~= seq!['0', 'x', hex_digit(n as int)]);
    lemma_digit_value(n as int);
}

/// Reading back the text of an instruction gives the instruction (operands in range).
#[verifier::spinoff_prover]
#[verifier::rlimit(100)]
proof fn lemma_parse_instruction(i: Instruction, jump: bool)
    requires
        i.wf(),
        i matches Instruction::I1NNN(nnn) ==> nnn < 4096,
        i matches Instruction::I2NNN(nnn) ==> nnn < 4096,
        i matches Instruction::IANNN(nnn) ==> nnn < 4096,
        i matches Instruction::IBNNN(nnn) ==> nnn < 4096 && !jump,
        i matches Instruction::IBXNN(_, nnn) ==> nnn < 4096 && jump,
        i matches Instruction::IDXYN(_, _, n) ==> n < 16,
    ensures
        parse_text(i.text(), jump) == i,
{
    reveal_strlit("v");
    match i {
        Instruction::I00E0 => {
            reveal_strlit("clear");
        },
        Instruction::I00EE => {
            reveal_strlit("return");
        },
        Instruction::I1NNN(nnn) => {
            reveal_strlit("jump ");
            lemma_addr_text(nnn);
        },
        Instruction::I2NNN(nnn) => {
            reveal_strlit(":call ");
            lemma_addr_text(nnn);
        },
        Instruction::I3XNN(x, nn) => {
            reveal_strlit("if ");
            reveal_strlit(" != ");
            reveal_strlit(" then");
            lemma_reg_text(x);
            lemma_byte_text(nn);
        },
        Instruction::I4XNN(x, nn) => {
            reveal_strlit("if ");
            reveal_strlit(" == ");
            reveal_strlit(" then");
            lemma_reg_text(x);
            lemma_byte_text(nn);
        },
        Instruction::I5XY0(x, y) => {
            reveal_strlit("if ");
            reveal_strlit(" != ");
            reveal_strlit(" then");
            lemma_reg_text(x);
            lemma_reg_text(y);
        },
        Instruction::I6XNN(x, nn) => {
            reveal_strlit(" := ");
            lemma_reg_text(x);
            lemma_byte_text(nn);
        },
        Instruction::I7XNN(x, nn) => {
            reveal_strlit(" += ");
            lemma_reg_text(x);
            lemma_byte_text(nn);
        },
        Instruction::I8XY0(x, y) => {
            reveal_strlit(" := ");
            lemma_reg_text(x);
            lemma_reg_text(y);
        },
        Instruction::I8XY1(x, y) => {
            reveal_strlit(" |= ");
            lemma_reg_text(x);
            lemma_reg_text(y);
        },
        Instruction::I8XY2(x, y) => {
            reveal_strlit(" &= ");
            lemma_reg_text(x);
            lemma_reg_text(y);
        },
        Instruction::I8XY3(x, y) => {
            reveal_strlit(" ^= ");
            lemma_reg_text(x);
            lemma_reg_text(y);
        },
        Instruction::I8XY4(x, y) => {
            reveal_strlit(" += ");
            lemma_reg_text(x);
            lemma_reg_text(y);
        },
        Instruction::I8XY5(x, y) => {
            reveal_strlit(" -= ");
            lemma_reg_text(x);
            lemma_reg_text(y);
        },
        Instruction::I8XY6(x, y) => {
            reveal_strlit(" >>= ");
            lemma_reg_text(x);
            lemma_reg_text(y);
        },
        Instruction::I8XY7(x, y) => {
            reveal_strlit(" =- ");
            lemma_reg_text(x);
            lemma_reg_text(y);
        },
        Instruction::I8XYE(x, y) => {
            reveal_strlit(" <<= ");
            lemma_reg_text(x);
            lemma_reg_text(y);
        },
        Instruction::I9XY0(x, y) => {
            reveal_strlit("if ");
            reveal_strlit(" == ");
            reveal_strlit(" then");
            lemma_reg_text(x);
            lemma_reg_text(y);
        },
        Instruction::IANNN(nnn) => {
            reveal_strlit("i := ");
            lemma_addr_text(nnn);
        },
        Instruction::IBXNN(x, nnn) => {
            reveal_strlit("jump");
            reveal_strlit(" ");
            lemma_reg_text(x);
            lemma_addr_text(nnn);
        },
        Instruction::IBNNN(nnn) => {
            reveal_strlit("jump0 ");
            lemma_addr_text(nnn);
        },
        Instruction::ICXNN(x, nn) => {
            reveal_strlit(" := random ");
            lemma_reg_text(x);
            lemma_byte_text(nn);
        },
        Instruction::IDXYN(x, y, n) => {
            reveal_strlit("sprite ");
            reveal_strlit(" ");
            lemma_reg_text(x);
            lemma_reg_text(y);
            lemma_nibble_text(n);
        },
        Instruction::IEX9E(x) => {
            reveal_strlit("if ");
            reveal_strlit(" -key then");
            lemma_reg_text(x);
        },
        Instruction::IEXA1(x) => {
            reveal_strlit("if ");
            reveal_strlit(" key then");
            lemma_reg_text(x);
        },
        Instruction::IFX07(x) => {
            reveal_strlit(" := delay");
            lemma_reg_text(x);
        },
        Instruction::IFX0A(x) => {
            reveal_strlit(" := key");
            lemma_reg_text(x);
        },
        Instruction::IFX15(x) => {
            reveal_strlit("delay := ");
            lemma_reg_text(x);
        },
        Instruction::IFX18(x) => {
            reveal_strlit("buzzer := ");
            lemma_reg_text(x);
        },
        Instruction::IFX1E(x) => {
            reveal_strlit("i += ");
            lemma_reg_text(x);
        },
        Instruction::IFX29(x) => {
            reveal_strlit("i := hex ");
            lemma_reg_text(x);
        },
        Instruction::IFX33(x) => {
            reveal_strlit("bcd ");
            lemma_reg_text(x);
        },
        Instruction::IFX55(x) => {
            reveal_strlit("save ");
            lemma_reg_text(x);
        },
        Instruction::IFX65(x) => {
            reveal_strlit("load ");
            lemma_reg_text(x);
        },
        Instruction::Invalid => {},
    }
}

/// The assembly text of a decoded instruction reads back as that instruction, so the
/// rendering loses nothing: two opcodes decoded under the same reading of `BNNN` render
/// to the same text only when they decode to the same instruction.
pub proof fn lemma_text_reads_back(op: u16, op2: u16, jump: bool)
    ensures
        parse_text(decode(op, jump).text(), jump) == decode(op, jump),
        decode(op, jump).text() == decode(op2, jump).text() ==> decode(op, jump) == decode(op2, jump),
{
    lemma_decoded_in_range(op, jump);
    lemma_decoded_in_range(op2, jump);
    lemma_parse_instruction(decode(op, jump), jump);
    lemma_parse_instruction(decode(op2, jump), jump);
}

/// The operands of a decoded instruction are in range.
proof fn lemma_decoded_in_range(op: u16, jump: bool)
    ensures
        ({
            let i = decode(op, jump);
            &&& i.wf()
            &&& i matches Instruction::I1NNN(nnn) ==> nnn < 4096
            &&& i matches Instruction::I2NNN(nnn) ==> nnn < 4096
            &&& i matches Instruction::IANNN(nnn) ==> nnn < 4096
            &&& i matches Instruction::IBNNN(nnn) ==> nnn < 4096 && !jump
            &&& i matches Instruction::IBXNN(_, nnn) ==> nnn < 4096 && jump
            &&& i matches Instruction::IDXYN(_, _, n) ==> n < 16
        }),
{
}

/// The four nibbles of an opcode read back from its value.
proof fn lemma_nibbles(a: int, x: int, y: int, n: int)
    requires
        0 <= a < 16,
        0 <= x < 16,
        0 <= y < 16,
        0 <= n < 16,
    ensures
        ({
            let op = 4096 * a + 256 * x + 16 * y + n;
            &&& op / 4096 == a
            &&& (op / 256) % 16 == x
            &&& (op / 16) % 16 == y
            &&& op % 16 == n
            &&& op % 256 == 16 * y + n
            &&& op % 4096 == 256 * x + 16 * y + n
        }),
{
    let op = 4096 * a + 256 * x + 16 * y + n;
    assert(op / 4096 == a && (op / 256) % 16 == x && (op / 16) % 16 == y && op % 16 == n
        && op % 256 == 16 * y + n && op % 4096 == 256 * x + 16 * y + n) by (nonlinear_arith)
        requires 0 <= a < 16, 0 <= x < 16, 0 <= y < 16, 0 <= n < 16, op == 4096 * a + 256 * x + 16 * y + n;
}

/// Encoding loses nothing: an instruction with operands in range (for `BXNN`, `X` being
/// the top nibble of the address, as the opcode has it) decodes from its opcode, under
/// the reading of `BNNN` it belongs to.
#[verifier::spinoff_prover]
#[verifier::rlimit(100)]
pub proof fn lemma_encode_then_decode(i: Instruction, jump: bool)
    requires
        i != Instruction::Invalid,
        i.wf(),
        i matches Instruction::I1NNN(nnn) ==> nnn < 4096,
        i matches Instruction::I2NNN(nnn) ==> nnn < 4096,
        i matches Instruction::IANNN(nnn) ==> nnn < 4096,
        i matches Instruction::IBNNN(nnn) ==> nnn < 4096 && !jump,
        i matches Instruction::IBXNN(x, nnn) ==> nnn < 4096 && nnn / 256 == x && jump,
        i matches Instruction::IDXYN(_, _, n) ==> n < 16,
    ensures
        0 <= encode(i) < 0x10000,
        decode(encode(i) as u16, jump) == i,
{
    match i {
        Instruction::I1NNN(nnn) | Instruction::I2NNN(nnn) | Instruction::IANNN(nnn) | Instruction::IBNNN(nnn) => {
            let e = encode(i) / 4096;
            lemma_nibbles(e, nnn as int / 256, (nnn as int / 16) % 16, nnn as int % 16);
        },
        Instruction::IBXNN(x, nnn) => {
            lemma_nibbles(0xB, x as int, (nnn as int / 16) % 16, nnn as int % 16);
        },
        Instruction::I3XNN(x, nn) | Instruction::I4XNN(x, nn) | Instruction::I6XNN(x, nn)
        | Instruction::I7XNN(x, nn) | Instruction::ICXNN(x, nn) => {
            let e = encode(i) / 4096;
            lemma_nibbles(e, x as int, nn as int / 16, nn as int % 16);
        },
        Instruction::I5XY0(x, y) | Instruction::I9XY0(x, y) => {
            let e = encode(i) / 4096;
            lemma_nibbles(e, x as int, y as int, 0);
        },
        Instruction::I8XY0(x, y) | Instruction::I8XY1(x, y) | Instruction::I8XY2(x, y)
        | Instruction::I8XY3(x, y) | Instruction::I8XY4(x, y) | Instruction::I8XY5(x, y)
        | Instruction::I8XY6(x, y) | Instruction::I8XY7(x, y) | Instruction::I8XYE(x, y) => {
            lemma_nibbles(8, x as int, y as int, encode(i) % 16);
        },
        Instruction::IDXYN(x, y, n) => {
            lemma_nibbles(0xD, x as int, y as int, n as int);
        },
        Instruction::IEX9E(x) => {
            lemma_nibbles(0xE, x as int, 9, 0xE);
        },
        Instruction::IEXA1(x) => {
            lemma_nibbles(0xE, x as int, 0xA, 1);
        },
        Instruction::IFX07(x) | Instruction::IFX0A(x) | Instruction::IFX15(x) | Instruction::IFX18(x)
        | Instruction::IFX1E(x) | Instruction::IFX29(x) | Instruction::IFX33(x) | Instruction::IFX55(x)
        | Instruction::IFX65(x) => {
            let low = encode(i) % 256;
            lemma_nibbles(0xF, x as int, low / 16, low % 16);
        },
        _ => {},
    }
}

/// `FX33` stores the decimal digits of `VX` at `I`, `I + 1`, `I + 2`: each below ten,
/// most significant first, together spelling `VX`; no other byte of memory changes.
#[verifier::spinoff_prover]
pub proof fn lemma_bcd_stored(s: MachineState, args: Args, x: usize, r: u8)
    requires
        s.instruction == Instruction::IFX33(x),
        x < 16,
        s.v.len() == 16,
        s.memory.len() == 0x1000,
        s.i < 0xFFE,
    ensures
        ({
            let t = spec_execute(s, args, r).0;
            let i = s.i as int;
            &&& t.memory[i] < 10 && t.memory[i + 1] < 10 && t.memory[i + 2] < 10
            &&& 100 * t.memory[i] + 10 * t.memory[i + 1] + t.memory[i + 2] == s.v[x as int]
            &&& forall|a: int| 0 <= a < 0x1000 && !(i <= a < i + 3) ==> #[trigger] t.memory[a] == s.memory[a]
        }),
{
    let t = spec_execute(s, args, r).0;
    let digits = bcd(s.v[x as int]);
    assert(t.memory == write_at(s.memory, digits, s.i as int));
    lemma_bcd_digits(s.v[x as int]);
    assert(t.memory[s.i as int] == digits[0]);
    assert(t.memory[s.i + 1] == digits[1]);
    assert(t.memory[s.i + 2] == digits[2]);
}

/// `3XNN` and `4XNN` are complementary: `3XNN` skips the next instruction exactly when
/// `VX` equals `NN`, `4XNN` exactly when it does not, and a skip advances `PC` by 2.
#[verifier::spinoff_prover]
pub proof fn lemma_skip_on_byte(s: MachineState, args: Args, x: usize, nn: u8, r: u8)
    requires
        x < 16,
        s.v.len() == 16,
        s.pc + 2 <= 0xFFFF,
    ensures
        ({
            let eq = spec_execute(MachineState { instruction: Instruction::I3XNN(x, nn), ..s }, args, r).0;
            let ne = spec_execute(MachineState { instruction: Instruction::I4XNN(x, nn), ..s }, args, r).0;
            &&& eq.pc == (if s.v[x as int] == nn { s.pc + 2 } else { s.pc as int })
            &&& eq.pc + ne.pc == 2 * s.pc + 2
        }),
{
}

/// `5XY0` and `9XY0` are complementary: `5XY0` skips the next instruction exactly when
/// `VX` equals `VY`, `9XY0` exactly when it does not, and a skip advances `PC` by 2.
#[verifier::spinoff_prover]
pub proof fn lemma_skip_on_register(s: MachineState, args: Args, x: usize, y: usize, r: u8)
    requires
        x < 16,
        y < 16,
        s.v.len() == 16,
        s.pc + 2 <= 0xFFFF,
    ensures
        ({
            let eq = spec_execute(MachineState { instruction: Instruction::I5XY0(x, y), ..s }, args, r).0;
            let ne = spec_execute(MachineState { instruction: Instruction::I9XY0(x, y), ..s }, args, r).0;
            &&& eq.pc == (if s.v[x as int] == s.v[y as int] { s.pc + 2 } else { s.pc as int })
            &&& eq.pc + ne.pc == 2 * s.pc + 2
        }),
{
}

/// The weight of column `c` (0 to 7, left to right) of a sprite row: 128 for the leftmost
/// pixel down to 1 for the rightmost.
pub open spec fn column_weight(c: int) -> int {
    if c == 0 { 128 } else if c == 1 { 64 } else if c == 2 { 32 } else if c == 3 { 16 }
    else if c == 4 { 8 } else if c == 5 { 4 } else if c == 6 { 2 } else { 1 }
}

/// A sprite row is drawn most significant bit first: column `c` of a row shows bit
/// `7 - c` of its byte.
pub proof fn lemma_sprite_bit_order(byte: u8, c: int)
    requires
        0 <= c < 8,
    ensures
        sprite_bit(byte, c) == ((byte as int / column_weight(c)) % 2 == 1),
{
    let b = byte;
    if c == 0 {
        assert(((b >> 7u8) & 1u8 == 1u8) == ((b / 128) % 2 == 1)) by (bit_vector);
    } else if c == 1 {
        assert(((b >> 6u8) & 1u8 == 1u8) == ((b / 64) % 2 == 1)) by (bit_vector);
    } else if c == 2 {
        assert(((b >> 5u8) & 1u8 == 1u8) == ((b / 32) % 2 == 1)) by (bit_vector);
    } else if c == 3 {
        assert(((b >> 4u8) & 1u8 == 1u8) == ((b / 16) % 2 == 1)) by (bit_vector);
    } else if c == 4 {
        assert(((b >> 3u8) & 1u8 == 1u8) == ((b / 8) % 2 == 1)) by (bit_vector);
    } else if c == 5 {
        assert(((b >> 2u8) & 1u8 == 1u8) == ((b / 4) % 2 == 1)) by (bit_vector);
    } else if c == 6 {
        assert(((b >> 1u8) & 1u8 == 1u8) == ((b / 2) % 2 == 1)) by (bit_vector);
    } else {
        assert(((b >> 0u8) & 1u8 == 1u8) == (b % 2 == 1)) by (bit_vector);
    }
}

/// The pixel at column `x0 + c` and row `y0 + r` of the display, when on screen, is
/// covered by a sprite drawn at `(x0, y0)` exactly when column `c` of row `r` of the
/// sprite is set; the sprite does not wrap.
pub proof fn lemma_sprite_covers_position(mem: Seq<u8>, start: int, x0: int, y0: int, n: int, r: int, c: int)
    requires
        0 <= x0 + c < 64,
        0 <= y0 + r < 32,
    ensures
        sprite_covers(mem, start, x0, y0, n, 64 * (y0 + r) + x0 + c)
            == (0 <= c < 8 && 0 <= r < n && (mem[start + r] as int / column_weight(c)) % 2 == 1),
{
    crate::screen::lemma_pixel_index(x0 + c, y0 + r);
    assert(64 * (y0 + r) + x0 + c == (y0 + r) * 64 + (x0 + c));
    if 0 <= c < 8 {
        lemma_sprite_bit_order(mem[start + r], c);
    }
}

} // verus!
