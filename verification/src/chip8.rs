//! The first-generation CHIP-8 core: a single display buffer and a partial
//! instruction set (clear, jump, register load and add, index load and draw).
use vstd::prelude::*;
use crate::instruction::{op_a, op_x, op_y, op_n, op_nn, op_nnn};
use crate::machine::{font, write_at, word_at, opcode_at};
use crate::screen::{draw_sprite, drawn, collides};
use crate::hex::{hex, hex_padded, dec, push_char, push_hex, push_hex_padded, push_dec, concat_parts, lemma_concat_parts_push};

verus! {

/// An instruction of the CHIP-8 instruction set, with register operands as bytes.
#[allow(non_camel_case_types)]
#[derive(Debug, Clone, Copy, PartialEq, Eq, Structural)]
pub enum Instruction {
    I0NNN(u16),
    I00E0,
    I00EE,
    I1NNN(u16),
    I2NNN(u16),
    I3XNN(u8, u8),
    I4XNN(u8, u8),
    I5XY0(u8, u8),
    I6XNN(u8, u8),
    I7XNN(u8, u8),
    I8XY0(u8, u8),
    I8XY1(u8, u8),
    I8XY2(u8, u8),
    I8XY3(u8, u8),
    I8XY4(u8, u8),
    I8XY5(u8, u8),
    I8XY6(u8, u8),
    I8XY7(u8, u8),
    I8XYE(u8, u8),
    I9XY0(u8, u8),
    IANNN(u16),
    IBNNN(u16),
    ICXNN(u8, u8),
    IDXYN(u8, u8, u8),
    IEX9E(u8),
    IEXA1(u8),
    IFX07(u8),
    IFX0A(u8),
    IFX15(u8),
    IFX18(u8),
    IFX1E(u8),
    IFX29(u8),
    IFX33(u8),
    IFX55(u8),
    IFX65(u8),
    Invalid,
}

/// The text `V` followed by the register's hexadecimal index (`V{x:X}`).
pub open spec fn vreg(x: u8) -> Seq<char> {
    "V"@ + hex(x as nat)
}

/// A byte as `{:02X}` renders it.
pub open spec fn byte2(nn: u8) -> Seq<char> {
    hex_padded(nn as nat, 2)
}

/// A 12-bit address as `{:03X}` renders it.
pub open spec fn word3(nnn: u16) -> Seq<char> {
    hex_padded(nnn as nat, 3)
}

/// Appends `vreg(x)` to `s`.
fn push_vreg(s: &mut String, x: u8)
    ensures
        final(s)@ == old(s)@ + vreg(x),
{
    s.append("V");
    push_hex(s, x as u64);
    assert(s@ =~= old(s)@ + vreg(x));
}

impl Instruction {
    /// The classic (Cowgod-style) assembly text of the instruction.
    pub open spec fn text(self) -> Seq<char> {
        match self {
            Instruction::I00E0 => "CLS"@,
            Instruction::I00EE => "RET"@,
            Instruction::I0NNN(nnn) => "SYS "@ + word3(nnn),
            Instruction::I1NNN(nnn) => "JP "@ + word3(nnn),
            Instruction::I2NNN(nnn) => "CALL "@ + word3(nnn),
            Instruction::I3XNN(x, nn) => "SE "@ + vreg(x) + ", "@ + byte2(nn),
            Instruction::I4XNN(x, nn) => "SNE "@ + vreg(x) + ", "@ + byte2(nn),
            Instruction::I5XY0(x, y) => "SE "@ + vreg(x) + ", "@ + vreg(y),
            Instruction::I6XNN(x, nn) => "LD "@ + vreg(x) + ", "@ + byte2(nn),
            Instruction::I7XNN(x, nn) => "ADD "@ + vreg(x) + ", "@ + byte2(nn),
            Instruction::I8XY0(x, y) => "LD "@ + vreg(x) + ", "@ + vreg(y),
            Instruction::I8XY1(x, y) => "OR "@ + vreg(x) + ", "@ + vreg(y),
            Instruction::I8XY2(x, y) => "AND "@ + vreg(x) + ", "@ + vreg(y),
            Instruction::I8XY3(x, y) => "XOR "@ + vreg(x) + ", "@ + vreg(y),
            Instruction::I8XY4(x, y) => "ADD "@ + vreg(x) + ", "@ + vreg(y),
            Instruction::I8XY5(x, y) => "SUB "@ + vreg(x) + ", "@ + vreg(y),
            Instruction::I8XY6(x, y) => "SHR "@ + vreg(x) + ", "@ + vreg(y),
            Instruction::I8XY7(x, y) => "SUBN "@ + vreg(x) + ", "@ + vreg(y),
            Instruction::I8XYE(x, y) => "SHL "@ + vreg(x) + ", "@ + vreg(y),
            Instruction::I9XY0(x, y) => "SNE "@ + vreg(x) + ", "@ + vreg(y),
            Instruction::IANNN(nnn) => "LD I, "@ + word3(nnn),
            Instruction::IBNNN(nnn) => "JP V0, "@ + word3(nnn),
            Instruction::ICXNN(x, nn) => "RND "@ + vreg(x) + ", "@ + byte2(nn),
            Instruction::IDXYN(x, y, n) => "DRW "@ + vreg(x) + ", "@ + vreg(y) + ", "@ + dec(n as nat),
            Instruction::IEX9E(x) => "SKP "@ + vreg(x),
            Instruction::IEXA1(x) => "SKNP "@ + vreg(x),
            Instruction::IFX07(x) => "LD "@ + vreg(x) + ", DT"@,
            Instruction::IFX0A(x) => "LD "@ + vreg(x) + ", K"@,
            Instruction::IFX15(x) => "LD DT, "@ + vreg(x),
            Instruction::IFX18(x) => "LD ST, "@ + vreg(x),
            Instruction::IFX1E(x) => "ADD I, "@ + vreg(x),
            Instruction::IFX29(x) => "LD F, "@ + vreg(x),
            Instruction::IFX33(x) => "LD B, "@ + vreg(x),
            Instruction::IFX55(x) => "LD [I], "@ + vreg(x),
            Instruction::IFX65(x) => "LD "@ + vreg(x) + ", [I]"@,
            Instruction::Invalid => "NONE"@,
        }
    }

    /// Renders the instruction as assembly text.
    pub fn to_string(&self) -> (res: String)
        ensures
            res@ == self.text(),
    {
        let mut s = String::new();
        match *self {
            Instruction::I00E0 => {
                s.append("CLS");
            }
            Instruction::I00EE => {
                s.append("RET");
            }
            Instruction::I0NNN(nnn) => {
                s.append("SYS ");
                push_hex_padded(&mut s, nnn as u64, 3);
            }
            Instruction::I1NNN(nnn) => {
                s.append("JP ");
                push_hex_padded(&mut s, nnn as u64, 3);
            }
            Instruction::I2NNN(nnn) => {
                s.append("CALL ");
                push_hex_padded(&mut s, nnn as u64, 3);
            }
            Instruction::I3XNN(x, nn) => {
                s.append("SE ");
                push_vreg(&mut s, x);
                s.append(", ");
                push_hex_padded(&mut s, nn as u64, 2);
            }
            Instruction::I4XNN(x, nn) => {
                s.append("SNE ");
                push_vreg(&mut s, x);
                s.append(", ");
                push_hex_padded(&mut s, nn as u64, 2);
            }
            Instruction::I5XY0(x, y) => {
                s.append("SE ");
                push_vreg(&mut s, x);
                s.append(", ");
                push_vreg(&mut s, y);
            }
            Instruction::I6XNN(x, nn) => {
                s.append("LD ");
                push_vreg(&mut s, x);
                s.append(", ");
                push_hex_padded(&mut s, nn as u64, 2);
            }
            Instruction::I7XNN(x, nn) => {
                s.append("ADD ");
                push_vreg(&mut s, x);
                s.append(", ");
                push_hex_padded(&mut s, nn as u64, 2);
            }
            Instruction::I8XY0(x, y) => {
                s.append("LD ");
                push_vreg(&mut s, x);
                s.append(", ");
                push_vreg(&mut s, y);
            }
            Instruction::I8XY1(x, y) => {
                s.append("OR ");
                push_vreg(&mut s, x);
                s.append(", ");
                push_vreg(&mut s, y);
            }
            Instruction::I8XY2(x, y) => {
                s.append("AND ");
                push_vreg(&mut s, x);
                s.append(", ");
                push_vreg(&mut s, y);
            }
            Instruction::I8XY3(x, y) => {
                s.append("XOR ");
                push_vreg(&mut s, x);
                s.append(", ");
                push_vreg(&mut s, y);
            }
            Instruction::I8XY4(x, y) => {
                s.append("ADD ");
                push_vreg(&mut s, x);
                s.append(", ");
                push_vreg(&mut s, y);
            }
            Instruction::I8XY5(x, y) => {
                s.append("SUB ");
                push_vreg(&mut s, x);
                s.append(", ");
                push_vreg(&mut s, y);
            }
            Instruction::I8XY6(x, y) => {
                s.append("SHR ");
                push_vreg(&mut s, x);
                s.append(", ");
                push_vreg(&mut s, y);
            }
            Instruction::I8XY7(x, y) => {
                s.append("SUBN ");
                push_vreg(&mut s, x);
                s.append(", ");
                push_vreg(&mut s, y);
            }
            Instruction::I8XYE(x, y) => {
                s.append("SHL ");
                push_vreg(&mut s, x);
                s.append(", ");
                push_vreg(&mut s, y);
            }
            Instruction::I9XY0(x, y) => {
                s.append("SNE ");
                push_vreg(&mut s, x);
                s.append(", ");
                push_vreg(&mut s, y);
            }
            Instruction::IANNN(nnn) => {
                s.append("LD I, ");
                push_hex_padded(&mut s, nnn as u64, 3);
            }
            Instruction::IBNNN(nnn) => {
                s.append("JP V0, ");
                push_hex_padded(&mut s, nnn as u64, 3);
            }
            Instruction::ICXNN(x, nn) => {
                s.append("RND ");
                push_vreg(&mut s, x);
                s.append(", ");
                push_hex_padded(&mut s, nn as u64, 2);
            }
            Instruction::IDXYN(x, y, n) => {
                s.append("DRW ");
                push_vreg(&mut s, x);
                s.append(", ");
                push_vreg(&mut s, y);
                s.append(", ");
                push_dec(&mut s, n as u64);
            }
            Instruction::IEX9E(x) => {
                s.append("SKP ");
                push_vreg(&mut s, x);
            }
            Instruction::IEXA1(x) => {
                s.append("SKNP ");
                push_vreg(&mut s, x);
            }
            Instruction::IFX07(x) => {
                s.append("LD ");
                push_vreg(&mut s, x);
                s.append(", DT");
            }
            Instruction::IFX0A(x) => {
                s.append("LD ");
                push_vreg(&mut s, x);
                s.append(", K");
            }
            Instruction::IFX15(x) => {
                s.append("LD DT, ");
                push_vreg(&mut s, x);
            }
            Instruction::IFX18(x) => {
                s.append("LD ST, ");
                push_vreg(&mut s, x);
            }
            Instruction::IFX1E(x) => {
                s.append("ADD I, ");
                push_vreg(&mut s, x);
            }
            Instruction::IFX29(x) => {
                s.append("LD F, ");
                push_vreg(&mut s, x);
            }
            Instruction::IFX33(x) => {
                s.append("LD B, ");
                push_vreg(&mut s, x);
            }
            Instruction::IFX55(x) => {
                s.append("LD [I], ");
                push_vreg(&mut s, x);
            }
            Instruction::IFX65(x) => {
                s.append("LD ");
                push_vreg(&mut s, x);
                s.append(", [I]");
            }
            Instruction::Invalid => {
                s.append("NONE");
            }
        }
        assert(s@ =~= self.text());
        s
    }
}

/// The abstract state of a [`Chip8`].
#[verifier::ext_equal]
pub struct Chip8State {
    pub memory: Seq<u8>,
    pub screen_buffer: Seq<bool>,
    pub v: Seq<u8>,
    pub pc: u16,
    pub i: u16,
    pub dt: u8,
    pub st: u8,
    pub instruction: Instruction,
    pub opcode: u16,
}

/// Whether `decode_execute` runs to completion on `s`: `7XNN` must not overflow the
/// register, and the sprite of `DXYN` must lie in memory.
pub open spec fn chip8_defined(s: Chip8State) -> bool {
    let x = op_x(s.opcode);
    &&& s.v.len() == 16
    &&& s.memory.len() == 0x1000
    &&& (op_a(s.opcode) == 0x7 ==> s.v[x] + op_nn(s.opcode) <= 255)
    &&& (op_a(s.opcode) == 0xD ==> op_n(s.opcode) == 0 || s.i + op_n(s.opcode) <= 0x1000)
}

/// Item `k` of a byte list: the byte in decimal, after `, ` unless it comes first.
pub open spec fn byte_item(bytes: Seq<u8>, k: int) -> Seq<char> {
    (if k == 0 { Seq::empty() } else { ", "@ }) + dec(bytes[k] as nat)
}

/// The first `count` items of a byte list.
pub open spec fn byte_items(bytes: Seq<u8>, count: nat) -> Seq<char> {
    concat_parts(count, |k: int| byte_item(bytes, k))
}

/// The bytes of `bytes` in decimal, separated by `, ` (the inside of `{:?}` of a `Vec<u8>`).
pub open spec fn byte_list_items(bytes: Seq<u8>) -> Seq<char> {
    byte_items(bytes, bytes.len())
}

/// The line that drawing a sprite reports: its coordinates and its bytes, as
/// `x: {x} y: {y} sprite_vec: {sprite:?}`.
pub open spec fn draw_trace(x: int, y: int, sprite: Seq<u8>) -> Seq<char> {
    "x: "@ + dec(x as nat) + " y: "@ + dec(y as nat) + " sprite_vec: ["@ + byte_list_items(sprite) + "]"@
}

/// What decoding the current opcode reports: for `DXYN`, the line of `draw_trace` with
/// the wrapped coordinates `VX mod 64`, `VY mod 32` and the `N` bytes at `I`; for every
/// other opcode, nothing.
pub open spec fn chip8_trace(s: Chip8State) -> Option<Seq<char>> {
    let n = op_n(s.opcode);
    if op_a(s.opcode) == 0xD {
        let sprite = if n == 0 { Seq::empty() } else { s.memory.subrange(s.i as int, s.i + n) };
        Some(draw_trace(s.v[op_x(s.opcode)] as int % 64, s.v[op_y(s.opcode)] as int % 32, sprite))
    } else {
        None
    }
}

/// The view of an optional text.
pub open spec fn text_view(t: Option<String>) -> Option<Seq<char>> {
    match t {
        Some(text) => Some(text@),
        None => None,
    }
}

/// One more item of a byte list goes at the end.
proof fn lemma_byte_items_push(bytes: Seq<u8>, count: nat)
    ensures
        byte_items(bytes, 0) == Seq::<char>::empty(),
        byte_items(bytes, count + 1) == byte_items(bytes, count) + byte_item(bytes, count as int),
{
    lemma_concat_parts_push(count, |k: int| byte_item(bytes, k));
}

/// Decoding and executing the current opcode: `00E0` clears the display, `00EE` does
/// nothing, `1NNN` jumps, `6XNN` loads and `7XNN` adds to a register, `ANNN` loads `I`,
/// and `DXYN` draws a sprite, setting `VF` on collision; every other opcode only
/// records `Invalid`.
pub open spec fn chip8_step(s: Chip8State) -> Chip8State {
    let op = s.opcode;
    let x = op_x(op);
    let y = op_y(op);
    let n = op_n(op);
    let nn = op_nn(op);
    let nnn = op_nnn(op) as u16;
    if op == 0x00E0 {
        Chip8State { screen_buffer: Seq::new(2048, |p: int| false), instruction: Instruction::I00E0, ..s }
    } else if op == 0x00EE {
        Chip8State { instruction: Instruction::I00EE, ..s }
    } else if op_a(op) == 0x1 {
        Chip8State { pc: nnn, instruction: Instruction::I1NNN(nnn), ..s }
    } else if op_a(op) == 0x6 {
        Chip8State { v: s.v.update(x, nn as u8), instruction: Instruction::I6XNN(x as u8, nn as u8), ..s }
    } else if op_a(op) == 0x7 {
        Chip8State { v: s.v.update(x, (s.v[x] + nn) as u8), instruction: Instruction::I7XNN(x as u8, nn as u8), ..s }
    } else if op_a(op) == 0xA {
        Chip8State { i: nnn, instruction: Instruction::IANNN(nnn), ..s }
    } else if op_a(op) == 0xD {
        let x0 = s.v[x] % 64;
        let y0 = s.v[y] % 32;
        let hit = collides(s.screen_buffer, s.memory, s.i as int, x0 as int, y0 as int, n);
        Chip8State {
            screen_buffer: drawn(s.screen_buffer, s.memory, s.i as int, x0 as int, y0 as int, n),
            v: s.v.update(15, if hit { 1 } else { 0 }),
            instruction: Instruction::IDXYN(x as u8, y as u8, n as u8),
            ..s
        }
    } else {
        Chip8State { instruction: Instruction::Invalid, ..s }
    }
}

/// The state after fetching: the opcode is the word at `PC`, and `PC` advances by 2.
pub open spec fn chip8_fetch(s: Chip8State) -> Chip8State {
    Chip8State { opcode: word_at(s.memory, s.pc as int), pc: (s.pc + 2) as u16, ..s }
}

/// The instruction line of the register dump: `PC`, the opcode and the instruction.
pub open spec fn instruction_line(s: Chip8State) -> Seq<char> {
    "PC: "@ + word3(s.pc) + " Opcode: "@ + hex_padded(s.opcode as nat, 4) + " Instruction: "@ + s.instruction.text() + "\n"@
}

/// The line of the register dump with `I` and the two timers.
pub open spec fn special_registers_line(s: Chip8State) -> Seq<char> {
    "I: "@ + word3(s.i) + " DT: "@ + byte2(s.dt) + " ST: "@ + byte2(s.st) + "\n"@
}

/// Line `l` of the general-purpose register dump: registers `2l` and `2l + 1`, each as
/// `V{i:X}: {:02X}`; the last line ends in a space, the others in a line break.
pub open spec fn v_line(v: Seq<u8>, l: int) -> Seq<char> {
    "V"@ + hex((2 * l) as nat) + ": "@ + byte2(v[2 * l]) + " V"@ + hex((2 * l + 1) as nat) + ": "@
        + byte2(v[2 * l + 1]) + if l == 7 { " "@ } else { "\n"@ }
}

/// The first `count` lines of the general-purpose register dump.
pub open spec fn v_lines(v: Seq<u8>, count: nat) -> Seq<char> {
    concat_parts(count, |l: int| v_line(v, l))
}

/// The full register dump: the instruction line, the line with `I` and the timers, an
/// empty line, the eight lines of general-purpose registers and a line break.
pub open spec fn registers_dump(s: Chip8State) -> Seq<char> {
    instruction_line(s) + special_registers_line(s) + "\n"@ + v_lines(s.v, 8) + "\n"@
}

/// Byte `k` of the memory dump line that starts at address `addr`, as `{:02X}`: a line
/// break after the sixteenth byte of the line, a space after every other pair.
pub open spec fn dump_byte(mem: Seq<u8>, addr: int, k: int) -> Seq<char> {
    byte2(mem[addr + k]) + if k == 15 { "\n"@ } else if k % 2 == 1 { " "@ } else { Seq::empty() }
}

/// The first `len` bytes of the memory dump line that starts at address `addr`.
pub open spec fn dump_line_bytes(mem: Seq<u8>, addr: int, len: nat) -> Seq<char> {
    concat_parts(len, |k: int| dump_byte(mem, addr, k))
}

/// Line `l` of the dump of `count` bytes of memory from address `start`: the address of
/// its first byte as `{:03X}`, two spaces, then the sixteen bytes of the line (fewer on
/// the last line, when `count` is not a multiple of sixteen).
pub open spec fn dump_line(mem: Seq<u8>, start: int, count: int, l: int) -> Seq<char> {
    let len = if count - 16 * l < 16 { count - 16 * l } else { 16 };
    hex_padded((start + 16 * l) as nat, 3) + "  "@ + dump_line_bytes(mem, start + 16 * l, len as nat)
}

/// The first `lines` lines of the dump of `count` bytes of memory from address `start`.
pub open spec fn dump_lines(mem: Seq<u8>, start: int, count: int, lines: nat) -> Seq<char> {
    concat_parts(lines, |l: int| dump_line(mem, start, count, l))
}

/// The dump of `count` bytes of memory from address `start` on, sixteen bytes per line.
pub open spec fn memory_dump(mem: Seq<u8>, start: int, count: int) -> Seq<char> {
    dump_lines(mem, start, count, ((count + 15) / 16) as nat)
}

/// A pixel of the screen dump: a full block when lit, a space otherwise.
pub open spec fn pixel_char(lit: bool) -> char {
    if lit { '\u{2588}' } else { ' ' }
}

/// The first `count` pixels of row `r` of the screen dump.
pub open spec fn row_pixels(buf: Seq<bool>, r: int, count: nat) -> Seq<char> {
    Seq::new(count, |c: int| pixel_char(buf[64 * r + c]))
}

/// Row `r` of the screen dump: its 64 pixels, then a line break.
pub open spec fn screen_row(buf: Seq<bool>, r: int) -> Seq<char> {
    row_pixels(buf, r, 64).push('\n')
}

/// The first `rows` rows of the screen dump.
pub open spec fn screen_rows(buf: Seq<bool>, rows: nat) -> Seq<char> {
    concat_parts(rows, |r: int| screen_row(buf, r))
}

/// The screen dump: its 32 rows.
pub open spec fn screen_dump(buf: Seq<bool>) -> Seq<char> {
    screen_rows(buf, 32)
}

/// One more line of the general-purpose register dump goes at the end.
proof fn lemma_v_lines_push(v: Seq<u8>, count: nat)
    ensures
        v_lines(v, 0) == Seq::<char>::empty(),
        v_lines(v, count + 1) == v_lines(v, count) + v_line(v, count as int),
{
    lemma_concat_parts_push(count, |l: int| v_line(v, l));
}

/// One more byte of a memory dump line goes at the end.
proof fn lemma_dump_line_bytes_push(mem: Seq<u8>, addr: int, len: nat)
    ensures
        dump_line_bytes(mem, addr, 0) == Seq::<char>::empty(),
        dump_line_bytes(mem, addr, len + 1) == dump_line_bytes(mem, addr, len) + dump_byte(mem, addr, len as int),
{
    lemma_concat_parts_push(len, |k: int| dump_byte(mem, addr, k));
}

/// One more line of a memory dump goes at the end.
proof fn lemma_dump_lines_push(mem: Seq<u8>, start: int, count: int, lines: nat)
    ensures
        dump_lines(mem, start, count, 0) == Seq::<char>::empty(),
        dump_lines(mem, start, count, lines + 1) == dump_lines(mem, start, count, lines) + dump_line(mem, start, count, lines as int),
{
    lemma_concat_parts_push(lines, |l: int| dump_line(mem, start, count, l));
}

/// One more row of the screen dump goes at the end.
proof fn lemma_screen_rows_push(buf: Seq<bool>, rows: nat)
    ensures
        screen_rows(buf, 0) == Seq::<char>::empty(),
        screen_rows(buf, rows + 1) == screen_rows(buf, rows) + screen_row(buf, rows as int),
{
    lemma_concat_parts_push(rows, |r: int| screen_row(buf, r));
}

/// The text of [`draw_trace`] for a sprite at `(x, y)`.
pub fn draw_trace_text(x: usize, y: usize, sprite: &Vec<u8>) -> (text: String)
    requires
        x < 64,
        y < 32,
    ensures
        text@ == draw_trace(x as int, y as int, sprite@),
{
    let mut s = String::new();
    s.append("x: ");
    push_dec(&mut s, x as u64);
    s.append(" y: ");
    push_dec(&mut s, y as u64);
    s.append(" sprite_vec: [");
    let ghost head = s@;
    proof {
        lemma_byte_items_push(sprite@, 0);
    }
    let mut k: usize = 0;
    while k < sprite.len()
        invariant
            k <= sprite@.len(),
            s@ == head + byte_items(sprite@, k as nat),
        decreases sprite@.len() - k,
    {
        let ghost prev = s@;
        if k > 0 {
            s.append(", ");
        }
        push_dec(&mut s, sprite[k] as u64);
        proof {
            lemma_byte_items_push(sprite@, k as nat);
        }
        assert(s@ =~= prev + byte_item(sprite@, k as int));
        k += 1;
    }
    s.append("]");
    assert(s@ =~= draw_trace(x as int, y as int, sprite@));
    s
}

/// A first-generation CHIP-8 machine.
pub struct Chip8 {
    pub memory: [u8; 0x1000],
    pub screen_buffer: [bool; 2048],
    pub v: [u8; 0x10],
    pub pc: u16,
    pub i: u16,
    pub dt: u8,
    pub st: u8,
    pub instruction: Instruction,
    pub opcode: u16,
}

impl View for Chip8 {
    type V = Chip8State;

    open spec fn view(&self) -> Chip8State {
        Chip8State {
            memory: self.memory@,
            screen_buffer: self.screen_buffer@,
            v: self.v@,
            pc: self.pc,
            i: self.i,
            dt: self.dt,
            st: self.st,
            instruction: self.instruction,
            opcode: self.opcode,
        }
    }
}

impl Chip8 {
    /// Loads the built-in font.
    pub fn init(&mut self)
        ensures
            final(self)@ == (Chip8State { memory: write_at(old(self)@.memory, font(), 0x50), ..old(self)@ }),
    {
        self.inject_font();
    }

    /// Fetches the big-endian opcode at `PC` (bytes past the end of memory read as 0)
    /// and advances `PC` by 2.
    pub fn fetch(&mut self)
        requires
            old(self).pc + 2 <= 0xFFFF,
        ensures
            final(self)@ == chip8_fetch(old(self)@),
    {
        self.opcode = opcode_at(&self.memory, self.pc as usize);
        self.pc += 2;
        assert(self@ =~= chip8_fetch(old(self)@));
    }

    /// Decodes the current opcode and executes it. Returns what drawing a sprite
    /// reports (see [`chip8_trace`]), and `None` for every other opcode.
    pub fn decode_execute(&mut self) -> (trace: Option<String>)
        requires
            chip8_defined(old(self)@),
        ensures
            final(self)@ == chip8_step(old(self)@),
            text_view(trace) == chip8_trace(old(self)@),
    {
        let ghost s = self@;
        let opcode = self.opcode;
        assert(((opcode & 0xF000) >> 12) == opcode / 4096
            && ((opcode & 0x0F00) >> 8) == (opcode / 256) % 16
            && ((opcode & 0x00F0) >> 4) == (opcode / 16) % 16
            && (opcode & 0x000F) == opcode % 16
            && (opcode & 0x00FF) == opcode % 256
            && (opcode & 0x0FFF) == opcode % 4096) by (bit_vector);
        let x: u8 = ((self.opcode & 0xF00) >> 8) as u8;
        let y: u8 = ((self.opcode & 0xF0) >> 4) as u8;
        let n: u8 = (self.opcode & 0xF) as u8;
        let nn: u8 = (self.opcode & 0xFF) as u8;
        let nnn: u16 = self.opcode & 0xFFF;
        let a: u16 = (self.opcode & 0xF000) >> 12;

        let mut trace: Option<String> = None;
        self.instruction = if self.opcode == 0x00E0 {
            self.screen_buffer = [false; 2048];
            Instruction::I00E0
        } else if self.opcode == 0x00EE {
            Instruction::I00EE
        } else if a == 0x1 {
            self.pc = nnn;
            Instruction::I1NNN(nnn)
        } else if a == 0x6 {
            self.v[x as usize] = nn;
            Instruction::I6XNN(x, nn)
        } else if a == 0x7 {
            self.v[x as usize] = self.v[x as usize] + nn;
            Instruction::I7XNN(x, nn)
        } else if a == 0xA {
            self.i = nnn;
            Instruction::IANNN(nnn)
        } else if a == 0xD {
            let x_coord = (self.v[x as usize] as usize) % 64;
            let y_coord = (self.v[y as usize] as usize) % 32;
            let sprite_vec = self.read_vector(self.i, n as u16);
            trace = Some(draw_trace_text(x_coord, y_coord, &sprite_vec));
            proof {
                let sprite = if n == 0 { Seq::empty() } else { s.memory.subrange(s.i as int, s.i + n) };
                assert(sprite_vec@ =~= sprite);
            }
            let had_collision = draw_sprite(&mut self.screen_buffer, &self.memory, self.i, x_coord, y_coord, n);
            self.v[0xF] = if had_collision { 1 } else { 0 };
            Instruction::IDXYN(x, y, n)
        } else {
            Instruction::Invalid
        };
        assert(self@ =~= chip8_step(s));
        trace
    }

    /// The `length` bytes of memory from address `start` on.
    pub fn read_vector(&self, start: u16, length: u16) -> (bytes: Vec<u8>)
        requires
            length == 0 || start + length <= 0x1000,
        ensures
            bytes@.len() == length,
            forall|k: int| 0 <= k < length ==> #[trigger] bytes@[k] == self.memory@[start + k],
    {
        let mut v: Vec<u8> = Vec::new();
        let mut k: u16 = 0;
        while k < length
            invariant
                length == 0 || start + length <= 0x1000,
                k <= length,
                v@.len() == k,
                forall|j: int| 0 <= j < k ==> #[trigger] v@[j] == self.memory@[start + j],
            decreases length - k,
        {
            v.push(self.memory[(start + k) as usize]);
            k += 1;
        }
        v
    }

    /// Copies `v` into memory from address `start` on; an empty `v` changes nothing,
    /// whatever `start` is.
    pub fn write_vector(&mut self, v: Vec<u8>, start: usize)
        requires
            v@.len() == 0 || start + v@.len() <= 0x1000,
        ensures
            final(self)@ == (Chip8State { memory: write_at(old(self)@.memory, v@, start as int), ..old(self)@ }),
    {
        let ghost s = self@;
        let mut k: usize = 0;
        while k < v.len()
            invariant
                v@.len() == 0 || start + v@.len() <= 0x1000,
                k <= v@.len(),
                self@ == (Chip8State { memory: write_at(s.memory, v@.take(k as int), start as int), ..s }),
            decreases v@.len() - k,
        {
            self.memory[k + start] = v[k];
            k += 1;
            assert(self@ =~= (Chip8State { memory: write_at(s.memory, v@.take(k as int), start as int), ..s }));
        }
        assert(v@.take(v@.len() as int) =~= v@);
    }

    /// Stores the built-in font at `0x050`.
    pub fn inject_font(&mut self)
        ensures
            final(self)@ == (Chip8State { memory: write_at(old(self)@.memory, font(), 0x50), ..old(self)@ }),
    {
        let font_vec: Vec<u8> = vec![
            0xF0, 0x90, 0x90, 0x90, 0xF0, // 0
            0x20, 0x60, 0x20, 0x20, 0x70, // 1
            0xF0, 0x10, 0xF0, 0x80, 0xF0, // 2
            0xF0, 0x10, 0xF0, 0x10, 0xF0, // 3
            0x90, 0x90, 0xF0, 0x10, 0x10, // 4
            0xF0, 0x80, 0xF0, 0x10, 0xF0, // 5
            0xF0, 0x80, 0xF0, 0x90, 0xF0, // 6
            0xF0, 0x10, 0x20, 0x40, 0x40, // 7
            0xF0, 0x90, 0xF0, 0x90, 0xF0, // 8
            0xF0, 0x90, 0xF0, 0x10, 0xF0, // 9
            0xF0, 0x90, 0xF0, 0x90, 0x90, // A
            0xE0, 0x90, 0xE0, 0x90, 0xE0, // B
            0xF0, 0x80, 0x80, 0x80, 0xF0, // C
            0xE0, 0x90, 0x90, 0x90, 0xE0, // D
            0xF0, 0x80, 0xF0, 0x80, 0xF0, // E
            0xF0, 0x80, 0xF0, 0x80, 0x80, // F
        ];
        assert(font_vec@ =~= font());
        self.write_vector(font_vec, 0x050);
    }

    /// Loads a program image at `0x200`.
    pub fn load_program(&mut self, program: Vec<u8>)
        requires
            program@.len() <= 0xE00,
        ensures
            final(self)@ == (Chip8State { memory: write_at(old(self)@.memory, program@, 0x200), ..old(self)@ }),
    {
        self.write_vector(program, 0x200);
    }

    /// The display buffer.
    pub fn get_screen_buffer(&self) -> (buf: &[bool; 2048])
        ensures
            buf@ == self.screen_buffer@,
    {
        &self.screen_buffer
    }

    /// The memory of the machine.
    pub fn get_memory(&self) -> (mem: &[u8; 0x1000])
        ensures
            mem@ == self.memory@,
    {
        &self.memory
    }

    /// Whether the next `cycle` runs to completion: the interpreter panics exactly when
    /// this is false.
    pub fn can_cycle(&self) -> (ok: bool)
        ensures
            ok == (self.pc + 2 <= 0xFFFF && chip8_defined(chip8_fetch(self@))),
    {
        if self.pc > 0xFFFD {
            return false;
        }
        let op = opcode_at(&self.memory, self.pc as usize);
        assert(((op & 0xF000) >> 12) == op / 4096
            && ((op & 0x0F00) >> 8) == (op / 256) % 16
            && (op & 0x000F) == op % 16
            && (op & 0x00FF) == op % 256) by (bit_vector);
        let a = (op & 0xF000) >> 12;
        let x = ((op & 0x0F00) >> 8) as usize;
        if a == 0x7 {
            self.v[x] as u16 + (op & 0x00FF) <= 255
        } else if a == 0xD {
            (op & 0x000F) == 0 || self.i as u32 + (op & 0x000F) as u32 <= 0x1000
        } else {
            true
        }
    }

    /// Runs one cycle: fetch, then decode and execute. Returns what decoding reports.
    pub fn cycle(&mut self) -> (trace: Option<String>)
        requires
            old(self).pc + 2 <= 0xFFFF,
            chip8_defined(chip8_fetch(old(self)@)),
        ensures
            final(self)@ == chip8_step(chip8_fetch(old(self)@)),
            text_view(trace) == chip8_trace(chip8_fetch(old(self)@)),
    {
        self.fetch();
        self.decode_execute()
    }
}

impl Chip8 {
    /// The dump of memory from address `start` through `end`: sixteen bytes per line,
    /// each line led by the address of its first byte.
    pub fn mem_slice_text(&self, start: usize, end: usize) -> (text: String)
        requires
            end < 0x1000,
            start <= end + 1,
        ensures
            text@ == memory_dump(self.memory@, start as int, end + 1 - start),
    {
        let ghost mem = self.memory@;
        let mut s = String::new();
        let count = end + 1 - start;
        proof {
            lemma_dump_lines_push(mem, start as int, count as int, 0);
        }
        let mut line: usize = 0;
        while line * 16 < count
            invariant
                end < 0x1000,
                count == end + 1 - start,
                mem == self.memory@,
                line * 16 < count + 16,
                s@ == dump_lines(mem, start as int, count as int, line as nat),
            decreases count + 16 - line * 16,
        {
            let ghost before = s@;
            let addr = start + line * 16;
            let len = if count - line * 16 < 16 { count - line * 16 } else { 16 };
            push_hex_padded(&mut s, addr as u64, 3);
            s.append("  ");
            let ghost head = s@;
            proof {
                lemma_dump_line_bytes_push(mem, addr as int, 0);
            }
            let mut k: usize = 0;
            while k < len
                invariant
                    end < 0x1000,
                    addr + len <= 0x1000,
                    len <= 16,
                    mem == self.memory@,
                    k <= len,
                    s@ == head + dump_line_bytes(mem, addr as int, k as nat),
                decreases len - k,
            {
                let ghost prev = s@;
                push_hex_padded(&mut s, self.memory[addr + k] as u64, 2);
                if k == 15 {
                    s.append("\n");
                } else if k % 2 == 1 {
                    s.append(" ");
                }
                proof {
                    lemma_dump_line_bytes_push(mem, addr as int, k as nat);
                }
                assert(s@ =~= prev + dump_byte(mem, addr as int, k as int));
                k += 1;
            }
            proof {
                lemma_dump_lines_push(mem, start as int, count as int, line as nat);
            }
            assert(s@ =~= before + dump_line(mem, start as int, count as int, line as int));
            line += 1;
        }
        assert(line == (count + 15) / 16);
        s
    }

    /// The dump of the whole memory.
    pub fn mem_text(&self) -> (text: String)
        ensures
            text@ == memory_dump(self.memory@, 0, 0x1000),
    {
        self.mem_slice_text(0, self.memory.len() - 1)
    }

    /// Line `l` of the general-purpose register dump.
    fn v_line_text(&self, l: usize) -> (text: String)
        requires
            l < 8,
        ensures
            text@ == v_line(self.v@, l as int),
    {
        let mut s = String::new();
        s.append("V");
        push_hex(&mut s, (2 * l) as u64);
        s.append(": ");
        push_hex_padded(&mut s, self.v[2 * l] as u64, 2);
        s.append(" V");
        push_hex(&mut s, (2 * l + 1) as u64);
        s.append(": ");
        push_hex_padded(&mut s, self.v[2 * l + 1] as u64, 2);
        if l == 7 {
            s.append(" ");
        } else {
            s.append("\n");
        }
        assert(s@ =~= v_line(self.v@, l as int));
        s
    }

    /// The registers `V0`..`VF`, two per line.
    fn v_text(&self) -> (text: String)
        ensures
            text@ == v_lines(self.v@, 8) + "\n"@,
    {
        let mut s = String::new();
        proof {
            lemma_v_lines_push(self.v@, 0);
        }
        let mut l: usize = 0;
        while l < 8
            invariant
                l <= 8,
                s@ == v_lines(self.v@, l as nat),
            decreases 8 - l,
        {
            let ghost before = s@;
            let line = self.v_line_text(l);
            s.append(line.as_str());
            proof {
                lemma_v_lines_push(self.v@, l as nat);
            }
            l += 1;
        }
        s.append("\n");
        s
    }

    /// The line with `I` and the two timers.
    fn special_registers_text(&self) -> (text: String)
        ensures
            text@ == special_registers_line(self@),
    {
        let mut s = String::new();
        s.append("I: ");
        push_hex_padded(&mut s, self.i as u64, 3);
        s.append(" DT: ");
        push_hex_padded(&mut s, self.dt as u64, 2);
        s.append(" ST: ");
        push_hex_padded(&mut s, self.st as u64, 2);
        s.append("\n");
        assert(s@ =~= special_registers_line(self@));
        s
    }

    /// The line with `PC`, the opcode and the instruction.
    fn instruction_text(&self) -> (text: String)
        ensures
            text@ == instruction_line(self@),
    {
        let mut s = String::new();
        s.append("PC: ");
        push_hex_padded(&mut s, self.pc as u64, 3);
        s.append(" Opcode: ");
        push_hex_padded(&mut s, self.opcode as u64, 4);
        s.append(" Instruction: ");
        let instr = self.instruction.to_string();
        s.append(instr.as_str());
        s.append("\n");
        assert(s@ =~= instruction_line(self@));
        s
    }

    /// The register dump: the instruction line, the line with `I` and the timers, an
    /// empty line, and the general-purpose registers.
    pub fn registers_text(&self) -> (text: String)
        ensures
            text@ == registers_dump(self@),
    {
        let mut s = self.instruction_text();
        let special = self.special_registers_text();
        s.append(special.as_str());
        s.append("\n");
        let regs = self.v_text();
        s.append(regs.as_str());
        assert(s@ =~= registers_dump(self@));
        s
    }

    /// The screen as text: a full block for each lit pixel, a space for each dark one,
    /// one line per row.
    pub fn screen_text(&self) -> (text: String)
        ensures
            text@ == screen_dump(self.screen_buffer@),
    {
        let ghost buf = self.screen_buffer@;
        let mut s = String::new();
        proof {
            lemma_screen_rows_push(buf, 0);
        }
        let mut r: usize = 0;
        while r < 32
            invariant
                r <= 32,
                buf == self.screen_buffer@,
                s@ == screen_rows(buf, r as nat),
            decreases 32 - r,
        {
            let ghost before = s@;
            let mut c: usize = 0;
            while c < 64
                invariant
                    r < 32,
                    c <= 64,
                    buf == self.screen_buffer@,
                    s@ == before + row_pixels(buf, r as int, c as nat),
                decreases 64 - c,
            {
                let ghost prev = s@;
                if self.screen_buffer[64 * r + c] {
                    push_char(&mut s, '\u{2588}');
                } else {
                    push_char(&mut s, ' ');
                }
                assert(row_pixels(buf, r as int, (c + 1) as nat) =~= row_pixels(buf, r as int, c as nat).push(
                    pixel_char(buf[64 * r + c]),
                ));
                assert(s@ =~= before + row_pixels(buf, r as int, (c + 1) as nat));
                c += 1;
            }
            push_char(&mut s, '\n');
            proof {
                lemma_screen_rows_push(buf, r as nat);
            }
            assert(s@ =~= before + screen_row(buf, r as int));
            r += 1;
        }
        s
    }
}


impl Default for Chip8 {
    /// A machine with cleared memory, display and registers, the font loaded at `0x050`
    /// and `PC` at `0x200`.
    fn default() -> (chip8: Chip8)
        ensures
            chip8@.memory == write_at(Seq::new(0x1000, |a: int| 0u8), font(), 0x50),
            chip8@.screen_buffer == Seq::new(2048, |p: int| false),
            chip8@.v == Seq::new(16, |k: int| 0u8),
            chip8.pc == 0x200,
            chip8.i == 0,
            chip8.dt == 0,
            chip8.st == 0,
            chip8.instruction == Instruction::Invalid,
            chip8.opcode == 0,
    {
        let mut chip8 = Chip8 {
            memory: [0; 0x1000],
            screen_buffer: [false; 2048],
            v: [0; 0x10],
            pc: 0x200,
            i: 0,
            dt: 0,
            st: 0,
            instruction: Instruction::Invalid,
            opcode: 0,
        };
        assert(chip8.memory@ =~= Seq::new(0x1000, |a: int| 0u8));
        assert(chip8.screen_buffer@ =~= Seq::new(2048, |p: int| false));
        assert(chip8.v@ =~= Seq::new(16, |k: int| 0u8));
        chip8.init();
        chip8
    }
}

} // verus!
