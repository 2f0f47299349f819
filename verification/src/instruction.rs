//! The CHIP-8 instruction set: decoding an opcode into an [`Instruction`] and the
//! textual (Octo-style) rendering of an instruction.
use vstd::prelude::*;
use crate::hex::{hex, hex_prefixed, push_hex, push_hex_prefixed};

verus! {

/// A decoded CHIP-8 instruction. Register operands are indices of `V0`..`VF`.
#[allow(non_camel_case_types)]
#[derive(Debug, Clone, Copy, PartialEq, Eq, Structural)]
pub enum Instruction {
    I00E0,
    I00EE,
    I1NNN(u16),
    I2NNN(u16),
    I3XNN(usize, u8),
    I4XNN(usize, u8),
    I5XY0(usize, usize),
    I6XNN(usize, u8),
    I7XNN(usize, u8),
    I8XY0(usize, usize),
    I8XY1(usize, usize),
    I8XY2(usize, usize),
    I8XY3(usize, usize),
    I8XY4(usize, usize),
    I8XY5(usize, usize),
    I8XY6(usize, usize),
    I8XY7(usize, usize),
    I8XYE(usize, usize),
    I9XY0(usize, usize),
    IANNN(u16),
    IBXNN(usize, u16),
    IBNNN(u16),
    ICXNN(usize, u8),
    IDXYN(usize, usize, u8),
    IEX9E(usize),
    IEXA1(usize),
    IFX07(usize),
    IFX0A(usize),
    IFX15(usize),
    IFX18(usize),
    IFX1E(usize),
    IFX29(usize),
    IFX33(usize),
    IFX55(usize),
    IFX65(usize),
    Invalid,
}

/// The highest nibble of an opcode (the instruction family).
pub open spec fn op_a(op: u16) -> int {
    op as int / 4096
}

/// The second nibble of an opcode (the `X` register).
pub open spec fn op_x(op: u16) -> int {
    (op as int / 256) % 16
}

/// The third nibble of an opcode (the `Y` register).
pub open spec fn op_y(op: u16) -> int {
    (op as int / 16) % 16
}

/// The lowest nibble of an opcode (`N`).
pub open spec fn op_n(op: u16) -> int {
    op as int % 16
}

/// The low byte of an opcode (`NN`).
pub open spec fn op_nn(op: u16) -> int {
    op as int % 256
}

/// The low twelve bits of an opcode (the address `NNN`).
pub open spec fn op_nnn(op: u16) -> int {
    op as int % 4096
}

/// The instruction that `op` encodes; `jump` selects the `BXNN` reading of `BNNN`.
pub open spec fn decode(op: u16, jump: bool) -> Instruction {
    let a = op_a(op);
    let x = op_x(op) as usize;
    let y = op_y(op) as usize;
    let n = op_n(op);
    let nn = op_nn(op) as u8;
    let nnn = op_nnn(op) as u16;
    if op == 0x00E0 {
        Instruction::I00E0
    } else if op == 0x00EE {
        Instruction::I00EE
    } else if a == 0x1 {
        Instruction::I1NNN(nnn)
    } else if a == 0x2 {
        Instruction::I2NNN(nnn)
    } else if a == 0x3 {
        Instruction::I3XNN(x, nn)
    } else if a == 0x4 {
        Instruction::I4XNN(x, nn)
    } else if a == 0x5 && n == 0 {
        Instruction::I5XY0(x, y)
    } else if a == 0x6 {
        Instruction::I6XNN(x, nn)
    } else if a == 0x7 {
        Instruction::I7XNN(x, nn)
    } else if a == 0x8 && n == 0x0 {
        Instruction::I8XY0(x, y)
    } else if a == 0x8 && n == 0x1 {
        Instruction::I8XY1(x, y)
    } else if a == 0x8 && n == 0x2 {
        Instruction::I8XY2(x, y)
    } else if a == 0x8 && n == 0x3 {
        Instruction::I8XY3(x, y)
    } else if a == 0x8 && n == 0x4 {
        Instruction::I8XY4(x, y)
    } else if a == 0x8 && n == 0x5 {
        Instruction::I8XY5(x, y)
    } else if a == 0x8 && n == 0x6 {
        Instruction::I8XY6(x, y)
    } else if a == 0x8 && n == 0x7 {
        Instruction::I8XY7(x, y)
    } else if a == 0x8 && n == 0xE {
        Instruction::I8XYE(x, y)
    } else if a == 0x9 && n == 0x0 {
        Instruction::I9XY0(x, y)
    } else if a == 0xA {
        Instruction::IANNN(nnn)
    } else if a == 0xB {
        if jump {
            Instruction::IBXNN(x, nnn)
        } else {
            Instruction::IBNNN(nnn)
        }
    } else if a == 0xC {
        Instruction::ICXNN(x, nn)
    } else if a == 0xD {
        Instruction::IDXYN(x, y, n as u8)
    } else if a == 0xE && op_nn(op) == 0x9E {
        Instruction::IEX9E(x)
    } else if a == 0xE && op_nn(op) == 0xA1 {
        Instruction::IEXA1(x)
    } else if a == 0xF && op_nn(op) == 0x07 {
        Instruction::IFX07(x)
    } else if a == 0xF && op_nn(op) == 0x15 {
        Instruction::IFX15(x)
    } else if a == 0xF && op_nn(op) == 0x18 {
        Instruction::IFX18(x)
    } else if a == 0xF && op_nn(op) == 0x1E {
        Instruction::IFX1E(x)
    } else if a == 0xF && op_nn(op) == 0x0A {
        Instruction::IFX0A(x)
    } else if a == 0xF && op_nn(op) == 0x29 {
        Instruction::IFX29(x)
    } else if a == 0xF && op_nn(op) == 0x33 {
        Instruction::IFX33(x)
    } else if a == 0xF && op_nn(op) == 0x55 {
        Instruction::IFX55(x)
    } else if a == 0xF && op_nn(op) == 0x65 {
        Instruction::IFX65(x)
    } else {
        Instruction::Invalid
    }
}

impl Instruction {
    /// Every register operand names one of the sixteen registers.
    pub open spec fn wf(self) -> bool {
        match self {
            Instruction::I3XNN(x, _) | Instruction::I4XNN(x, _) | Instruction::I6XNN(x, _)
            | Instruction::I7XNN(x, _) | Instruction::IBXNN(x, _) | Instruction::ICXNN(x, _)
            | Instruction::IEX9E(x) | Instruction::IEXA1(x) | Instruction::IFX07(x)
            | Instruction::IFX0A(x) | Instruction::IFX15(x) | Instruction::IFX18(x)
            | Instruction::IFX1E(x) | Instruction::IFX29(x) | Instruction::IFX33(x)
            | Instruction::IFX55(x) | Instruction::IFX65(x) => x < 16,
            Instruction::I5XY0(x, y) | Instruction::I8XY0(x, y) | Instruction::I8XY1(x, y)
            | Instruction::I8XY2(x, y) | Instruction::I8XY3(x, y) | Instruction::I8XY4(x, y)
            | Instruction::I8XY5(x, y) | Instruction::I8XY6(x, y) | Instruction::I8XY7(x, y)
            | Instruction::I8XYE(x, y) | Instruction::I9XY0(x, y)
            | Instruction::IDXYN(x, y, _) => x < 16 && y < 16,
            _ => true,
        }
    }

    /// Decodes `opcode`. With `jump` set, `BXNN` jumps to `XNN + VX`; otherwise `BNNN`
    /// jumps to `NNN + V0`. Opcodes outside the instruction set decode to `None`.
    pub fn new(opcode: u16, jump: bool) -> (res: Instruction)
        ensures
            res == decode(opcode, jump),
            res.wf(),
    {
        let a: u16 = (opcode & 0xF000) >> 12;
        let xn: u16 = (opcode & 0x0F00) >> 8;
        let yn: u16 = (opcode & 0x00F0) >> 4;
        let nl: u16 = opcode & 0x000F;
        let lo: u16 = opcode & 0x00FF;
        let addr: u16 = opcode & 0x0FFF;
        assert(((opcode & 0xF000) >> 12) == opcode / 4096
            && ((opcode & 0x0F00) >> 8) == (opcode / 256) % 16
            && ((opcode & 0x00F0) >> 4) == (opcode / 16) % 16
            && (opcode & 0x000F) == opcode % 16
            && (opcode & 0x00FF) == opcode % 256
            && (opcode & 0x0FFF) == opcode % 4096) by (bit_vector);
        let x: usize = xn as usize;
        let y: usize = yn as usize;
        let n: u8 = nl as u8;
        let nn: u8 = lo as u8;
        let nnn: u16 = addr;

        if opcode == 0x00E0 {
            Instruction::I00E0
        } else if opcode == 0x00EE {
            Instruction::I00EE
        } else if a == 0x1 {
            Instruction::I1NNN(nnn)
        } else if a == 0x2 {
            Instruction::I2NNN(nnn)
        } else if a == 0x3 {
            Instruction::I3XNN(x, nn)
        } else if a == 0x4 {
            Instruction::I4XNN(x, nn)
        } else if a == 0x5 && nl == 0 {
            Instruction::I5XY0(x, y)
        } else if a == 0x6 {
            Instruction::I6XNN(x, nn)
        } else if a == 0x7 {
            Instruction::I7XNN(x, nn)
        } else if a == 0x8 && nl == 0x0 {
            Instruction::I8XY0(x, y)
        } else if a == 0x8 && nl == 0x1 {
            Instruction::I8XY1(x, y)
        } else if a == 0x8 && nl == 0x2 {
            Instruction::I8XY2(x, y)
        } else if a == 0x8 && nl == 0x3 {
            Instruction::I8XY3(x, y)
        } else if a == 0x8 && nl == 0x4 {
            Instruction::I8XY4(x, y)
        } else if a == 0x8 && nl == 0x5 {
            Instruction::I8XY5(x, y)
        } else if a == 0x8 && nl == 0x6 {
            Instruction::I8XY6(x, y)
        } else if a == 0x8 && nl == 0x7 {
            Instruction::I8XY7(x, y)
        } else if a == 0x8 && nl == 0xE {
            Instruction::I8XYE(x, y)
        } else if a == 0x9 && nl == 0x0 {
            Instruction::I9XY0(x, y)
        } else if a == 0xA {
            Instruction::IANNN(nnn)
        } else if a == 0xB {
            if jump {
                Instruction::IBXNN(x, nnn)
            } else {
                Instruction::IBNNN(nnn)
            }
        } else if a == 0xC {
            Instruction::ICXNN(x, nn)
        } else if a == 0xD {
            Instruction::IDXYN(x, y, n)
        } else if a == 0xE && lo == 0x9E {
            Instruction::IEX9E(x)
        } else if a == 0xE && lo == 0xA1 {
            Instruction::IEXA1(x)
        } else if a == 0xF && lo == 0x07 {
            Instruction::IFX07(x)
        } else if a == 0xF && lo == 0x15 {
            Instruction::IFX15(x)
        } else if a == 0xF && lo == 0x18 {
            Instruction::IFX18(x)
        } else if a == 0xF && lo == 0x1E {
            Instruction::IFX1E(x)
        } else if a == 0xF && lo == 0x0A {
            Instruction::IFX0A(x)
        } else if a == 0xF && lo == 0x29 {
            Instruction::IFX29(x)
        } else if a == 0xF && lo == 0x33 {
            Instruction::IFX33(x)
        } else if a == 0xF && lo == 0x55 {
            Instruction::IFX55(x)
        } else if a == 0xF && lo == 0x65 {
            Instruction::IFX65(x)
        } else {
            Instruction::Invalid
        }
    }
}

/// The text `v` followed by the register's hexadecimal index (`v{x:X}`).
pub open spec fn reg_text(x: usize) -> Seq<char> {
    "v"@ + hex(x as nat)
}

/// A byte operand as `{:#04X}` renders it.
pub open spec fn byte_text(nn: u8) -> Seq<char> {
    hex_prefixed(nn as nat, 4)
}

/// An address operand as `{:#05X}` renders it.
pub open spec fn addr_text(nnn: u16) -> Seq<char> {
    hex_prefixed(nnn as nat, 5)
}

/// Appends `reg_text(x)` to `s`.
fn push_reg(s: &mut String, x: usize)
    ensures
        final(s)@ == old(s)@ + reg_text(x),
{
    s.append("v");
    push_hex(s, x as u64);
    assert(s@ =~= old(s)@ + reg_text(x));
}

impl Instruction {
    /// The Octo-style assembly text of the instruction; `Invalid` renders as the empty text.
    pub open spec fn text(self) -> Seq<char> {
        match self {
            Instruction::I00E0 => "clear"@,
            Instruction::I00EE => "return"@,
            Instruction::I1NNN(nnn) => "jump "@ + addr_text(nnn),
            Instruction::I2NNN(nnn) => ":call "@ + addr_text(nnn),
            Instruction::I3XNN(x, nn) => "if "@ + reg_text(x) + " != "@ + byte_text(nn) + " then"@,
            Instruction::I4XNN(x, nn) => "if "@ + reg_text(x) + " == "@ + byte_text(nn) + " then"@,
            Instruction::I5XY0(x, y) => "if "@ + reg_text(x) + " != "@ + reg_text(y) + " then"@,
            Instruction::I6XNN(x, nn) => reg_text(x) + " := "@ + byte_text(nn),
            Instruction::I7XNN(x, nn) => reg_text(x) + " += "@ + byte_text(nn),
            Instruction::I8XY0(x, y) => reg_text(x) + " := "@ + reg_text(y),
            Instruction::I8XY1(x, y) => reg_text(x) + " |= "@ + reg_text(y),
            Instruction::I8XY2(x, y) => reg_text(x) + " &= "@ + reg_text(y),
            Instruction::I8XY3(x, y) => reg_text(x) + " ^= "@ + reg_text(y),
            Instruction::I8XY4(x, y) => reg_text(x) + " += "@ + reg_text(y),
            Instruction::I8XY5(x, y) => reg_text(x) + " -= "@ + reg_text(y),
            Instruction::I8XY6(x, y) => reg_text(x) + " >>= "@ + reg_text(y),
            Instruction::I8XY7(x, y) => reg_text(x) + " =- "@ + reg_text(y),
            Instruction::I8XYE(x, y) => reg_text(x) + " <<= "@ + reg_text(y),
            Instruction::I9XY0(x, y) => "if "@ + reg_text(x) + " == "@ + reg_text(y) + " then"@,
            Instruction::IANNN(nnn) => "i := "@ + addr_text(nnn),
            Instruction::IBXNN(x, nnn) => "jump"@ + hex(x as nat) + " "@ + addr_text(nnn),
            Instruction::IBNNN(nnn) => "jump0 "@ + addr_text(nnn),
            Instruction::ICXNN(x, nn) => reg_text(x) + " := random "@ + byte_text(nn),
            Instruction::IDXYN(x, y, n) => "sprite "@ + reg_text(x) + " "@ + reg_text(y) + " "@ + hex_prefixed(n as nat, 3),
            Instruction::IEX9E(x) => "if "@ + reg_text(x) + " -key then"@,
            Instruction::IEXA1(x) => "if "@ + reg_text(x) + " key then"@,
            Instruction::IFX07(x) => reg_text(x) + " := delay"@,
            Instruction::IFX0A(x) => reg_text(x) + " := key"@,
            Instruction::IFX15(x) => "delay := "@ + reg_text(x),
            Instruction::IFX18(x) => "buzzer := "@ + reg_text(x),
            Instruction::IFX1E(x) => "i += "@ + reg_text(x),
            Instruction::IFX29(x) => "i := hex "@ + reg_text(x),
            Instruction::IFX33(x) => "bcd "@ + reg_text(x),
            Instruction::IFX55(x) => "save "@ + reg_text(x),
            Instruction::IFX65(x) => "load "@ + reg_text(x),
            Instruction::Invalid => Seq::empty(),
        }
    }

    /// Renders the instruction as assembly text.
    pub fn to_string(&self) -> (res: String)
        ensures
            res@ == self.text(),
    {
        let mut s = String::new();
        match *self {
            Instruction::I00E0 => {
                s.append("clear");
            }
            Instruction::I00EE => {
                s.append("return");
            }
            Instruction::I1NNN(nnn) => {
                s.append("jump ");
                push_hex_prefixed(&mut s, nnn as u64, 5);
            }
            Instruction::I2NNN(nnn) => {
                s.append(":call ");
                push_hex_prefixed(&mut s, nnn as u64, 5);
            }
            Instruction::I3XNN(x, nn) => {
                s.append("if ");
                push_reg(&mut s, x);
                s.append(" != ");
                push_hex_prefixed(&mut s, nn as u64, 4);
                s.append(" then");
            }
            Instruction::I4XNN(x, nn) => {
                s.append("if ");
                push_reg(&mut s, x);
                s.append(" == ");
                push_hex_prefixed(&mut s, nn as u64, 4);
                s.append(" then");
            }
            Instruction::I5XY0(x, y) => {
                s.append("if ");
                push_reg(&mut s, x);
                s.append(" != ");
                push_reg(&mut s, y);
                s.append(" then");
            }
            Instruction::I6XNN(x, nn) => {
                push_reg(&mut s, x);
                s.append(" := ");
                push_hex_prefixed(&mut s, nn as u64, 4);
            }
            Instruction::I7XNN(x, nn) => {
                push_reg(&mut s, x);
                s.append(" += ");
                push_hex_prefixed(&mut s, nn as u64, 4);
            }
            Instruction::I8XY0(x, y) => {
                push_reg(&mut s, x);
                s.append(" := ");
                push_reg(&mut s, y);
            }
            Instruction::I8XY1(x, y) => {
                push_reg(&mut s, x);
                s.append(" |= ");
                push_reg(&mut s, y);
            }
            Instruction::I8XY2(x, y) => {
                push_reg(&mut s, x);
                s.append(" &= ");
                push_reg(&mut s, y);
            }
            Instruction::I8XY3(x, y) => {
                push_reg(&mut s, x);
                s.append(" ^= ");
                push_reg(&mut s, y);
            }
            Instruction::I8XY4(x, y) => {
                push_reg(&mut s, x);
                s.append(" += ");
                push_reg(&mut s, y);
            }
            Instruction::I8XY5(x, y) => {
                push_reg(&mut s, x);
                s.append(" -= ");
                push_reg(&mut s, y);
            }
            Instruction::I8XY6(x, y) => {
                push_reg(&mut s, x);
                s.append(" >>= ");
                push_reg(&mut s, y);
            }
            Instruction::I8XY7(x, y) => {
                push_reg(&mut s, x);
                s.append(" =- ");
                push_reg(&mut s, y);
            }
            Instruction::I8XYE(x, y) => {
                push_reg(&mut s, x);
                s.append(" <<= ");
                push_reg(&mut s, y);
            }
            Instruction::I9XY0(x, y) => {
                s.append("if ");
                push_reg(&mut s, x);
                s.append(" == ");
                push_reg(&mut s, y);
                s.append(" then");
            }
            Instruction::IANNN(nnn) => {
                s.append("i := ");
                push_hex_prefixed(&mut s, nnn as u64, 5);
            }
            Instruction::IBXNN(x, nnn) => {
                s.append("jump");
                push_hex(&mut s, x as u64);
                s.append(" ");
                push_hex_prefixed(&mut s, nnn as u64, 5);
            }
            Instruction::IBNNN(nnn) => {
                s.append("jump0 ");
                push_hex_prefixed(&mut s, nnn as u64, 5);
            }
            Instruction::ICXNN(x, nn) => {
                push_reg(&mut s, x);
                s.append(" := random ");
                push_hex_prefixed(&mut s, nn as u64, 4);
            }
            Instruction::IDXYN(x, y, n) => {
                s.append("sprite ");
                push_reg(&mut s, x);
                s.append(" ");
                push_reg(&mut s, y);
                s.append(" ");
                push_hex_prefixed(&mut s, n as u64, 3);
            }
            Instruction::IEX9E(x) => {
                s.append("if ");
                push_reg(&mut s, x);
                s.append(" -key then");
            }
            Instruction::IEXA1(x) => {
                s.append("if ");
                push_reg(&mut s, x);
                s.append(" key then");
            }
            Instruction::IFX07(x) => {
                push_reg(&mut s, x);
                s.append(" := delay");
            }
            Instruction::IFX0A(x) => {
                push_reg(&mut s, x);
                s.append(" := key");
            }
            Instruction::IFX15(x) => {
                s.append("delay := ");
                push_reg(&mut s, x);
            }
            Instruction::IFX18(x) => {
                s.append("buzzer := ");
                push_reg(&mut s, x);
            }
            Instruction::IFX1E(x) => {
                s.append("i += ");
                push_reg(&mut s, x);
            }
            Instruction::IFX29(x) => {
                s.append("i := hex ");
                push_reg(&mut s, x);
            }
            Instruction::IFX33(x) => {
                s.append("bcd ");
                push_reg(&mut s, x);
            }
            Instruction::IFX55(x) => {
                s.append("save ");
                push_reg(&mut s, x);
            }
            Instruction::IFX65(x) => {
                s.append("load ");
                push_reg(&mut s, x);
            }
            Instruction::Invalid => {

            }
        }
        assert(s@ =~= self.text());
        s
    }
}

} // verus!
