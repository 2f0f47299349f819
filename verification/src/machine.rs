//! The CHIP-8 machine: memory, registers, timers, call stack and the two display
//! buffers, with the fetch / decode / execute cycle.
use vstd::prelude::*;
use crate::cli::Args;
use crate::instruction::{Instruction, decode};
use crate::keyboard::{Keyboard, first_pressed};
use crate::screen::{draw_sprite, drawn, collides};

verus! {

/// The abstract state of a [`Machine`].
#[verifier::ext_equal]
pub struct MachineState {
    pub memory: Seq<u8>,
    pub front_buffer: Seq<bool>,
    pub back_buffer: Seq<bool>,
    pub v: Seq<u8>,
    pub pc: u16,
    pub i: u16,
    pub dt: u8,
    pub st: u8,
    pub instruction: Instruction,
    pub opcode: u16,
    pub stack: Seq<u16>,
    pub keys: Seq<bool>,
    pub waiting_for_key_release: Option<usize>,
    pub is_next_frame: bool,
}

/// The built-in font: five rows of eight pixels for each hexadecimal digit `0`..`F`.
pub open spec fn font() -> Seq<u8> {
    seq![
        0xF0u8, 0x90, 0x90, 0x90, 0xF0, 0x20, 0x60, 0x20, 0x20, 0x70,
        0xF0, 0x10, 0xF0, 0x80, 0xF0, 0xF0, 0x10, 0xF0, 0x10, 0xF0,
        0x90, 0x90, 0xF0, 0x10, 0x10, 0xF0, 0x80, 0xF0, 0x10, 0xF0,
        0xF0, 0x80, 0xF0, 0x90, 0xF0, 0xF0, 0x10, 0x20, 0x40, 0x40,
        0xF0, 0x90, 0xF0, 0x90, 0xF0, 0xF0, 0x90, 0xF0, 0x10, 0xF0,
        0xF0, 0x90, 0xF0, 0x90, 0x90, 0xE0, 0x90, 0xE0, 0x90, 0xE0,
        0xF0, 0x80, 0x80, 0x80, 0xF0, 0xE0, 0x90, 0x90, 0x90, 0xE0,
        0xF0, 0x80, 0xF0, 0x80, 0xF0, 0xF0, 0x80, 0xF0, 0x80, 0x80
    ]
}

/// `mem` with `data` written from address `start` on.
pub open spec fn write_at(mem: Seq<u8>, data: Seq<u8>, start: int) -> Seq<u8> {
    Seq::new(mem.len(), |a: int| if start <= a < start + data.len() { data[a - start] } else { mem[a] })
}

/// The byte at `addr`, or 0 past the end of memory.
pub open spec fn byte_at(mem: Seq<u8>, addr: int) -> u8 {
    if 0 <= addr < mem.len() { mem[addr] } else { 0 }
}

/// The big-endian 16-bit word stored at `addr`.
pub open spec fn word_at(mem: Seq<u8>, addr: int) -> u16 {
    (byte_at(mem, addr) * 256 + byte_at(mem, addr + 1)) as u16
}

/// Fetching: the opcode is the word at `PC`, and `PC` advances by 2.
pub open spec fn spec_fetch(s: MachineState) -> MachineState {
    MachineState { opcode: word_at(s.memory, s.pc as int), pc: (s.pc + 2) as u16, ..s }
}

/// Decoding the current opcode under the jump quirk.
pub open spec fn spec_decode(s: MachineState, jump: bool) -> MachineState {
    MachineState { instruction: decode(s.opcode, jump), ..s }
}

/// Skips the next instruction when `cond` holds.
pub open spec fn skip_if(s: MachineState, cond: bool) -> MachineState {
    if cond { MachineState { pc: (s.pc + 2) as u16, ..s } } else { s }
}

/// Register `x` set to `val`.
pub open spec fn set_v(s: MachineState, x: int, val: u8) -> MachineState {
    MachineState { v: s.v.update(x, val), ..s }
}

/// `VF` cleared when the logic quirk is on.
pub open spec fn logic_quirk(s: MachineState, args: Args) -> MachineState {
    if args.logic { set_v(s, 15, 0) } else { s }
}

/// `I` after `FX55`/`FX65` with register bound `x`, as the memory quirks select.
pub open spec fn i_after_transfer(args: Args, i: u16, x: int) -> u16 {
    if args.memory_leave_i_unchanged {
        i
    } else if args.memory_increment_by_x {
        (i + x) as u16
    } else {
        (i + x + 1) as u16
    }
}

/// The binary-coded decimal digits (hundreds, tens, ones) of `b`.
pub open spec fn bcd(b: u8) -> Seq<u8> {
    seq![(b / 100) as u8, ((b / 10) % 10) as u8, (b % 10) as u8]
}

/// Whether `execute` runs to completion on `s`: the instruction is a valid one, every
/// register it reads or writes exists, and none of the conditions under which it panics holds
/// (an empty stack on return, a program counter or `I` leaving its range, an
/// out-of-range key, or a memory access past the end of memory).
pub open spec fn execute_defined(s: MachineState, args: Args) -> bool {
    &&& s.v.len() == 16
    &&& s.memory.len() == 0x1000
    &&& s.keys.len() == 16
    &&& match s.instruction {
        Instruction::I00EE => s.stack.len() > 0,
        Instruction::I3XNN(x, nn) => x < 16 && (s.v[x as int] == nn ==> s.pc + 2 <= 0xFFFF),
        Instruction::I4XNN(x, nn) => x < 16 && (s.v[x as int] != nn ==> s.pc + 2 <= 0xFFFF),
        Instruction::I5XY0(x, y) => x < 16 && y < 16 && (s.v[x as int] == s.v[y as int] ==> s.pc + 2 <= 0xFFFF),
        Instruction::I9XY0(x, y) => x < 16 && y < 16 && (s.v[x as int] != s.v[y as int] ==> s.pc + 2 <= 0xFFFF),
        Instruction::I6XNN(x, _) | Instruction::I7XNN(x, _) | Instruction::ICXNN(x, _)
        | Instruction::IFX07(x) | Instruction::IFX15(x) | Instruction::IFX18(x)
        | Instruction::IFX29(x) => x < 16,
        Instruction::I8XY0(x, y) | Instruction::I8XY1(x, y) | Instruction::I8XY2(x, y)
        | Instruction::I8XY3(x, y) | Instruction::I8XY4(x, y) | Instruction::I8XY5(x, y)
        | Instruction::I8XY7(x, y) => x < 16 && y < 16,
        Instruction::I8XY6(x, y) | Instruction::I8XYE(x, y) => x < 16 && (args.shift ==> y < 16),
        Instruction::IBXNN(x, nnn) => x < 16 && nnn + s.v[x as int] <= 0xFFFF,
        Instruction::IBNNN(nnn) => nnn + s.v[0] <= 0xFFFF,
        Instruction::IDXYN(x, y, n) => if args.vblank && !s.is_next_frame {
            s.pc >= 2
        } else {
            x < 16 && y < 16 && (n == 0 || s.i + n <= 0x1000)
        },
        Instruction::IEX9E(x) => x < 16 && s.v[x as int] < 16 && (s.keys[s.v[x as int] as int] ==> s.pc + 2 <= 0xFFFF),
        Instruction::IEXA1(x) => x < 16 && s.v[x as int] < 16 && (!s.keys[s.v[x as int] as int] ==> s.pc + 2 <= 0xFFFF),
        Instruction::IFX1E(x) => x < 16 && s.i + s.v[x as int] <= 0xFFFF,
        Instruction::IFX0A(x) => if args.get_key_on_release {
            match s.waiting_for_key_release {
                Some(k) => k < 16 && (if s.keys[k as int] { s.pc >= 2 } else { x < 16 }),
                Option::None => s.pc >= 2,
            }
        } else {
            match first_pressed(s.keys) {
                Some(_) => x < 16,
                Option::None => s.pc >= 2,
            }
        },
        Instruction::IFX33(x) => x < 16 && s.i < 0xFFE,
        Instruction::IFX55(x) => x < 16 && s.i + x < 0x1000,
        Instruction::IFX65(x) => x < 16 && s.i + x < 0x1000,
        Instruction::Invalid => false,
        _ => true,
    }
}

/// The effect of executing the current instruction of `s` under the quirks of `args`;
/// `random` is the byte that `CXNN` draws. The second component is the early-exit code:
/// `Some(1)` when `DXYN` waits for the next frame, `None` otherwise.
pub open spec fn spec_execute(s: MachineState, args: Args, random: u8) -> (MachineState, Option<i32>) {
    match s.instruction {
        Instruction::I00E0 => (MachineState { back_buffer: Seq::new(2048, |p: int| false), ..s }, None),
        Instruction::I00EE => (MachineState { pc: s.stack.last(), stack: s.stack.drop_last(), ..s }, None),
        Instruction::I1NNN(nnn) => (MachineState { pc: nnn, ..s }, None),
        Instruction::I2NNN(nnn) => (MachineState { pc: nnn, stack: s.stack.push(s.pc), ..s }, None),
        Instruction::I3XNN(x, nn) => (skip_if(s, s.v[x as int] == nn), None),
        Instruction::I4XNN(x, nn) => (skip_if(s, s.v[x as int] != nn), None),
        Instruction::I5XY0(x, y) => (skip_if(s, s.v[x as int] == s.v[y as int]), None),
        Instruction::I6XNN(x, nn) => (set_v(s, x as int, nn), None),
        Instruction::I7XNN(x, nn) => (set_v(s, x as int, ((s.v[x as int] + nn) % 256) as u8), None),
        Instruction::I8XY0(x, y) => (set_v(s, x as int, s.v[y as int]), None),
        Instruction::I8XY1(x, y) => (logic_quirk(set_v(s, x as int, s.v[x as int] | s.v[y as int]), args), None),
        Instruction::I8XY2(x, y) => (logic_quirk(set_v(s, x as int, s.v[x as int] & s.v[y as int]), args), None),
        Instruction::I8XY3(x, y) => (logic_quirk(set_v(s, x as int, s.v[x as int] ^ s.v[y as int]), args), None),
        Instruction::I8XY4(x, y) => {
            let sum = s.v[x as int] + s.v[y as int];
            (set_v(set_v(s, x as int, (sum % 256) as u8), 15, if sum > 255 { 1 } else { 0 }), None)
        },
        Instruction::I8XY5(x, y) => {
            let s1 = set_v(s, x as int, ((s.v[x as int] + 256 - s.v[y as int]) % 256) as u8);
            (set_v(s1, 15, if s.v[x as int] >= s1.v[y as int] { 1 } else { 0 }), None)
        },
        Instruction::I8XY6(x, y) => {
            let vx = if args.shift { s.v[y as int] } else { s.v[x as int] };
            (set_v(set_v(s, x as int, vx / 2), 15, vx % 2), None)
        },
        Instruction::I8XY7(x, y) => {
            let s1 = set_v(s, x as int, ((s.v[y as int] + 256 - s.v[x as int]) % 256) as u8);
            (set_v(s1, 15, if s1.v[y as int] >= s.v[x as int] { 1 } else { 0 }), None)
        },
        Instruction::I8XYE(x, y) => {
            let vx = if args.shift { s.v[y as int] } else { s.v[x as int] };
            (set_v(set_v(s, x as int, ((vx * 2) % 256) as u8), 15, vx / 128), None)
        },
        Instruction::I9XY0(x, y) => (skip_if(s, s.v[x as int] != s.v[y as int]), None),
        Instruction::IANNN(nnn) => (MachineState { i: nnn, ..s }, None),
        Instruction::IBXNN(x, nnn) => (MachineState { pc: (nnn + s.v[x as int]) as u16, ..s }, None),
        Instruction::IBNNN(nnn) => (MachineState { pc: (nnn + s.v[0]) as u16, ..s }, None),
        Instruction::ICXNN(x, nn) => (set_v(s, x as int, random & nn), None),
        Instruction::IDXYN(x, y, n) => {
            if args.vblank && !s.is_next_frame {
                (MachineState { is_next_frame: true, pc: (s.pc - 2) as u16, ..s }, Some(1))
            } else {
                let x0 = s.v[x as int] % 64;
                let y0 = s.v[y as int] % 32;
                let hit = collides(s.back_buffer, s.memory, s.i as int, x0 as int, y0 as int, n as int);
                (MachineState {
                    back_buffer: drawn(s.back_buffer, s.memory, s.i as int, x0 as int, y0 as int, n as int),
                    v: s.v.update(15, if hit { 1 } else { 0 }),
                    is_next_frame: if args.vblank { false } else { s.is_next_frame },
                    ..s
                }, None)
            }
        },
        Instruction::IEX9E(x) => (skip_if(s, s.keys[s.v[x as int] as int]), None),
        Instruction::IEXA1(x) => (skip_if(s, !s.keys[s.v[x as int] as int]), None),
        Instruction::IFX07(x) => (set_v(s, x as int, s.dt), None),
        Instruction::IFX15(x) => (MachineState { dt: s.v[x as int], ..s }, None),
        Instruction::IFX18(x) => (MachineState { st: s.v[x as int], ..s }, None),
        Instruction::IFX1E(x) => {
            let sum = s.i + s.v[x as int];
            let s1 = if args.fx1e_i_overflow && sum > 0xFFF { set_v(s, 15, 1) } else { s };
            (MachineState { i: (sum % 4096) as u16, ..s1 }, None)
        },
        Instruction::IFX0A(x) => {
            if args.get_key_on_release {
                match s.waiting_for_key_release {
                    Some(k) => if s.keys[k as int] {
                        (MachineState { pc: (s.pc - 2) as u16, ..s }, None)
                    } else {
                        (MachineState { waiting_for_key_release: Option::None, ..set_v(s, x as int, k as u8) }, None)
                    },
                    Option::None => (MachineState {
                        waiting_for_key_release: first_pressed(s.keys),
                        pc: (s.pc - 2) as u16,
                        ..s
                    }, None),
                }
            } else {
                match first_pressed(s.keys) {
                    Some(k) => (set_v(s, x as int, k as u8), None),
                    Option::None => (MachineState { pc: (s.pc - 2) as u16, ..s }, None),
                }
            }
        },
        Instruction::IFX29(x) => (MachineState { i: (0x50 + s.v[x as int] * 5) as u16, ..s }, None),
        Instruction::IFX33(x) => (MachineState { memory: write_at(s.memory, bcd(s.v[x as int]), s.i as int), ..s }, None),
        Instruction::IFX55(x) => (MachineState {
            memory: write_at(s.memory, s.v.take(x + 1), s.i as int),
            i: i_after_transfer(args, s.i, x as int),
            ..s
        }, None),
        Instruction::IFX65(x) => (MachineState {
            v: Seq::new(16, |k: int| if k <= x { s.memory[s.i + k] } else { s.v[k] }),
            i: i_after_transfer(args, s.i, x as int),
            ..s
        }, None),
        Instruction::Invalid => (s, None),
    }
}


/// One cycle: fetch, decode and execute, with `random` as the byte that `CXNN` draws.
/// The code is the early-exit code of the execution, or 0.
#[verifier::opaque]
pub open spec fn spec_cycle(s: MachineState, args: Args, random: u8) -> (MachineState, i32) {
    let (t, code) = spec_execute(spec_decode(spec_fetch(s), args.jump), args, random);
    (t, match code { Some(c) => c, Option::None => 0 })
}

/// Whether `cycle` runs to completion on `s`: `PC` can advance past the opcode, and
/// the decoded instruction can be executed.
#[verifier::opaque]
pub open spec fn cycle_defined(s: MachineState, args: Args) -> bool {
    &&& s.pc + 2 <= 0xFFFF
    &&& execute_defined(spec_decode(spec_fetch(s), args.jump), args)
}

/// The big-endian 16-bit word stored at `addr` (bytes past the end of memory read as 0).
pub fn opcode_at(memory: &[u8; 0x1000], addr: usize) -> (word: u16)
    requires
        addr < usize::MAX,
    ensures
        word == word_at(memory@, addr as int),
{
    let left_byte: u16 = if addr < 0x1000 { memory[addr] as u16 } else { 0 };
    let right_byte: u16 = if addr + 1 < 0x1000 { memory[addr + 1] as u16 } else { 0 };
    assert(left_byte < 256 && right_byte < 256 ==> (left_byte << 8) | right_byte == left_byte * 256 + right_byte) by (bit_vector);
    (left_byte << 8) | right_byte
}

/// Draws a random byte for `CXNN`.
///
/// Calls `rand::random::<u8>()`, which samples the thread-local generator; nothing is
/// stated of the byte beyond its type, so callers hold for every value of it.
#[verifier::external_body]
fn random_byte() -> u8 {
    rand::random::<u8>()
}

/// Running up to `count` cycles from `s`, where the `k`-th cycle draws `randoms[k]` for
/// `CXNN`. A cycle that returns 1 (a draw waiting for the next frame) ends the run; a
/// cycle that would panic ends it before it starts, with the fault flag set. The result
/// is the final state, the buzzer state after the last cycle that completed normally
/// (`Some(st > 0)`, or `None` when there was none) and the fault flag.
pub open spec fn spec_run(s: MachineState, args: Args, randoms: Seq<u8>, count: nat) -> (MachineState, Option<bool>, bool)
    decreases count,
{
    if count == 0 {
        (s, Option::None, false)
    } else if !cycle_defined(s, args) {
        (s, Option::None, true)
    } else {
        let (s1, code) = spec_cycle(s, args, randoms[0]);
        if code == 1 {
            (s1, Option::None, false)
        } else {
            let (t, b, f) = spec_run(s1, args, randoms.drop_first(), (count - 1) as nat);
            (t, if b is None { Some(s1.st > 0) } else { b }, f)
        }
    }
}

/// The end of a frame: the timers count down and the back buffer is shown.
pub open spec fn end_of_frame(s: MachineState) -> MachineState {
    MachineState {
        dt: if s.dt > 0 { (s.dt - 1) as u8 } else { 0 },
        st: if s.st > 0 { (s.st - 1) as u8 } else { 0 },
        front_buffer: s.back_buffer,
        ..s
    }
}

/// How a frame of execution ended.
#[derive(Debug, Clone, Copy, PartialEq, Eq, Structural)]
pub enum FrameResult {
    /// The frame ran; `beep` is the buzzer state to apply, if a cycle set one.
    Completed { beep: Option<bool> },
    /// The next cycle would panic; the interpreter stops.
    Fault,
}

/// A CHIP-8 machine together with its settings and its keypad.
pub struct Machine {
    pub memory: [u8; 0x1000],
    pub front_buffer: [bool; 2048],
    pub back_buffer: [bool; 2048],
    pub v: [u8; 0x10],
    pub pc: u16,
    pub i: u16,
    pub dt: u8,
    pub st: u8,
    pub instruction: Instruction,
    pub opcode: u16,
    pub stack: Vec<u16>,
    pub args: Args,
    pub keyboard: Keyboard,
    pub waiting_for_key_release: Option<usize>,
    pub is_next_frame: bool,
}

impl View for Machine {
    type V = MachineState;

    open spec fn view(&self) -> MachineState {
        MachineState {
            memory: self.memory@,
            front_buffer: self.front_buffer@,
            back_buffer: self.back_buffer@,
            v: self.v@,
            pc: self.pc,
            i: self.i,
            dt: self.dt,
            st: self.st,
            instruction: self.instruction,
            opcode: self.opcode,
            stack: self.stack@,
            keys: self.keyboard.key_list@,
            waiting_for_key_release: self.waiting_for_key_release,
            is_next_frame: self.is_next_frame,
        }
    }
}

impl Machine {
    /// A machine with cleared memory, display, registers and stack, the font loaded at
    /// `0x050` and `PC` at `0x200`.
    pub fn new(args: Args, keyboard: Keyboard) -> (m: Machine)
        ensures
            m@.memory == write_at(Seq::new(0x1000, |a: int| 0u8), font(), 0x50),
            m@.front_buffer == Seq::new(2048, |p: int| false),
            m@.back_buffer == Seq::new(2048, |p: int| false),
            m@.v == Seq::new(16, |k: int| 0u8),
            m.pc == 0x200,
            m.i == 0,
            m.dt == 0,
            m.st == 0,
            m.instruction == Instruction::Invalid,
            m.opcode == 0,
            m@.stack == Seq::<u16>::empty(),
            m.args == args,
            m.keyboard == keyboard,
            m.waiting_for_key_release is None,
            !m.is_next_frame,
    {
        let mut machine = Machine {
            memory: [0; 0x1000],
            front_buffer: [false; 2048],
            back_buffer: [false; 2048],
            v: [0; 0x10],
            pc: 0x200,
            i: 0,
            dt: 0,
            st: 0,
            instruction: Instruction::Invalid,
            opcode: 0,
            stack: Vec::new(),
            args,
            keyboard,
            waiting_for_key_release: Option::None,
            is_next_frame: false,
        };
        assert(machine.memory@ =~= Seq::new(0x1000, |a: int| 0u8));
        assert(machine.front_buffer@ =~= Seq::new(2048, |p: int| false));
        assert(machine.back_buffer@ =~= Seq::new(2048, |p: int| false));
        assert(machine.v@ =~= Seq::new(16, |k: int| 0u8));
        machine.inject_font();
        machine
    }

    /// The `length` bytes of memory from address `start` on.
    pub fn read_vector(&self, start: u16, length: u16) -> (bytes: Vec<u8>)
        requires
            length == 0 || start + length <= 0x1000,
        ensures
            bytes@.len() == length,
            forall|k: int| 0 <= k < length ==> #[trigger] bytes@[k] == self.memory@[start + k],
    {
        let mut v: Vec<u8> = Vec::new();
        let mut k: u16 = 0;
        while k < length
            invariant
                length == 0 || start + length <= 0x1000,
                k <= length,
                v@.len() == k,
                forall|j: int| 0 <= j < k ==> #[trigger] v@[j] == self.memory@[start + j],
            decreases length - k,
        {
            v.push(self.memory[(start + k) as usize]);
            k += 1;
        }
        v
    }

    /// Copies `v` into memory from address `start` on; an empty `v` changes nothing,
    /// whatever `start` is.
    pub fn write_vector(&mut self, v: Vec<u8>, start: usize)
        requires
            v@.len() == 0 || start + v@.len() <= 0x1000,
        ensures
            final(self)@ == (MachineState { memory: write_at(old(self)@.memory, v@, start as int), ..old(self)@ }),
            final(self).args == old(self).args,
            final(self).keyboard == old(self).keyboard,
    {
        let ghost s = self@;
        let mut k: usize = 0;
        while k < v.len()
            invariant
                v@.len() == 0 || start + v@.len() <= 0x1000,
                k <= v@.len(),
                self@ == (MachineState { memory: write_at(s.memory, v@.take(k as int), start as int), ..s }),
                self.args == old(self).args,
                self.keyboard == old(self).keyboard,
            decreases v@.len() - k,
        {
            self.memory[k + start] = v[k];
            k += 1;
            assert(self@ =~= (MachineState { memory: write_at(s.memory, v@.take(k as int), start as int), ..s }));
        }
        assert(v@.take(v@.len() as int) =~= v@);
    }

    /// Stores the built-in font at `0x050`.
    pub fn inject_font(&mut self)
        ensures
            final(self)@ == (MachineState { memory: write_at(old(self)@.memory, font(), 0x50), ..old(self)@ }),
            final(self).args == old(self).args,
            final(self).keyboard == old(self).keyboard,
    {
        let font_vec: Vec<u8> = vec![
            0xF0, 0x90, 0x90, 0x90, 0xF0, // 0
            0x20, 0x60, 0x20, 0x20, 0x70, // 1
            0xF0, 0x10, 0xF0, 0x80, 0xF0, // 2
            0xF0, 0x10, 0xF0, 0x10, 0xF0, // 3
            0x90, 0x90, 0xF0, 0x10, 0x10, // 4
            0xF0, 0x80, 0xF0, 0x10, 0xF0, // 5
            0xF0, 0x80, 0xF0, 0x90, 0xF0, // 6
            0xF0, 0x10, 0x20, 0x40, 0x40, // 7
            0xF0, 0x90, 0xF0, 0x90, 0xF0, // 8
            0xF0, 0x90, 0xF0, 0x10, 0xF0, // 9
            0xF0, 0x90, 0xF0, 0x90, 0x90, // A
            0xE0, 0x90, 0xE0, 0x90, 0xE0, // B
            0xF0, 0x80, 0x80, 0x80, 0xF0, // C
            0xE0, 0x90, 0x90, 0x90, 0xE0, // D
            0xF0, 0x80, 0xF0, 0x80, 0xF0, // E
            0xF0, 0x80, 0xF0, 0x80, 0x80, // F
        ];
        assert(font_vec@ =~= font());
        self.write_vector(font_vec, 0x050);
    }

    /// Loads a program image at `0x200`, where execution starts.
    pub fn load_program(&mut self, program: Vec<u8>)
        requires
            program@.len() <= 0xE00,
        ensures
            final(self)@ == (MachineState { memory: write_at(old(self)@.memory, program@, 0x200), ..old(self)@ }),
            final(self).args == old(self).args,
            final(self).keyboard == old(self).keyboard,
    {
        self.write_vector(program, 0x200);
    }

    /// The frame shown on the display.
    pub fn get_display_buffer(&self) -> (buf: &[bool; 2048])
        ensures
            buf@ == self.front_buffer@,
    {
        &self.front_buffer
    }

    /// Copies the back buffer, where instructions draw, to the front buffer, which is shown.
    pub fn swap_buffers(&mut self)
        ensures
            final(self)@ == (MachineState { front_buffer: old(self)@.back_buffer, ..old(self)@ }),
            final(self).args == old(self).args,
            final(self).keyboard == old(self).keyboard,
    {
        self.front_buffer = self.back_buffer;
    }

    /// The memory of the machine.
    pub fn get_memory(&self) -> (mem: &[u8; 0x1000])
        ensures
            mem@ == self.memory@,
    {
        &self.memory
    }

    /// Counts both timers down by one, stopping at zero.
    pub fn decrement_timers(&mut self)
        ensures
            final(self)@ == (MachineState {
                dt: if old(self).dt > 0 { (old(self).dt - 1) as u8 } else { 0 },
                st: if old(self).st > 0 { (old(self).st - 1) as u8 } else { 0 },
                ..old(self)@
            }),
            final(self).args == old(self).args,
            final(self).keyboard == old(self).keyboard,
    {
        if self.dt > 0 {
            self.dt -= 1;
        }
        if self.st > 0 {
            self.st -= 1;
        }
    }
}

impl Machine {
    /// Fetches the big-endian opcode at `PC` (bytes past the end of memory read as 0)
    /// and advances `PC` by 2.
    pub fn fetch(&mut self)
        requires
            old(self).pc + 2 <= 0xFFFF,
        ensures
            final(self)@ == spec_fetch(old(self)@),
            final(self).args == old(self).args,
            final(self).keyboard == old(self).keyboard,
    {
        self.opcode = opcode_at(&self.memory, self.pc as usize);
        self.pc += 2;
        assert(self@ =~= spec_fetch(old(self)@));
    }

    /// Decodes the current opcode under the jump quirk.
    fn decode(&mut self)
        ensures
            final(self)@ == spec_decode(old(self)@, old(self).args.jump),
            final(self).args == old(self).args,
            final(self).keyboard == old(self).keyboard,
    {
        self.instruction = Instruction::new(self.opcode, self.args.jump);
    }

    /// Executes the current instruction; `CXNN` draws a random byte.
    /// Returns `Some(1)` when `DXYN` waits for the next frame, `None` otherwise.
    pub fn execute(&mut self) -> (code: Option<i32>)
        requires
            execute_defined(old(self)@, old(self).args),
        ensures
            exists|r: u8| (final(self)@, code) == spec_execute(old(self)@, old(self).args, r),
            !(old(self).instruction is ICXNN) ==> (final(self)@, code) == spec_execute(old(self)@, old(self).args, 0),
            final(self).args == old(self).args,
            final(self).keyboard == old(self).keyboard,
    {
        let random = match self.instruction {
            Instruction::ICXNN(_, _) => random_byte(),
            _ => 0,
        };
        self.execute_with(random)
    }

    /// Runs one cycle: fetch, decode, execute. Returns the early-exit code of the
    /// execution (1 when `DXYN` waits for the next frame), or 0.
    pub fn cycle(&mut self) -> (code: i32)
        requires
            cycle_defined(old(self)@, old(self).args),
        ensures
            exists|r: u8| (final(self)@, code) == spec_cycle(old(self)@, old(self).args, r),
            final(self).args == old(self).args,
            final(self).keyboard == old(self).keyboard,
    {
        proof {
            reveal(cycle_defined);
        }
        let ghost s0 = self@;
        self.fetch();
        self.decode();
        let ghost s2 = self@;
        let return_code = self.execute();
        let code = match return_code {
            Some(code) => code,
            Option::None => 0,
        };
        proof {
            reveal(spec_cycle);
            let r = choose|r: u8| (self@, return_code) == spec_execute(s2, self.args, r);
            assert((self@, code) == spec_cycle(s0, self.args, r));
        }
        code
    }

    /// Whether the sound timer is running, so that the buzzer sounds.
    pub fn sound_on(&self) -> (on: bool)
        ensures
            on == (self.st > 0),
    {
        self.st > 0
    }

    /// Whether executing `instr` with program counter `pc` and opcode `opcode` in the
    /// current state runs to completion.
    fn can_execute(&self, instr: Instruction, pc: u16, opcode: u16) -> (ok: bool)
        requires
            instr.wf(),
        ensures
            ok == execute_defined(MachineState { instruction: instr, pc: pc, opcode: opcode, ..self@ }, self.args),
    {
        let can_skip = pc <= 0xFFFD;
        let can_back = pc >= 2;
        match instr {
            Instruction::I00EE => self.stack.len() > 0,
            Instruction::I3XNN(x, nn) => self.v[x] != nn || can_skip,
            Instruction::I4XNN(x, nn) => self.v[x] == nn || can_skip,
            Instruction::I5XY0(x, y) => self.v[x] != self.v[y] || can_skip,
            Instruction::I9XY0(x, y) => self.v[x] == self.v[y] || can_skip,
            Instruction::IBXNN(x, nnn) => nnn as u32 + self.v[x] as u32 <= 0xFFFF,
            Instruction::IBNNN(nnn) => nnn as u32 + self.v[0] as u32 <= 0xFFFF,
            Instruction::IDXYN(_, _, n) => {
                if self.args.vblank && !self.is_next_frame {
                    can_back
                } else {
                    n == 0 || self.i as u32 + n as u32 <= 0x1000
                }
            },
            Instruction::IEX9E(x) => self.v[x] < 16 && (!self.keyboard.get_key(self.v[x] as usize) || can_skip),
            Instruction::IEXA1(x) => self.v[x] < 16 && (self.keyboard.get_key(self.v[x] as usize) || can_skip),
            Instruction::IFX1E(x) => self.i as u32 + self.v[x] as u32 <= 0xFFFF,
            Instruction::IFX0A(_) => {
                if self.args.get_key_on_release {
                    match self.waiting_for_key_release {
                        Some(k) => k < 16 && (!self.keyboard.get_key(k) || can_back),
                        Option::None => can_back,
                    }
                } else {
                    self.keyboard.get_pressed().is_some() || can_back
                }
            },
            Instruction::IFX33(_) => self.i < 0xFFE,
            Instruction::IFX55(x) => (self.i as usize) + x < 0x1000,
            Instruction::IFX65(x) => (self.i as usize) + x < 0x1000,
            Instruction::Invalid => false,
            _ => true,
        }
    }

    /// Whether the next `cycle` runs to completion: the interpreter panics exactly when
    /// this is false.
    pub fn can_cycle(&self) -> (ok: bool)
        ensures
            ok == cycle_defined(self@, self.args),
    {
        reveal(cycle_defined);
        if self.pc > 0xFFFD {
            return false;
        }
        let opcode = opcode_at(&self.memory, self.pc as usize);
        let instr = Instruction::new(opcode, self.args.jump);
        let ok = self.can_execute(instr, self.pc + 2, opcode);
        assert(spec_decode(spec_fetch(self@), self.args.jump) == (MachineState { instruction: instr, pc: (self.pc + 2) as u16, opcode: opcode, ..self@ }));
        ok
    }

    /// Executes the current instruction, with `random` as the byte that `CXNN` draws.
    /// Returns `Some(1)` when `DXYN` waits for the next frame, `None` otherwise.
    pub fn execute_with(&mut self, random: u8) -> (code: Option<i32>)
        requires
            execute_defined(old(self)@, old(self).args),
        ensures
            (final(self)@, code) == spec_execute(old(self)@, old(self).args, random),
            final(self).args == old(self).args,
            final(self).keyboard == old(self).keyboard,
    {
        match self.instruction {
            Instruction::I00E0 | Instruction::I00EE | Instruction::I1NNN(_) | Instruction::I2NNN(_)
            | Instruction::I3XNN(_, _) | Instruction::I4XNN(_, _) | Instruction::I5XY0(_, _)
            | Instruction::I9XY0(_, _) | Instruction::IBXNN(_, _) | Instruction::IBNNN(_) => self.execute_flow(random),
            Instruction::I6XNN(_, _) | Instruction::I7XNN(_, _) | Instruction::I8XY0(_, _)
            | Instruction::I8XY1(_, _) | Instruction::I8XY2(_, _) | Instruction::I8XY3(_, _)
            | Instruction::I8XY4(_, _) | Instruction::I8XY5(_, _) | Instruction::I8XY6(_, _)
            | Instruction::I8XY7(_, _) | Instruction::I8XYE(_, _) | Instruction::ICXNN(_, _) => self.execute_alu(random),
            Instruction::IDXYN(_, _, _) => self.execute_draw(random),
            Instruction::IEX9E(_) | Instruction::IEXA1(_) | Instruction::IFX0A(_) => self.execute_keys(random),
            Instruction::IANNN(_) | Instruction::IFX07(_) | Instruction::IFX15(_) | Instruction::IFX18(_)
            | Instruction::IFX1E(_) | Instruction::IFX29(_) | Instruction::IFX33(_) => self.execute_regs(random),
            Instruction::IFX55(_) | Instruction::IFX65(_) => self.execute_transfer(random),
            Instruction::Invalid => Option::None,
        }
    }

    /// Control flow: clearing the display, calls and returns, jumps and skips.
    fn execute_flow(&mut self, random: u8) -> (code: Option<i32>)
        requires
            execute_defined(old(self)@, old(self).args),
            old(self).instruction is I00E0 || old(self).instruction is I00EE || old(self).instruction is I1NNN || old(self).instruction is I2NNN || old(self).instruction is I3XNN || old(self).instruction is I4XNN || old(self).instruction is I5XY0 || old(self).instruction is I9XY0 || old(self).instruction is IBXNN || old(self).instruction is IBNNN,
        ensures
            (final(self)@, code) == spec_execute(old(self)@, old(self).args, random),
            final(self).args == old(self).args,
            final(self).keyboard == old(self).keyboard,
    {
        let ghost s = self@;
        match self.instruction {
            Instruction::I00E0 => {
                self.back_buffer = [false; 2048];
            },
            Instruction::I00EE => {
                let top = self.stack.pop();
                match top {
                    Some(a) => {
                        self.pc = a;
                    },
                    Option::None => {},
                }
            },
            Instruction::I1NNN(nnn) => {
                self.pc = nnn;
            },
            Instruction::I2NNN(nnn) => {
                self.stack.push(self.pc);
                self.pc = nnn;
            },
            Instruction::I3XNN(x, nn) => {
                if self.v[x] == nn {
                    self.pc += 2;
                }
            },
            Instruction::I4XNN(x, nn) => {
                if self.v[x] != nn {
                    self.pc += 2;
                }
            },
            Instruction::I5XY0(x, y) => {
                if self.v[x] == self.v[y] {
                    self.pc += 2;
                }
            },
            Instruction::I9XY0(x, y) => {
                if self.v[x] != self.v[y] {
                    self.pc += 2;
                }
            },
            Instruction::IBXNN(x, nnn) => {
                self.pc = nnn + self.v[x] as u16;
            },
            Instruction::IBNNN(nnn) => {
                self.pc = nnn + self.v[0] as u16;
            },
            _ => {},
        }
        assert(self@ =~= spec_execute(s, self.args, random).0);
        Option::None
    }

    /// Register arithmetic and logic, and the random byte of `CXNN`.
    fn execute_alu(&mut self, random: u8) -> (code: Option<i32>)
        requires
            execute_defined(old(self)@, old(self).args),
            old(self).instruction is I6XNN || old(self).instruction is I7XNN || old(self).instruction is I8XY0 || old(self).instruction is I8XY1 || old(self).instruction is I8XY2 || old(self).instruction is I8XY3 || old(self).instruction is I8XY4 || old(self).instruction is I8XY5 || old(self).instruction is I8XY6 || old(self).instruction is I8XY7 || old(self).instruction is I8XYE || old(self).instruction is ICXNN,
        ensures
            (final(self)@, code) == spec_execute(old(self)@, old(self).args, random),
            final(self).args == old(self).args,
            final(self).keyboard == old(self).keyboard,
    {
        let ghost s = self@;
        match self.instruction {
            Instruction::I6XNN(x, nn) => {
                self.v[x] = nn;
            },
            Instruction::I7XNN(x, nn) => {
                self.v[x] = ((self.v[x] as u16 + nn as u16) % 256) as u8;
            },
            Instruction::I8XY0(x, y) => {
                self.v[x] = self.v[y];
            },
            Instruction::I8XY1(x, y) => {
                self.v[x] = self.v[x] | self.v[y];
                self.logic_quirk();
            },
            Instruction::I8XY2(x, y) => {
                self.v[x] = self.v[x] & self.v[y];
                self.logic_quirk();
            },
            Instruction::I8XY3(x, y) => {
                self.v[x] = self.v[x] ^ self.v[y];
                self.logic_quirk();
            },
            Instruction::I8XY4(x, y) => {
                let sum: u16 = self.v[x] as u16 + self.v[y] as u16;
                self.v[x] = (sum % 256) as u8;
                self.v[0xF] = if sum > 255 { 1 } else { 0 };
            },
            Instruction::I8XY5(x, y) => {
                let v_x = self.v[x];
                self.v[x] = ((v_x as u16 + 256 - self.v[y] as u16) % 256) as u8;
                self.v[0xF] = if v_x >= self.v[y] { 1 } else { 0 };
            },
            Instruction::I8XY6(x, y) => {
                if self.args.shift {
                    self.v[x] = self.v[y];
                }
                let v_x = self.v[x];
                self.v[x] = v_x / 2;
                self.v[0xF] = v_x % 2;
            },
            Instruction::I8XY7(x, y) => {
                let v_x = self.v[x];
                self.v[x] = ((self.v[y] as u16 + 256 - v_x as u16) % 256) as u8;
                self.v[0xF] = if self.v[y] >= v_x { 1 } else { 0 };
            },
            Instruction::I8XYE(x, y) => {
                if self.args.shift {
                    self.v[x] = self.v[y];
                }
                let v_x = self.v[x];
                self.v[x] = ((v_x as u16 * 2) % 256) as u8;
                self.v[0xF] = v_x / 128;
            },
            Instruction::ICXNN(x, nn) => {
                self.v[x] = random & nn;
            },
            _ => {},
        }
        assert(self@ =~= spec_execute(s, self.args, random).0);
        Option::None
    }

    /// Sprite drawing, with the wait for the next frame of the vblank quirk.
    fn execute_draw(&mut self, random: u8) -> (code: Option<i32>)
        requires
            execute_defined(old(self)@, old(self).args),
            old(self).instruction is IDXYN,
        ensures
            (final(self)@, code) == spec_execute(old(self)@, old(self).args, random),
            final(self).args == old(self).args,
            final(self).keyboard == old(self).keyboard,
    {
        let ghost s = self@;
        match self.instruction {
            Instruction::IDXYN(x, y, n) => {
                if self.args.vblank {
                    if !self.is_next_frame {
                        self.is_next_frame = true;
                        self.pc -= 2;
                        assert(self@ =~= spec_execute(s, self.args, random).0);
                        return Some(1);
                    } else {
                        self.is_next_frame = false;
                    }
                }
                let x_coord = (self.v[x] as usize) % 64;
                let y_coord = (self.v[y] as usize) % 32;
                let had_collision = draw_sprite(&mut self.back_buffer, &self.memory, self.i, x_coord, y_coord, n);
                self.v[0xF] = if had_collision { 1 } else { 0 };
            },
            _ => {},
        }
        assert(self@ =~= spec_execute(s, self.args, random).0);
        Option::None
    }

    /// Instructions that read the keypad.
    fn execute_keys(&mut self, random: u8) -> (code: Option<i32>)
        requires
            execute_defined(old(self)@, old(self).args),
            old(self).instruction is IEX9E || old(self).instruction is IEXA1 || old(self).instruction is IFX0A,
        ensures
            (final(self)@, code) == spec_execute(old(self)@, old(self).args, random),
            final(self).args == old(self).args,
            final(self).keyboard == old(self).keyboard,
    {
        let ghost s = self@;
        match self.instruction {
            Instruction::IEX9E(x) => {
                let key_is_pressed = self.keyboard.get_key(self.v[x] as usize);
                if key_is_pressed {
                    self.pc += 2;
                }
            },
            Instruction::IEXA1(x) => {
                let key_is_not_pressed = !self.keyboard.get_key(self.v[x] as usize);
                if key_is_not_pressed {
                    self.pc += 2;
                }
            },
            Instruction::IFX0A(x) => {
                if self.args.get_key_on_release {
                    match self.waiting_for_key_release {
                        Some(key_num) => {
                            if self.keyboard.get_key(key_num) {
                                self.pc -= 2;
                            } else {
                                self.v[x] = key_num as u8;
                                self.waiting_for_key_release = Option::None;
                            }
                        },
                        Option::None => {
                            self.waiting_for_key_release = self.keyboard.get_pressed();
                            self.pc -= 2;
                        },
                    }
                } else {
                    match self.keyboard.get_pressed() {
                        Some(key_num) => {
                            self.v[x] = key_num as u8;
                        },
                        Option::None => {
                            self.pc -= 2;
                        },
                    }
                }
            },
            _ => {},
        }
        assert(self@ =~= spec_execute(s, self.args, random).0);
        Option::None
    }

    /// The index register, the timers, the font and decimal conversion.
    fn execute_regs(&mut self, random: u8) -> (code: Option<i32>)
        requires
            execute_defined(old(self)@, old(self).args),
            old(self).instruction is IANNN || old(self).instruction is IFX07 || old(self).instruction is IFX15 || old(self).instruction is IFX18 || old(self).instruction is IFX1E || old(self).instruction is IFX29 || old(self).instruction is IFX33,
        ensures
            (final(self)@, code) == spec_execute(old(self)@, old(self).args, random),
            final(self).args == old(self).args,
            final(self).keyboard == old(self).keyboard,
    {
        let ghost s = self@;
        match self.instruction {
            Instruction::IANNN(nnn) => {
                self.i = nnn;
            },
            Instruction::IFX07(x) => {
                self.v[x] = self.dt;
            },
            Instruction::IFX15(x) => {
                self.dt = self.v[x];
            },
            Instruction::IFX18(x) => {
                self.st = self.v[x];
            },
            Instruction::IFX1E(x) => {
                let sum = self.i + self.v[x] as u16;
                if self.args.fx1e_i_overflow && sum > 0xFFF {
                    self.v[0xF] = 1;
                }
                self.i = sum % 4096;
            },
            Instruction::IFX29(x) => {
                self.i = (0x50 + (self.v[x] as usize * 5)) as u16;
            },
            Instruction::IFX33(x) => {
                let vx = self.v[x];
                let ones = vx % 10;
                let tens = (vx / 10) % 10;
                let hundreds = vx / 100;
                let base = self.i as usize;
                self.memory[base] = hundreds;
                self.memory[base + 1] = tens;
                self.memory[base + 2] = ones;
            },
            _ => {},
        }
        assert(self@ =~= spec_execute(s, self.args, random).0);
        Option::None
    }

    /// Transfers between registers and memory.
    fn execute_transfer(&mut self, random: u8) -> (code: Option<i32>)
        requires
            execute_defined(old(self)@, old(self).args),
            old(self).instruction is IFX55 || old(self).instruction is IFX65,
        ensures
            (final(self)@, code) == spec_execute(old(self)@, old(self).args, random),
            final(self).args == old(self).args,
            final(self).keyboard == old(self).keyboard,
    {
        let ghost s = self@;
        match self.instruction {
            Instruction::IFX55(x) => {
                let base = self.i as usize;
                let mut k: usize = 0;
                while k <= x
                    invariant
                        s == old(self)@,
                        s.instruction == Instruction::IFX55(x),
                        x < 16,
                        base == s.i,
                        base + x < 0x1000,
                        k <= x + 1,
                        self@ == (MachineState { memory: write_at(s.memory, s.v.take(k as int), base as int), ..s }),
                        self.args == old(self).args,
                        self.keyboard == old(self).keyboard,
                    decreases x + 1 - k,
                {
                    self.memory[base + k] = self.v[k];
                    k += 1;
                    assert(self@ =~= (MachineState { memory: write_at(s.memory, s.v.take(k as int), base as int), ..s }));
                }
                self.increment_i_for_quirks(x as u16);
            },
            Instruction::IFX65(x) => {
                let base = self.i as usize;
                let mut k: usize = 0;
                while k <= x
                    invariant
                        s == old(self)@,
                        s.instruction == Instruction::IFX65(x),
                        x < 16,
                        base == s.i,
                        base + x < 0x1000,
                        k <= x + 1,
                        self@ == (MachineState { v: Seq::new(16, |j: int| if j < k { s.memory[s.i + j] } else { s.v[j] }), ..s }),
                        self.args == old(self).args,
                        self.keyboard == old(self).keyboard,
                    decreases x + 1 - k,
                {
                    self.v[k] = self.memory[base + k];
                    k += 1;
                    assert(self@ =~= (MachineState { v: Seq::new(16, |j: int| if j < k { s.memory[s.i + j] } else { s.v[j] }), ..s }));
                }
                self.increment_i_for_quirks(x as u16);
            },
            _ => {},
        }
        assert(self@ =~= spec_execute(s, self.args, random).0);
        Option::None
    }


    /// Advances `I` past the registers transferred by `FX55`/`FX65`, as the quirks select.
    fn increment_i_for_quirks(&mut self, x: u16)
        requires
            old(self).i + x + 1 <= 0xFFFF,
        ensures
            final(self).i == i_after_transfer(old(self).args, old(self).i, x as int),
            final(self).memory == old(self).memory,
            final(self).front_buffer == old(self).front_buffer,
            final(self).back_buffer == old(self).back_buffer,
            final(self).v == old(self).v,
            final(self).pc == old(self).pc,
            final(self).dt == old(self).dt,
            final(self).st == old(self).st,
            final(self).instruction == old(self).instruction,
            final(self).opcode == old(self).opcode,
            final(self).stack == old(self).stack,
            final(self).args == old(self).args,
            final(self).keyboard == old(self).keyboard,
            final(self).waiting_for_key_release == old(self).waiting_for_key_release,
            final(self).is_next_frame == old(self).is_next_frame,
    {
        if !self.args.memory_leave_i_unchanged {
            self.i = if self.args.memory_increment_by_x {
                self.i + x
            } else {
                self.i + x + 1
            }
        }
    }

    /// Clears `VF` when the logic quirk is on.
    fn logic_quirk(&mut self)
        ensures
            final(self)@ == logic_quirk(old(self)@, old(self).args),
            final(self).args == old(self).args,
            final(self).keyboard == old(self).keyboard,
    {
        if self.args.logic {
            self.v[0xF] = 0;
        }
        assert(self@ =~= logic_quirk(old(self)@, old(self).args));
    }
}

impl Machine {
    /// Runs up to `count` cycles, stopping after a cycle that returns 1 and before a
    /// cycle that would panic. Returns the buzzer state after the last cycle that
    /// completed normally, and whether the run stopped at a cycle that would panic.
    fn run_cycles(&mut self, count: u32) -> (res: (Option<bool>, bool))
        ensures
            exists|rs: Seq<u8>| #[trigger] spec_run(old(self)@, old(self).args, rs, count as nat) == (final(self)@, res.0, res.1),
            final(self).args == old(self).args,
            final(self).keyboard == old(self).keyboard,
        decreases count,
    {
        if count == 0 {
            assert(spec_run(self@, self.args, Seq::empty(), 0) == (self@, Option::<bool>::None, false));
            return (Option::None, false);
        }
        if !self.can_cycle() {
            assert(spec_run(self@, self.args, Seq::empty(), count as nat) == (self@, Option::<bool>::None, true));
            return (Option::None, true);
        }
        let ghost s0 = self@;
        let code = self.cycle();
        let ghost s1 = self@;
        let ghost r = choose|r: u8| (s1, code) == spec_cycle(s0, self.args, r);
        if code == 1 {
            assert(spec_run(s0, self.args, seq![r], count as nat) == (s1, Option::<bool>::None, false));
            return (Option::None, false);
        }
        let st1 = self.st;
        let (b, fault) = self.run_cycles(count - 1);
        let beep = match b {
            Option::None => Some(st1 > 0),
            Some(on) => Some(on),
        };
        proof {
            let rest = choose|rs: Seq<u8>| #[trigger] spec_run(s1, self.args, rs, (count - 1) as nat) == (self@, b, fault);
            let rs = seq![r] + rest;
            assert(rs.drop_first() =~= rest);
            assert(spec_run(s0, self.args, rs, count as nat) == (self@, beep, fault));
        }
        (beep, fault)
    }

    /// Runs one frame: unless step mode is on, up to `instructions_per_frame` cycles
    /// (stopping after a draw that waits for the next frame); then the timers count down
    /// and the back buffer is shown. Returns `Fault`, with nothing more done, when a
    /// cycle would panic.
    pub fn run_frame(&mut self) -> (res: FrameResult)
        ensures
            final(self).args == old(self).args,
            final(self).keyboard == old(self).keyboard,
            old(self).args.step_mode ==> final(self)@ == end_of_frame(old(self)@)
                && res == (FrameResult::Completed { beep: Option::None }),
            !old(self).args.step_mode ==> exists|rs: Seq<u8>| {
                let (t, b, f) = #[trigger] spec_run(old(self)@, old(self).args, rs, old(self).args.instructions_per_frame as nat);
                &&& f ==> res == FrameResult::Fault
                &&& !f ==> res == (FrameResult::Completed { beep: b }) && final(self)@ == end_of_frame(t)
            },
    {
        let mut beep: Option<bool> = Option::None;
        if !self.args.step_mode {
            let ghost s0 = self@;
            let (b, fault) = self.run_cycles(self.args.instructions_per_frame);
            let ghost t = self@;
            let ghost rs = choose|rs: Seq<u8>| #[trigger] spec_run(s0, self.args, rs, self.args.instructions_per_frame as nat) == (t, b, fault);
            if fault {
                assert(spec_run(s0, self.args, rs, self.args.instructions_per_frame as nat) == (t, b, fault));
                return FrameResult::Fault;
            }
            beep = b;
            self.decrement_timers();
            self.swap_buffers();
            assert(self@ =~= end_of_frame(t));
            assert(spec_run(s0, self.args, rs, self.args.instructions_per_frame as nat) == (t, b, fault));
            return FrameResult::Completed { beep };
        }
        self.decrement_timers();
        self.swap_buffers();
        assert(self@ =~= end_of_frame(old(self)@));
        FrameResult::Completed { beep }
    }
}

} // verus!
