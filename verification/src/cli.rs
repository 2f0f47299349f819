//! Interpreter settings: the program to run, the debugger switches and the quirk
//! flags that select between the behaviours of the various CHIP-8 dialects.
use vstd::prelude::*;

verus! {

/// Settings of a run of the interpreter.
#[derive(Debug)]
pub struct Args {
    /// The program input file.
    pub file: String,
    /// Debug mode: show the debugger panels.
    pub debug: bool,
    /// Step mode: execute one cycle per request instead of running freely.
    pub step_mode: bool,
    /// Shift quirk: `8XY6`/`8XYE` take `VY` as input (shifted into `VX`) when set, and
    /// shift `VX` in place otherwise.
    pub shift: bool,
    /// Jump quirk: `BXNN` jumps to `XNN + VX` when set, and `BNNN` to `NNN + V0` otherwise.
    pub jump: bool,
    /// `FX1E` sets `VF` to 1 when `I` passes `0xFFF`.
    pub fx1e_i_overflow: bool,
    /// `FX0A` completes when the key is released (when set) instead of when it is pressed.
    pub get_key_on_release: bool,
    /// Number of instructions executed per frame.
    pub instructions_per_frame: u32,
    /// `FX55`/`FX65` advance `I` by `X` when set, and by `X + 1` otherwise.
    pub memory_increment_by_x: bool,
    /// `FX55`/`FX65` leave `I` unchanged when set.
    pub memory_leave_i_unchanged: bool,
    /// `DXYN` waits for the start of the next frame before drawing.
    pub vblank: bool,
    /// `8XY1`/`8XY2`/`8XY3` clear `VF` when set.
    pub logic: bool,
}

} // verus!
