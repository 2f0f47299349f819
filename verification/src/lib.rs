//! A CHIP-8 interpreter core: instruction decoding, the machine state and its
//! execution rules, the keypad, the quirk settings and the program database.
pub mod hex;
pub mod instruction;
pub mod constants;
pub mod screen;
pub mod keyboard;
pub mod cli;
pub mod machine;
pub mod chip8;
pub mod program_registry;
pub mod laws;
