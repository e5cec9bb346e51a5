//! An interpreter for the CHIP-8 virtual machine.
//!
//! The heart of the crate is the instruction decoder (`instruction`), the
//! machine as a mathematical value with the meaning of every operation
//! (`machine`), and the interpreter that the host drives (`emulator`), whose
//! every function is proved to do to its state what the model says. Around
//! them stand the keys (`keys`), the font (`fontset`), the drawing of
//! sprites (`sprite`), and what a window shows of a machine: shapes
//! (`draw`), the list of instructions (`instruction_list`) and the keypad
//! (`keypad`).

pub mod constants;
pub mod draw;
pub mod emulator;
pub mod error;
pub mod fontset;
pub mod hex;
pub mod instruction;
pub mod instruction_list;
pub mod keypad;
pub mod keys;
pub mod machine;
mod random;
pub mod sprite;
