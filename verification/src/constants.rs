use vstd::prelude::*;

verus! {

/// Width of the screen in pixels.
pub const SCREEN_WIDTH: usize = 64;

/// Height of the screen in pixels.
pub const SCREEN_HEIGHT: usize = 32;

/// Number of pixels of the screen, stored row by row.
pub const SCREEN_SIZE: usize = 2048;

/// Number of bytes of memory.
pub const RAM_SIZE: usize = 4096;

/// Number of general registers, V0 to VF.
pub const V_SIZE: usize = 16;

/// Number of return addresses that the call stack can hold.
pub const STACK_SIZE: usize = 16;

/// Number of keys of the hexadecimal keypad.
pub const KEYPAD_SIZE: usize = 16;

/// Address at which a program image is loaded and at which execution starts.
pub const START_ADDR: u16 = 0x200;

} // verus!
