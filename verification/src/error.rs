use vstd::prelude::*;

verus! {

/// A condition that stops interpretation. None of them is recovered from:
/// the machine is left as it was before the call that reported it.
#[derive(Debug, Clone, Copy, PartialEq, Eq, Structural)]
pub enum EmuError {
    /// The program image has `len` bytes and does not fit between the start
    /// address and the end of memory.
    RomTooLarge { len: usize },
    /// The word `opcode` stands for no operation.
    UnknownOpcode { opcode: u16 },
    /// A call was made with sixteen return addresses already on the stack.
    StackOverflow,
    /// A return was made with no return address on the stack.
    StackUnderflow,
    /// The operation needs memory up to `address`, which is beyond the end
    /// of memory.
    MemoryOutOfRange { address: usize },
    /// The operation names register `index`, and there are only sixteen.
    RegisterOutOfRange { index: usize },
    /// The operation asks for the state of key `key`, and there are only
    /// sixteen.
    KeyOutOfRange { key: u8 },
    /// The program counter `counter` is too low to be moved back by two
    /// instructions.
    CounterUnderflow { counter: u16 },
}

} // verus!
