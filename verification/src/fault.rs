use vstd::prelude::*;

verus! {

/// A fatal machine fault. Every fault is surfaced to the caller as a typed
/// result; none is silently recovered inside the core, and a failed operation
/// leaves the machine unchanged.
#[derive(Clone, Copy, Debug, PartialEq, Eq, Structural)]
pub enum Fault {
    /// A memory access outside the 4096-byte address space. Carries the base
    /// address of the attempted access (the program counter for a fetch, the
    /// index register for a transfer through I).
    AddressOutOfRange(u16),
    /// A ROM image that does not fit between its origin and the end of memory.
    RomTooLarge,
    /// CALL with all 16 call-stack slots already in use.
    StackOverflow,
    /// RET with an empty call stack.
    StackUnderflow,
    /// Execution of an opcode that matches no known pattern. Carries the raw
    /// opcode value and the program counter at the time of execution.
    UnknownOpcode(u16, u16),
}

} // verus!
