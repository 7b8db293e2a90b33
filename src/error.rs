use vstd::prelude::*;

verus! {

/// Every way an operation of the emulator can fail. Each one ends the operation
/// that raised it; none is retried.
#[derive(Debug, Clone, Copy, PartialEq, Eq, Structural)]
pub enum SimError {
    /// The program counter (a byte offset) points past the end of the program.
    PcOutOfBounds(usize),
    /// The instruction at this program counter has no known opcode.
    IllegalOpcode(usize),
    /// A divide instruction found a zero divisor.
    DivisionByZero,
    /// A word read at this address would pass the end of memory.
    MemoryReadOutOfBounds(usize),
    /// A word write at this address would pass the end of memory.
    MemoryWriteOutOfBounds(usize),
    /// A bulk copy into device memory would pass the end of memory.
    DmaOutOfBounds,
    /// A kernel ran into the cycle ceiling without halting.
    WatchdogTimeout,
}

} // verus!
