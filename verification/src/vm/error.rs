use vstd::prelude::*;

verus! {

/// The fault conditions the machine can signal while it runs.
///
/// Every fault is returned to the caller of the triggering operation; the
/// machine never panics and performs no internal recovery.
#[derive(Debug, Clone, Copy, PartialEq, Eq, Structural)]
pub enum VmError {
    /// A fetch or an indexed memory access touched an address outside 0..4096.
    InvalidAddress(u16),
    /// No decode pattern matched the fetched instruction word.
    InvalidOpcode(u16),
    /// A key index of 16 or more was used.
    InvalidKey(u8),
    /// A return instruction found no frame on the call stack.
    EmptyStack,
}

} // verus!
