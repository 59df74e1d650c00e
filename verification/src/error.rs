use crate::vm::VmError;
use vstd::prelude::*;

verus! {

/// The errors the library reports to its caller: a machine fault, or a
/// program image too large to load.
#[derive(Debug, Clone, Copy, PartialEq, Eq, Structural)]
pub enum Error {
    /// A fault raised by the machine while stepping.
    VmError(VmError),
    /// The program image does not fit in memory above the load address.
    InvalidRom,
}

impl From<VmError> for Error {
    fn from(value: VmError) -> (r: Self) {
        Error::VmError(value)
    }
}

impl vstd::std_specs::convert::FromSpecImpl<VmError> for Error {
    open spec fn obeys_from_spec() -> bool {
        true
    }

    open spec fn from_spec(value: VmError) -> Self {
        Error::VmError(value)
    }
}

} // verus!
