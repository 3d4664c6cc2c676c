use vstd::prelude::*;

verus! {

/// The error taxonomy of the coherence layer.
///
/// Every failure of a coherence operation is returned to the immediate
/// caller as one of these values; no operation swallows a failure, and a
/// failed operation leaves the freshness table exactly as it was.
#[derive(Clone, Copy, Debug, PartialEq, Eq, Structural)]
pub enum Error {
    /// A device refused or failed to allocate a memory handle of the
    /// requested size.
    AllocationError,
    /// No device pair in the attempted direction(s) supports a direct
    /// byte transfer; multi-hop routing is never attempted.
    NoMemoryTransferRoute,
    /// A read was requested on a tensor that holds no fresh copy on any
    /// device, i.e. one that has never been written.
    UninitializedMemory,
}

} // verus!
