use vstd::prelude::*;

verus! {

/// The error kinds with which an operation aborts. Every error aborts the
/// whole invocation and is handed back to the host unchanged; nothing is
/// retried and nothing is downgraded to a warning.
#[derive(Clone, Copy, Debug, PartialEq, Eq, Structural)]
pub enum TrustError {
    /// The payload fails to decode into a known opcode and field layout.
    MalformedInstruction,
    /// A supplied account's owner is not this module, or its identity does
    /// not match the expected reporter, sender or car argument.
    OwnershipMismatch,
    /// A storage slot expected to hold a trust record does not parse as one.
    RecordDecodeFailure,
    /// The host rejected account creation or funding.
    HostAllocationFailure,
    /// A record failed to serialize back into its slot.
    EncodingFailure,
}

} // verus!
