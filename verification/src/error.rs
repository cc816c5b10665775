use vstd::prelude::*;

verus! {

/// Everything that can abort an invocation.  Every check is fail-fast: the
/// first violated precondition aborts the whole invocation and no storage is
/// mutated.
#[derive(Clone, Copy, Debug, PartialEq, Eq, Structural)]
pub enum RecordError {
    /// The instruction bytes held an unknown opcode or a malformed payload.
    InvalidInstruction,
    /// The authority does not carry a transaction-level signature.
    MissingSignature,
    /// The target storage object is not owned by the processing program.
    IllegalOwner,
    /// The supplied storage address does not match the derived address.
    InvalidPda,
    /// The stored record has never been initialized.
    UninitializedAccount,
    /// The encoded record would not fit the fixed storage capacity.
    InvalidDataLength,
    /// The allocation collaborator refused to create the storage object,
    /// for instance because the address is already occupied.
    AllocationFailure,
}

} // verus!
