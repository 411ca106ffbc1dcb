use vstd::prelude::*;

verus! {

/// Why an invocation was aborted. Every failure aborts the whole invocation:
/// the functions of this crate that return one leave their `&mut` arguments
/// as they found them.
#[derive(Clone, Copy, Debug, PartialEq, Eq, Structural)]
pub enum HookError {
    /// The receiving owner is not on the allow-list, or the auxiliary
    /// account handed to the hook is missing, misplaced or malformed.
    ValidationRejection,
    /// The administrative authority cannot prepay the storage of a record.
    ResourceAccountingFailure,
    /// An entry that must not exist yet is already there, or a place for a
    /// new entry cannot be found.
    DuplicateOrMissingEntry,
    /// The resolver metadata does not fit the space reserved for it.
    SerializationSizingFailure,
}

} // verus!
