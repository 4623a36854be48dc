pub mod registry;
pub mod storage;
pub mod counter;

use vstd::prelude::*;

verus! {

/// Why a counter operation aborted.
#[derive(Clone, Copy, Debug, PartialEq, Eq, Structural)]
pub enum CounterError {
    /// A required name is not bound in the resolving registry.
    MissingBinding,
    /// The name is bound, but not to a storage reference.
    WrongReferenceKind,
    /// The storage cell holds a value of another type than expected.
    ReadFailure,
    /// The storage cell exists but holds no value.
    ValueAbsent,
    /// The called operation is not declared by the installed logic.
    UnknownEntryPoint,
}

} // verus!
