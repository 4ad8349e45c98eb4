use vstd::prelude::*;

verus! {

/// Failure causes, surfaced as distinct stable codes so that callers can
/// branch on the cause.  Every error aborts the enclosing operation with no
/// partial mutation.
#[derive(Clone, Copy, Debug, PartialEq, Eq, Structural)]
pub enum ContractError {
    /// The caller lacks the required registry membership.
    Unauthorized,
    /// A duplicate category name on creation, or a reference to a category
    /// that does not exist.
    InvalidCategory,
    /// A judge tried to vote on an entry whose maker address equals the
    /// judge's own address.
    InvalidMaker,
    /// An entry or a ballot was absent on a direct lookup.
    NotFound,
    /// An address failed the runtime's validation.
    MalformedInput,
    /// The membership registry could not be consulted; fatal, no retry.
    CollaboratorUnavailable,
    /// Arithmetic overflow in the entry counter or in a ballot sum.
    Overflow,
}

} // verus!
