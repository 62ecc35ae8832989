use vstd::prelude::*;

verus! {

/// Why an operation was refused. A refused operation changes nothing.
#[derive(Clone, Copy, Debug, PartialEq, Eq, Structural)]
pub enum Error {
    /// The caller is not the identity that the operation is reserved for.
    Unauthorized,
    /// A debit would take a spendable balance below zero.
    InsufficientBalance,
    /// A debit would take a stake below zero, or a stake does not cover
    /// what an agent registration asks for.
    InsufficientStake,
    /// No dispute has the given id.
    NotFound,
    /// The dispute's status does not allow the requested transition.
    InvalidState,
    /// A service was reported as failed.
    ServiceFailed,
    /// A tracked quantity would leave its machine range: an amount above
    /// `u128::MAX`, a vote count above `u32::MAX`, or more entries than a
    /// storage table can count.
    Overflow,
}

} // verus!
