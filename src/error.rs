use vstd::prelude::*;

verus! {

/// The arithmetic operation that left the range of an amount.
#[derive(Clone, Copy, Debug, PartialEq, Eq, Structural)]
pub enum OverflowOperation {
    Add,
    Sub,
}

/// Errors of the balance arithmetic.
#[derive(Clone, Copy, Debug, PartialEq, Eq, Structural)]
pub enum GenericError {
    /// An addition passed the largest amount, or a subtraction took more
    /// than an entry held; the operands are kept for diagnostics.
    Overflow { operation: OverflowOperation, operand1: u128, operand2: u128 },
    /// A subtraction named a key that holds nothing, or an operation was
    /// made on the wrong kind of balance.
    EmptyBalance {},
    /// A token balance would have to hold amounts of more than one issuer.
    MixedBalance {},
}

} // verus!
