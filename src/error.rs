use vstd::prelude::*;

verus! {

/// The ways in which a pool operation can be rejected.
#[derive(PartialEq, Eq, Structural, Clone, Copy, Debug)]
pub enum PoolError {
    /// The pool is locked: deposits, swaps and withdrawals are refused.
    PoolIsLocked,
    /// The operation would mint no pool shares.
    LpTokenAmountCannotBeZero,
    /// A computed amount violates a bound that the caller supplied.
    SlippageExceeded,
    /// An arithmetic step would leave the 64-bit range of its result.
    OverFlowError,
    /// A requested quantity is zero or out of its domain.
    InvalidAmount,
    /// A ratio was asked of a zero denominator (an empty vault or no shares).
    DivisionByZero,
}

impl PoolError {
    /// A short human-readable description of the error.
    pub fn message(&self) -> (r: &'static str)
        ensures
            *self == PoolError::PoolIsLocked ==> r@ == "Pool is locked"@,
            *self == PoolError::LpTokenAmountCannotBeZero ==> r@ == "Lp token amount cannot be 0"@,
            *self == PoolError::SlippageExceeded ==> r@ == "Slippage exceeded"@,
            *self == PoolError::OverFlowError ==> r@ == "Overflow Error"@,
            *self == PoolError::InvalidAmount ==> r@ == "Invalid Amount"@,
            *self == PoolError::DivisionByZero ==> r@ == "Division by zero"@,
    {
        match self {
            PoolError::PoolIsLocked => "Pool is locked",
            PoolError::LpTokenAmountCannotBeZero => "Lp token amount cannot be 0",
            PoolError::SlippageExceeded => "Slippage exceeded",
            PoolError::OverFlowError => "Overflow Error",
            PoolError::InvalidAmount => "Invalid Amount",
            PoolError::DivisionByZero => "Division by zero",
        }
    }
}

} // verus!
