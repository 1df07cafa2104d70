use vstd::prelude::*;

verus! {

/// Why the tier contract refused a request.
#[derive(Clone, Debug, PartialEq, Eq)]
pub enum ContractError {
    /// "Deposits array is empty"
    EmptyDeposits,
    /// "Specify deposits in decreasing order"
    UnsortedDeposits,
    /// "Unauthorized"
    Unauthorized,
    /// "Contract is not active"
    ContractNotActive,
    /// "No Funds"
    NoFunds,
    /// "Not Allow Zero Amount"
    ZeroAmount,
    /// "Unsopported token"
    UnsupportedToken,
    /// "Not Allowed Multiple Funds"
    MultipleFunds,
    /// "Reached max tier"
    ReachedMaxTier,
    /// "You should deposit at least {usd} USD ({usei} USEI)"
    DepositTooLow { usd: u128, usei: u128 },
    /// "Nothing to claim"
    NothingToClaim,
    /// "There is nothing to withdraw"
    NothingToWithdraw,
    /// "Redelegation to the same validator"
    SameValidator,
    /// "Cannot redelegate full delegation amount"
    CannotRedelegateFull,
}

} // verus!
