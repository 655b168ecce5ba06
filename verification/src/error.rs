use vstd::prelude::*;

verus! {

/// Why a contract call is rejected.
#[derive(Clone, Copy, Debug, PartialEq, Eq, Structural)]
pub enum ContractError {
    /// The contract was already initialised.
    AlreadyInitialized,
    /// The contract has not been initialised yet.
    NotInitialized,
    /// A bond was set up with a supply cap that is zero or negative.
    NonPositiveTotalSupply,
    /// A bond was set up with a coupon rate above 10 000 basis points.
    CouponRateTooHigh,
    /// A mint, transfer or burn of zero or a negative amount.
    NonPositiveAmount,
    /// A party of a mint or transfer is not in the KYC whitelist.
    NotWhitelisted,
    /// A mint would take the circulating supply above the cap.
    ExceedsSupplyCap,
    /// A transfer or burn of more tokens than the holder has.
    InsufficientBalance,
    /// An addition would leave the range of its integer type.
    ArithmeticOverflow,
    /// The operation is not available yet.
    NotImplemented,
}

/// The message with which a contract call that fails with `e` is reverted.
pub open spec fn error_message(e: ContractError) -> Seq<char> {
    match e {
        ContractError::AlreadyInitialized => "already initialized"@,
        ContractError::NotInitialized => "not initialized"@,
        ContractError::NonPositiveTotalSupply => "total_supply must be positive"@,
        ContractError::CouponRateTooHigh => "coupon_rate_bps must be <= 10000"@,
        ContractError::NonPositiveAmount => "amount must be positive"@,
        ContractError::NotWhitelisted => "address not in KYC whitelist"@,
        ContractError::ExceedsSupplyCap => "exceeds total_supply cap"@,
        ContractError::InsufficientBalance => "insufficient balance"@,
        ContractError::ArithmeticOverflow => "attempt to add with overflow"@,
        ContractError::NotImplemented => "not implemented, Tranche 2"@,
    }
}

impl ContractError {
    /// The revert message of this error.
    pub fn message(&self) -> (m: &'static str)
        ensures
            m@ == error_message(*self),
    {
        match self {
            ContractError::AlreadyInitialized => "already initialized",
            ContractError::NotInitialized => "not initialized",
            ContractError::NonPositiveTotalSupply => "total_supply must be positive",
            ContractError::CouponRateTooHigh => "coupon_rate_bps must be <= 10000",
            ContractError::NonPositiveAmount => "amount must be positive",
            ContractError::NotWhitelisted => "address not in KYC whitelist",
            ContractError::ExceedsSupplyCap => "exceeds total_supply cap",
            ContractError::InsufficientBalance => "insufficient balance",
            ContractError::ArithmeticOverflow => "attempt to add with overflow",
            ContractError::NotImplemented => "not implemented, Tranche 2",
        }
    }
}

} // verus!
