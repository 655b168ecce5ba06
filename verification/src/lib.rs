//! Verified core of the Rebond green bond platform: the rules of the KYC
//! whitelist registry, the green bond security token and the coupon and
//! redemption module, written as state machines over plain values.
//!
//! Each contract is a value whose methods perform one call of the contract.
//! A method either succeeds and moves the contract to its next state, or
//! returns the error with which the contract call is reverted, leaving the
//! state untouched. What the contract learns from outside its own storage
//! (the KYC whitelist's answer for an address) is handed to the methods as
//! arguments. Which address must sign a call is decided by each contract's
//! `required_signer`; the host checks that signature before the call.
//!
//! Each module states the laws of its contract as proof functions over the
//! contract's view.

pub mod address;
pub mod coupon_redemption;
pub mod error;
pub mod green_bond;
pub mod kyc_whitelist;
pub mod ledger;

pub use address::Address;
pub use coupon_redemption::{
    CouponCall, CouponEntry, CouponLinks, CouponLinksView, CouponRedemptionContract, CouponView,
};
pub use error::ContractError;
pub use green_bond::{BondCall, BondInfo, BondTerms, BondTermsView, BondView, GreenBondContract};
pub use kyc_whitelist::{KycWhitelistContract, WhitelistCall, WhitelistView};
