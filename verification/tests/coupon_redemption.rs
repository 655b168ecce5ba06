use rebond::{Address, ContractError, CouponCall, CouponEntry, CouponRedemptionContract};

fn addr(tag: &str) -> Address {
    Address::from_bytes(tag.as_bytes().to_vec())
}

/// Reverts like the contract call: panics with the error's message.
fn revert_on<T>(r: Result<T, ContractError>) -> T {
    match r {
        Ok(v) => v,
        Err(e) => panic!("{}", e.message()),
    }
}

fn setup() -> (CouponRedemptionContract, Address, Address, Address) {
    let mut client = CouponRedemptionContract::new();
    let issuer = addr("GISSUER");
    let bond_contract = addr("CBOND");
    let usdc_token = addr("CUSDC");
    revert_on(client.initialize(issuer.clone(), bond_contract.clone(), usdc_token.clone()));
    (client, issuer, bond_contract, usdc_token)
}

#[test]
fn test_initialize_stores_addresses() {
    let (client, _, bond_contract, usdc_token) = setup();
    assert_eq!(revert_on(client.get_bond_contract()), bond_contract);
    assert_eq!(revert_on(client.get_usdc_token()), usdc_token);
}

#[test]
fn coupon_double_initialize_refused() {
    let (mut client, issuer, bond_contract, usdc_token) = setup();
    assert_eq!(
        client.initialize(issuer, bond_contract, usdc_token),
        Err(ContractError::AlreadyInitialized)
    );
}

#[test]
#[should_panic(expected = "not implemented, Tranche 2")]
fn test_pay_coupon_not_implemented_reverts() {
    let (client, _, _, _) = setup();
    let holders: Vec<Address> = Vec::new();
    revert_on(client.pay_coupon(&holders));
}

#[test]
#[should_panic(expected = "not implemented, Tranche 2")]
fn test_redeem_not_implemented_reverts() {
    let (client, _, _, _) = setup();
    let holder = addr("GHOLDER");
    revert_on(client.redeem(&holder));
}

// ---------------------------------------------------------------------------
// Further cases
// ---------------------------------------------------------------------------

#[test]
fn coupon_calls_before_initialize_are_refused() {
    let client = CouponRedemptionContract::new();
    let holders: Vec<Address> = vec![addr("GHOLDER")];
    assert_eq!(client.pay_coupon(&holders), Err(ContractError::NotInitialized));
    assert_eq!(client.redeem(&addr("GHOLDER")), Err(ContractError::NotInitialized));
    assert_eq!(client.get_bond_contract(), Err(ContractError::NotInitialized));
    assert_eq!(client.get_usdc_token(), Err(ContractError::NotInitialized));
    assert_eq!(client.required_signer(&CouponCall::PayCoupon), Err(ContractError::NotInitialized));
}

#[test]
fn coupon_second_initialize_keeps_first_links() {
    let (mut client, issuer, bond_contract, usdc_token) = setup();
    assert_eq!(
        client.initialize(addr("GX"), addr("CX"), addr("CY")),
        Err(ContractError::AlreadyInitialized)
    );
    assert_eq!(revert_on(client.required_signer(&CouponCall::PayCoupon)), Some(issuer));
    assert_eq!(revert_on(client.get_bond_contract()), bond_contract);
    assert_eq!(revert_on(client.get_usdc_token()), usdc_token);
}

#[test]
fn coupon_payouts_refused_with_holders() {
    let (client, _, _, _) = setup();
    let holders: Vec<Address> = vec![addr("GA"), addr("GB")];
    assert_eq!(client.pay_coupon(&holders), Err(ContractError::NotImplemented));
    assert_eq!(client.redeem(&addr("GA")), Err(ContractError::NotImplemented));
}

#[test]
fn coupon_entry_holds_its_fields() {
    let entry = CouponEntry { payment_timestamp: 1_900_000_000, rate_bps: 125 };
    assert_eq!(entry.payment_timestamp, 1_900_000_000);
    assert_eq!(entry.rate_bps, 125);
}

#[test]
fn coupon_required_signers() {
    let (client, issuer, _, _) = setup();
    let holder = addr("GHOLDER");
    assert_eq!(revert_on(client.required_signer(&CouponCall::PayCoupon)), Some(issuer));
    assert_eq!(
        revert_on(client.required_signer(&CouponCall::Redeem { holder: holder.clone() })),
        Some(holder)
    );
    assert_eq!(revert_on(client.required_signer(&CouponCall::Initialize)), None);
    assert_eq!(revert_on(client.required_signer(&CouponCall::GetBondContract)), None);
}
