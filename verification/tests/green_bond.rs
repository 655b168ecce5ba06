use rebond::{Address, BondCall, BondTerms, ContractError, GreenBondContract, KycWhitelistContract};

fn addr(tag: &str) -> Address {
    Address::from_bytes(tag.as_bytes().to_vec())
}

/// Reverts like the contract call: panics with the error's message.
fn revert_on<T>(r: Result<T, ContractError>) -> T {
    match r {
        Ok(v) => v,
        Err(e) => panic!("{}", e.message()),
    }
}

/// A whitelist contract initialised with `admin`, and its address.
fn deploy_whitelist(admin: &Address) -> (Address, KycWhitelistContract) {
    let mut wl = KycWhitelistContract::new();
    revert_on(wl.initialize(admin.clone()));
    (addr("CWHITELIST"), wl)
}

/// Initialises a bond with the standard test parameters against `whitelist`.
fn init_bond(bond: &mut GreenBondContract, issuer: &Address, whitelist: &Address) {
    revert_on(bond.initialize(
        issuer.clone(),
        1_000_000_i128,
        1_900_000_000_u64,
        500_u32,
        "FRRBD00001".to_string(),
        "Rebond Green Bond 2032".to_string(),
        "RGB32".to_string(),
        0_u32,
        whitelist.clone(),
    ));
}

/// Mints as the contract does: asks the whitelist about the recipient.
fn mint(bond: &mut GreenBondContract, wl: &KycWhitelistContract, to: &Address, amount: i128) {
    revert_on(bond.mint(to, amount, wl.is_wl(to)));
}

/// Transfers as the contract does: asks the whitelist about both parties.
fn transfer(
    bond: &mut GreenBondContract,
    wl: &KycWhitelistContract,
    from: &Address,
    to: &Address,
    amount: i128,
) {
    revert_on(bond.transfer(from, to, amount, wl.is_wl(from), wl.is_wl(to)));
}

// ---------------------------------------------------------------------------
// Initialisation tests
// ---------------------------------------------------------------------------

#[test]
fn test_initialize_stores_bond_info() {
    let mock_whitelist = addr("CMOCKWL");
    let mut bond = GreenBondContract::new();
    let issuer = addr("GISSUER");

    init_bond(&mut bond, &issuer, &mock_whitelist);

    let info = revert_on(bond.get_bond_info());
    assert_eq!(info.issuer, issuer);
    assert_eq!(info.total_supply, 1_000_000);
    assert_eq!(info.minted_supply, 0);
    assert_eq!(info.maturity_timestamp, 1_900_000_000);
    assert_eq!(info.coupon_rate_bps, 500);
}

#[test]
#[should_panic(expected = "already initialized")]
fn test_test_double_initialize_panics() {
    let mock_whitelist = addr("CMOCKWL");
    let mut bond = GreenBondContract::new();
    let issuer = addr("GISSUER");

    init_bond(&mut bond, &issuer, &mock_whitelist);
    // Second call must fail
    init_bond(&mut bond, &issuer, &mock_whitelist);
}

#[test]
fn test_metadata_is_exposed() {
    let mock_whitelist = addr("CMOCKWL");
    let mut bond = GreenBondContract::new();
    let issuer = addr("GISSUER");

    init_bond(&mut bond, &issuer, &mock_whitelist);

    assert_eq!(revert_on(bond.name()), "Rebond Green Bond 2032".to_string());
    assert_eq!(revert_on(bond.symbol()), "RGB32".to_string());
    assert_eq!(revert_on(bond.decimals()), 0);
}

#[test]
fn test_balance_defaults_to_zero() {
    let mock_whitelist = addr("CMOCKWL");
    let mut bond = GreenBondContract::new();
    let issuer = addr("GISSUER");
    let random = addr("GRANDOM");

    init_bond(&mut bond, &issuer, &mock_whitelist);

    assert_eq!(bond.balance(&random), 0);
}

// ---------------------------------------------------------------------------
// Mint tests (with a real KYC whitelist)
// ---------------------------------------------------------------------------

#[test]
fn test_mint_to_whitelisted_succeeds() {
    let admin = addr("GADMIN");
    let (wl_id, mut wl) = deploy_whitelist(&admin);

    let mut bond = GreenBondContract::new();
    let issuer = addr("GISSUER");
    let investor = addr("GINVESTOR");

    init_bond(&mut bond, &issuer, &wl_id);

    revert_on(wl.add(investor.clone()));
    mint(&mut bond, &wl, &investor, 1_000_i128);

    assert_eq!(bond.balance(&investor), 1_000);
    assert_eq!(revert_on(bond.get_bond_info()).minted_supply, 1_000);
}

#[test]
#[should_panic(expected = "address not in KYC whitelist")]
fn test_mint_to_non_whitelisted_reverts() {
    let admin = addr("GADMIN");
    let (wl_id, wl) = deploy_whitelist(&admin);

    let mut bond = GreenBondContract::new();
    let issuer = addr("GISSUER");
    let stranger = addr("GSTRANGER");

    init_bond(&mut bond, &issuer, &wl_id);

    // `stranger` was never added to the whitelist → must revert.
    mint(&mut bond, &wl, &stranger, 1_000_i128);
}

// ---------------------------------------------------------------------------
// Transfer tests — both parties must be whitelisted
// ---------------------------------------------------------------------------

#[test]
#[should_panic(expected = "address not in KYC whitelist")]
fn test_transfer_reverts_when_sender_not_whitelisted() {
    let admin = addr("GADMIN");
    let (wl_id, mut wl) = deploy_whitelist(&admin);

    let mut bond = GreenBondContract::new();
    let issuer = addr("GISSUER");
    let holder = addr("GHOLDER");
    let recipient = addr("GRECIPIENT");

    init_bond(&mut bond, &issuer, &wl_id);

    // `holder` is whitelisted, receives tokens, then is de-listed.
    revert_on(wl.add(holder.clone()));
    revert_on(wl.add(recipient.clone()));
    mint(&mut bond, &wl, &holder, 1_000_i128);
    revert_on(wl.remove(&holder));

    // `holder` is no longer whitelisted → transfer must revert on the `from` check.
    transfer(&mut bond, &wl, &holder, &recipient, 500_i128);
}

// ---------------------------------------------------------------------------
// Burn tests (redemption support)
// ---------------------------------------------------------------------------

#[test]
fn test_burn_reduces_balance_and_supply() {
    let admin = addr("GADMIN");
    let (wl_id, mut wl) = deploy_whitelist(&admin);

    let mut bond = GreenBondContract::new();
    let issuer = addr("GISSUER");
    let holder = addr("GHOLDER");

    init_bond(&mut bond, &issuer, &wl_id);

    revert_on(wl.add(holder.clone()));
    mint(&mut bond, &wl, &holder, 1_000_i128);

    revert_on(bond.burn(&holder, 400_i128));

    assert_eq!(bond.balance(&holder), 600);
    assert_eq!(revert_on(bond.get_bond_info()).minted_supply, 600);
}

#[test]
#[should_panic(expected = "insufficient balance")]
fn test_burn_more_than_balance_reverts() {
    let admin = addr("GADMIN");
    let (wl_id, mut wl) = deploy_whitelist(&admin);

    let mut bond = GreenBondContract::new();
    let issuer = addr("GISSUER");
    let holder = addr("GHOLDER");

    init_bond(&mut bond, &issuer, &wl_id);

    revert_on(wl.add(holder.clone()));
    mint(&mut bond, &wl, &holder, 100_i128);

    // Burning more than the balance must revert.
    revert_on(bond.burn(&holder, 500_i128));
}

// ---------------------------------------------------------------------------
// Further cases
// ---------------------------------------------------------------------------

fn issued_with_two_holders() -> (GreenBondContract, KycWhitelistContract, Address, Address) {
    let admin = addr("GADMIN");
    let (wl_id, mut wl) = deploy_whitelist(&admin);
    let mut bond = GreenBondContract::new();
    init_bond(&mut bond, &addr("GISSUER"), &wl_id);
    let a = addr("GALICE");
    let b = addr("GBOB");
    revert_on(wl.add(a.clone()));
    revert_on(wl.add(b.clone()));
    mint(&mut bond, &wl, &a, 700);
    mint(&mut bond, &wl, &b, 300);
    (bond, wl, a, b)
}

#[test]
fn bond_transfer_moves_exact_amount() {
    let (mut bond, wl, a, b) = issued_with_two_holders();
    transfer(&mut bond, &wl, &a, &b, 250);
    assert_eq!(bond.balance(&a), 450);
    assert_eq!(bond.balance(&b), 550);
    assert_eq!(revert_on(bond.get_bond_info()).minted_supply, 1_000);
}

#[test]
fn bond_transfer_back_restores_balances() {
    let (mut bond, wl, a, b) = issued_with_two_holders();
    transfer(&mut bond, &wl, &a, &b, 250);
    transfer(&mut bond, &wl, &b, &a, 250);
    assert_eq!(bond.balance(&a), 700);
    assert_eq!(bond.balance(&b), 300);
}

#[test]
fn bond_burn_undoes_mint() {
    let (mut bond, wl, a, _) = issued_with_two_holders();
    mint(&mut bond, &wl, &a, 50);
    revert_on(bond.burn(&a, 50));
    assert_eq!(bond.balance(&a), 700);
    assert_eq!(revert_on(bond.get_bond_info()).minted_supply, 1_000);
}

#[test]
fn bond_transfer_to_non_whitelisted_recipient_refused() {
    let (mut bond, wl, a, _) = issued_with_two_holders();
    let stranger = addr("GSTRANGER");
    assert_eq!(
        bond.transfer(&a, &stranger, 10, wl.is_wl(&a), wl.is_wl(&stranger)),
        Err(ContractError::NotWhitelisted)
    );
    assert_eq!(bond.balance(&a), 700);
    assert_eq!(bond.balance(&stranger), 0);
}

#[test]
fn bond_transfer_more_than_balance_refused() {
    let (mut bond, wl, a, b) = issued_with_two_holders();
    assert_eq!(
        bond.transfer(&b, &a, 301, wl.is_wl(&b), wl.is_wl(&a)),
        Err(ContractError::InsufficientBalance)
    );
    assert_eq!(bond.balance(&b), 300);
}

#[test]
fn bond_transfer_to_self_changes_nothing() {
    let (mut bond, wl, a, _) = issued_with_two_holders();
    transfer(&mut bond, &wl, &a, &a, 400);
    assert_eq!(bond.balance(&a), 700);
    assert_eq!(revert_on(bond.get_bond_info()).minted_supply, 1_000);
}

#[test]
fn bond_self_transfer_cannot_feed_a_burn() {
    let (mut bond, wl, a, _) = issued_with_two_holders();
    transfer(&mut bond, &wl, &a, &a, 700);
    assert_eq!(bond.burn(&a, 1_400), Err(ContractError::InsufficientBalance));
    revert_on(bond.burn(&a, 700));
    assert_eq!(bond.balance(&a), 0);
    assert_eq!(revert_on(bond.get_bond_info()).minted_supply, 300);
}

#[test]
fn bond_mint_beyond_cap_refused() {
    let (mut bond, wl, a, _) = issued_with_two_holders();
    mint(&mut bond, &wl, &a, 999_000);
    assert_eq!(revert_on(bond.get_bond_info()).minted_supply, 1_000_000);
    assert_eq!(bond.mint(&a, 1, wl.is_wl(&a)), Err(ContractError::ExceedsSupplyCap));
    assert_eq!(bond.balance(&a), 999_700);
}

#[test]
fn bond_non_positive_amounts_refused() {
    let (mut bond, wl, a, b) = issued_with_two_holders();
    assert_eq!(bond.mint(&a, 0, wl.is_wl(&a)), Err(ContractError::NonPositiveAmount));
    assert_eq!(bond.transfer(&a, &b, -5, true, true), Err(ContractError::NonPositiveAmount));
    assert_eq!(bond.burn(&a, 0), Err(ContractError::NonPositiveAmount));
}

#[test]
fn bond_initialize_validates_parameters() {
    let mut bond = GreenBondContract::new();
    let r = bond.initialize(
        addr("GISSUER"), 0, 1, 500, "X".to_string(), "N".to_string(), "S".to_string(), 0,
        addr("CWL"),
    );
    assert_eq!(r, Err(ContractError::NonPositiveTotalSupply));
    let r = bond.initialize(
        addr("GISSUER"), 10, 1, 10_001, "X".to_string(), "N".to_string(), "S".to_string(), 0,
        addr("CWL"),
    );
    assert_eq!(r, Err(ContractError::CouponRateTooHigh));
    let r = bond.initialize(
        addr("GISSUER"), 10, 1, 10_000, "X".to_string(), "N".to_string(), "S".to_string(), 7,
        addr("CWL"),
    );
    assert_eq!(r, Ok(()));
    assert_eq!(bond.decimals(), Ok(7));
}

#[test]
fn bond_calls_before_initialize_are_refused() {
    let mut bond = GreenBondContract::new();
    let a = addr("GALICE");
    assert_eq!(bond.mint(&a, 10, true), Err(ContractError::NotInitialized));
    assert_eq!(bond.transfer(&a, &addr("GBOB"), 10, true, true), Err(ContractError::NotInitialized));
    assert_eq!(bond.burn(&a, 10), Err(ContractError::InsufficientBalance));
    assert!(bond.get_bond_info().is_err());
    assert_eq!(bond.name(), Err(ContractError::NotInitialized));
    assert_eq!(bond.symbol(), Err(ContractError::NotInitialized));
    assert_eq!(bond.decimals(), Err(ContractError::NotInitialized));
    assert_eq!(bond.balance(&a), 0);
}

#[test]
fn bond_mint_overflow_refused() {
    let mut bond = GreenBondContract::new();
    revert_on(bond.initialize(
        addr("GISSUER"), i128::MAX, 1, 0, "X".to_string(), "N".to_string(), "S".to_string(), 0,
        addr("CWL"),
    ));
    let a = addr("GALICE");
    revert_on(bond.mint(&a, i128::MAX, true));
    assert_eq!(bond.mint(&a, 1, true), Err(ContractError::ArithmeticOverflow));
    assert_eq!(bond.balance(&a), i128::MAX);
}

#[test]
fn error_messages_match_reverts() {
    assert_eq!(ContractError::AlreadyInitialized.message(), "already initialized");
    assert_eq!(ContractError::NotInitialized.message(), "not initialized");
    assert_eq!(ContractError::NonPositiveTotalSupply.message(), "total_supply must be positive");
    assert_eq!(ContractError::CouponRateTooHigh.message(), "coupon_rate_bps must be <= 10000");
    assert_eq!(ContractError::NonPositiveAmount.message(), "amount must be positive");
    assert_eq!(ContractError::NotWhitelisted.message(), "address not in KYC whitelist");
    assert_eq!(ContractError::ExceedsSupplyCap.message(), "exceeds total_supply cap");
    assert_eq!(ContractError::InsufficientBalance.message(), "insufficient balance");
    assert_eq!(ContractError::ArithmeticOverflow.message(), "attempt to add with overflow");
    assert_eq!(ContractError::NotImplemented.message(), "not implemented, Tranche 2");
}

#[test]
fn address_bytes_round_trip() {
    let a = Address::from_bytes(b"GABC".to_vec());
    assert_eq!(a.as_bytes(), b"GABC");
    assert!(a.same_as(&a.duplicate()));
    assert!(!a.same_as(&addr("GABD")));
}

fn terms(total_supply: i128, coupon_rate_bps: u32) -> BondTerms {
    BondTerms {
        issuer: addr("GISSUER"),
        total_supply,
        maturity_timestamp: 1_900_000_000,
        coupon_rate_bps,
        isin: "FRRBD00001".to_string(),
        name: "Rebond Green Bond 2032".to_string(),
        symbol: "RGB32".to_string(),
        decimals: 0,
        whitelist_contract: addr("CWL"),
    }
}

#[test]
fn bond_parts_round_trip() {
    let (bond, _, a, b) = issued_with_two_holders();
    let (t, minted, holdings) = bond.into_parts();
    assert_eq!(minted, 1_000);
    assert_eq!(holdings.len(), 2);
    let bond = GreenBondContract::from_parts(t, minted, holdings).expect("valid parts");
    assert_eq!(bond.balance(&a), 700);
    assert_eq!(bond.balance(&b), 300);
    assert_eq!(revert_on(bond.symbol()), "RGB32".to_string());
}

#[test]
fn bond_parts_rejected_when_invalid() {
    let dup = vec![(addr("GA"), 1), (addr("GA"), 2)];
    assert!(GreenBondContract::from_parts(Some(terms(100, 500)), 3, dup).is_none());
    let negative = vec![(addr("GA"), -1)];
    assert!(GreenBondContract::from_parts(Some(terms(100, 500)), 0, negative).is_none());
    assert!(GreenBondContract::from_parts(Some(terms(100, 500)), 101, vec![]).is_none());
    assert!(GreenBondContract::from_parts(Some(terms(0, 500)), 0, vec![]).is_none());
    assert!(GreenBondContract::from_parts(Some(terms(100, 10_001)), 0, vec![]).is_none());
    assert!(GreenBondContract::from_parts(None, 5, vec![]).is_none());
    assert!(GreenBondContract::from_parts(None, 0, vec![(addr("GA"), 1)]).is_none());
    let held_differs = vec![(addr("GA"), 1), (addr("GB"), 2)];
    assert!(GreenBondContract::from_parts(Some(terms(100, 500)), 4, held_differs).is_none());
    assert!(GreenBondContract::from_parts(Some(terms(100, 500)), -1, vec![]).is_none());
    let ok = GreenBondContract::from_parts(Some(terms(100, 500)), 3, vec![(addr("GA"), 1), (addr("GB"), 2)]);
    assert!(ok.is_some());
    assert_eq!(ok.unwrap().balance(&addr("GB")), 2);
}

#[test]
fn bond_whitelist_queries_follow_call_order() {
    let mut bond = GreenBondContract::new();
    assert_eq!(bond.mint_whitelist_query(10).err(), Some(ContractError::NotInitialized));
    assert_eq!(bond.transfer_whitelist_query(0).err(), Some(ContractError::NonPositiveAmount));
    assert_eq!(bond.transfer_whitelist_query(10).err(), Some(ContractError::NotInitialized));
    init_bond(&mut bond, &addr("GISSUER"), &addr("CWHITELIST"));
    assert_eq!(bond.mint_whitelist_query(0).err(), Some(ContractError::NonPositiveAmount));
    assert_eq!(revert_on(bond.mint_whitelist_query(10)), addr("CWHITELIST"));
    assert_eq!(revert_on(bond.transfer_whitelist_query(10)), addr("CWHITELIST"));
}

#[test]
fn bond_required_signers() {
    let bond = GreenBondContract::new();
    assert_eq!(bond.required_signer(&BondCall::Mint), Err(ContractError::NotInitialized));
    let (bond, _, a, _) = issued_with_two_holders();
    assert_eq!(revert_on(bond.required_signer(&BondCall::Mint)), Some(addr("GISSUER")));
    assert_eq!(
        revert_on(bond.required_signer(&BondCall::Transfer { from: a.clone() })),
        Some(a.clone())
    );
    assert_eq!(revert_on(bond.required_signer(&BondCall::Burn { from: a.clone() })), Some(a));
    assert_eq!(revert_on(bond.required_signer(&BondCall::Initialize)), None);
    assert_eq!(revert_on(bond.required_signer(&BondCall::Balance)), None);
}
