use vstd::prelude::*;

use crate::address::Address;
use crate::error::ContractError;
use crate::kyc_whitelist::WhitelistView;
use crate::ledger::{
    amount_held, amount_of, amounts_nonnegative, balance_map, distinct_owners,
    lemma_amount_within_sum, lemma_set_line, ledger_is_valid, ledger_total, line_keys,
    set_amount, set_line, sum_amounts,
};

verus! {

/// The bond parameters fixed at issuance, as mathematical values.
#[verifier::ext_equal]
pub struct BondTermsView {
    pub issuer: Seq<u8>,
    pub total_supply: i128,
    pub maturity_timestamp: u64,
    pub coupon_rate_bps: u32,
    pub isin: Seq<char>,
    pub name: Seq<char>,
    pub symbol: Seq<char>,
    pub decimals: u32,
    pub whitelist_contract: Seq<u8>,
}

/// What the bond contract holds, as mathematical values.
#[verifier::ext_equal]
pub struct BondView {
    /// The bond parameters; `None` before initialisation.
    pub terms: Option<BondTermsView>,
    /// Tokens minted and not burnt (circulating supply).
    pub minted_supply: i128,
    /// The balance of every address (zero for those that never held tokens).
    pub balances: Map<Seq<u8>, i128>,
    /// The tokens held over all addresses.
    pub total_held: int,
}

/// The calls of the bond contract, with the argument that decides who
/// must sign.
#[derive(Clone, Debug, PartialEq, Eq)]
pub enum BondCall {
    Initialize,
    Mint,
    Transfer { from: Address },
    Burn { from: Address },
    Balance,
    GetBondInfo,
    Name,
    Symbol,
    Decimals,
}

impl BondView {
    /// Whose signature a call needs: the issuer's to mint (which fails
    /// before issuance), the sender's to transfer or burn, nobody's for the
    /// others.
    pub open spec fn signer_for(self, call: BondCall) -> Result<Option<Seq<u8>>, ContractError> {
        match call {
            BondCall::Mint => match self.terms {
                Some(t) => Ok(Some(t.issuer)),
                None => Err(ContractError::NotInitialized),
            },
            BondCall::Transfer { from } => Ok(Some(from@)),
            BondCall::Burn { from } => Ok(Some(from@)),
            _ => Ok(None),
        }
    }

    /// `ls` is a ledger that has these balances: one line per owner, none
    /// negative, and its total is the tokens held.
    pub open spec fn ledger_witness(self, ls: Seq<(Seq<u8>, i128)>) -> bool {
        &&& distinct_owners(ls)
        &&& amounts_nonnegative(ls)
        &&& balance_map(ls) == self.balances
        &&& sum_amounts(ls) == self.total_held
    }

    /// The contract's invariant: the balances are those of a ledger whose
    /// total is the circulating supply, the circulating supply lies between
    /// zero and the cap, the parameters are valid, and nothing is minted
    /// before issuance.
    pub open spec fn wf(self) -> bool {
        &&& exists|ls: Seq<(Seq<u8>, i128)>| self.ledger_witness(ls)
        &&& self.total_held == self.minted_supply
        &&& self.minted_supply >= 0
        &&& match self.terms {
            Some(t) => {
                &&& t.total_supply > 0
                &&& t.coupon_rate_bps <= 10_000
                &&& self.minted_supply <= t.total_supply
            },
            None => self.minted_supply == 0,
        }
    }

    /// In a valid contract every balance lies between zero and the
    /// circulating supply.
    pub proof fn lemma_balances_within_supply(self)
        requires
            self.wf(),
        ensures
            forall|a: Seq<u8>| 0 <= #[trigger] self.balances[a] <= self.minted_supply,
    {
        let ls = choose|ls: Seq<(Seq<u8>, i128)>| self.ledger_witness(ls);
        assert forall|a: Seq<u8>| 0 <= #[trigger] self.balances[a] <= self.minted_supply by {
            lemma_amount_within_sum(ls, a);
            assert(balance_map(ls)[a] == amount_of(ls, a));
        }
    }

    /// Setting the balance of `a` to `v >= 0` keeps a ledger witness, with
    /// the total changed by the difference.
    pub proof fn lemma_witness_set(self, ls: Seq<(Seq<u8>, i128)>, a: Seq<u8>, v: i128)
        requires
            self.ledger_witness(ls),
            v >= 0,
        ensures
            (BondView {
                balances: self.balances.insert(a, v),
                total_held: self.total_held - self.balances[a] + v,
                ..self
            }).ledger_witness(set_line(ls, a, v)),
    {
        lemma_set_line(ls, a, v);
        assert(balance_map(ls)[a] == amount_of(ls, a));
    }

    /// The contract before any call: no parameters and no tokens.
    pub open spec fn empty() -> BondView {
        BondView {
            terms: None,
            minted_supply: 0,
            balances: Map::new(|a: Seq<u8>| true, |a: Seq<u8>| 0i128),
            total_held: 0,
        }
    }

    /// The tokens held over all addresses equal the circulating supply.
    pub open spec fn balanced(self) -> bool {
        self.total_held == self.minted_supply
    }

    /// The balance of `a`.
    pub open spec fn balance_of(self, a: Seq<u8>) -> i128 {
        self.balances[a]
    }

    /// Outcome of `initialize` with the parameters `terms`.
    pub open spec fn initialize_outcome(self, terms: BondTermsView) -> Result<BondView, ContractError> {
        if self.terms is Some {
            Err(ContractError::AlreadyInitialized)
        } else if terms.total_supply <= 0 {
            Err(ContractError::NonPositiveTotalSupply)
        } else if terms.coupon_rate_bps > 10_000 {
            Err(ContractError::CouponRateTooHigh)
        } else {
            Ok(BondView { terms: Some(terms), minted_supply: 0, ..self })
        }
    }

    /// Outcome of `mint(to, amount)`, where `to_whitelisted` is the KYC
    /// whitelist's answer for `to`.
    pub open spec fn mint_outcome(self, to: Seq<u8>, amount: i128, to_whitelisted: bool) -> Result<
        BondView,
        ContractError,
    > {
        match self.terms {
            None => Err(ContractError::NotInitialized),
            Some(t) => {
                if amount <= 0 {
                    Err(ContractError::NonPositiveAmount)
                } else if !to_whitelisted {
                    Err(ContractError::NotWhitelisted)
                } else if self.minted_supply + amount > i128::MAX {
                    Err(ContractError::ArithmeticOverflow)
                } else if self.minted_supply + amount > t.total_supply {
                    Err(ContractError::ExceedsSupplyCap)
                } else if self.balance_of(to) + amount > i128::MAX {
                    Err(ContractError::ArithmeticOverflow)
                } else {
                    Ok(
                        BondView {
                            minted_supply: (self.minted_supply + amount) as i128,
                            balances: self.balances.insert(
                                to,
                                (self.balance_of(to) + amount) as i128,
                            ),
                            total_held: self.total_held + amount,
                            ..self
                        },
                    )
                }
            },
        }
    }

    /// Outcome of `transfer(from, to, amount)`, where `from_whitelisted` and
    /// `to_whitelisted` are the KYC whitelist's answers. The sender is
    /// debited first and the recipient credited from its balance after
    /// that, so a transfer from an address to itself changes nothing.
    pub open spec fn transfer_outcome(
        self,
        from: Seq<u8>,
        to: Seq<u8>,
        amount: i128,
        from_whitelisted: bool,
        to_whitelisted: bool,
    ) -> Result<BondView, ContractError> {
        if amount <= 0 {
            Err(ContractError::NonPositiveAmount)
        } else if self.terms is None {
            Err(ContractError::NotInitialized)
        } else if !from_whitelisted || !to_whitelisted {
            Err(ContractError::NotWhitelisted)
        } else if self.balance_of(from) < amount {
            Err(ContractError::InsufficientBalance)
        } else {
            let debited = self.balances.insert(from, (self.balance_of(from) - amount) as i128);
            if debited[to] + amount > i128::MAX {
                Err(ContractError::ArithmeticOverflow)
            } else {
                Ok(
                    BondView {
                        balances: debited.insert(to, (debited[to] + amount) as i128),
                        ..self
                    },
                )
            }
        }
    }

    /// Outcome of `burn(from, amount)`.
    pub open spec fn burn_outcome(self, from: Seq<u8>, amount: i128) -> Result<
        BondView,
        ContractError,
    > {
        if amount <= 0 {
            Err(ContractError::NonPositiveAmount)
        } else if self.balance_of(from) < amount {
            Err(ContractError::InsufficientBalance)
        } else {
            Ok(
                BondView {
                    minted_supply: (self.minted_supply - amount) as i128,
                    balances: self.balances.insert(
                        from,
                        (self.balance_of(from) - amount) as i128,
                    ),
                    total_held: self.total_held - amount,
                    ..self
                },
            )
        }
    }
}

/// Bond parameters returned by `get_bond_info`.
pub struct BondInfo {
    pub issuer: Address,
    pub total_supply: i128,
    pub minted_supply: i128,
    pub maturity_timestamp: u64,
    pub coupon_rate_bps: u32,
    pub isin: String,
    pub whitelist_contract: Address,
}

/// The bond parameters fixed at issuance.
pub struct BondTerms {
    pub issuer: Address,
    pub total_supply: i128,
    pub maturity_timestamp: u64,
    pub coupon_rate_bps: u32,
    pub isin: String,
    pub name: String,
    pub symbol: String,
    pub decimals: u32,
    pub whitelist_contract: Address,
}

impl View for BondTerms {
    type V = BondTermsView;

    open spec fn view(&self) -> BondTermsView {
        BondTermsView {
            issuer: self.issuer@,
            total_supply: self.total_supply,
            maturity_timestamp: self.maturity_timestamp,
            coupon_rate_bps: self.coupon_rate_bps,
            isin: self.isin@,
            name: self.name@,
            symbol: self.symbol@,
            decimals: self.decimals,
            whitelist_contract: self.whitelist_contract@,
        }
    }
}

/// The view of optional bond parameters.
pub open spec fn terms_view(terms: Option<BondTerms>) -> Option<BondTermsView> {
    match terms {
        Some(t) => Some(t@),
        None => None,
    }
}

/// Whether stored parts make up a valid bond contract: one ledger line per
/// owner and none negative, the tokens held equal to the circulating supply,
/// which lies between zero and the cap, valid parameters, and nothing
/// minted before issuance.
pub open spec fn parts_valid(
    terms: Option<BondTermsView>,
    minted_supply: i128,
    holdings: Seq<(Address, i128)>,
) -> bool {
    &&& distinct_owners(line_keys(holdings))
    &&& amounts_nonnegative(line_keys(holdings))
    &&& sum_amounts(line_keys(holdings)) == minted_supply
    &&& minted_supply >= 0
    &&& match terms {
        Some(t) => {
            &&& t.total_supply > 0
            &&& t.coupon_rate_bps <= 10_000
            &&& minted_supply <= t.total_supply
        },
        None => minted_supply == 0,
    }
}

/// The green bond security token: a capped supply that the issuer mints to
/// whitelisted investors, who may transfer it among whitelisted addresses.
pub struct GreenBondContract {
    setup: Option<BondTerms>,
    minted_supply: i128,
    holdings: Vec<(Address, i128)>,
}

impl View for GreenBondContract {
    type V = BondView;

    closed spec fn view(&self) -> BondView {
        BondView {
            terms: terms_view(self.setup),
            minted_supply: self.minted_supply,
            balances: balance_map(line_keys(self.holdings@)),
            total_held: sum_amounts(line_keys(self.holdings@)),
        }
    }
}


impl GreenBondContract {
    /// The representation's invariant: that of its stored parts.
    pub closed spec fn wf(&self) -> bool {
        parts_valid(terms_view(self.setup), self.minted_supply, self.holdings@)
    }

    /// A well-formed contract has a well-formed view.
    pub proof fn lemma_wf_view(&self)
        requires
            self.wf(),
        ensures
            self@.wf(),
    {
        assert(self@.ledger_witness(line_keys(self.holdings@)));
    }

    /// A bond contract that has not been initialised.
    pub fn new() -> (c: GreenBondContract)
        ensures
            c.wf(),
            c@ == BondView::empty(),
    {
        let c = GreenBondContract { setup: None, minted_supply: 0, holdings: Vec::new() };
        proof {
            assert(line_keys(c.holdings@) =~= Seq::<(Seq<u8>, i128)>::empty());
            assert(c@.balances =~= BondView::empty().balances);
        }
        c
    }

    /// Rebuilds a contract from its stored parts; `None` when the parts do
    /// not make up a valid contract.
    pub fn from_parts(
        terms: Option<BondTerms>,
        minted_supply: i128,
        holdings: Vec<(Address, i128)>,
    ) -> (r: Option<GreenBondContract>)
        ensures
            r is Some == parts_valid(terms_view(terms), minted_supply, holdings@),
            r matches Some(c) ==> c.wf() && c@ == (BondView {
                terms: terms_view(terms),
                minted_supply,
                balances: balance_map(line_keys(holdings@)),
                total_held: sum_amounts(line_keys(holdings@)),
            }),
    {
        if !ledger_is_valid(&holdings) {
            return None;
        }
        match ledger_total(&holdings) {
            None => {
                return None;
            },
            Some(total) => {
                if total != minted_supply || minted_supply < 0 {
                    return None;
                }
            },
        }
        match &terms {
            Some(t) => {
                if t.total_supply <= 0 || t.coupon_rate_bps > 10_000 || minted_supply
                    > t.total_supply {
                    return None;
                }
            },
            None => {
                if minted_supply != 0 {
                    return None;
                }
            },
        }
        Some(GreenBondContract { setup: terms, minted_supply, holdings })
    }

    /// The stored parts of the contract, from which `from_parts` rebuilds
    /// it.
    pub fn into_parts(self) -> (r: (Option<BondTerms>, i128, Vec<(Address, i128)>))
        requires
            self.wf(),
        ensures
            parts_valid(terms_view(r.0), r.1, r.2@),
            terms_view(r.0) == self@.terms,
            r.1 == self@.minted_supply,
            balance_map(line_keys(r.2@)) == self@.balances,
            sum_amounts(line_keys(r.2@)) == self@.total_held,
    {
        (self.setup, self.minted_supply, self.holdings)
    }

    /// Issues the bond with its parameters, which are fixed from then on.
    /// Fails if the bond was issued before, if `total_supply` is not
    /// positive, or if `coupon_rate_bps` exceeds 10 000.
    pub fn initialize(
        &mut self,
        issuer: Address,
        total_supply: i128,
        maturity_timestamp: u64,
        coupon_rate_bps: u32,
        isin: String,
        name: String,
        symbol: String,
        decimals: u32,
        whitelist_contract: Address,
    ) -> (r: Result<(), ContractError>)
        requires
            old(self).wf(),
        ensures
            final(self).wf(),
            match old(self)@.initialize_outcome(
                (BondTermsView {
                    issuer: issuer@,
                    total_supply,
                    maturity_timestamp,
                    coupon_rate_bps,
                    isin: isin@,
                    name: name@,
                    symbol: symbol@,
                    decimals,
                    whitelist_contract: whitelist_contract@,
                }),
            ) {
                Ok(t) => r is Ok && final(self)@ == t,
                Err(e) => r == Err::<(), ContractError>(e) && final(self)@ == old(self)@,
            },
    {
        if self.setup.is_some() {
            return Err(ContractError::AlreadyInitialized);
        }
        if total_supply <= 0 {
            return Err(ContractError::NonPositiveTotalSupply);
        }
        if coupon_rate_bps > 10_000 {
            return Err(ContractError::CouponRateTooHigh);
        }
        self.setup = Some(
            BondTerms {
                issuer,
                total_supply,
                maturity_timestamp,
                coupon_rate_bps,
                isin,
                name,
                symbol,
                decimals,
                whitelist_contract,
            },
        );
        self.minted_supply = 0;
        Ok(())
    }

    /// Mints `amount` tokens to `to`; the caller has checked the issuer's
    /// authorisation. `to_whitelisted` is the KYC whitelist's answer for
    /// `to`.
    pub fn mint(&mut self, to: &Address, amount: i128, to_whitelisted: bool) -> (r: Result<
        (),
        ContractError,
    >)
        requires
            old(self).wf(),
        ensures
            final(self).wf(),
            match old(self)@.mint_outcome(to@, amount, to_whitelisted) {
                Ok(t) => r is Ok && final(self)@ == t,
                Err(e) => r == Err::<(), ContractError>(e) && final(self)@ == old(self)@,
            },
    {
        let total = match &self.setup {
            None => {
                return Err(ContractError::NotInitialized);
            },
            Some(st) => st.total_supply,
        };
        if amount <= 0 {
            return Err(ContractError::NonPositiveAmount);
        }
        if !to_whitelisted {
            return Err(ContractError::NotWhitelisted);
        }
        let new_minted = match self.minted_supply.checked_add(amount) {
            None => {
                return Err(ContractError::ArithmeticOverflow);
            },
            Some(m) => m,
        };
        if new_minted > total {
            return Err(ContractError::ExceedsSupplyCap);
        }
        let current = amount_held(&self.holdings, to);
        let new_balance = match current.checked_add(amount) {
            None => {
                return Err(ContractError::ArithmeticOverflow);
            },
            Some(b) => b,
        };
        proof {
            let ls = line_keys(self.holdings@);
            lemma_amount_within_sum(ls, to@);
            lemma_set_line(ls, to@, new_balance);
        }
        set_amount(&mut self.holdings, to, new_balance);
        self.minted_supply = new_minted;
        Ok(())
    }

    /// The checks of a mint that come before the KYC whitelist is
    /// consulted. On success, returns the whitelist contract to ask about the
    /// recipient; an error here is the one `mint` returns whatever the
    /// whitelist's answer.
    pub fn mint_whitelist_query(&self, amount: i128) -> (r: Result<Address, ContractError>)
        ensures
            match self@.terms {
                None => r == Err::<Address, ContractError>(ContractError::NotInitialized),
                Some(t) => if amount <= 0 {
                    r == Err::<Address, ContractError>(ContractError::NonPositiveAmount)
                } else {
                    r is Ok && r->Ok_0@ == t.whitelist_contract
                },
            },
            r matches Err(e) ==> forall|to: Seq<u8>, answer: bool|
                #[trigger] self@.mint_outcome(to, amount, answer) == Err::<BondView, ContractError>(
                    e,
                ),
    {
        match &self.setup {
            None => Err(ContractError::NotInitialized),
            Some(st) => {
                if amount <= 0 {
                    Err(ContractError::NonPositiveAmount)
                } else {
                    Ok(st.whitelist_contract.duplicate())
                }
            },
        }
    }

    /// The checks of a transfer that come before the KYC whitelist is
    /// consulted. On success, returns the whitelist contract to ask about
    /// both parties; an error here is the one `transfer` returns whatever
    /// the whitelist's answers.
    pub fn transfer_whitelist_query(&self, amount: i128) -> (r: Result<Address, ContractError>)
        ensures
            amount <= 0 ==> r == Err::<Address, ContractError>(ContractError::NonPositiveAmount),
            amount > 0 ==> match self@.terms {
                None => r == Err::<Address, ContractError>(ContractError::NotInitialized),
                Some(t) => r is Ok && r->Ok_0@ == t.whitelist_contract,
            },
            r matches Err(e) ==> forall|from: Seq<u8>, to: Seq<u8>, a: bool, b: bool|
                #[trigger] self@.transfer_outcome(from, to, amount, a, b) == Err::<
                    BondView,
                    ContractError,
                >(e),
    {
        if amount <= 0 {
            return Err(ContractError::NonPositiveAmount);
        }
        match &self.setup {
            None => Err(ContractError::NotInitialized),
            Some(st) => Ok(st.whitelist_contract.duplicate()),
        }
    }

    /// Moves `amount` tokens from `from` to `to`; the caller has checked the
    /// authorisation of `from`. `from_whitelisted` and `to_whitelisted` are
    /// the KYC whitelist's answers for the two parties.
    pub fn transfer(
        &mut self,
        from: &Address,
        to: &Address,
        amount: i128,
        from_whitelisted: bool,
        to_whitelisted: bool,
    ) -> (r: Result<(), ContractError>)
        requires
            old(self).wf(),
        ensures
            final(self).wf(),
            match old(self)@.transfer_outcome(
                from@,
                to@,
                amount,
                from_whitelisted,
                to_whitelisted,
            ) {
                Ok(t) => r is Ok && final(self)@ == t,
                Err(e) => r == Err::<(), ContractError>(e) && final(self)@ == old(self)@,
            },
    {
        if amount <= 0 {
            return Err(ContractError::NonPositiveAmount);
        }
        if self.setup.is_none() {
            return Err(ContractError::NotInitialized);
        }
        if !from_whitelisted || !to_whitelisted {
            return Err(ContractError::NotWhitelisted);
        }
        let from_balance = amount_held(&self.holdings, from);
        if from_balance < amount {
            return Err(ContractError::InsufficientBalance);
        }
        // The recipient is credited from its balance after the debit.
        let to_balance = if from.same_as(to) {
            from_balance - amount
        } else {
            amount_held(&self.holdings, to)
        };
        let new_to_balance = match to_balance.checked_add(amount) {
            None => {
                return Err(ContractError::ArithmeticOverflow);
            },
            Some(b) => b,
        };
        proof {
            let ls0 = line_keys(self.holdings@);
            lemma_amount_within_sum(ls0, to@);
            lemma_set_line(ls0, from@, (from_balance - amount) as i128);
            let ls1 = set_line(ls0, from@, (from_balance - amount) as i128);
            assert(amount_of(ls1, to@) == balance_map(ls1)[to@]);
            lemma_set_line(ls1, to@, new_to_balance);
        }
        set_amount(&mut self.holdings, from, from_balance - amount);
        set_amount(&mut self.holdings, to, new_to_balance);
        Ok(())
    }

    /// Burns `amount` of the tokens held by `from`, taking them out of the
    /// circulating supply; the caller has checked the authorisation of
    /// `from`.
    pub fn burn(&mut self, from: &Address, amount: i128) -> (r: Result<(), ContractError>)
        requires
            old(self).wf(),
        ensures
            final(self).wf(),
            match old(self)@.burn_outcome(from@, amount) {
                Ok(t) => r is Ok && final(self)@ == t,
                Err(e) => r == Err::<(), ContractError>(e) && final(self)@ == old(self)@,
            },
    {
        if amount <= 0 {
            return Err(ContractError::NonPositiveAmount);
        }
        let from_balance = amount_held(&self.holdings, from);
        if from_balance < amount {
            return Err(ContractError::InsufficientBalance);
        }
        proof {
            let ls = line_keys(self.holdings@);
            lemma_amount_within_sum(ls, from@);
            lemma_set_line(ls, from@, (from_balance - amount) as i128);
        }
        let new_minted = self.minted_supply - amount;
        set_amount(&mut self.holdings, from, from_balance - amount);
        self.minted_supply = new_minted;
        Ok(())
    }

    /// The token balance of `owner` (zero for an address that never held
    /// tokens).
    pub fn balance(&self, owner: &Address) -> (r: i128)
        requires
            self.wf(),
        ensures
            r == self@.balances[owner@],
    {
        amount_held(&self.holdings, owner)
    }

    /// The address whose signature `call` needs, if any; the host checks
    /// that signature before the call is made.
    pub fn required_signer(&self, call: &BondCall) -> (r: Result<Option<Address>, ContractError>)
        ensures
            match self@.signer_for(*call) {
                Ok(Some(a)) => r is Ok && r->Ok_0 is Some && r->Ok_0->Some_0@ == a,
                Ok(None) => r is Ok && r->Ok_0 is None,
                Err(e) => r is Err && r->Err_0 == e,
            },
    {
        match call {
            BondCall::Mint => match &self.setup {
                Some(st) => Ok(Some(st.issuer.duplicate())),
                None => Err(ContractError::NotInitialized),
            },
            BondCall::Transfer { from } => Ok(Some(from.duplicate())),
            BondCall::Burn { from } => Ok(Some(from.duplicate())),
            _ => Ok(None),
        }
    }

    /// The bond parameters and the circulating supply; fails before
    /// initialisation.
    pub fn get_bond_info(&self) -> (r: Result<BondInfo, ContractError>)
        ensures
            match self@.terms {
                None => r is Err && r->Err_0 == ContractError::NotInitialized,
                Some(t) => r is Ok && {
                    let info = r->Ok_0;
                    &&& info.issuer@ == t.issuer
                    &&& info.total_supply == t.total_supply
                    &&& info.minted_supply == self@.minted_supply
                    &&& info.maturity_timestamp == t.maturity_timestamp
                    &&& info.coupon_rate_bps == t.coupon_rate_bps
                    &&& info.isin@ == t.isin
                    &&& info.whitelist_contract@ == t.whitelist_contract
                },
            },
    {
        match &self.setup {
            None => Err(ContractError::NotInitialized),
            Some(st) => Ok(
                BondInfo {
                    issuer: st.issuer.duplicate(),
                    total_supply: st.total_supply,
                    minted_supply: self.minted_supply,
                    maturity_timestamp: st.maturity_timestamp,
                    coupon_rate_bps: st.coupon_rate_bps,
                    isin: st.isin.clone(),
                    whitelist_contract: st.whitelist_contract.duplicate(),
                },
            ),
        }
    }

    /// The token's name; fails before initialisation.
    pub fn name(&self) -> (r: Result<String, ContractError>)
        ensures
            match self@.terms {
                None => r is Err && r->Err_0 == ContractError::NotInitialized,
                Some(t) => r is Ok && r->Ok_0@ == t.name,
            },
    {
        match &self.setup {
            None => Err(ContractError::NotInitialized),
            Some(st) => Ok(st.name.clone()),
        }
    }

    /// The token's ticker symbol; fails before initialisation.
    pub fn symbol(&self) -> (r: Result<String, ContractError>)
        ensures
            match self@.terms {
                None => r is Err && r->Err_0 == ContractError::NotInitialized,
                Some(t) => r is Ok && r->Ok_0@ == t.symbol,
            },
    {
        match &self.setup {
            None => Err(ContractError::NotInitialized),
            Some(st) => Ok(st.symbol.clone()),
        }
    }

    /// The number of decimals of the token; fails before initialisation.
    pub fn decimals(&self) -> (r: Result<u32, ContractError>)
        ensures
            match self@.terms {
                None => r == Err::<u32, ContractError>(ContractError::NotInitialized),
                Some(t) => r == Ok::<u32, ContractError>(t.decimals),
            },
    {
        match &self.setup {
            None => Err(ContractError::NotInitialized),
            Some(st) => Ok(st.decimals),
        }
    }
}


/// The contract before any call satisfies the invariant.
pub proof fn lemma_empty_wf()
    ensures
        BondView::empty().wf(),
{
    let ls = Seq::<(Seq<u8>, i128)>::empty();
    assert(balance_map(ls) =~= BondView::empty().balances);
    assert(BondView::empty().ledger_witness(ls));
}

/// Every call that succeeds keeps the contract's invariant: the balances
/// are those of a ledger whose total is the circulating supply, and the
/// circulating supply stays between zero and the supply cap fixed at
/// issuance. In particular no balance is ever negative or above the
/// circulating supply.
pub proof fn law_supply_cap_and_nonnegative_balances_kept(
    s: BondView,
    terms: BondTermsView,
    from: Seq<u8>,
    to: Seq<u8>,
    amount: i128,
    from_whitelisted: bool,
    to_whitelisted: bool,
)
    requires
        s.wf(),
    ensures
        BondView::empty().wf(),
        s.initialize_outcome(terms) matches Ok(t) ==> t.wf(),
        s.mint_outcome(to, amount, to_whitelisted) matches Ok(t) ==> t.wf(),
        s.transfer_outcome(from, to, amount, from_whitelisted, to_whitelisted) matches Ok(t)
            ==> t.wf(),
        s.burn_outcome(from, amount) matches Ok(t) ==> t.wf(),
        forall|a: Seq<u8>| 0 <= #[trigger] s.balances[a] <= s.minted_supply,
        s.terms matches Some(t) ==> 0 <= s.minted_supply <= t.total_supply,
{
    lemma_empty_wf();
    s.lemma_balances_within_supply();
    let ls = choose|ls: Seq<(Seq<u8>, i128)>| s.ledger_witness(ls);
    if let Ok(t) = s.initialize_outcome(terms) {
        assert(t.ledger_witness(ls));
    }
    if let Ok(t) = s.mint_outcome(to, amount, to_whitelisted) {
        let v = (s.balances[to] + amount) as i128;
        s.lemma_witness_set(ls, to, v);
        assert(t.ledger_witness(set_line(ls, to, v)));
    }
    if let Ok(t) = s.transfer_outcome(from, to, amount, from_whitelisted, to_whitelisted) {
        let v1 = (s.balances[from] - amount) as i128;
        s.lemma_witness_set(ls, from, v1);
        let m = BondView {
            balances: s.balances.insert(from, v1),
            total_held: s.total_held - s.balances[from] + v1,
            ..s
        };
        let ls1 = set_line(ls, from, v1);
        let v2 = (m.balances[to] + amount) as i128;
        m.lemma_witness_set(ls1, to, v2);
        assert(t.ledger_witness(set_line(ls1, to, v2)));
    }
    if let Ok(t) = s.burn_outcome(from, amount) {
        let v = (s.balances[from] - amount) as i128;
        s.lemma_witness_set(ls, from, v);
        assert(t.ledger_witness(set_line(ls, from, v)));
    }
}

/// The tokens held over all addresses stay equal to the circulating supply
/// across every call: issuance, mints, burns and transfers, a transfer from
/// an address to itself included.
pub proof fn law_ledger_stays_balanced(
    s: BondView,
    terms: BondTermsView,
    from: Seq<u8>,
    to: Seq<u8>,
    amount: i128,
    from_whitelisted: bool,
    to_whitelisted: bool,
)
    requires
        s.wf(),
    ensures
        s.balanced(),
        BondView::empty().balanced(),
        s.initialize_outcome(terms) matches Ok(t) ==> t.balanced(),
        s.mint_outcome(to, amount, to_whitelisted) matches Ok(t) ==> t.balanced(),
        s.burn_outcome(from, amount) matches Ok(t) ==> t.balanced(),
        s.transfer_outcome(from, to, amount, from_whitelisted, to_whitelisted) matches Ok(t)
            ==> t.balanced(),
{
}

/// A transfer from an address to itself changes nothing.
pub proof fn law_self_transfer_changes_nothing(
    s: BondView,
    a: Seq<u8>,
    amount: i128,
    from_whitelisted: bool,
    to_whitelisted: bool,
)
    requires
        s.wf(),
    ensures
        s.transfer_outcome(a, a, amount, from_whitelisted, to_whitelisted) matches Ok(t) ==> t
            == s,
{
    if let Ok(t) = s.transfer_outcome(a, a, amount, from_whitelisted, to_whitelisted) {
        assert(t.balances =~= s.balances);
        assert(t =~= s);
    }
}

/// Tokens only ever go to whitelisted addresses: a mint succeeds only if
/// the recipient is whitelisted, a transfer only if both parties are.
pub proof fn law_only_whitelisted_parties(
    s: BondView,
    from: Seq<u8>,
    to: Seq<u8>,
    amount: i128,
    from_whitelisted: bool,
    to_whitelisted: bool,
)
    ensures
        s.mint_outcome(to, amount, to_whitelisted) is Ok ==> to_whitelisted,
        s.transfer_outcome(from, to, amount, from_whitelisted, to_whitelisted) is Ok
            ==> from_whitelisted && to_whitelisted,
{
}

/// The bond parameters are immutable once issued: mints, transfers and
/// burns never change them.
pub proof fn law_terms_fixed_after_issuance(
    s: BondView,
    from: Seq<u8>,
    to: Seq<u8>,
    amount: i128,
    from_whitelisted: bool,
    to_whitelisted: bool,
)
    ensures
        s.mint_outcome(to, amount, to_whitelisted) matches Ok(t) ==> t.terms == s.terms,
        s.transfer_outcome(from, to, amount, from_whitelisted, to_whitelisted) matches Ok(t)
            ==> t.terms == s.terms && t.minted_supply == s.minted_supply,
        s.burn_outcome(from, amount) matches Ok(t) ==> t.terms == s.terms,
{
}

/// The bond is issued at most once: a second `initialize` is refused,
/// whatever parameters it names.
pub proof fn law_initialize_once(s: BondView, first: BondTermsView, second: BondTermsView)
    ensures
        s.initialize_outcome(first) matches Ok(t) ==> t.initialize_outcome(second) == Err::<
            BondView,
            ContractError,
        >(ContractError::AlreadyInitialized),
{
}

/// Before issuance nothing can be minted or transferred, and every balance
/// is zero.
pub proof fn law_nothing_before_issuance(
    from: Seq<u8>,
    to: Seq<u8>,
    amount: i128,
    from_whitelisted: bool,
    to_whitelisted: bool,
)
    ensures
        BondView::empty().mint_outcome(to, amount, to_whitelisted) == Err::<
            BondView,
            ContractError,
        >(ContractError::NotInitialized),
        BondView::empty().transfer_outcome(from, to, amount, from_whitelisted, to_whitelisted)
            is Err,
        BondView::empty().burn_outcome(from, amount) is Err,
        BondView::empty().balance_of(to) == 0,
{
}

/// A transfer between two different addresses moves exactly `amount` from
/// the sender to the recipient and changes no other balance.
pub proof fn law_transfer_moves_exactly_amount(
    s: BondView,
    from: Seq<u8>,
    to: Seq<u8>,
    amount: i128,
    from_whitelisted: bool,
    to_whitelisted: bool,
    other: Seq<u8>,
)
    requires
        from != to,
        other != from,
        other != to,
    ensures
        s.transfer_outcome(from, to, amount, from_whitelisted, to_whitelisted) matches Ok(t) ==> {
            &&& t.balance_of(from) == s.balance_of(from) - amount
            &&& t.balance_of(to) == s.balance_of(to) + amount
            &&& t.balance_of(other) == s.balance_of(other)
            &&& t.total_held == s.total_held
        },
{
}

/// Burning what was just minted to the same address undoes the mint.
pub proof fn law_burn_undoes_mint(s: BondView, to: Seq<u8>, amount: i128, to_whitelisted: bool)
    requires
        s.wf(),
    ensures
        s.mint_outcome(to, amount, to_whitelisted) matches Ok(t) ==> t.burn_outcome(to, amount)
            == Ok::<BondView, ContractError>(s),
{
    if let Ok(t) = s.mint_outcome(to, amount, to_whitelisted) {
        let u = t.burn_outcome(to, amount)->Ok_0;
        assert(u.balances =~= s.balances);
        assert(u =~= s);
    }
}

/// Transferring an amount back undoes the transfer, between two different
/// whitelisted addresses.
pub proof fn law_transfer_back_undoes_transfer(
    s: BondView,
    from: Seq<u8>,
    to: Seq<u8>,
    amount: i128,
)
    requires
        s.wf(),
        from != to,
    ensures
        s.transfer_outcome(from, to, amount, true, true) matches Ok(t) ==> t.transfer_outcome(
            to,
            from,
            amount,
            true,
            true,
        ) == Ok::<BondView, ContractError>(s),
{
    if let Ok(t) = s.transfer_outcome(from, to, amount, true, true) {
        let u = t.transfer_outcome(to, from, amount, true, true)->Ok_0;
        assert(u.balances =~= s.balances);
        assert(u =~= s);
    }
}


/// With the answers taken from a KYC registry, a mint succeeds only for a
/// recipient in that registry, and a transfer only between two addresses in
/// it.
pub proof fn law_registry_gates_every_receipt(
    s: BondView,
    registry: WhitelistView,
    from: Seq<u8>,
    to: Seq<u8>,
    amount: i128,
)
    ensures
        s.mint_outcome(to, amount, registry.members.contains(to)) is Ok
            ==> registry.members.contains(to),
        s.transfer_outcome(
            from,
            to,
            amount,
            registry.members.contains(from),
            registry.members.contains(to),
        ) is Ok ==> registry.members.contains(from) && registry.members.contains(to),
{
}


/// Roles: only the issuer may mint, and only a holder may move or burn its
/// own tokens; issuing and reading need no signature.
pub proof fn law_roles(s: BondView, holder: Address)
    ensures
        s.signer_for(BondCall::Initialize) == Ok::<Option<Seq<u8>>, ContractError>(None),
        s.signer_for(BondCall::Transfer { from: holder }) == Ok::<Option<Seq<u8>>, ContractError>(
            Some(holder@),
        ),
        s.signer_for(BondCall::Burn { from: holder }) == Ok::<Option<Seq<u8>>, ContractError>(
            Some(holder@),
        ),
        s.terms matches Some(t) ==> s.signer_for(BondCall::Mint) == Ok::<
            Option<Seq<u8>>,
            ContractError,
        >(Some(t.issuer)),
{
}

/// Minting authority never moves: after any mint, transfer or burn the
/// signer a mint needs is the same as before.
pub proof fn law_issuer_authority_fixed(
    s: BondView,
    from: Seq<u8>,
    to: Seq<u8>,
    amount: i128,
    from_whitelisted: bool,
    to_whitelisted: bool,
)
    ensures
        s.mint_outcome(to, amount, to_whitelisted) matches Ok(t) ==> t.signer_for(BondCall::Mint)
            == s.signer_for(BondCall::Mint),
        s.transfer_outcome(from, to, amount, from_whitelisted, to_whitelisted) matches Ok(t)
            ==> t.signer_for(BondCall::Mint) == s.signer_for(BondCall::Mint),
        s.burn_outcome(from, amount) matches Ok(t) ==> t.signer_for(BondCall::Mint)
            == s.signer_for(BondCall::Mint),
{
}


/// Issuing succeeds exactly on a bond not issued yet, with a positive supply
/// cap and a coupon rate of at most 10 000 basis points; the parameters
/// stored are then exactly those given, nothing is minted, and no balance
/// changes. Otherwise the first failing check names the error.
pub proof fn law_initialize_stores_exactly_the_given_terms(s: BondView, terms: BondTermsView)
    ensures
        s.initialize_outcome(terms) is Ok <==> (s.terms is None && terms.total_supply > 0
            && terms.coupon_rate_bps <= 10_000),
        s.initialize_outcome(terms) matches Ok(t) ==> {
            &&& t.terms == Some(terms)
            &&& t.terms matches Some(tt) && tt.issuer == terms.issuer && tt.isin == terms.isin
                && tt.name == terms.name && tt.symbol == terms.symbol && tt.total_supply
                == terms.total_supply && tt.maturity_timestamp == terms.maturity_timestamp
                && tt.coupon_rate_bps == terms.coupon_rate_bps && tt.decimals == terms.decimals
                && tt.whitelist_contract == terms.whitelist_contract
            &&& t.minted_supply == 0
            &&& t.balances == s.balances
            &&& t.total_held == s.total_held
        },
        s.terms is Some ==> s.initialize_outcome(terms) == Err::<BondView, ContractError>(
            ContractError::AlreadyInitialized,
        ),
        s.terms is None && terms.total_supply <= 0 ==> s.initialize_outcome(terms) == Err::<
            BondView,
            ContractError,
        >(ContractError::NonPositiveTotalSupply),
        s.terms is None && terms.total_supply > 0 && terms.coupon_rate_bps > 10_000
            ==> s.initialize_outcome(terms) == Err::<BondView, ContractError>(
            ContractError::CouponRateTooHigh,
        ),
{
}

/// A mint succeeds exactly when the bond is issued, the amount is
/// positive, the recipient is whitelisted, the circulating supply stays
/// within the cap and the recipient's new balance fits, whoever the
/// recipient is (the issuer included). It then credits exactly the
/// recipient with the amount and raises the circulating supply by it.
/// Otherwise the first failing check names the error.
pub proof fn law_mint_succeeds_exactly_when_allowed(
    s: BondView,
    to: Seq<u8>,
    amount: i128,
    to_whitelisted: bool,
)
    ensures
        s.mint_outcome(to, amount, to_whitelisted) is Ok <==> (s.terms matches Some(t) && amount
            > 0 && to_whitelisted && s.minted_supply + amount <= t.total_supply && s.balances[to]
            + amount <= i128::MAX),
        s.mint_outcome(to, amount, to_whitelisted) matches Ok(t) ==> {
            &&& t.balances == s.balances.insert(to, (s.balances[to] + amount) as i128)
            &&& t.minted_supply == s.minted_supply + amount
            &&& t.total_held == s.total_held + amount
            &&& t.terms == s.terms
        },
        s.terms is None ==> s.mint_outcome(to, amount, to_whitelisted) == Err::<
            BondView,
            ContractError,
        >(ContractError::NotInitialized),
        s.terms is Some && amount <= 0 ==> s.mint_outcome(to, amount, to_whitelisted) == Err::<
            BondView,
            ContractError,
        >(ContractError::NonPositiveAmount),
        s.terms is Some && amount > 0 && !to_whitelisted ==> s.mint_outcome(
            to,
            amount,
            to_whitelisted,
        ) == Err::<BondView, ContractError>(ContractError::NotWhitelisted),
        (s.terms matches Some(t) && amount > 0 && to_whitelisted && s.minted_supply + amount
            <= i128::MAX && s.minted_supply + amount > t.total_supply) ==> s.mint_outcome(
            to,
            amount,
            to_whitelisted,
        ) == Err::<BondView, ContractError>(ContractError::ExceedsSupplyCap),
{
}

/// A transfer succeeds exactly when the amount is positive, the bond is
/// issued, both parties are whitelisted, the sender holds at least the
/// amount, and, between two different addresses, the recipient's new
/// balance fits; whether or not the recipient held tokens before, and
/// whether or not the sender sends its whole balance. It then moves exactly
/// the amount from the sender to the recipient (a transfer to oneself
/// changes nothing), and leaves the supply and the parameters alone.
/// Otherwise the first failing check names the error.
pub proof fn law_transfer_succeeds_exactly_when_funded(
    s: BondView,
    from: Seq<u8>,
    to: Seq<u8>,
    amount: i128,
    from_whitelisted: bool,
    to_whitelisted: bool,
)
    requires
        s.wf(),
    ensures
        s.transfer_outcome(from, to, amount, from_whitelisted, to_whitelisted) is Ok <==> (
        amount > 0 && s.terms is Some && from_whitelisted && to_whitelisted && s.balances[from]
            >= amount && (from != to ==> s.balances[to] + amount <= i128::MAX)),
        s.transfer_outcome(from, to, amount, from_whitelisted, to_whitelisted) matches Ok(t) ==> {
            &&& from != to ==> t.balances == s.balances.insert(
                from,
                (s.balances[from] - amount) as i128,
            ).insert(to, (s.balances[to] + amount) as i128)
            &&& from == to ==> t.balances == s.balances
            &&& t.minted_supply == s.minted_supply
            &&& t.total_held == s.total_held
            &&& t.terms == s.terms
        },
        amount <= 0 ==> s.transfer_outcome(from, to, amount, from_whitelisted, to_whitelisted)
            == Err::<BondView, ContractError>(ContractError::NonPositiveAmount),
        amount > 0 && s.terms is None ==> s.transfer_outcome(
            from,
            to,
            amount,
            from_whitelisted,
            to_whitelisted,
        ) == Err::<BondView, ContractError>(ContractError::NotInitialized),
        amount > 0 && s.terms is Some && (!from_whitelisted || !to_whitelisted)
            ==> s.transfer_outcome(from, to, amount, from_whitelisted, to_whitelisted) == Err::<
            BondView,
            ContractError,
        >(ContractError::NotWhitelisted),
        amount > 0 && s.terms is Some && from_whitelisted && to_whitelisted && s.balances[from]
            < amount ==> s.transfer_outcome(from, to, amount, from_whitelisted, to_whitelisted)
            == Err::<BondView, ContractError>(ContractError::InsufficientBalance),
{
    if let Ok(t) = s.transfer_outcome(from, to, amount, from_whitelisted, to_whitelisted) {
        if from == to {
            assert(t.balances =~= s.balances);
        }
    }
}

/// A burn succeeds exactly when the amount is positive and the holder
/// holds at least the amount; it then takes exactly the amount off the
/// holder's balance and off the circulating supply. Otherwise the first
/// failing check names the error.
pub proof fn law_burn_succeeds_exactly_when_held(s: BondView, from: Seq<u8>, amount: i128)
    requires
        s.wf(),
    ensures
        s.burn_outcome(from, amount) is Ok <==> (amount > 0 && s.balances[from] >= amount),
        s.burn_outcome(from, amount) matches Ok(t) ==> {
            &&& t.balances == s.balances.insert(from, (s.balances[from] - amount) as i128)
            &&& t.minted_supply == s.minted_supply - amount
            &&& t.total_held == s.total_held - amount
            &&& t.terms == s.terms
        },
        amount <= 0 ==> s.burn_outcome(from, amount) == Err::<BondView, ContractError>(
            ContractError::NonPositiveAmount,
        ),
        amount > 0 && s.balances[from] < amount ==> s.burn_outcome(from, amount) == Err::<
            BondView,
            ContractError,
        >(ContractError::InsufficientBalance),
{
    s.lemma_balances_within_supply();
}

} // verus!
