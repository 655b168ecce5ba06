use vstd::prelude::*;

use crate::address::Address;
use crate::error::ContractError;

verus! {

/// One scheduled coupon payment.
pub struct CouponEntry {
    /// Unix timestamp when this coupon becomes payable.
    pub payment_timestamp: u64,
    /// Coupon rate for this period in basis points.
    pub rate_bps: u32,
}

/// The addresses the module is linked to at initialisation, as
/// mathematical values.
#[verifier::ext_equal]
pub struct CouponLinksView {
    pub issuer: Seq<u8>,
    pub bond_contract: Seq<u8>,
    pub usdc_token: Seq<u8>,
    /// Index of the next coupon payment to be executed.
    pub next_coupon_index: u32,
}

/// What the coupon and redemption module holds, as mathematical values.
#[verifier::ext_equal]
pub struct CouponView {
    /// The links; `None` before initialisation.
    pub links: Option<CouponLinksView>,
}

/// The calls of the coupon and redemption module, with the argument that
/// decides who must sign.
#[derive(Clone, Debug, PartialEq, Eq)]
pub enum CouponCall {
    Initialize,
    PayCoupon,
    Redeem { holder: Address },
    GetBondContract,
    GetUsdcToken,
}

impl CouponView {
    /// Whose signature a call needs: the issuer's to pay a coupon (which
    /// fails before initialisation), the holder's to redeem, nobody's for
    /// the others.
    pub open spec fn signer_for(self, call: CouponCall) -> Result<Option<Seq<u8>>, ContractError> {
        match call {
            CouponCall::PayCoupon => match self.links {
                Some(l) => Ok(Some(l.issuer)),
                None => Err(ContractError::NotInitialized),
            },
            CouponCall::Redeem { holder } => Ok(Some(holder@)),
            _ => Ok(None),
        }
    }

    /// The module before any call.
    pub open spec fn empty() -> CouponView {
        CouponView { links: None }
    }

    /// Outcome of `initialize(issuer, bond_contract, usdc_token)`.
    pub open spec fn initialize_outcome(
        self,
        issuer: Seq<u8>,
        bond_contract: Seq<u8>,
        usdc_token: Seq<u8>,
    ) -> Result<CouponView, ContractError> {
        if self.links is Some {
            Err(ContractError::AlreadyInitialized)
        } else {
            Ok(
                CouponView {
                    links: Some(
                        CouponLinksView { issuer, bond_contract, usdc_token, next_coupon_index: 0 },
                    ),
                },
            )
        }
    }

    /// Why a payout call (`pay_coupon` or `redeem`) is refused: the payouts
    /// are not available yet, so every such call is refused.
    pub open spec fn payout_refusal(self) -> ContractError {
        if self.links is None {
            ContractError::NotInitialized
        } else {
            ContractError::NotImplemented
        }
    }
}

/// The addresses the module is linked to at initialisation.
pub struct CouponLinks {
    pub issuer: Address,
    pub bond_contract: Address,
    pub usdc_token: Address,
    /// Index of the next coupon payment to be executed.
    pub next_coupon_index: u32,
}

impl View for CouponLinks {
    type V = CouponLinksView;

    open spec fn view(&self) -> CouponLinksView {
        CouponLinksView {
            issuer: self.issuer@,
            bond_contract: self.bond_contract@,
            usdc_token: self.usdc_token@,
            next_coupon_index: self.next_coupon_index,
        }
    }
}

/// The view of optional links.
pub open spec fn links_view(links: Option<CouponLinks>) -> Option<CouponLinksView> {
    match links {
        Some(l) => Some(l@),
        None => None,
    }
}

/// Coupon distribution and principal redemption for a green bond. The
/// payouts themselves are not available yet: the module records its links
/// and refuses payout calls.
pub struct CouponRedemptionContract {
    links: Option<CouponLinks>,
}

impl View for CouponRedemptionContract {
    type V = CouponView;

    closed spec fn view(&self) -> CouponView {
        CouponView { links: links_view(self.links) }
    }
}

impl CouponRedemptionContract {
    /// A module that has not been initialised.
    pub fn new() -> (c: CouponRedemptionContract)
        ensures
            c@ == CouponView::empty(),
    {
        CouponRedemptionContract { links: None }
    }

    /// Rebuilds the module from its stored links.
    pub fn from_parts(links: Option<CouponLinks>) -> (c: CouponRedemptionContract)
        ensures
            c@.links == links_view(links),
    {
        CouponRedemptionContract { links }
    }

    /// The stored links of the module, from which `from_parts` rebuilds it.
    pub fn into_parts(self) -> (r: Option<CouponLinks>)
        ensures
            links_view(r) == self@.links,
    {
        self.links
    }

    /// Links the module to its issuer, bond contract and USDC token, with
    /// the first coupon next. Fails if it was initialised before.
    pub fn initialize(&mut self, issuer: Address, bond_contract: Address, usdc_token: Address) -> (r:
        Result<(), ContractError>)
        ensures
            match old(self)@.initialize_outcome(issuer@, bond_contract@, usdc_token@) {
                Ok(t) => r is Ok && final(self)@ == t,
                Err(e) => r == Err::<(), ContractError>(e) && final(self)@ == old(self)@,
            },
    {
        if self.links.is_some() {
            return Err(ContractError::AlreadyInitialized);
        }
        self.links = Some(CouponLinks { issuer, bond_contract, usdc_token, next_coupon_index: 0 });
        Ok(())
    }

    /// Pays the next coupon to `holder_addresses`. Not available yet: the
    /// call is refused, and nothing changes.
    pub fn pay_coupon(&self, holder_addresses: &Vec<Address>) -> (r: Result<(), ContractError>)
        ensures
            r == Err::<(), ContractError>(self@.payout_refusal()),
    {
        if self.links.is_none() {
            return Err(ContractError::NotInitialized);
        }
        Err(ContractError::NotImplemented)
    }

    /// Redeems the principal of `holder` at maturity. Not available yet:
    /// the call is refused, and nothing changes.
    pub fn redeem(&self, holder: &Address) -> (r: Result<(), ContractError>)
        ensures
            r == Err::<(), ContractError>(self@.payout_refusal()),
    {
        if self.links.is_none() {
            return Err(ContractError::NotInitialized);
        }
        Err(ContractError::NotImplemented)
    }

    /// The address whose signature `call` needs, if any; the host checks
    /// that signature before the call is made.
    pub fn required_signer(&self, call: &CouponCall) -> (r: Result<Option<Address>, ContractError>)
        ensures
            match self@.signer_for(*call) {
                Ok(Some(a)) => r is Ok && r->Ok_0 is Some && r->Ok_0->Some_0@ == a,
                Ok(None) => r is Ok && r->Ok_0 is None,
                Err(e) => r is Err && r->Err_0 == e,
            },
    {
        match call {
            CouponCall::PayCoupon => match &self.links {
                Some(l) => Ok(Some(l.issuer.duplicate())),
                None => Err(ContractError::NotInitialized),
            },
            CouponCall::Redeem { holder } => Ok(Some(holder.duplicate())),
            _ => Ok(None),
        }
    }

    /// The bond contract the module is linked to; fails before
    /// initialisation.
    pub fn get_bond_contract(&self) -> (r: Result<Address, ContractError>)
        ensures
            match self@.links {
                Some(l) => r is Ok && r->Ok_0@ == l.bond_contract,
                None => r == Err::<Address, ContractError>(ContractError::NotInitialized),
            },
    {
        match &self.links {
            Some(l) => Ok(l.bond_contract.duplicate()),
            None => Err(ContractError::NotInitialized),
        }
    }

    /// The USDC token contract; fails before initialisation.
    pub fn get_usdc_token(&self) -> (r: Result<Address, ContractError>)
        ensures
            match self@.links {
                Some(l) => r is Ok && r->Ok_0@ == l.usdc_token,
                None => r == Err::<Address, ContractError>(ContractError::NotInitialized),
            },
    {
        match &self.links {
            Some(l) => Ok(l.usdc_token.duplicate()),
            None => Err(ContractError::NotInitialized),
        }
    }
}

/// The module is initialised at most once, and its links are the ones
/// given at initialisation.
pub proof fn law_initialize_once_and_links_kept(
    s: CouponView,
    issuer: Seq<u8>,
    bond_contract: Seq<u8>,
    usdc_token: Seq<u8>,
    other: Seq<u8>,
)
    ensures
        s.initialize_outcome(issuer, bond_contract, usdc_token) matches Ok(t) ==> {
            &&& t.links matches Some(l) && l.issuer == issuer && l.bond_contract == bond_contract
                && l.usdc_token == usdc_token && l.next_coupon_index == 0
            &&& t.initialize_outcome(other, other, other) == Err::<CouponView, ContractError>(
                ContractError::AlreadyInitialized,
            )
        },
{
}

/// No payout ever succeeds yet: once initialised, `pay_coupon` and
/// `redeem` are refused as not implemented rather than reported as done.
pub proof fn law_payouts_refused(s: CouponView)
    ensures
        s.links is Some ==> s.payout_refusal() == ContractError::NotImplemented,
        s.links is None ==> s.payout_refusal() == ContractError::NotInitialized,
{
}


/// Roles: only the issuer may trigger a coupon payment, only a holder may
/// redeem its own tokens, and initialising and reading need no signature.
pub proof fn law_roles(s: CouponView, holder: Address)
    ensures
        s.signer_for(CouponCall::Initialize) == Ok::<Option<Seq<u8>>, ContractError>(None),
        s.signer_for(CouponCall::Redeem { holder }) == Ok::<Option<Seq<u8>>, ContractError>(
            Some(holder@),
        ),
        s.links matches Some(l) ==> s.signer_for(CouponCall::PayCoupon) == Ok::<
            Option<Seq<u8>>,
            ContractError,
        >(Some(l.issuer)),
        s.links is None ==> s.signer_for(CouponCall::PayCoupon) == Err::<
            Option<Seq<u8>>,
            ContractError,
        >(ContractError::NotInitialized),
{
}


/// Initialising succeeds exactly on a module not initialised yet; it then
/// links exactly the given issuer, bond contract and USDC token, with the
/// first coupon next.
pub proof fn law_initialize_links_exactly_the_given_addresses(
    s: CouponView,
    issuer: Seq<u8>,
    bond_contract: Seq<u8>,
    usdc_token: Seq<u8>,
)
    ensures
        s.initialize_outcome(issuer, bond_contract, usdc_token) is Ok <==> s.links is None,
        s.initialize_outcome(issuer, bond_contract, usdc_token) matches Ok(t) ==> t.links
            matches Some(l) && l.issuer == issuer && l.bond_contract == bond_contract
            && l.usdc_token == usdc_token && l.next_coupon_index == 0,
        s.links is Some ==> s.initialize_outcome(issuer, bond_contract, usdc_token) == Err::<
            CouponView,
            ContractError,
        >(ContractError::AlreadyInitialized),
{
}

} // verus!
