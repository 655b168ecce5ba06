use vstd::prelude::*;

use crate::address::Address;
use crate::error::ContractError;

verus! {

/// What the whitelist registry holds, as mathematical values.
#[verifier::ext_equal]
pub struct WhitelistView {
    /// The address allowed to manage the registry; `None` before initialisation.
    pub admin: Option<Seq<u8>>,
    /// The whitelisted addresses.
    pub members: Set<Seq<u8>>,
    /// The running count of whitelisted addresses.
    pub count: u32,
}

/// The calls of the registry.
#[derive(Clone, Copy, Debug, PartialEq, Eq, Structural)]
pub enum WhitelistCall {
    Initialize,
    Add,
    Remove,
    TransferAdmin,
    IsWl,
    GetAdmin,
    WhitelistCount,
}

impl WhitelistView {
    /// Whose signature a call needs: the admin's for the management calls
    /// (which fail before initialisation), nobody's for the others.
    pub open spec fn signer_for(self, call: WhitelistCall) -> Result<Option<Seq<u8>>, ContractError> {
        match call {
            WhitelistCall::Add | WhitelistCall::Remove | WhitelistCall::TransferAdmin => {
                match self.admin {
                    Some(a) => Ok(Some(a)),
                    None => Err(ContractError::NotInitialized),
                }
            },
            _ => Ok(None),
        }
    }

    /// The registry's invariant: the count is the number of whitelisted
    /// addresses, and nobody is whitelisted before initialisation.
    pub open spec fn wf(self) -> bool {
        &&& self.members.finite()
        &&& self.members.len() == self.count
        &&& self.admin is None ==> self.members.is_empty()
    }

    /// The registry before any call.
    pub open spec fn empty() -> WhitelistView {
        WhitelistView { admin: None, members: Set::empty(), count: 0 }
    }

    /// Outcome of `initialize(admin)`.
    pub open spec fn initialize_outcome(self, admin: Seq<u8>) -> Result<WhitelistView, ContractError> {
        if self.admin is Some {
            Err(ContractError::AlreadyInitialized)
        } else {
            Ok(WhitelistView { admin: Some(admin), members: Set::empty(), count: 0 })
        }
    }

    /// Outcome of `add(address)`: an address already present is left as it is.
    pub open spec fn add_outcome(self, address: Seq<u8>) -> Result<WhitelistView, ContractError> {
        if self.admin is None {
            Err(ContractError::NotInitialized)
        } else if self.members.contains(address) {
            Ok(self)
        } else if self.count == u32::MAX {
            Err(ContractError::ArithmeticOverflow)
        } else {
            Ok(
                WhitelistView {
                    members: self.members.insert(address),
                    count: (self.count + 1) as u32,
                    ..self
                },
            )
        }
    }

    /// Outcome of `remove(address)`: an absent address is left as it is.
    pub open spec fn remove_outcome(self, address: Seq<u8>) -> Result<WhitelistView, ContractError> {
        if self.admin is None {
            Err(ContractError::NotInitialized)
        } else if !self.members.contains(address) {
            Ok(self)
        } else {
            Ok(
                WhitelistView {
                    members: self.members.remove(address),
                    count: if self.count > 0 {
                        (self.count - 1) as u32
                    } else {
                        self.count
                    },
                    ..self
                },
            )
        }
    }

    /// Outcome of `transfer_admin(new_admin)`.
    pub open spec fn transfer_admin_outcome(self, new_admin: Seq<u8>) -> Result<
        WhitelistView,
        ContractError,
    > {
        if self.admin is None {
            Err(ContractError::NotInitialized)
        } else {
            Ok(WhitelistView { admin: Some(new_admin), ..self })
        }
    }
}

/// The addresses of a list, by their bytes.
pub open spec fn address_keys(s: Seq<Address>) -> Seq<Seq<u8>> {
    s.map_values(|a: Address| a@)
}

/// The view of an optional address.
pub open spec fn address_view(a: Option<Address>) -> Option<Seq<u8>> {
    match a {
        Some(x) => Some(x@),
        None => None,
    }
}

/// Whether stored parts make up a valid registry: every member listed once,
/// no more members than the count can hold, and none before initialisation.
pub open spec fn whitelist_parts_valid(admin: Option<Seq<u8>>, members: Seq<Address>) -> bool {
    &&& address_keys(members).no_duplicates()
    &&& members.len() <= u32::MAX
    &&& admin is None ==> members.len() == 0
}

/// Whether no address occurs twice in `members`.
fn members_distinct(members: &Vec<Address>) -> (r: bool)
    ensures
        r == address_keys(members@).no_duplicates(),
{
    let n = members.len();
    let mut i: usize = 0;
    while i < n
        invariant
            n == members@.len(),
            i <= n,
            forall|x: int, y: int|
                0 <= x < i && 0 <= y < i && x != y ==> members@[x]@ != members@[y]@,
        decreases n - i,
    {
        let mut j: usize = 0;
        while j < i
            invariant
                n == members@.len(),
                j <= i < n,
                forall|y: int| 0 <= y < j ==> members@[y]@ != members@[i as int]@,
            decreases i - j,
        {
            if members[j].same_as(&members[i]) {
                assert(!address_keys(members@).no_duplicates()) by {
                    let keys = address_keys(members@);
                    assert(keys[j as int] == keys[i as int]);
                }
                return false;
            }
            j = j + 1;
        }
        i = i + 1;
    }
    proof {
        let keys = address_keys(members@);
        assert forall|x: int, y: int| 0 <= x < keys.len() && 0 <= y < keys.len() && x != y
            implies keys[x] != keys[y] by {
            assert(keys[x] == members@[x]@);
            assert(keys[y] == members@[y]@);
        }
    }
    true
}

/// The on-chain KYC registry: only the addresses it holds may hold or
/// receive bond tokens.
pub struct KycWhitelistContract {
    admin: Option<Address>,
    members: Vec<Address>,
    count: u32,
}

impl View for KycWhitelistContract {
    type V = WhitelistView;

    closed spec fn view(&self) -> WhitelistView {
        WhitelistView {
            admin: address_view(self.admin),
            members: address_keys(self.members@).to_set(),
            count: self.count,
        }
    }
}

impl KycWhitelistContract {
    /// The representation's invariant: members are listed once each, the
    /// count is their number, and none is listed before initialisation.
    pub closed spec fn wf(&self) -> bool {
        &&& address_keys(self.members@).no_duplicates()
        &&& self.count == self.members@.len()
        &&& self.admin is None ==> self.members@.len() == 0
    }

    /// A well-formed registry has a well-formed view.
    pub proof fn lemma_wf_view(&self)
        requires
            self.wf(),
        ensures
            self@.wf(),
    {
        let keys = address_keys(self.members@);
        keys.unique_seq_to_set();
        if self.admin is None {
            assert(keys.to_set() =~= Set::empty());
        }
    }

    /// A registry that has not been initialised.
    pub fn new() -> (c: KycWhitelistContract)
        ensures
            c.wf(),
            c@ == WhitelistView::empty(),
    {
        let c = KycWhitelistContract { admin: None, members: Vec::new(), count: 0 };
        proof {
            assert(address_keys(c.members@).to_set() =~= Set::empty());
        }
        c
    }

    /// Rebuilds a registry from its stored parts; `None` when they do not
    /// make up a valid registry. The count is the number of members.
    pub fn from_parts(admin: Option<Address>, members: Vec<Address>) -> (r: Option<
        KycWhitelistContract,
    >)
        ensures
            r is Some == whitelist_parts_valid(address_view(admin), members@),
            r matches Some(c) ==> c.wf() && c@ == (WhitelistView {
                admin: address_view(admin),
                members: address_keys(members@).to_set(),
                count: members@.len() as u32,
            }),
    {
        if !members_distinct(&members) {
            return None;
        }
        if members.len() > u32::MAX as usize {
            return None;
        }
        if admin.is_none() && members.len() != 0 {
            return None;
        }
        let count = members.len() as u32;
        Some(KycWhitelistContract { admin, members, count })
    }

    /// The stored parts of the registry, from which `from_parts` rebuilds
    /// it.
    pub fn into_parts(self) -> (r: (Option<Address>, Vec<Address>))
        requires
            self.wf(),
        ensures
            whitelist_parts_valid(address_view(r.0), r.1@),
            address_view(r.0) == self@.admin,
            address_keys(r.1@).to_set() == self@.members,
            r.1@.len() == self@.count,
    {
        (self.admin, self.members)
    }

    /// The position of `address` in the member list, if it is there.
    fn position(&self, address: &Address) -> (r: Option<usize>)
        ensures
            match r {
                Some(i) => i < self.members@.len() && self.members@[i as int]@ == address@,
                None => !address_keys(self.members@).contains(address@),
            },
    {
        let n = self.members.len();
        let mut i: usize = 0;
        while i < n
            invariant
                n == self.members@.len(),
                i <= n,
                forall|j: int| 0 <= j < i ==> self.members@[j]@ != address@,
            decreases n - i,
        {
            if self.members[i].same_as(address) {
                return Some(i);
            }
            i = i + 1;
        }
        proof {
            let keys = address_keys(self.members@);
            if keys.contains(address@) {
                let j = choose|j: int| 0 <= j < keys.len() && keys[j] == address@;
                assert(self.members@[j]@ == address@);
            }
        }
        None
    }

    /// Sets up the registry with its admin. Fails if it was set up before.
    pub fn initialize(&mut self, admin: Address) -> (r: Result<(), ContractError>)
        requires
            old(self).wf(),
        ensures
            final(self).wf(),
            match old(self)@.initialize_outcome(admin@) {
                Ok(t) => r is Ok && final(self)@ == t,
                Err(e) => r == Err::<(), ContractError>(e) && final(self)@ == old(self)@,
            },
    {
        if self.admin.is_some() {
            return Err(ContractError::AlreadyInitialized);
        }
        self.admin = Some(admin);
        self.count = 0;
        proof {
            assert(address_keys(self.members@).to_set() =~= Set::empty());
        }
        Ok(())
    }

    /// Whitelists `address`. Returns whether it was newly added; an address
    /// already present leaves the registry unchanged.
    pub fn add(&mut self, address: Address) -> (r: Result<bool, ContractError>)
        requires
            old(self).wf(),
        ensures
            final(self).wf(),
            match old(self)@.add_outcome(address@) {
                Ok(t) => r == Ok::<bool, ContractError>(!old(self)@.members.contains(address@))
                    && final(self)@ == t,
                Err(e) => r == Err::<bool, ContractError>(e) && final(self)@ == old(self)@,
            },
    {
        if self.admin.is_none() {
            return Err(ContractError::NotInitialized);
        }
        let ghost keys = address_keys(self.members@);
        match self.position(&address) {
            Some(i) => {
                proof {
                    assert(keys[i as int] == address@);
                    assert(keys.to_set().contains(address@));
                }
                Ok(false)
            },
            None => {
                if self.count == u32::MAX {
                    return Err(ContractError::ArithmeticOverflow);
                }
                let ghost a = address@;
                self.members.push(address);
                self.count = self.count + 1;
                proof {
                    let nkeys = address_keys(self.members@);
                    assert(nkeys =~= keys.push(a));
                    assert forall|x, y| 0 <= x < nkeys.len() && 0 <= y < nkeys.len() && x != y
                        implies nkeys[x] != nkeys[y] by {
                        if x < keys.len() && y < keys.len() {
                        } else if x == keys.len() {
                            assert(keys[y] == nkeys[y]);
                        } else {
                            assert(keys[x] == nkeys[x]);
                        }
                    }
                    assert forall|k| nkeys.to_set().contains(k) <==> keys.to_set().insert(
                        a,
                    ).contains(k) by {
                        if nkeys.to_set().contains(k) {
                            let x = choose|x: int| 0 <= x < nkeys.len() && nkeys[x] == k;
                            if x < keys.len() {
                                assert(keys[x] == k);
                            }
                        }
                        if keys.to_set().contains(k) {
                            let x = choose|x: int| 0 <= x < keys.len() && keys[x] == k;
                            assert(nkeys[x] == k);
                        }
                        if k == a {
                            assert(nkeys[keys.len() as int] == k);
                        }
                    }
                    assert(nkeys.to_set() =~= keys.to_set().insert(a));
                }
                Ok(true)
            },
        }
    }

    /// Removes `address` from the whitelist. Returns whether it was present;
    /// an absent address leaves the registry unchanged.
    pub fn remove(&mut self, address: &Address) -> (r: Result<bool, ContractError>)
        requires
            old(self).wf(),
        ensures
            final(self).wf(),
            match old(self)@.remove_outcome(address@) {
                Ok(t) => r == Ok::<bool, ContractError>(old(self)@.members.contains(address@))
                    && final(self)@ == t,
                Err(e) => r == Err::<bool, ContractError>(e) && final(self)@ == old(self)@,
            },
    {
        if self.admin.is_none() {
            return Err(ContractError::NotInitialized);
        }
        let ghost keys = address_keys(self.members@);
        match self.position(address) {
            None => Ok(false),
            Some(i) => {
                proof {
                    assert(keys[i as int] == address@);
                    assert(keys.to_set().contains(address@));
                }
                self.members.remove(i);
                if self.count > 0 {
                    self.count = self.count - 1;
                }
                proof {
                    let nkeys = address_keys(self.members@);
                    assert(nkeys =~= keys.remove(i as int));
                    assert forall|x, y| 0 <= x < nkeys.len() && 0 <= y < nkeys.len() && x != y
                        implies nkeys[x] != nkeys[y] by {
                        let kx = if x < i { x } else { x + 1 };
                        let ky = if y < i { y } else { y + 1 };
                        assert(nkeys[x] == keys[kx]);
                        assert(nkeys[y] == keys[ky]);
                    }
                    assert forall|k| nkeys.to_set().contains(k) <==> keys.to_set().remove(
                        address@,
                    ).contains(k) by {
                        if nkeys.to_set().contains(k) {
                            let x = choose|x: int| 0 <= x < nkeys.len() && nkeys[x] == k;
                            let kx = if x < i { x } else { x + 1 };
                            assert(nkeys[x] == keys[kx]);
                            assert(kx != i);
                        }
                        if keys.to_set().remove(address@).contains(k) {
                            let x = choose|x: int| 0 <= x < keys.len() && keys[x] == k;
                            assert(x != i);
                            if x < i {
                                assert(nkeys[x] == k);
                            } else {
                                assert(nkeys[x - 1] == k);
                            }
                        }
                    }
                    assert(nkeys.to_set() =~= keys.to_set().remove(address@));
                }
                Ok(true)
            },
        }
    }

    /// Hands the admin role to `new_admin`.
    pub fn transfer_admin(&mut self, new_admin: Address) -> (r: Result<(), ContractError>)
        requires
            old(self).wf(),
        ensures
            final(self).wf(),
            match old(self)@.transfer_admin_outcome(new_admin@) {
                Ok(t) => r is Ok && final(self)@ == t,
                Err(e) => r == Err::<(), ContractError>(e) && final(self)@ == old(self)@,
            },
    {
        if self.admin.is_none() {
            return Err(ContractError::NotInitialized);
        }
        self.admin = Some(new_admin);
        Ok(())
    }

    /// Whether `address` is whitelisted.
    pub fn is_wl(&self, address: &Address) -> (r: bool)
        requires
            self.wf(),
        ensures
            r == self@.members.contains(address@),
    {
        let ghost keys = address_keys(self.members@);
        match self.position(address) {
            Some(i) => {
                proof {
                    assert(keys[i as int] == address@);
                }
                true
            },
            None => false,
        }
    }

    /// The address whose signature `call` needs, if any; the host checks
    /// that signature before the call is made.
    pub fn required_signer(&self, call: WhitelistCall) -> (r: Result<Option<Address>, ContractError>)
        ensures
            match self@.signer_for(call) {
                Ok(Some(a)) => r is Ok && r->Ok_0 is Some && r->Ok_0->Some_0@ == a,
                Ok(None) => r is Ok && r->Ok_0 is None,
                Err(e) => r is Err && r->Err_0 == e,
            },
    {
        match call {
            WhitelistCall::Add | WhitelistCall::Remove | WhitelistCall::TransferAdmin => {
                match &self.admin {
                    Some(a) => Ok(Some(a.duplicate())),
                    None => Err(ContractError::NotInitialized),
                }
            },
            _ => Ok(None),
        }
    }

    /// The current admin; fails before initialisation.
    pub fn get_admin(&self) -> (r: Result<Address, ContractError>)
        ensures
            match self@.admin {
                Some(a) => r is Ok && r->Ok_0@ == a,
                None => r == Err::<Address, ContractError>(ContractError::NotInitialized),
            },
    {
        match &self.admin {
            Some(a) => Ok(a.duplicate()),
            None => Err(ContractError::NotInitialized),
        }
    }

    /// The number of whitelisted addresses.
    pub fn whitelist_count(&self) -> (r: u32)
        ensures
            r == self@.count,
    {
        self.count
    }
}

/// Every call that succeeds keeps the registry's invariant: the count of
/// whitelisted addresses is exactly the number of addresses in the whitelist.
pub proof fn law_calls_keep_count_exact(s: WhitelistView, address: Seq<u8>)
    requires
        s.wf(),
    ensures
        WhitelistView::empty().wf(),
        s.initialize_outcome(address) matches Ok(t) ==> t.wf(),
        s.add_outcome(address) matches Ok(t) ==> t.wf(),
        s.remove_outcome(address) matches Ok(t) ==> t.wf(),
        s.transfer_admin_outcome(address) matches Ok(t) ==> t.wf(),
{
    if s.add_outcome(address) is Ok && !s.members.contains(address) {
        assert(s.members.insert(address).len() == s.members.len() + 1);
    }
    if s.remove_outcome(address) is Ok && s.members.contains(address) {
        assert(s.members.remove(address).len() == s.members.len() - 1);
    }
}

/// After `add(a)` succeeds, `a` is whitelisted; after `remove(a)` succeeds,
/// it is not.
pub proof fn law_add_then_listed_remove_then_unlisted(s: WhitelistView, address: Seq<u8>)
    ensures
        s.add_outcome(address) matches Ok(t) ==> t.members.contains(address),
        s.remove_outcome(address) matches Ok(t) ==> !t.members.contains(address),
{
}

/// Adding or removing one address changes the status of no other address,
/// and never changes the admin.
pub proof fn law_other_addresses_unaffected(s: WhitelistView, address: Seq<u8>, other: Seq<u8>)
    requires
        other != address,
    ensures
        s.add_outcome(address) matches Ok(t) ==> t.members.contains(other) == s.members.contains(
            other,
        ) && t.admin == s.admin,
        s.remove_outcome(address) matches Ok(t) ==> t.members.contains(other)
            == s.members.contains(other) && t.admin == s.admin,
{
}

/// Adding an address twice is the same as adding it once: the second call
/// changes nothing, and in particular does not increase the count.
pub proof fn law_add_is_idempotent(s: WhitelistView, address: Seq<u8>)
    ensures
        s.add_outcome(address) matches Ok(t) ==> t.add_outcome(address) == Ok::<
            WhitelistView,
            ContractError,
        >(t),
{
}

/// Removing an address that is not whitelisted changes nothing.
pub proof fn law_remove_absent_is_noop(s: WhitelistView, address: Seq<u8>)
    requires
        s.admin is Some,
        !s.members.contains(address),
    ensures
        s.remove_outcome(address) == Ok::<WhitelistView, ContractError>(s),
{
}

/// Removing an address that was just added undoes the addition.
pub proof fn law_remove_undoes_add(s: WhitelistView, address: Seq<u8>)
    requires
        s.wf(),
        !s.members.contains(address),
    ensures
        s.add_outcome(address) matches Ok(t) ==> t.remove_outcome(address) == Ok::<
            WhitelistView,
            ContractError,
        >(s),
{
    if s.add_outcome(address) is Ok {
        assert(s.members.insert(address).remove(address) =~= s.members);
    }
}

/// The registry is initialised at most once: a second `initialize` is
/// refused, whatever the admin it names.
pub proof fn law_initialize_once(s: WhitelistView, first: Seq<u8>, second: Seq<u8>)
    ensures
        s.initialize_outcome(first) matches Ok(t) ==> t.initialize_outcome(second) == Err::<
            WhitelistView,
            ContractError,
        >(ContractError::AlreadyInitialized),
{
}

/// Before initialisation every management call is refused.
pub proof fn law_uninitialized_refuses_management(address: Seq<u8>)
    ensures
        WhitelistView::empty().add_outcome(address) == Err::<WhitelistView, ContractError>(
            ContractError::NotInitialized,
        ),
        WhitelistView::empty().remove_outcome(address) == Err::<WhitelistView, ContractError>(
            ContractError::NotInitialized,
        ),
        WhitelistView::empty().transfer_admin_outcome(address) == Err::<
            WhitelistView,
            ContractError,
        >(ContractError::NotInitialized),
{
}

/// Handing over the admin role makes the new address the admin and leaves
/// the whitelist and its count unchanged.
pub proof fn law_transfer_admin_keeps_whitelist(s: WhitelistView, new_admin: Seq<u8>)
    ensures
        s.transfer_admin_outcome(new_admin) matches Ok(t) ==> t.admin == Some(new_admin)
            && t.members == s.members && t.count == s.count,
{
}


/// Only the admin may manage the registry: once it is initialised, adding,
/// removing and handing over the admin role need the admin's signature,
/// while initialising and reading need none.
pub proof fn law_management_needs_admin(s: WhitelistView)
    ensures
        s.signer_for(WhitelistCall::Initialize) == Ok::<Option<Seq<u8>>, ContractError>(None),
        s.signer_for(WhitelistCall::IsWl) == Ok::<Option<Seq<u8>>, ContractError>(None),
        s.signer_for(WhitelistCall::GetAdmin) == Ok::<Option<Seq<u8>>, ContractError>(None),
        s.signer_for(WhitelistCall::WhitelistCount) == Ok::<Option<Seq<u8>>, ContractError>(
            None,
        ),
        s.admin matches Some(a) ==> {
            &&& s.signer_for(WhitelistCall::Add) == Ok::<Option<Seq<u8>>, ContractError>(Some(a))
            &&& s.signer_for(WhitelistCall::Remove) == Ok::<Option<Seq<u8>>, ContractError>(
                Some(a),
            )
            &&& s.signer_for(WhitelistCall::TransferAdmin) == Ok::<
                Option<Seq<u8>>,
                ContractError,
            >(Some(a))
        },
{
}

/// After the admin role is handed to `new_admin`, every management call
/// needs `new_admin`'s signature, and no longer the old admin's.
pub proof fn law_admin_handover_moves_authority(s: WhitelistView, new_admin: Seq<u8>)
    ensures
        s.transfer_admin_outcome(new_admin) matches Ok(t) ==> {
            &&& t.signer_for(WhitelistCall::Add) == Ok::<Option<Seq<u8>>, ContractError>(
                Some(new_admin),
            )
            &&& t.signer_for(WhitelistCall::Remove) == Ok::<Option<Seq<u8>>, ContractError>(
                Some(new_admin),
            )
            &&& t.signer_for(WhitelistCall::TransferAdmin) == Ok::<
                Option<Seq<u8>>,
                ContractError,
            >(Some(new_admin))
        },
{
}

/// Adding and removing addresses never changes who may manage the
/// registry.
pub proof fn law_membership_changes_keep_authority(s: WhitelistView, address: Seq<u8>, call: WhitelistCall)
    ensures
        s.add_outcome(address) matches Ok(t) ==> t.signer_for(call) == s.signer_for(call),
        s.remove_outcome(address) matches Ok(t) ==> t.signer_for(call) == s.signer_for(call),
{
}


/// Initialising succeeds exactly on a registry not initialised yet; it
/// then makes the given address the admin, with nobody whitelisted and a
/// count of zero.
pub proof fn law_initialize_sets_admin_and_empty_list(s: WhitelistView, admin: Seq<u8>)
    ensures
        s.initialize_outcome(admin) is Ok <==> s.admin is None,
        s.initialize_outcome(admin) matches Ok(t) ==> t.admin == Some(admin) && t.members
            == Set::<Seq<u8>>::empty() && t.count == 0,
        s.admin is Some ==> s.initialize_outcome(admin) == Err::<WhitelistView, ContractError>(
            ContractError::AlreadyInitialized,
        ),
{
}

/// On an initialised registry, adding succeeds for any address already
/// listed and for any new address while the count is below `u32::MAX`: the
/// whitelist becomes the old one with the address in it, the count grows by
/// one exactly when the address is new, and the admin stays. Before
/// initialisation, and for a new address at a full count, it fails.
pub proof fn law_add_succeeds_for_every_new_address(s: WhitelistView, address: Seq<u8>)
    requires
        s.wf(),
    ensures
        s.add_outcome(address) is Ok <==> (s.admin is Some && (s.members.contains(address)
            || s.count < u32::MAX)),
        s.add_outcome(address) matches Ok(t) ==> {
            &&& t.members == s.members.insert(address)
            &&& t.count == if s.members.contains(address) {
                s.count as int
            } else {
                s.count + 1
            }
            &&& t.admin == s.admin
        },
        s.admin is None ==> s.add_outcome(address) == Err::<WhitelistView, ContractError>(
            ContractError::NotInitialized,
        ),
        s.admin is Some && !s.members.contains(address) && s.count == u32::MAX ==> s.add_outcome(
            address,
        ) == Err::<WhitelistView, ContractError>(ContractError::ArithmeticOverflow),
{
    if s.members.contains(address) {
        assert(s.members.insert(address) =~= s.members);
    }
}

/// On an initialised registry, removing always succeeds: the whitelist
/// becomes the old one without the address, the count drops by one exactly
/// when the address was listed, and the admin stays. Before initialisation
/// it fails.
pub proof fn law_remove_always_succeeds_once_initialised(s: WhitelistView, address: Seq<u8>)
    requires
        s.wf(),
    ensures
        s.remove_outcome(address) is Ok <==> s.admin is Some,
        s.remove_outcome(address) matches Ok(t) ==> {
            &&& t.members == s.members.remove(address)
            &&& t.count == if s.members.contains(address) {
                s.count - 1
            } else {
                s.count as int
            }
            &&& t.admin == s.admin
        },
        s.admin is None ==> s.remove_outcome(address) == Err::<WhitelistView, ContractError>(
            ContractError::NotInitialized,
        ),
{
    if !s.members.contains(address) {
        assert(s.members.remove(address) =~= s.members);
    } else {
        assert(s.count > 0) by {
            assert(s.members.len() > 0);
        }
    }
}

/// On an initialised registry, handing over the admin role always
/// succeeds, whatever the whitelist holds: the new address becomes the
/// admin and the whitelist and its count stay. Before initialisation it
/// fails.
pub proof fn law_transfer_admin_always_succeeds_once_initialised(
    s: WhitelistView,
    new_admin: Seq<u8>,
)
    ensures
        s.transfer_admin_outcome(new_admin) is Ok <==> s.admin is Some,
        s.transfer_admin_outcome(new_admin) matches Ok(t) ==> t.admin == Some(new_admin)
            && t.members == s.members && t.count == s.count,
        s.admin is None ==> s.transfer_admin_outcome(new_admin) == Err::<
            WhitelistView,
            ContractError,
        >(ContractError::NotInitialized),
{
}

} // verus!
