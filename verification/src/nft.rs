//! The mint-counter core of the child NFT collection contract: one-shot
//! initialization of the collection metadata, a role table gating who may
//! mint, and sequential token-ID allocation.
//!
//! Token ownership, transfers and approvals live in the token base the host
//! links in; this crate only decides whether a mint may happen and which
//! token IDs it produces.  A successful `mint` returns the first allocated
//! token ID, and the caller forwards one base-mint per ID in
//! `first .. first + amount` to the token base.

use vstd::prelude::*;

use crate::address::Address;
use crate::auth::AuthContext;
use crate::errors::RegistryError;
use crate::fees::BPS_DENOMINATOR;

verus! {

/// The collection metadata the constructor stores.
#[derive(Debug, PartialEq, Eq)]
#[verifier::ext_equal]
pub struct CollectionMetadata {
    pub name: String,
    pub symbol: String,
    pub uri_base: String,
    pub royalties_bps: u32,
}

/// Does the role table hold a grant of `role` to `a`?
pub open spec fn has_pair(s: Seq<(Address, String)>, a: Address, role: Seq<char>) -> bool {
    exists|i: int| 0 <= i < s.len() && s[i].0 == a && s[i].1@ == role
}

/// No grant occurs twice.
pub open spec fn pairs_unique(s: Seq<(Address, String)>) -> bool {
    forall|i: int, j: int|
        0 <= i < j < s.len() ==> !(s[i].0 == s[j].0 && s[i].1@ == s[j].1@)
}

/// The role whose holders may mint.
pub open spec fn spec_minter_role() -> Seq<char> {
    "minter"@
}

/// The name of the role whose holders may mint.
pub fn minter_role() -> (r: String)
    ensures
        r@ == spec_minter_role(),
{
    "minter".to_owned()
}

/// Records a grant of `role` to `account`; granting twice stores one entry.
fn roles_grant(roles: &mut Vec<(Address, String)>, account: Address, role: String)
    requires
        pairs_unique(old(roles)@),
    ensures
        pairs_unique(final(roles)@),
        forall|a: Address, rv: Seq<char>|
            #[trigger] has_pair(final(roles)@, a, rv) <==> has_pair(old(roles)@, a, rv) || (a
                == account && rv == role@),
{
    let ghost s0 = roles@;
    let ghost rv0 = role@;
    let n = roles.len();
    let mut i: usize = 0;
    while i < n
        invariant
            i <= n,
            n == roles@.len(),
            roles@ == s0,
            s0 == old(roles)@,
            pairs_unique(s0),
            rv0 == role@,
            forall|j: int| 0 <= j < i ==> !(s0[j].0 == account && s0[j].1@ == rv0),
        decreases n - i,
    {
        if roles[i].0 == account && roles[i].1 == role {
            proof {
                assert(has_pair(s0, account, rv0));
                assert forall|a: Address, rv: Seq<char>|
                    #[trigger] has_pair(s0, a, rv) <==> has_pair(s0, a, rv) || (a == account && rv
                        == rv0) by {
                    if a == account && rv == rv0 {
                        assert(has_pair(s0, a, rv));
                    }
                }
            }
            return;
        }
        i = i + 1;
    }
    roles.push((account, role));
    proof {
        let s1 = roles@;
        assert(s1.last().0 == account && s1.last().1@ == rv0);
        assert forall|a: Address, rv: Seq<char>|
            #[trigger] has_pair(s1, a, rv) implies has_pair(s0, a, rv) || (a == account && rv
            == rv0) by {
            let k = choose|k: int| 0 <= k < s1.len() && s1[k].0 == a && s1[k].1@ == rv;
            if k < s0.len() {
                assert(s0[k].0 == a && s0[k].1@ == rv);
            }
        }
        assert forall|a: Address, rv: Seq<char>|
            has_pair(s0, a, rv) || (a == account && rv == rv0) implies #[trigger] has_pair(
            s1,
            a,
            rv,
        ) by {
            if has_pair(s0, a, rv) {
                let k = choose|k: int| 0 <= k < s0.len() && s0[k].0 == a && s0[k].1@ == rv;
                assert(s1[k].0 == a && s1[k].1@ == rv);
            } else {
                assert(s1[s0.len() as int].0 == a && s1[s0.len() as int].1@ == rv);
            }
        }
        assert forall|p: int, q: int| 0 <= p < q < s1.len() implies !(s1[p].0 == s1[q].0
            && s1[p].1@ == s1[q].1@) by {
            if q == s0.len() as int {
                assert(!(s0[p].0 == account && s0[p].1@ == rv0));
            } else {
                assert(!(s0[p].0 == s0[q].0 && s0[p].1@ == s0[q].1@));
            }
        }
    }
}

/// Removes the grant of `role` to `account`, if it is there.
fn roles_revoke(roles: &mut Vec<(Address, String)>, account: Address, role: &String)
    requires
        pairs_unique(old(roles)@),
    ensures
        pairs_unique(final(roles)@),
        forall|a: Address, rv: Seq<char>|
            #[trigger] has_pair(final(roles)@, a, rv) <==> has_pair(old(roles)@, a, rv) && !(a
                == account && rv == role@),
{
    let ghost s0 = roles@;
    let ghost rv0 = role@;
    let n = roles.len();
    let mut i: usize = 0;
    while i < n
        invariant
            i <= n,
            n == roles@.len(),
            roles@ == s0,
            s0 == old(roles)@,
            pairs_unique(s0),
            rv0 == role@,
            forall|j: int| 0 <= j < i ==> !(s0[j].0 == account && s0[j].1@ == rv0),
        decreases n - i,
    {
        if roles[i].0 == account && roles[i].1 == *role {
            roles.remove(i);
            proof {
                let s1 = roles@;
                assert(s1 =~= s0.subrange(0, i as int) + s0.subrange(i + 1, s0.len() as int));
                assert forall|a: Address, rv: Seq<char>|
                    #[trigger] has_pair(s1, a, rv) implies has_pair(s0, a, rv) && !(a == account
                    && rv == rv0) by {
                    let k = choose|k: int| 0 <= k < s1.len() && s1[k].0 == a && s1[k].1@ == rv;
                    if k < i as int {
                        assert(s0[k].0 == a && s0[k].1@ == rv);
                        assert(!(s0[k].0 == account && s0[k].1@ == rv0));
                    } else {
                        assert(s1[k] == s0[k + 1]);
                        assert(s0[k + 1].0 == a && s0[k + 1].1@ == rv);
                        assert(!(s0[k + 1].0 == account && s0[k + 1].1@ == rv0));
                    }
                }
                assert forall|a: Address, rv: Seq<char>|
                    has_pair(s0, a, rv) && !(a == account && rv == rv0) implies #[trigger] has_pair(
                    s1,
                    a,
                    rv,
                ) by {
                    let k = choose|k: int| 0 <= k < s0.len() && s0[k].0 == a && s0[k].1@ == rv;
                    if k < i as int {
                        assert(s1[k].0 == a && s1[k].1@ == rv);
                    } else if k == i as int {
                        assert(false);
                    } else {
                        assert(s1[k - 1] == s0[k]);
                        assert(s1[k - 1].0 == a && s1[k - 1].1@ == rv);
                    }
                }
                assert forall|p: int, q: int| 0 <= p < q < s1.len() implies !(s1[p].0 == s1[q].0
                    && s1[p].1@ == s1[q].1@) by {
                    let p0 = if p < i as int {
                        p
                    } else {
                        p + 1
                    };
                    let q0 = if q < i as int {
                        q
                    } else {
                        q + 1
                    };
                    assert(s1[p] == s0[p0] && s1[q] == s0[q0]);
                    assert(!(s0[p0].0 == s0[q0].0 && s0[p0].1@ == s0[q0].1@));
                }
            }
            return;
        }
        i = i + 1;
    }
    proof {
        assert forall|a: Address, rv: Seq<char>|
            #[trigger] has_pair(s0, a, rv) implies has_pair(s0, a, rv) && !(a == account && rv
            == rv0) by {
            let k = choose|k: int| 0 <= k < s0.len() && s0[k].0 == a && s0[k].1@ == rv;
            assert(!(s0[k].0 == account && s0[k].1@ == rv0));
        }
    }
}

/// The NFT contract's state: the metadata singleton, the admin set at
/// construction, the role table, and the sequential token-ID counter.
pub struct NFTContract {
    pub metadata: Option<CollectionMetadata>,
    pub admin: Option<Address>,
    pub roles: Vec<(Address, String)>,
    pub next_token_id: u32,
}

impl NFTContract {
    /// Does the contract hold a grant of `role` to `a`?
    pub open spec fn has_role_spec(self, a: Address, role: Seq<char>) -> bool {
        has_pair(self.roles@, a, role)
    }

    /// Well-formedness: the counter starts at 1, the stored royalty rate
    /// respects the ceiling, the role table holds no duplicate grant, and
    /// before construction there is no admin, no grant and no minted token.
    pub open spec fn wf(self) -> bool {
        &&& 1 <= self.next_token_id
        &&& (self.metadata matches Some(m) ==> m.royalties_bps <= BPS_DENOMINATOR)
        &&& (self.metadata is None ==> self.admin is None && self.roles@.len() == 0
            && self.next_token_id == 1)
        &&& pairs_unique(self.roles@)
    }

    /// Which error, if any, gates the admin-only role operations.
    pub open spec fn admin_gate(self, auth: AuthContext, admin: Address) -> Option<
        RegistryError,
    > {
        if self.admin != Some(admin) {
            Some(RegistryError::NotAuthorized)
        } else if !auth.allows_spec(admin) {
            Some(RegistryError::NotAuthorized)
        } else {
            None
        }
    }

    /// A freshly deployed, not yet constructed contract.
    pub fn new() -> (r: NFTContract)
        ensures
            r.wf(),
            r.metadata is None,
            r.admin is None,
            r.next_token_id == 1,
            forall|a: Address, rv: Seq<char>| !r.has_role_spec(a, rv),
    {
        NFTContract { metadata: None, admin: None, roles: Vec::new(), next_token_id: 1 }
    }

    /// Constructs the collection: stores the metadata, makes `owner` the
    /// admin, and starts the token counter at 1.  Fails with
    /// `AlreadyInitialized` whenever metadata exists, whatever the
    /// arguments, and with `RoyaltyExceeded` when the royalty rate exceeds
    /// the ceiling.  The caller forwards the metadata to the token base
    /// after a successful construction.
    pub fn init(
        &mut self,
        owner: Address,
        name: String,
        symbol: String,
        uri_base: String,
        royalties_bps: u32,
    ) -> (r: Result<(), RegistryError>)
        requires
            old(self).wf(),
        ensures
            final(self).wf(),
            old(self).metadata is Some ==> r == Err::<(), RegistryError>(
                RegistryError::AlreadyInitialized,
            ) && *final(self) == *old(self),
            old(self).metadata is None && royalties_bps > BPS_DENOMINATOR ==> r == Err::<(),
                RegistryError,
            >(RegistryError::RoyaltyExceeded) && *final(self) == *old(self),
            old(self).metadata is None && royalties_bps <= BPS_DENOMINATOR ==> ({
                &&& r == Ok::<(), RegistryError>(())
                &&& final(self).metadata == Some(
                    CollectionMetadata { name, symbol, uri_base, royalties_bps },
                )
                &&& final(self).admin == Some(owner)
                &&& final(self).next_token_id == 1
                &&& final(self).roles@ == old(self).roles@
            }),
    {
        if self.metadata.is_some() {
            return Err(RegistryError::AlreadyInitialized);
        }
        if royalties_bps > BPS_DENOMINATOR {
            return Err(RegistryError::RoyaltyExceeded);
        }
        self.admin = Some(owner);
        self.metadata = Some(CollectionMetadata { name, symbol, uri_base, royalties_bps });
        self.next_token_id = 1;
        Ok(())
    }

    /// Allocates `amount` sequential token IDs to `to`: returns the first
    /// and advances the counter past the last.  Only a holder of the
    /// minter role may mint.  The caller forwards one base-mint per
    /// allocated ID.
    pub fn mint(&mut self, caller: Address, to: Address, amount: u32) -> (r: Result<
        u32,
        RegistryError,
    >)
        requires
            old(self).wf(),
            old(self).next_token_id + amount <= u32::MAX,
        ensures
            final(self).wf(),
            if old(self).has_role_spec(caller, spec_minter_role()) {
                &&& r == Ok::<u32, RegistryError>(old(self).next_token_id)
                &&& final(self).next_token_id == old(self).next_token_id + amount
                &&& final(self).metadata == old(self).metadata
                &&& final(self).admin == old(self).admin
                &&& final(self).roles@ == old(self).roles@
            } else {
                r == Err::<u32, RegistryError>(RegistryError::NotAuthorized) && *final(self)
                    == *old(self)
            },
    {
        let role = minter_role();
        if !self.check_role(caller, role) {
            return Err(RegistryError::NotAuthorized);
        }
        let first = self.next_token_id;
        self.next_token_id = first + amount;
        Ok(first)
    }

    /// Grants the minter role to `new_minter`.  Admin-only.
    pub fn set_minter(&mut self, auth: &AuthContext, admin: Address, new_minter: Address) -> (r:
        Result<(), RegistryError>)
        requires
            old(self).wf(),
        ensures
            final(self).wf(),
            match old(self).admin_gate(*auth, admin) {
                Some(e) => r == Err::<(), RegistryError>(e) && *final(self) == *old(self),
                None => ({
                    &&& r == Ok::<(), RegistryError>(())
                    &&& (forall|a: Address, rv: Seq<char>|
                        #[trigger] has_pair(final(self).roles@, a, rv) <==> has_pair(
                            old(self).roles@,
                            a,
                            rv,
                        ) || (a == new_minter && rv == spec_minter_role()))
                    &&& final(self).metadata == old(self).metadata
                    &&& final(self).admin == old(self).admin
                    &&& final(self).next_token_id == old(self).next_token_id
                }),
            },
    {
        if !self.is_admin(&admin) {
            return Err(RegistryError::NotAuthorized);
        }
        if !auth.allows(&admin) {
            return Err(RegistryError::NotAuthorized);
        }
        roles_grant(&mut self.roles, new_minter, minter_role());
        Ok(())
    }

    /// Grants `role` to `account`.  Admin-only.
    pub fn assign_role(
        &mut self,
        auth: &AuthContext,
        admin: Address,
        account: Address,
        role: String,
    ) -> (r: Result<(), RegistryError>)
        requires
            old(self).wf(),
        ensures
            final(self).wf(),
            match old(self).admin_gate(*auth, admin) {
                Some(e) => r == Err::<(), RegistryError>(e) && *final(self) == *old(self),
                None => ({
                    &&& r == Ok::<(), RegistryError>(())
                    &&& (forall|a: Address, rv: Seq<char>|
                        #[trigger] has_pair(final(self).roles@, a, rv) <==> has_pair(
                            old(self).roles@,
                            a,
                            rv,
                        ) || (a == account && rv == role@))
                    &&& final(self).metadata == old(self).metadata
                    &&& final(self).admin == old(self).admin
                    &&& final(self).next_token_id == old(self).next_token_id
                }),
            },
    {
        if !self.is_admin(&admin) {
            return Err(RegistryError::NotAuthorized);
        }
        if !auth.allows(&admin) {
            return Err(RegistryError::NotAuthorized);
        }
        roles_grant(&mut self.roles, account, role);
        Ok(())
    }

    /// Revokes `role` from `account`.  Admin-only.
    pub fn remove_role(
        &mut self,
        auth: &AuthContext,
        admin: Address,
        account: Address,
        role: String,
    ) -> (r: Result<(), RegistryError>)
        requires
            old(self).wf(),
        ensures
            final(self).wf(),
            match old(self).admin_gate(*auth, admin) {
                Some(e) => r == Err::<(), RegistryError>(e) && *final(self) == *old(self),
                None => ({
                    &&& r == Ok::<(), RegistryError>(())
                    &&& (forall|a: Address, rv: Seq<char>|
                        #[trigger] has_pair(final(self).roles@, a, rv) <==> has_pair(
                            old(self).roles@,
                            a,
                            rv,
                        ) && !(a == account && rv == role@))
                    &&& final(self).metadata == old(self).metadata
                    &&& final(self).admin == old(self).admin
                    &&& final(self).next_token_id == old(self).next_token_id
                }),
            },
    {
        if !self.is_admin(&admin) {
            return Err(RegistryError::NotAuthorized);
        }
        if !auth.allows(&admin) {
            return Err(RegistryError::NotAuthorized);
        }
        roles_revoke(&mut self.roles, account, &role);
        Ok(())
    }

    /// Whether `account` holds `role`.
    pub fn check_role(&self, account: Address, role: String) -> (r: bool)
        ensures
            r == self.has_role_spec(account, role@),
    {
        let ghost s0 = self.roles@;
        let n = self.roles.len();
        let mut i: usize = 0;
        while i < n
            invariant
                i <= n,
                n == self.roles@.len(),
                self.roles@ == s0,
                forall|j: int| 0 <= j < i ==> !(s0[j].0 == account && s0[j].1@ == role@),
            decreases n - i,
        {
            if self.roles[i].0 == account && self.roles[i].1 == role {
                return true;
            }
            i = i + 1;
        }
        false
    }

    /// Whether `account` is the admin.
    fn is_admin(&self, account: &Address) -> (r: bool)
        ensures
            r == (self.admin == Some(*account)),
    {
        match self.admin {
            Some(a) => a == *account,
            None => false,
        }
    }

    /// Returns the collection metadata, or `RecordNotFound` before
    /// construction.
    pub fn get_collection_metadata(&self) -> (r: Result<CollectionMetadata, RegistryError>)
        ensures
            match self.metadata {
                Some(m) => r matches Ok(out) && out == m,
                None => r == Err::<CollectionMetadata, RegistryError>(
                    RegistryError::RecordNotFound,
                ),
            },
    {
        match &self.metadata {
            Some(m) => {
                let out = CollectionMetadata {
                    name: m.name.clone(),
                    symbol: m.symbol.clone(),
                    uri_base: m.uri_base.clone(),
                    royalties_bps: m.royalties_bps,
                };
                proof {
                    assert(out =~= self.metadata->Some_0);
                }
                Ok(out)
            },
            None => Err(RegistryError::RecordNotFound),
        }
    }

    /// Returns the stored royalty rate, or `RecordNotFound` before
    /// construction.
    pub fn get_royalties(&self) -> (r: Result<u32, RegistryError>)
        ensures
            match self.metadata {
                Some(m) => r == Ok::<u32, RegistryError>(m.royalties_bps),
                None => r == Err::<u32, RegistryError>(RegistryError::RecordNotFound),
            },
    {
        match &self.metadata {
            Some(m) => Ok(m.royalties_bps),
            None => Err(RegistryError::RecordNotFound),
        }
    }

    /// Returns the admin, or `RecordNotFound` before construction.
    pub fn contract_admin(&self) -> (r: Result<Address, RegistryError>)
        ensures
            match self.admin {
                Some(a) => r == Ok::<Address, RegistryError>(a),
                None => r == Err::<Address, RegistryError>(RegistryError::RecordNotFound),
            },
    {
        match self.admin {
            Some(a) => Ok(a),
            None => Err(RegistryError::RecordNotFound),
        }
    }

    /// The number of tokens minted so far.
    pub fn total_supply(&self) -> (r: u32)
        requires
            self.wf(),
        ensures
            r == spec_total_supply(*self),
    {
        self.next_token_id - 1
    }
}

/// The number of tokens a contract has minted: one less than the next
/// token ID.
pub open spec fn spec_total_supply(c: NFTContract) -> int {
    c.next_token_id - 1
}

} // verus!
