//! The NFT-collection factory: deploys child collection contracts through
//! the host's deployment collaborator and tracks them under a monotonic
//! collection ID with three secondary indexes (creator, name, contract
//! address) and a per-collection mint log.
//!
//! The deployment itself happens outside this crate: the caller reads the
//! next collection ID, derives the deployment salt with
//! [`collection_salt`], hands the constructor arguments to the deployer,
//! and passes the resulting child address to `create_collection`.  Under
//! the host's all-or-nothing call semantics, dropping the new state when a
//! surrounding step fails keeps every creation atomic: either the child is
//! deployed and fully indexed, or nothing is recorded.

use vstd::prelude::*;

use crate::address::Address;
use crate::assoc::{
    assoc_get, assoc_get_v, keys_unique, keys_unique_v, lemma_assoc_get_none,
    lemma_assoc_get_push, lemma_assoc_get_skip, lemma_assoc_get_update, lemma_assoc_get_v_none,
    lemma_assoc_get_v_push, lemma_assoc_get_v_skip, lemma_assoc_get_v_update,
};
use crate::auth::AuthContext;
use crate::errors::RegistryError;
use crate::fees::{fee, fee_spec, BPS_DENOMINATOR};

verus! {

/// The base fee, in stroops, charged per minted NFT before the factory's
/// rate is applied.
pub const BASE_FEE_PER_NFT: u128 = 1000000;

/// The factory's configuration singleton.
#[derive(Clone, Copy, Debug, PartialEq, Eq)]
pub struct Config {
    pub owner: Address,
    pub fee_bps: u32,
    pub fee_wallet: Address,
    pub nft_wasm_hash: [u8; 32],
}

/// A tracked collection.
#[derive(Debug, PartialEq, Eq)]
#[verifier::ext_equal]
pub struct CollectionMetadata {
    pub contract_id: Address,
    pub name: String,
    pub symbol: String,
    pub creator: Address,
    pub uri_base: String,
    pub royalties_bps: u32,
    pub created_at: u64,
}

/// One row of a paginated collection listing.
#[derive(Debug, PartialEq, Eq)]
#[verifier::ext_equal]
pub struct CollectionSummary {
    pub collection_id: u128,
    pub contract_id: Address,
    pub name: String,
    pub symbol: String,
    pub creator: Address,
    pub created_at: u64,
}

/// One entry of a collection's mint log.
#[derive(Clone, Copy, Debug, PartialEq, Eq, Structural)]
pub struct MintRecord {
    pub user: Address,
    pub amount: u32,
    pub timestamp: u64,
    pub fee_paid: u128,
}

/// The payload tag the factory publishes with each event.
#[derive(Clone, Copy, Debug, PartialEq, Eq, Structural)]
pub enum Event {
    CollectionCreated,
    MintLogged,
    FeePaid,
}

/// An event published on a successful commit, with its topic data.
#[derive(Debug, PartialEq, Eq)]
pub enum FactoryEvent {
    CollectionCreated {
        collection_id: u128,
        contract_id: Address,
        name: String,
        symbol: String,
        creator: Address,
    },
    MintLogged { collection_id: u128, to: Address, amount: u32, fee: u128 },
    FeePaid { fee: u128, wallet: Address },
}

impl FactoryEvent {
    /// The payload tag this event is published with.
    pub fn kind(&self) -> (r: Event)
        ensures
            r == (match self {
                FactoryEvent::CollectionCreated { .. } => Event::CollectionCreated,
                FactoryEvent::MintLogged { .. } => Event::MintLogged,
                FactoryEvent::FeePaid { .. } => Event::FeePaid,
            }),
    {
        match self {
            FactoryEvent::CollectionCreated { .. } => Event::CollectionCreated,
            FactoryEvent::MintLogged { .. } => Event::MintLogged,
            FactoryEvent::FeePaid { .. } => Event::FeePaid,
        }
    }
}

/// The synchronous call into the child collection contract that a
/// successful `mint` asks its caller to perform.
#[derive(Clone, Copy, Debug, PartialEq, Eq, Structural)]
pub struct ChildMint {
    pub contract_id: Address,
    pub to: Address,
    pub amount: u32,
}

/// Byte `i` (0-based, most significant first) of the big-endian encoding of
/// `id`.
pub open spec fn salt_byte(id: u128, i: int) -> u8 {
    (id >> (((15 - i) * 8) as u128)) as u8
}

/// Derives the deterministic deployment salt for a collection ID: 32 bytes,
/// the first 16 zero, the last 16 the ID in big-endian order.  Distinct IDs
/// give distinct salts, so repeated creations never collide on a child
/// address.
pub fn collection_salt(collection_id: u128) -> (r: Vec<u8>)
    ensures
        r@.len() == 32,
        forall|i: int| 0 <= i < 16 ==> r@[i] == 0,
        forall|i: int| 16 <= i < 32 ==> r@[i] == salt_byte(collection_id, i - 16),
{
    let mut r: Vec<u8> = Vec::new();
    let mut i: usize = 0;
    while i < 16
        invariant
            i <= 16,
            r@.len() == i,
            forall|j: int| 0 <= j < i ==> r@[j] == 0,
        decreases 16 - i,
    {
        r.push(0u8);
        i = i + 1;
    }
    let mut k: usize = 0;
    while k < 16
        invariant
            k <= 16,
            r@.len() == 16 + k,
            forall|j: int| 0 <= j < 16 ==> r@[j] == 0,
            forall|j: int| 16 <= j < 16 + k ==> r@[j] == salt_byte(collection_id, j - 16),
        decreases 16 - k,
    {
        let shift: u32 = ((15 - k) * 8) as u32;
        let byte: u8 = (collection_id >> shift) as u8;
        proof {
            assert(byte == salt_byte(collection_id, k as int));
        }
        r.push(byte);
        k = k + 1;
    }
    r
}

/// The IDs of the collections among the first `n` whose creator is `a`, in
/// ID order.  Collection IDs start at 1, so the collection at position `i`
/// has ID `i + 1`.
pub open spec fn creator_ids_of(cols: Seq<CollectionMetadata>, a: Address, n: int) -> Seq<u128>
    decreases n,
{
    if n <= 0 {
        Seq::empty()
    } else if cols[n - 1].creator == a {
        creator_ids_of(cols, a, n - 1).push(n as u128)
    } else {
        creator_ids_of(cols, a, n - 1)
    }
}

/// The ID list the creator index holds for `a`, read as a sequence.
pub open spec fn cids_of(index: Seq<(Address, Vec<u128>)>, a: Address) -> Seq<u128> {
    match assoc_get(index, a) {
        Some(v) => v@,
        None => Seq::empty(),
    }
}

/// The mint log held for collection `id`, read as a sequence.
pub open spec fn mints_of(index: Seq<(u128, Vec<MintRecord>)>, id: u128) -> Seq<MintRecord> {
    match assoc_get(index, id) {
        Some(v) => v@,
        None => Seq::empty(),
    }
}

/// `creator_ids_of` only reads the `creator` field, so it agrees on
/// sequences whose creators agree position by position.
proof fn lemma_creator_ids_of_agree(
    s1: Seq<CollectionMetadata>,
    s2: Seq<CollectionMetadata>,
    a: Address,
    n: int,
)
    requires
        n <= s1.len(),
        n <= s2.len(),
        forall|i: int| 0 <= i < n ==> s1[i].creator == s2[i].creator,
    ensures
        creator_ids_of(s1, a, n) == creator_ids_of(s2, a, n),
    decreases n,
{
    if n > 0 {
        lemma_creator_ids_of_agree(s1, s2, a, n - 1);
    }
}

/// Copies a list of collection IDs.
fn copy_cids(v: &Vec<u128>) -> (out: Vec<u128>)
    ensures
        out@ == v@,
{
    let mut out: Vec<u128> = Vec::new();
    let n = v.len();
    let mut i: usize = 0;
    while i < n
        invariant
            i <= n,
            n == v@.len(),
            out@ == v@.subrange(0, i as int),
        decreases n - i,
    {
        out.push(v[i]);
        proof {
            assert(v@.subrange(0, i as int).push(v@[i as int]) =~= v@.subrange(0, i + 1 as int));
        }
        i = i + 1;
    }
    proof {
        assert(v@.subrange(0, n as int) =~= v@);
    }
    out
}

/// Copies a mint log.
fn copy_mints(v: &Vec<MintRecord>) -> (out: Vec<MintRecord>)
    ensures
        out@ == v@,
{
    let mut out: Vec<MintRecord> = Vec::new();
    let n = v.len();
    let mut i: usize = 0;
    while i < n
        invariant
            i <= n,
            n == v@.len(),
            out@ == v@.subrange(0, i as int),
        decreases n - i,
    {
        out.push(v[i]);
        proof {
            assert(v@.subrange(0, i as int).push(v@[i as int]) =~= v@.subrange(0, i + 1 as int));
        }
        i = i + 1;
    }
    proof {
        assert(v@.subrange(0, n as int) =~= v@);
    }
    out
}

/// Copies a collection record field by field.
fn copy_metadata(m: &CollectionMetadata) -> (out: CollectionMetadata)
    ensures
        out == *m,
{
    let out = CollectionMetadata {
        contract_id: m.contract_id,
        name: m.name.clone(),
        symbol: m.symbol.clone(),
        creator: m.creator,
        uri_base: m.uri_base.clone(),
        royalties_bps: m.royalties_bps,
        created_at: m.created_at,
    };
    proof {
        assert(out =~= *m);
    }
    out
}

/// Appends `id` to the list the creator index holds for `creator`.
fn creator_index_append(index: &mut Vec<(Address, Vec<u128>)>, creator: Address, id: u128)
    requires
        keys_unique(old(index)@),
    ensures
        keys_unique(final(index)@),
        cids_of(final(index)@, creator) == cids_of(old(index)@, creator).push(id),
        forall|a: Address| a != creator ==> cids_of(final(index)@, a) == cids_of(old(index)@, a),
{
    let ghost s0 = index@;
    let n = index.len();
    let mut i: usize = 0;
    while i < n
        invariant
            i <= n,
            n == index@.len(),
            index@ == s0,
            s0 == old(index)@,
            keys_unique(s0),
            forall|j: int| 0 <= j < i ==> s0[j].0 != creator,
        decreases n - i,
    {
        if index[i].0 == creator {
            let mut ids = copy_cids(&index[i].1);
            ids.push(id);
            proof {
                assert(s0.skip(i as int)[0] == s0[i as int]);
                lemma_assoc_get_skip(s0, creator, i as int);
                assert(assoc_get(s0, creator) == Some(s0[i as int].1));
            }
            let ghost new_list = ids@;
            index[i] = (creator, ids);
            proof {
                let s1 = index@;
                assert(s1[i as int].0 == creator && s1[i as int].1@ == new_list);
                assert(s1 =~= s0.update(i as int, (s0[i as int].0, s1[i as int].1)));
                lemma_assoc_get_update(s0, i as int, s1[i as int].1, creator);
                assert(cids_of(s1, creator) == new_list);
                assert forall|a: Address| a != creator implies cids_of(s1, a) == cids_of(
                    s0,
                    a,
                ) by {
                    lemma_assoc_get_update(s0, i as int, s1[i as int].1, a);
                }
                assert forall|p: int, q: int| 0 <= p < q < s1.len() implies s1[p].0
                    != s1[q].0 by {
                    assert(s1[p].0 == s0[p].0 && s1[q].0 == s0[q].0);
                }
            }
            return;
        }
        i = i + 1;
    }
    let mut ids: Vec<u128> = Vec::new();
    ids.push(id);
    let ghost new_list = ids@;
    proof {
        lemma_assoc_get_none(s0, creator);
    }
    index.push((creator, ids));
    proof {
        let s1 = index@;
        let entry = s1.last();
        assert(entry.0 == creator && entry.1@ == new_list);
        assert(new_list =~= Seq::<u128>::empty().push(id));
        lemma_assoc_get_push(s0, entry.0, entry.1, creator);
        assert(cids_of(s1, creator) =~= cids_of(s0, creator).push(id));
        assert forall|a: Address| a != creator implies cids_of(s1, a) == cids_of(s0, a) by {
            lemma_assoc_get_push(s0, entry.0, entry.1, a);
        }
        assert forall|p: int, q: int| 0 <= p < q < s1.len() implies s1[p].0 != s1[q].0 by {
            if q < s0.len() {
                assert(s1[p].0 == s0[p].0 && s1[q].0 == s0[q].0);
            } else {
                assert(s1[q].0 == creator && s1[p].0 == s0[p].0);
            }
        }
    }
}

/// Appends `rec` to the mint log held for collection `id`.
fn mints_index_append(index: &mut Vec<(u128, Vec<MintRecord>)>, id: u128, rec: MintRecord)
    requires
        keys_unique(old(index)@),
    ensures
        keys_unique(final(index)@),
        mints_of(final(index)@, id) == mints_of(old(index)@, id).push(rec),
        forall|k: u128| k != id ==> mints_of(final(index)@, k) == mints_of(old(index)@, k),
        assoc_get(final(index)@, id) is Some,
        forall|k: u128|
            k != id ==> assoc_get(final(index)@, k) == assoc_get(old(index)@, k),
{
    let ghost s0 = index@;
    let n = index.len();
    let mut i: usize = 0;
    while i < n
        invariant
            i <= n,
            n == index@.len(),
            index@ == s0,
            s0 == old(index)@,
            keys_unique(s0),
            forall|j: int| 0 <= j < i ==> s0[j].0 != id,
        decreases n - i,
    {
        if index[i].0 == id {
            let mut log = copy_mints(&index[i].1);
            log.push(rec);
            proof {
                assert(s0.skip(i as int)[0] == s0[i as int]);
                lemma_assoc_get_skip(s0, id, i as int);
                assert(assoc_get(s0, id) == Some(s0[i as int].1));
            }
            let ghost new_log = log@;
            index[i] = (id, log);
            proof {
                let s1 = index@;
                assert(s1[i as int].0 == id && s1[i as int].1@ == new_log);
                assert(s1 =~= s0.update(i as int, (s0[i as int].0, s1[i as int].1)));
                lemma_assoc_get_update(s0, i as int, s1[i as int].1, id);
                assert(mints_of(s1, id) == new_log);
                assert forall|k: u128| k != id implies assoc_get(s1, k) == assoc_get(s0, k) by {
                    lemma_assoc_get_update(s0, i as int, s1[i as int].1, k);
                }
                assert forall|p: int, q: int| 0 <= p < q < s1.len() implies s1[p].0
                    != s1[q].0 by {
                    assert(s1[p].0 == s0[p].0 && s1[q].0 == s0[q].0);
                }
            }
            return;
        }
        i = i + 1;
    }
    let mut log: Vec<MintRecord> = Vec::new();
    log.push(rec);
    let ghost new_log = log@;
    proof {
        lemma_assoc_get_none(s0, id);
    }
    index.push((id, log));
    proof {
        let s1 = index@;
        let entry = s1.last();
        assert(entry.0 == id && entry.1@ == new_log);
        assert(new_log =~= Seq::<MintRecord>::empty().push(rec));
        lemma_assoc_get_push(s0, entry.0, entry.1, id);
        assert(mints_of(s1, id) =~= mints_of(s0, id).push(rec));
        assert forall|k: u128| k != id implies assoc_get(s1, k) == assoc_get(s0, k) by {
            lemma_assoc_get_push(s0, entry.0, entry.1, k);
        }
        assert forall|p: int, q: int| 0 <= p < q < s1.len() implies s1[p].0 != s1[q].0 by {
            if q < s0.len() {
                assert(s1[p].0 == s0[p].0 && s1[q].0 == s0[q].0);
            } else {
                assert(s1[q].0 == id && s1[p].0 == s0[p].0);
            }
        }
    }
}

/// Binds `name` to `id` in the name index, overwriting any earlier binding
/// of a name with the same characters.
fn name_index_set(index: &mut Vec<(String, u128)>, name: String, id: u128)
    requires
        keys_unique_v(old(index)@),
    ensures
        keys_unique_v(final(index)@),
        assoc_get_v(final(index)@, name@) == Some(id),
        forall|n: Seq<char>|
            n != name@ ==> assoc_get_v(final(index)@, n) == assoc_get_v(old(index)@, n),
{
    let ghost s0 = index@;
    let ghost nv = name@;
    let n = index.len();
    let mut i: usize = 0;
    while i < n
        invariant
            i <= n,
            n == index@.len(),
            index@ == s0,
            s0 == old(index)@,
            keys_unique_v(s0),
            nv == name@,
            forall|j: int| 0 <= j < i ==> s0[j].0@ != nv,
        decreases n - i,
    {
        if index[i].0 == name {
            index[i] = (name, id);
            proof {
                let s1 = index@;
                assert(s1[i as int].0@ == nv && s1[i as int].1 == id);
                assert(s1 == s0.update(i as int, (s1[i as int].0, id)));
                lemma_assoc_get_v_update(s0, i as int, s1[i as int].0, id, nv);
                assert forall|m: Seq<char>| m != nv implies assoc_get_v(s1, m) == assoc_get_v(
                    s0,
                    m,
                ) by {
                    lemma_assoc_get_v_update(s0, i as int, s1[i as int].0, id, m);
                }
                assert forall|p: int, q: int| 0 <= p < q < s1.len() implies s1[p].0@
                    != s1[q].0@ by {
                    assert(s1[p].0@ == s0[p].0@ && s1[q].0@ == s0[q].0@);
                }
            }
            return;
        }
        i = i + 1;
    }
    proof {
        lemma_assoc_get_v_none(s0, nv);
    }
    index.push((name, id));
    proof {
        let s1 = index@;
        let entry = s1.last();
        assert(entry.0@ == nv && entry.1 == id);
        lemma_assoc_get_v_push(s0, entry.0, entry.1, nv);
        assert forall|m: Seq<char>| m != nv implies assoc_get_v(s1, m) == assoc_get_v(s0, m) by {
            lemma_assoc_get_v_push(s0, entry.0, entry.1, m);
        }
        assert forall|p: int, q: int| 0 <= p < q < s1.len() implies s1[p].0@ != s1[q].0@ by {
            if q < s0.len() {
                assert(s1[p].0@ == s0[p].0@ && s1[q].0@ == s0[q].0@);
            } else {
                assert(s1[q].0@ == nv && s1[p].0@ == s0[p].0@);
            }
        }
    }
}

/// Binds `key` to `id` in the contract-address index, overwriting any
/// earlier binding of the same address.
fn contract_index_set(index: &mut Vec<(Address, u128)>, key: Address, id: u128)
    requires
        keys_unique(old(index)@),
    ensures
        keys_unique(final(index)@),
        assoc_get(final(index)@, key) == Some(id),
        forall|a: Address| a != key ==> assoc_get(final(index)@, a) == assoc_get(old(index)@, a),
{
    let ghost s0 = index@;
    let n = index.len();
    let mut i: usize = 0;
    while i < n
        invariant
            i <= n,
            n == index@.len(),
            index@ == s0,
            s0 == old(index)@,
            keys_unique(s0),
            forall|j: int| 0 <= j < i ==> s0[j].0 != key,
        decreases n - i,
    {
        if index[i].0 == key {
            index[i] = (key, id);
            proof {
                let s1 = index@;
                assert(s1 =~= s0.update(i as int, (s0[i as int].0, id)));
                lemma_assoc_get_update(s0, i as int, id, key);
                assert forall|a: Address| a != key implies assoc_get(s1, a) == assoc_get(
                    s0,
                    a,
                ) by {
                    lemma_assoc_get_update(s0, i as int, id, a);
                }
                assert forall|p: int, q: int| 0 <= p < q < s1.len() implies s1[p].0
                    != s1[q].0 by {
                    assert(s1[p].0 == s0[p].0 && s1[q].0 == s0[q].0);
                }
            }
            return;
        }
        i = i + 1;
    }
    proof {
        lemma_assoc_get_none(s0, key);
    }
    index.push((key, id));
    proof {
        let s1 = index@;
        let entry = s1.last();
        assert(entry.0 == key && entry.1 == id);
        lemma_assoc_get_push(s0, entry.0, entry.1, key);
        assert forall|a: Address| a != key implies assoc_get(s1, a) == assoc_get(s0, a) by {
            lemma_assoc_get_push(s0, entry.0, entry.1, a);
        }
        assert forall|p: int, q: int| 0 <= p < q < s1.len() implies s1[p].0 != s1[q].0 by {
            if q < s0.len() {
                assert(s1[p].0 == s0[p].0 && s1[q].0 == s0[q].0);
            } else {
                assert(s1[q].0 == key && s1[p].0 == s0[p].0);
            }
        }
    }
}

/// Does `m` hold exactly the data a new collection is created with?
pub open spec fn fresh_collection(
    m: CollectionMetadata,
    contract_id: Address,
    name: String,
    symbol: String,
    creator: Address,
    uri_base: String,
    royalties_bps: u32,
    created_at: u64,
) -> bool {
    m == CollectionMetadata { contract_id, name, symbol, creator, uri_base, royalties_bps, created_at }
}

/// The listing row for the collection at position `i`.
pub open spec fn summary_of(cols: Seq<CollectionMetadata>, i: int) -> CollectionSummary {
    CollectionSummary {
        collection_id: (i + 1) as u128,
        contract_id: cols[i].contract_id,
        name: cols[i].name,
        symbol: cols[i].symbol,
        creator: cols[i].creator,
        created_at: cols[i].created_at,
    }
}

/// The factory's state: the configuration singleton, the collection ID
/// counter, the collections in ID order, the three secondary indexes, the
/// per-collection mint logs, and the log of published events.
pub struct FactoryRegistry {
    pub config: Option<Config>,
    pub next_collection_id: u128,
    pub collections: Vec<CollectionMetadata>,
    pub creator_collections: Vec<(Address, Vec<u128>)>,
    pub collection_mints: Vec<(u128, Vec<MintRecord>)>,
    pub name_index: Vec<(String, u128)>,
    pub contract_index: Vec<(Address, u128)>,
    pub events: Vec<FactoryEvent>,
}

impl FactoryRegistry {
    /// The collection IDs the creator index holds for `a`, in insertion
    /// order.
    pub open spec fn creator_ids(self, a: Address) -> Seq<u128> {
        cids_of(self.creator_collections@, a)
    }

    /// The mint log held for collection `id`.
    pub open spec fn mints(self, id: u128) -> Seq<MintRecord> {
        mints_of(self.collection_mints@, id)
    }

    /// The collection ID the name index binds to `n`, if any.
    pub open spec fn name_lookup(self, n: Seq<char>) -> Option<u128> {
        assoc_get_v(self.name_index@, n)
    }

    /// The collection ID the contract-address index binds to `a`, if any.
    pub open spec fn contract_lookup(self, a: Address) -> Option<u128> {
        assoc_get(self.contract_index@, a)
    }

    /// Does a collection with ID `id` exist?
    pub open spec fn has_collection(self, id: u128) -> bool {
        1 <= id && id as int <= self.collections@.len()
    }

    /// Well-formedness: IDs are allocated consecutively from 1, the rates
    /// respect the basis-point ceiling, the creator index lists for every
    /// principal exactly the IDs of that principal's collections in ID
    /// order, and each unique-index entry points at a stored collection
    /// that carries the entry's key.
    pub open spec fn wf(self) -> bool {
        &&& self.next_collection_id as int == self.collections@.len() + 1
        &&& (self.config is None ==> self.collections@.len() == 0)
        &&& (self.config matches Some(c) ==> c.fee_bps <= BPS_DENOMINATOR)
        &&& (forall|i: int|
            0 <= i < self.collections@.len() ==> (#[trigger] self.collections@[i]).royalties_bps
                <= BPS_DENOMINATOR)
        &&& keys_unique(self.creator_collections@)
        &&& (forall|a: Address| #[trigger]
            cids_of(self.creator_collections@, a) == creator_ids_of(
                self.collections@,
                a,
                self.collections@.len() as int,
            ))
        &&& keys_unique_v(self.name_index@)
        &&& (forall|n: Seq<char>|
            (#[trigger] assoc_get_v(self.name_index@, n)) matches Some(id) ==> 1 <= id && id
                as int <= self.collections@.len() && self.collections@[id - 1].name@ == n)
        &&& keys_unique(self.contract_index@)
        &&& (forall|a: Address|
            (#[trigger] assoc_get(self.contract_index@, a)) matches Some(id) ==> 1 <= id && id
                as int <= self.collections@.len() && self.collections@[id - 1].contract_id == a)
        &&& keys_unique(self.collection_mints@)
        &&& (forall|k: u128|
            (#[trigger] assoc_get(self.collection_mints@, k)) is Some ==> 1 <= k && k as int
                <= self.collections@.len())
    }

    /// Which error, if any, gates `initialize`.
    pub open spec fn init_gate(self, auth: AuthContext, owner: Address, fee_bps: u32) -> Option<
        RegistryError,
    > {
        if self.config is Some {
            Some(RegistryError::AlreadyInitialized)
        } else if !auth.allows_spec(owner) {
            Some(RegistryError::NotAuthorized)
        } else if fee_bps > BPS_DENOMINATOR {
            Some(RegistryError::InvalidFeeRate)
        } else {
            None
        }
    }

    /// Which error, if any, gates `set_config`.
    pub open spec fn set_config_gate(self, auth: AuthContext, fee_bps: u32) -> Option<
        RegistryError,
    > {
        if self.config is None {
            Some(RegistryError::RecordNotFound)
        } else if !auth.allows_spec(self.config->Some_0.owner) {
            Some(RegistryError::NotAuthorized)
        } else if fee_bps > BPS_DENOMINATOR {
            Some(RegistryError::InvalidFeeRate)
        } else {
            None
        }
    }

    /// Which error, if any, gates `create_collection`.
    pub open spec fn create_gate(self, auth: AuthContext, caller: Address, royalties_bps: u32) -> Option<
        RegistryError,
    > {
        if !auth.allows_spec(caller) {
            Some(RegistryError::NotAuthorized)
        } else if self.config is None {
            Some(RegistryError::RecordNotFound)
        } else if royalties_bps > BPS_DENOMINATOR {
            Some(RegistryError::RoyaltyExceeded)
        } else {
            None
        }
    }

    /// Which error, if any, gates `mint`.
    pub open spec fn mint_gate(self, auth: AuthContext, collection_id: u128, to: Address) -> Option<
        RegistryError,
    > {
        if !auth.allows_spec(to) {
            Some(RegistryError::NotAuthorized)
        } else if self.config is None {
            Some(RegistryError::RecordNotFound)
        } else if !self.has_collection(collection_id) {
            Some(RegistryError::RecordNotFound)
        } else {
            None
        }
    }

    /// A freshly registered, not yet initialized factory.
    pub fn new() -> (r: FactoryRegistry)
        ensures
            r.wf(),
            r.config is None,
            r.next_collection_id == 1,
            r.collections@ == Seq::<CollectionMetadata>::empty(),
            r.events@ == Seq::<FactoryEvent>::empty(),
            forall|a: Address| r.creator_ids(a) == Seq::<u128>::empty(),
            forall|k: u128| r.mints(k) == Seq::<MintRecord>::empty(),
            forall|n: Seq<char>| r.name_lookup(n) is None,
            forall|a: Address| r.contract_lookup(a) is None,
    {
        let r = FactoryRegistry {
            config: None,
            next_collection_id: 1,
            collections: Vec::new(),
            creator_collections: Vec::new(),
            collection_mints: Vec::new(),
            name_index: Vec::new(),
            contract_index: Vec::new(),
            events: Vec::new(),
        };
        proof {
            assert forall|a: Address| r.creator_ids(a) == Seq::<u128>::empty() by {
                lemma_assoc_get_none(r.creator_collections@, a);
            }
            assert forall|k: u128| r.mints(k) == Seq::<MintRecord>::empty() by {
                lemma_assoc_get_none(r.collection_mints@, k);
            }
            assert forall|n: Seq<char>| r.name_lookup(n) is None by {
                lemma_assoc_get_v_none(r.name_index@, n);
            }
            assert forall|a: Address| r.contract_lookup(a) is None by {
                lemma_assoc_get_none(r.contract_index@, a);
            }
        }
        r
    }

    /// Stores the owner, fee configuration and the code reference used to
    /// deploy child collections.  Fails with `AlreadyInitialized` whenever
    /// a configuration exists, whatever the arguments; requires the owner's
    /// authorization; rejects a rate above the ceiling.
    pub fn initialize(
        &mut self,
        auth: &AuthContext,
        owner: Address,
        fee_bps: u32,
        fee_wallet: Address,
        nft_wasm_hash: [u8; 32],
    ) -> (r: Result<(), RegistryError>)
        requires
            old(self).wf(),
        ensures
            final(self).wf(),
            match old(self).init_gate(*auth, owner, fee_bps) {
                Some(e) => r == Err::<(), RegistryError>(e) && *final(self) == *old(self),
                None => r == Ok::<(), RegistryError>(()) && *final(self) == (FactoryRegistry {
                    config: Some(Config { owner, fee_bps, fee_wallet, nft_wasm_hash }),
                    next_collection_id: 1,
                    ..*old(self)
                }),
            },
    {
        if self.config.is_some() {
            return Err(RegistryError::AlreadyInitialized);
        }
        if !auth.allows(&owner) {
            return Err(RegistryError::NotAuthorized);
        }
        if fee_bps > BPS_DENOMINATOR {
            return Err(RegistryError::InvalidFeeRate);
        }
        self.config = Some(Config { owner, fee_bps, fee_wallet, nft_wasm_hash });
        self.next_collection_id = 1;
        Ok(())
    }

    /// Replaces the fee configuration and code reference, keeping the
    /// owner.  Owner-only; rejects a rate above the ceiling.
    pub fn set_config(
        &mut self,
        auth: &AuthContext,
        fee_bps: u32,
        fee_wallet: Address,
        nft_wasm_hash: [u8; 32],
    ) -> (r: Result<(), RegistryError>)
        requires
            old(self).wf(),
        ensures
            final(self).wf(),
            match old(self).set_config_gate(*auth, fee_bps) {
                Some(e) => r == Err::<(), RegistryError>(e) && *final(self) == *old(self),
                None => r == Ok::<(), RegistryError>(()) && *final(self) == (FactoryRegistry {
                    config: Some(
                        Config {
                            owner: old(self).config->Some_0.owner,
                            fee_bps,
                            fee_wallet,
                            nft_wasm_hash,
                        },
                    ),
                    ..*old(self)
                }),
            },
    {
        let cfg = match self.config {
            Some(c) => c,
            None => {
                return Err(RegistryError::RecordNotFound);
            },
        };
        if !auth.allows(&cfg.owner) {
            return Err(RegistryError::NotAuthorized);
        }
        if fee_bps > BPS_DENOMINATOR {
            return Err(RegistryError::InvalidFeeRate);
        }
        self.config = Some(Config { owner: cfg.owner, fee_bps, fee_wallet, nft_wasm_hash });
        Ok(())
    }

    /// Records a newly deployed collection: allocates the next collection
    /// ID, stores the metadata, binds the name and contract-address
    /// indexes (a colliding name silently overwrites the earlier binding,
    /// leaving the earlier collection reachable by ID or address only),
    /// appends the ID to the creator's list, and publishes the creation
    /// event.  `contract_id` is the address the deployment collaborator
    /// returned for the salt of this ID.
    pub fn create_collection(
        &mut self,
        auth: &AuthContext,
        caller: Address,
        name: String,
        symbol: String,
        uri_base: String,
        royalties_bps: u32,
        contract_id: Address,
        now: u64,
    ) -> (r: Result<u128, RegistryError>)
        requires
            old(self).wf(),
            old(self).next_collection_id < u128::MAX,
        ensures
            final(self).wf(),
            match old(self).create_gate(*auth, caller, royalties_bps) {
                Some(e) => r == Err::<u128, RegistryError>(e) && *final(self) == *old(self),
                None => ({
                    let id = old(self).next_collection_id;
                    &&& r == Ok::<u128, RegistryError>(id)
                    &&& final(self).config == old(self).config
                    &&& final(self).next_collection_id == id + 1
                    &&& final(self).collections@.len() == old(self).collections@.len() + 1
                    &&& final(self).collections@.subrange(0, old(self).collections@.len() as int)
                        == old(self).collections@
                    &&& fresh_collection(
                        final(self).collections@.last(),
                        contract_id,
                        name,
                        symbol,
                        caller,
                        uri_base,
                        royalties_bps,
                        now,
                    )
                    &&& final(self).creator_ids(caller) == old(self).creator_ids(caller).push(id)
                    &&& (forall|a: Address|
                        a != caller ==> final(self).creator_ids(a) == old(self).creator_ids(a))
                    &&& final(self).name_lookup(name@) == Some(id)
                    &&& (forall|n: Seq<char>|
                        n != name@ ==> final(self).name_lookup(n) == old(self).name_lookup(n))
                    &&& final(self).contract_lookup(contract_id) == Some(id)
                    &&& (forall|a: Address|
                        a != contract_id ==> final(self).contract_lookup(a) == old(
                            self,
                        ).contract_lookup(a))
                    &&& final(self).collection_mints@ == old(self).collection_mints@
                    &&& final(self).events@ == old(self).events@.push(
                        FactoryEvent::CollectionCreated {
                            collection_id: id,
                            contract_id,
                            name,
                            symbol,
                            creator: caller,
                        },
                    )
                }),
            },
    {
        if !auth.allows(&caller) {
            return Err(RegistryError::NotAuthorized);
        }
        if self.config.is_none() {
            return Err(RegistryError::RecordNotFound);
        }
        if royalties_bps > BPS_DENOMINATOR {
            return Err(RegistryError::RoyaltyExceeded);
        }

        let id = self.next_collection_id;

        let ghost cols0 = self.collections@;
        let collection = CollectionMetadata {
            contract_id,
            name: name.clone(),
            symbol: symbol.clone(),
            creator: caller,
            uri_base: uri_base.clone(),
            royalties_bps,
            created_at: now,
        };
        self.collections.push(collection);

        name_index_set(&mut self.name_index, name.clone(), id);
        contract_index_set(&mut self.contract_index, contract_id, id);
        creator_index_append(&mut self.creator_collections, caller, id);

        self.next_collection_id = id + 1;

        self.events.push(
            FactoryEvent::CollectionCreated {
                collection_id: id,
                contract_id,
                name,
                symbol,
                creator: caller,
            },
        );

        proof {
            let cols1 = self.collections@;
            let n = cols0.len() as int;
            assert(cols1[n].creator == caller);
            assert(cols1.subrange(0, n) =~= cols0);
            assert forall|a: Address|
                cids_of(self.creator_collections@, a) == creator_ids_of(
                    cols1,
                    a,
                    cols1.len() as int,
                ) by {
                assert(cids_of(old(self).creator_collections@, a) == creator_ids_of(cols0, a, n));
                lemma_creator_ids_of_agree(cols0, cols1, a, n);
                if a == caller {
                    assert(creator_ids_of(cols1, a, n + 1) == creator_ids_of(cols1, a, n).push(
                        (n + 1) as u128,
                    ));
                } else {
                    assert(creator_ids_of(cols1, a, n + 1) == creator_ids_of(cols1, a, n));
                }
            }
            assert forall|m: Seq<char>|
                (#[trigger] assoc_get_v(self.name_index@, m)) is Some implies ({
                let id2 = assoc_get_v(self.name_index@, m)->Some_0;
                1 <= id2 && id2 as int <= cols1.len() && cols1[id2 - 1].name@ == m
            }) by {
                if m == name@ {
                    assert(cols1[n].name@ == name@);
                } else {
                    assert(assoc_get_v(old(self).name_index@, m) == assoc_get_v(
                        self.name_index@,
                        m,
                    ));
                }
            }
            assert forall|a: Address|
                (#[trigger] assoc_get(self.contract_index@, a)) is Some implies ({
                let id2 = assoc_get(self.contract_index@, a)->Some_0;
                1 <= id2 && id2 as int <= cols1.len() && cols1[id2 - 1].contract_id == a
            }) by {
                if a == contract_id {
                    assert(cols1[n].contract_id == contract_id);
                }
            }
        }

        Ok(id)
    }

    /// Computes the mint fee, appends the mint to the collection's log,
    /// publishes the events, and returns the synchronous mint call the
    /// caller must forward to the child contract.  The fee is
    /// `floor(BASE_FEE_PER_NFT * amount * fee_bps / 10000)`; no fee event
    /// is published when it is zero.
    pub fn mint(
        &mut self,
        auth: &AuthContext,
        collection_id: u128,
        to: Address,
        amount: u32,
        now: u64,
    ) -> (r: Result<ChildMint, RegistryError>)
        requires
            old(self).wf(),
        ensures
            final(self).wf(),
            match old(self).mint_gate(*auth, collection_id, to) {
                Some(e) => r == Err::<ChildMint, RegistryError>(e) && *final(self) == *old(self),
                None => ({
                    let cfg = old(self).config->Some_0;
                    let fee_amount = fee_spec(
                        BASE_FEE_PER_NFT as int * amount as int,
                        cfg.fee_bps as int,
                    );
                    &&& r == Ok::<ChildMint, RegistryError>(
                        ChildMint {
                            contract_id: old(self).collections@[collection_id - 1].contract_id,
                            to,
                            amount,
                        },
                    )
                    &&& final(self).mints(collection_id) == old(self).mints(collection_id).push(
                        MintRecord { user: to, amount, timestamp: now, fee_paid: fee_amount as u128 },
                    )
                    &&& (forall|k: u128|
                        k != collection_id ==> final(self).mints(k) == old(self).mints(k))
                    &&& final(self).config == old(self).config
                    &&& final(self).next_collection_id == old(self).next_collection_id
                    &&& final(self).collections@ == old(self).collections@
                    &&& final(self).creator_collections@ == old(self).creator_collections@
                    &&& final(self).name_index@ == old(self).name_index@
                    &&& final(self).contract_index@ == old(self).contract_index@
                    &&& (fee_amount > 0 ==> final(self).events@ == old(self).events@.push(
                        FactoryEvent::FeePaid { fee: fee_amount as u128, wallet: cfg.fee_wallet },
                    ).push(
                        FactoryEvent::MintLogged {
                            collection_id,
                            to,
                            amount,
                            fee: fee_amount as u128,
                        },
                    ))
                    &&& (fee_amount == 0 ==> final(self).events@ == old(self).events@.push(
                        FactoryEvent::MintLogged { collection_id, to, amount, fee: 0 },
                    ))
                }),
            },
    {
        if !auth.allows(&to) {
            return Err(RegistryError::NotAuthorized);
        }
        let cfg = match self.config {
            Some(c) => c,
            None => {
                return Err(RegistryError::RecordNotFound);
            },
        };
        if collection_id < 1 || collection_id > self.collections.len() as u128 {
            return Err(RegistryError::RecordNotFound);
        }
        let idx = (collection_id - 1) as usize;
        let child_contract = self.collections[idx].contract_id;

        let fee_amount: u128 = if cfg.fee_bps > 0 {
            let total_base_fee: u128 = BASE_FEE_PER_NFT * (amount as u128);
            let f = fee(total_base_fee, cfg.fee_bps);
            if f > 0 {
                self.events.push(
                    FactoryEvent::FeePaid { fee: f, wallet: cfg.fee_wallet },
                );
            }
            f
        } else {
            proof {
                crate::fees::lemma_fee_zero_rate(BASE_FEE_PER_NFT as int * amount as int);
            }
            0u128
        };

        let record = MintRecord { user: to, amount, timestamp: now, fee_paid: fee_amount };
        mints_index_append(&mut self.collection_mints, collection_id, record);

        self.events.push(
            FactoryEvent::MintLogged { collection_id, to, amount, fee: fee_amount },
        );

        Ok(ChildMint { contract_id: child_contract, to, amount })
    }

    /// Returns the collection with ID `collection_id`, or `RecordNotFound`
    /// for an ID that was never allocated.
    pub fn get_collection(&self, collection_id: u128) -> (r: Result<
        CollectionMetadata,
        RegistryError,
    >)
        requires
            self.wf(),
        ensures
            match r {
                Ok(m) => self.has_collection(collection_id) && m == self.collections@[collection_id
                    - 1],
                Err(e) => e == RegistryError::RecordNotFound && !self.has_collection(
                    collection_id,
                ),
            },
    {
        if collection_id < 1 || collection_id > self.collections.len() as u128 {
            return Err(RegistryError::RecordNotFound);
        }
        let idx = (collection_id - 1) as usize;
        Ok(copy_metadata(&self.collections[idx]))
    }

    /// The window `list_collections(cursor, limit)` must return: one
    /// summary per collection ID from `max(cursor, 1)` up to but excluding
    /// `cursor + limit`, clipped to the IDs that exist, in ID order.
    pub open spec fn spec_list(self, start: int, limit: int) -> Seq<CollectionSummary> {
        let next = self.next_collection_id as int;
        let lo = if start < 1 {
            1int
        } else {
            start
        };
        let hi = if start + limit <= next {
            start + limit
        } else {
            next
        };
        if hi <= lo {
            Seq::empty()
        } else {
            Seq::new((hi - lo) as nat, |k: int| summary_of(self.collections@, lo - 1 + k))
        }
    }

    /// Lists collections for pagination.  The cursor defaults to the first
    /// ID, the limit to 10; a zero limit yields an empty listing, and a
    /// cursor past the last collection yields an empty listing, not an
    /// error.
    pub fn list_collections(&self, cursor: Option<u128>, limit: Option<u32>) -> (r: Vec<
        CollectionSummary,
    >)
        requires
            self.wf(),
        ensures
            r@ == self.spec_list(
                match cursor {
                    Some(c) => c as int,
                    None => 1,
                },
                match limit {
                    Some(l) => l as int,
                    None => 10,
                },
            ),
    {
        let start: u128 = match cursor {
            Some(c) => c,
            None => 1,
        };
        let lim: u32 = match limit {
            Some(l) => l,
            None => 10,
        };
        let next = self.next_collection_id;
        let hi: u128 = if start >= next {
            next
        } else {
            let remaining = next - start;
            if (lim as u128) <= remaining {
                start + (lim as u128)
            } else {
                next
            }
        };
        let lo: u128 = if start < 1 {
            1
        } else {
            start
        };
        let ghost lo_s = lo as int;
        let ghost hi_s = hi as int;
        let mut out: Vec<CollectionSummary> = Vec::new();
        let mut id = lo;
        proof {
            if hi_s > lo_s {
                assert(out@ =~= Seq::new(0nat, |k: int| summary_of(self.collections@, lo_s - 1 + k)));
            }
        }
        while id < hi
            invariant
                self.wf(),
                1 <= lo,
                lo == lo_s,
                hi == hi_s,
                lo <= id,
                hi_s <= self.next_collection_id,
                self.next_collection_id as int == self.collections@.len() + 1,
                hi <= lo ==> id == lo && out@ == Seq::<CollectionSummary>::empty(),
                hi > lo ==> id as int <= hi_s && out@ == Seq::new(
                    (id - lo) as nat,
                    |k: int| summary_of(self.collections@, lo_s - 1 + k),
                ),
            decreases hi_s - id,
        {
            let ncols = self.collections.len();
            proof {
                assert(id as int - 1 < ncols as int);
            }
            let idx = (id - 1) as usize;
            proof {
                assert(idx as int == id as int - 1);
            }
            let c = &self.collections[idx];
            let row = CollectionSummary {
                collection_id: id,
                contract_id: c.contract_id,
                name: c.name.clone(),
                symbol: c.symbol.clone(),
                creator: c.creator,
                created_at: c.created_at,
            };
            proof {
                assert(row =~= summary_of(self.collections@, id - 1));
            }
            let ghost out0 = out@;
            out.push(row);
            proof {
                assert(out@ =~= Seq::new(
                    (id + 1 - lo) as nat,
                    |k: int| summary_of(self.collections@, lo_s - 1 + k),
                ));
            }
            id = id + 1;
        }
        proof {
            let want = self.spec_list(start as int, lim as int);
            if hi <= lo {
                assert(want =~= Seq::<CollectionSummary>::empty());
            } else {
                assert(out@ =~= want);
            }
        }
        out
    }

    /// Returns the IDs of all collections created by `creator`, in creation
    /// order.
    pub fn list_by_creator(&self, creator: Address) -> (r: Vec<u128>)
        requires
            self.wf(),
        ensures
            r@ == self.creator_ids(creator),
    {
        let ghost s0 = self.creator_collections@;
        let n = self.creator_collections.len();
        let mut i: usize = 0;
        while i < n
            invariant
                i <= n,
                n == self.creator_collections@.len(),
                self.creator_collections@ == s0,
                forall|j: int| 0 <= j < i ==> s0[j].0 != creator,
            decreases n - i,
        {
            if self.creator_collections[i].0 == creator {
                proof {
                    assert(s0.skip(i as int)[0] == s0[i as int]);
                    lemma_assoc_get_skip(s0, creator, i as int);
                }
                return copy_cids(&self.creator_collections[i].1);
            }
            i = i + 1;
        }
        proof {
            lemma_assoc_get_none(s0, creator);
        }
        Vec::new()
    }

    /// Returns the mint log of collection `collection_id`, oldest first; a
    /// collection without mints has an empty log.
    pub fn get_collection_mints(&self, collection_id: u128) -> (r: Vec<MintRecord>)
        requires
            self.wf(),
        ensures
            r@ == self.mints(collection_id),
    {
        let ghost s0 = self.collection_mints@;
        let n = self.collection_mints.len();
        let mut i: usize = 0;
        while i < n
            invariant
                i <= n,
                n == self.collection_mints@.len(),
                self.collection_mints@ == s0,
                forall|j: int| 0 <= j < i ==> s0[j].0 != collection_id,
            decreases n - i,
        {
            if self.collection_mints[i].0 == collection_id {
                proof {
                    assert(s0.skip(i as int)[0] == s0[i as int]);
                    lemma_assoc_get_skip(s0, collection_id, i as int);
                }
                return copy_mints(&self.collection_mints[i].1);
            }
            i = i + 1;
        }
        proof {
            lemma_assoc_get_none(s0, collection_id);
        }
        Vec::new()
    }

    /// Returns the configuration, or `RecordNotFound` before
    /// initialization.
    pub fn get_config(&self) -> (r: Result<Config, RegistryError>)
        ensures
            match self.config {
                Some(c) => r == Ok::<Config, RegistryError>(c),
                None => r == Err::<Config, RegistryError>(RegistryError::RecordNotFound),
            },
    {
        match self.config {
            Some(c) => Ok(c),
            None => Err(RegistryError::RecordNotFound),
        }
    }

    /// The ID the next created collection will receive.
    pub fn get_next_collection_id(&self) -> (r: u128)
        ensures
            r == self.next_collection_id,
    {
        self.next_collection_id
    }

    /// The number of collections created so far.
    pub fn get_total_collections(&self) -> (r: u128)
        requires
            self.wf(),
        ensures
            r as int == self.collections@.len(),
    {
        if self.next_collection_id > 1 {
            self.next_collection_id - 1
        } else {
            0
        }
    }

    /// Finds the collection the name index currently binds to `name`: the
    /// most recently created collection with that name, or nothing if none
    /// was ever created.
    pub fn find_by_name(&self, name: String) -> (r: Option<CollectionMetadata>)
        requires
            self.wf(),
        ensures
            match self.name_lookup(name@) {
                Some(id) => r matches Some(m) && m == self.collections@[id - 1],
                None => r is None,
            },
    {
        let ghost s0 = self.name_index@;
        let n = self.name_index.len();
        let mut i: usize = 0;
        while i < n
            invariant
                i <= n,
                self.wf(),
                n == self.name_index@.len(),
                self.name_index@ == s0,
                forall|j: int| 0 <= j < i ==> s0[j].0@ != name@,
            decreases n - i,
        {
            if self.name_index[i].0 == name {
                proof {
                    assert(s0.skip(i as int)[0] == s0[i as int]);
                    lemma_assoc_get_v_skip(s0, name@, i as int);
                    assert(self.name_lookup(name@) == Some(s0[i as int].1));
                }
                let id = self.name_index[i].1;
                let ncols = self.collections.len();
                proof {
                    assert(1 <= id && id as int <= ncols as int);
                }
                let idx = (id - 1) as usize;
                proof {
                    assert(idx as int == id as int - 1);
                }
                return Some(copy_metadata(&self.collections[idx]));
            }
            i = i + 1;
        }
        proof {
            lemma_assoc_get_v_none(s0, name@);
        }
        None
    }

    /// Finds the collection deployed at `contract_id`, or nothing if the
    /// factory deployed none there.
    pub fn find_by_contract_id(&self, contract_id: Address) -> (r: Option<CollectionMetadata>)
        requires
            self.wf(),
        ensures
            match self.contract_lookup(contract_id) {
                Some(id) => r matches Some(m) && m == self.collections@[id - 1],
                None => r is None,
            },
    {
        let ghost s0 = self.contract_index@;
        let n = self.contract_index.len();
        let mut i: usize = 0;
        while i < n
            invariant
                i <= n,
                self.wf(),
                n == self.contract_index@.len(),
                self.contract_index@ == s0,
                forall|j: int| 0 <= j < i ==> s0[j].0 != contract_id,
            decreases n - i,
        {
            if self.contract_index[i].0 == contract_id {
                proof {
                    assert(s0.skip(i as int)[0] == s0[i as int]);
                    lemma_assoc_get_skip(s0, contract_id, i as int);
                    assert(self.contract_lookup(contract_id) == Some(s0[i as int].1));
                }
                let id = self.contract_index[i].1;
                let ncols = self.collections.len();
                proof {
                    assert(1 <= id && id as int <= ncols as int);
                }
                let idx = (id - 1) as usize;
                proof {
                    assert(idx as int == id as int - 1);
                }
                return Some(copy_metadata(&self.collections[idx]));
            }
            i = i + 1;
        }
        proof {
            lemma_assoc_get_none(s0, contract_id);
        }
        None
    }

    /// Like `find_by_contract_id`, but a miss is the error
    /// `RecordNotFound`.
    pub fn get_collection_by_contract(&self, contract_id: Address) -> (r: Result<
        CollectionMetadata,
        RegistryError,
    >)
        requires
            self.wf(),
        ensures
            match self.contract_lookup(contract_id) {
                Some(id) => r matches Ok(m) && m == self.collections@[id - 1],
                None => r == Err::<CollectionMetadata, RegistryError>(
                    RegistryError::RecordNotFound,
                ),
            },
    {
        match self.find_by_contract_id(contract_id) {
            Some(m) => Ok(m),
            None => Err(RegistryError::RecordNotFound),
        }
    }
}

} // verus!
