//! The action registry: logs user operations with a commission, keeps an
//! append-only per-user index over the records, and serves paginated reads.
//!
//! The contract state is a [`StellarWizardRegistry`] value.  Every entry
//! point is a state transition: it validates authorization and the
//! configuration invariants first and only then commits, so a failing call
//! returns its error with the state untouched.  The caller performs the one
//! outbound effect a successful `log_and_route` can request — the fee
//! transfer described by the returned [`FeeTransfer`] — and drops the new
//! state if that transfer fails.

use vstd::prelude::*;

use crate::address::Address;
use crate::assoc::{
    assoc_get, keys_unique, lemma_assoc_get_none, lemma_assoc_get_push, lemma_assoc_get_skip,
    lemma_assoc_get_update,
};
use crate::auth::AuthContext;
use crate::errors::RegistryError;
use crate::fees::{fee_on_amount, fee_spec, BPS_DENOMINATOR};

verus! {

/// The two kinds of operation the registry routes.
#[derive(Clone, Copy, Debug, PartialEq, Eq, Structural)]
pub enum ActionType {
    NFT,
    DEFI,
}

/// One logged action.
#[derive(Debug, PartialEq, Eq)]
pub struct ActionRecord {
    pub id: u64,
    pub user: Address,
    pub action_type: ActionType,
    pub plan_hash: String,
    pub payload_ref: String,
    pub timestamp: u64,
    pub network: String,
    pub tx_refs: Vec<String>,
    pub fee_amount: i128,
    pub total_amount: i128,
}

/// The mathematical reading of an [`ActionRecord`]: the same fields with the
/// transaction references as a sequence.
#[verifier::ext_equal]
pub struct ActionRecordV {
    pub id: u64,
    pub user: Address,
    pub action_type: ActionType,
    pub plan_hash: String,
    pub payload_ref: String,
    pub timestamp: u64,
    pub network: String,
    pub tx_refs: Seq<String>,
    pub fee_amount: i128,
    pub total_amount: i128,
}

impl View for ActionRecord {
    type V = ActionRecordV;

    open spec fn view(&self) -> ActionRecordV {
        ActionRecordV {
            id: self.id,
            user: self.user,
            action_type: self.action_type,
            plan_hash: self.plan_hash,
            payload_ref: self.payload_ref,
            timestamp: self.timestamp,
            network: self.network,
            tx_refs: self.tx_refs@,
            fee_amount: self.fee_amount,
            total_amount: self.total_amount,
        }
    }
}

/// The readings of a sequence of records.
pub open spec fn views_of(s: Seq<ActionRecord>) -> Seq<ActionRecordV> {
    s.map_values(|r: ActionRecord| r@)
}

/// The registry's configuration singleton.
#[derive(Clone, Copy, Debug, PartialEq, Eq, Structural)]
pub struct Config {
    pub owner: Address,
    pub fee_bps: u32,
    pub fee_wallet: Address,
    pub paused: bool,
}

/// A token transfer the caller must carry out to settle the commission of a
/// successful `log_and_route`.
#[derive(Clone, Copy, Debug, PartialEq, Eq, Structural)]
pub struct FeeTransfer {
    pub token: Address,
    pub from: Address,
    pub to: Address,
    pub amount: i128,
}

/// What a successful `log_and_route` hands back: the allocated record ID and
/// the fee settlement still owed, if the fee was positive.
#[derive(Clone, Copy, Debug, PartialEq, Eq, Structural)]
pub struct LogOutcome {
    pub id: u64,
    pub fee_transfer: Option<FeeTransfer>,
}

/// An event published on a successful commit, in publication order.
#[derive(Debug, PartialEq, Eq)]
pub enum RegistryEvent {
    FeePaid { id: u64, wallet: Address, amount: i128 },
    ActionLogged { id: u64, user: Address, action_type: ActionType, plan_hash: String, fee_amount: i128 },
}

/// The IDs of the records among the first `n` whose user is `a`, in ID
/// order.  Record IDs start at 1, so the record at position `i` has ID
/// `i + 1`.
pub open spec fn user_ids_of(records: Seq<ActionRecord>, a: Address, n: int) -> Seq<u64>
    decreases n,
{
    if n <= 0 {
        Seq::empty()
    } else if records[n - 1].user == a {
        user_ids_of(records, a, n - 1).push(n as u64)
    } else {
        user_ids_of(records, a, n - 1)
    }
}

/// The ID list an index holds for `a`, read as a sequence.
pub open spec fn ids_of(index: Seq<(Address, Vec<u64>)>, a: Address) -> Seq<u64> {
    match assoc_get(index, a) {
        Some(v) => v@,
        None => Seq::empty(),
    }
}

/// `user_ids_of` only reads the `user` field, so it agrees on sequences
/// whose users agree position by position.
proof fn lemma_user_ids_of_agree(s1: Seq<ActionRecord>, s2: Seq<ActionRecord>, a: Address, n: int)
    requires
        n <= s1.len(),
        n <= s2.len(),
        forall|i: int| 0 <= i < n ==> s1[i].user == s2[i].user,
    ensures
        user_ids_of(s1, a, n) == user_ids_of(s2, a, n),
    decreases n,
{
    if n > 0 {
        lemma_user_ids_of_agree(s1, s2, a, n - 1);
    }
}

/// Copies a list of record IDs.
fn copy_ids(v: &Vec<u64>) -> (out: Vec<u64>)
    ensures
        out@ == v@,
{
    let mut out: Vec<u64> = Vec::new();
    let n = v.len();
    let mut i: usize = 0;
    while i < n
        invariant
            i <= n,
            n == v@.len(),
            out@ == v@.subrange(0, i as int),
        decreases n - i,
    {
        out.push(v[i]);
        proof {
            assert(v@.subrange(0, i as int).push(v@[i as int]) =~= v@.subrange(0, i + 1 as int));
        }
        i = i + 1;
    }
    proof {
        assert(v@.subrange(0, n as int) =~= v@);
    }
    out
}

/// Copies a list of strings.
fn copy_strings(v: &Vec<String>) -> (out: Vec<String>)
    ensures
        out@ == v@,
{
    let mut out: Vec<String> = Vec::new();
    let n = v.len();
    let mut i: usize = 0;
    while i < n
        invariant
            i <= n,
            n == v@.len(),
            out@ == v@.subrange(0, i as int),
        decreases n - i,
    {
        out.push(v[i].clone());
        proof {
            assert(v@.subrange(0, i as int).push(v@[i as int]) =~= v@.subrange(0, i + 1 as int));
        }
        i = i + 1;
    }
    proof {
        assert(v@.subrange(0, n as int) =~= v@);
    }
    out
}

/// Copies a record field by field.
fn copy_record(r: &ActionRecord) -> (out: ActionRecord)
    ensures
        out@ == r@,
{
    let out = ActionRecord {
        id: r.id,
        user: r.user,
        action_type: r.action_type,
        plan_hash: r.plan_hash.clone(),
        payload_ref: r.payload_ref.clone(),
        timestamp: r.timestamp,
        network: r.network.clone(),
        tx_refs: copy_strings(&r.tx_refs),
        fee_amount: r.fee_amount,
        total_amount: r.total_amount,
    };
    proof {
        assert(out@ =~= r@);
    }
    out
}

/// Appends `id` to the list the index holds for `user`, creating a
/// singleton list when the index has no entry for `user` yet.
fn index_append(index: &mut Vec<(Address, Vec<u64>)>, user: Address, id: u64)
    requires
        keys_unique(old(index)@),
    ensures
        keys_unique(final(index)@),
        ids_of(final(index)@, user) == ids_of(old(index)@, user).push(id),
        forall|a: Address| a != user ==> ids_of(final(index)@, a) == ids_of(old(index)@, a),
{
    let ghost s0 = index@;
    let n = index.len();
    let mut i: usize = 0;
    while i < n
        invariant
            i <= n,
            n == index@.len(),
            index@ == s0,
            s0 == old(index)@,
            keys_unique(s0),
            forall|j: int| 0 <= j < i ==> s0[j].0 != user,
        decreases n - i,
    {
        if index[i].0 == user {
            let mut ids = copy_ids(&index[i].1);
            ids.push(id);
            proof {
                assert(s0.skip(i as int)[0] == s0[i as int]);
                lemma_assoc_get_skip(s0, user, i as int);
                assert(assoc_get(s0, user) == Some(s0[i as int].1));
            }
            let ghost new_list = ids@;
            index[i] = (user, ids);
            proof {
                let s1 = index@;
                assert(s1[i as int].0 == user && s1[i as int].1@ == new_list);
                assert(s1 =~= s0.update(i as int, (s0[i as int].0, s1[i as int].1)));
                lemma_assoc_get_update(s0, i as int, s1[i as int].1, user);
                assert(ids_of(s1, user) == new_list);
                assert forall|a: Address| a != user implies ids_of(s1, a) == ids_of(s0, a) by {
                    lemma_assoc_get_update(s0, i as int, s1[i as int].1, a);
                }
                assert forall|p: int, q: int| 0 <= p < q < s1.len() implies s1[p].0
                    != s1[q].0 by {
                    assert(s1[p].0 == s0[p].0 && s1[q].0 == s0[q].0);
                }
            }
            return;
        }
        i = i + 1;
    }
    let mut ids: Vec<u64> = Vec::new();
    ids.push(id);
    let ghost new_list = ids@;
    proof {
        lemma_assoc_get_none(s0, user);
    }
    index.push((user, ids));
    proof {
        let s1 = index@;
        let entry = s1.last();
        assert(entry.0 == user && entry.1@ == new_list);
        assert(new_list =~= Seq::<u64>::empty().push(id));
        lemma_assoc_get_push(s0, entry.0, entry.1, user);
        assert(ids_of(s1, user) =~= ids_of(s0, user).push(id));
        assert forall|a: Address| a != user implies ids_of(s1, a) == ids_of(s0, a) by {
            lemma_assoc_get_push(s0, entry.0, entry.1, a);
        }
        assert forall|p: int, q: int| 0 <= p < q < s1.len() implies s1[p].0 != s1[q].0 by {
            if q < s0.len() {
                assert(s1[p].0 == s0[p].0 && s1[q].0 == s0[q].0);
            } else {
                assert(s1[q].0 == user && s1[p].0 == s0[p].0);
            }
        }
    }
}

/// Does `rec` hold exactly the data a fresh record is created with?
pub open spec fn fresh_record(
    rec: ActionRecordV,
    id: u64,
    user: Address,
    action_type: ActionType,
    plan_hash: String,
    payload_ref: String,
    network: String,
    timestamp: u64,
    fee_amount: int,
    total_amount: i128,
) -> bool {
    &&& rec.id == id
    &&& rec.user == user
    &&& rec.action_type == action_type
    &&& rec.plan_hash == plan_hash
    &&& rec.payload_ref == payload_ref
    &&& rec.timestamp == timestamp
    &&& rec.network == network
    &&& rec.tx_refs == Seq::<String>::empty()
    &&& rec.fee_amount == fee_amount
    &&& rec.total_amount == total_amount
}

/// Is `r1` the record `r0` with one more transaction reference?
pub open spec fn with_tx_ref(r0: ActionRecordV, r1: ActionRecordV, tx_ref: String) -> bool {
    r1 == ActionRecordV { tx_refs: r0.tx_refs.push(tx_ref), ..r0 }
}

/// The action registry's state: the configuration singleton, the ID
/// counter, the records in ID order, the per-user secondary index, and the
/// log of published events.
pub struct StellarWizardRegistry {
    pub config: Option<Config>,
    pub next_id: u64,
    pub records: Vec<ActionRecord>,
    pub user_records: Vec<(Address, Vec<u64>)>,
    pub events: Vec<RegistryEvent>,
}

impl StellarWizardRegistry {
    /// The record IDs the per-user index holds for `a`, in insertion order.
    pub open spec fn user_ids(self, a: Address) -> Seq<u64> {
        ids_of(self.user_records@, a)
    }

    /// The mathematical readings of the stored records, in ID order.
    pub open spec fn recs(self) -> Seq<ActionRecordV> {
        views_of(self.records@)
    }

    /// Well-formedness: IDs are allocated consecutively from 1, the
    /// configured fee rate respects the ceiling, and the per-user index
    /// lists, for every principal, exactly the IDs of that principal's
    /// records in ID order.
    pub open spec fn wf(self) -> bool {
        &&& self.next_id as int == self.records@.len() + 1
        &&& (self.config is None ==> self.records@.len() == 0)
        &&& (self.config matches Some(c) ==> c.fee_bps <= BPS_DENOMINATOR)
        &&& (forall|i: int|
            0 <= i < self.records@.len() ==> (#[trigger] self.records@[i]).id == i + 1)
        &&& keys_unique(self.user_records@)
        &&& (forall|a: Address| #[trigger]
            ids_of(self.user_records@, a) == user_ids_of(
                self.records@,
                a,
                self.records@.len() as int,
            ))
    }

    /// Which error, if any, gates `log_and_route`, in the order the checks
    /// are made.
    pub open spec fn log_gate(
        self,
        auth: AuthContext,
        user: Address,
        total_amount: i128,
    ) -> Option<RegistryError> {
        if self.config is None {
            Some(RegistryError::RecordNotFound)
        } else if self.config->Some_0.paused {
            Some(RegistryError::ContractPaused)
        } else if !auth.allows_spec(user) {
            Some(RegistryError::NotAuthorized)
        } else if total_amount <= 0 {
            Some(RegistryError::InvalidAmount)
        } else {
            None
        }
    }

    /// Which error, if any, gates `append_tx_ref`.
    pub open spec fn append_gate(self, auth: AuthContext, user: Address, id: u64) -> Option<
        RegistryError,
    > {
        if !auth.allows_spec(user) {
            Some(RegistryError::NotAuthorized)
        } else if id < 1 || id as int > self.records@.len() {
            Some(RegistryError::RecordNotFound)
        } else if self.records@[id - 1].user != user {
            Some(RegistryError::NotAuthorized)
        } else {
            None
        }
    }

    /// Which error, if any, gates the owner-only configuration setters.
    pub open spec fn admin_gate(self, auth: AuthContext) -> Option<RegistryError> {
        if self.config is None {
            Some(RegistryError::RecordNotFound)
        } else if !auth.allows_spec(self.config->Some_0.owner) {
            Some(RegistryError::NotAuthorized)
        } else {
            None
        }
    }

    /// A freshly registered, not yet initialized registry.
    pub fn new() -> (r: StellarWizardRegistry)
        ensures
            r.wf(),
            r.config is None,
            r.next_id == 1,
            r.records@ == Seq::<ActionRecord>::empty(),
            r.user_records@ == Seq::<(Address, Vec<u64>)>::empty(),
            r.events@ == Seq::<RegistryEvent>::empty(),
    {
        let r = StellarWizardRegistry {
            config: None,
            next_id: 1,
            records: Vec::new(),
            user_records: Vec::new(),
            events: Vec::new(),
        };
        proof {
            assert forall|a: Address|
                ids_of(r.user_records@, a) == user_ids_of(
                    r.records@,
                    a,
                    r.records@.len() as int,
                ) by {
                lemma_assoc_get_none(r.user_records@, a);
            }
        }
        r
    }

    /// Stores the owner and fee configuration.  Fails with
    /// `AlreadyInitialized` whenever a configuration exists, whatever the
    /// arguments, and with `InvalidFeeRate` when the rate exceeds the
    /// ceiling; nothing is written on failure.
    pub fn initialize(&mut self, owner: Address, fee_bps: u32, fee_wallet: Address) -> (r: Result<
        (),
        RegistryError,
    >)
        requires
            old(self).wf(),
        ensures
            final(self).wf(),
            old(self).config is Some ==> r == Err::<(), RegistryError>(
                RegistryError::AlreadyInitialized,
            ) && *final(self) == *old(self),
            old(self).config is None && fee_bps > BPS_DENOMINATOR ==> r == Err::<(),
                RegistryError,
            >(RegistryError::InvalidFeeRate) && *final(self) == *old(self),
            old(self).config is None && fee_bps <= BPS_DENOMINATOR ==> r == Ok::<(),
                RegistryError,
            >(()) && *final(self) == (StellarWizardRegistry {
                config: Some(Config { owner, fee_bps, fee_wallet, paused: false }),
                next_id: 1,
                ..*old(self)
            }),
    {
        if self.config.is_some() {
            return Err(RegistryError::AlreadyInitialized);
        }
        if fee_bps > BPS_DENOMINATOR {
            return Err(RegistryError::InvalidFeeRate);
        }
        self.config = Some(Config { owner, fee_bps, fee_wallet, paused: false });
        self.next_id = 1;
        Ok(())
    }

    /// Logs an action: allocates the next record ID, stores the record with
    /// its commission, appends the ID to the user's index, publishes the
    /// events, and reports the fee transfer the caller still owes.  Each
    /// gate failure returns its error with nothing committed; in
    /// particular a paused registry consumes no ID.
    pub fn log_and_route(
        &mut self,
        auth: &AuthContext,
        user: Address,
        action_type: ActionType,
        plan_hash: String,
        payload_ref: String,
        network: String,
        total_amount: i128,
        token_address: Address,
        now: u64,
    ) -> (r: Result<LogOutcome, RegistryError>)
        requires
            old(self).wf(),
            old(self).next_id < u64::MAX,
        ensures
            final(self).wf(),
            match old(self).log_gate(*auth, user, total_amount) {
                Some(e) => r == Err::<LogOutcome, RegistryError>(e) && *final(self) == *old(self),
                None => ({
                    let cfg = old(self).config->Some_0;
                    let fee = fee_spec(total_amount as int, cfg.fee_bps as int);
                    let id = old(self).next_id;
                    &&& r matches Ok(out) && out.id == id && out.fee_transfer == (if fee > 0 {
                        Some(
                            FeeTransfer {
                                token: token_address,
                                from: user,
                                to: cfg.fee_wallet,
                                amount: fee as i128,
                            },
                        )
                    } else {
                        None
                    })
                    &&& final(self).config == old(self).config
                    &&& final(self).next_id == id + 1
                    &&& final(self).recs().len() == old(self).recs().len() + 1
                    &&& final(self).recs().subrange(0, old(self).recs().len() as int) == old(
                        self,
                    ).recs()
                    &&& fresh_record(
                        final(self).recs().last(),
                        id,
                        user,
                        action_type,
                        plan_hash,
                        payload_ref,
                        network,
                        now,
                        fee,
                        total_amount,
                    )
                    &&& final(self).user_ids(user) == old(self).user_ids(user).push(id)
                    &&& (forall|a: Address|
                        a != user ==> final(self).user_ids(a) == old(self).user_ids(a))
                    &&& (fee > 0 ==> final(self).events@ == old(self).events@.push(
                        RegistryEvent::FeePaid { id, wallet: cfg.fee_wallet, amount: fee as i128 },
                    ).push(
                        RegistryEvent::ActionLogged {
                            id,
                            user,
                            action_type,
                            plan_hash,
                            fee_amount: fee as i128,
                        },
                    ))
                    &&& (fee == 0 ==> final(self).events@ == old(self).events@.push(
                        RegistryEvent::ActionLogged {
                            id,
                            user,
                            action_type,
                            plan_hash,
                            fee_amount: 0,
                        },
                    ))
                }),
            },
    {
        let cfg = match self.config {
            Some(c) => c,
            None => {
                return Err(RegistryError::RecordNotFound);
            },
        };
        if cfg.paused {
            return Err(RegistryError::ContractPaused);
        }
        if !auth.allows(&user) {
            return Err(RegistryError::NotAuthorized);
        }
        if total_amount <= 0 {
            return Err(RegistryError::InvalidAmount);
        }

        let fee_amount = fee_on_amount(total_amount, cfg.fee_bps);

        let id = self.next_id;
        self.next_id = id + 1;

        let ghost records0 = self.records@;
        let record = ActionRecord {
            id,
            user,
            action_type,
            plan_hash: plan_hash.clone(),
            payload_ref,
            timestamp: now,
            network,
            tx_refs: Vec::new(),
            fee_amount,
            total_amount,
        };
        self.records.push(record);

        index_append(&mut self.user_records, user, id);

        proof {
            let records1 = self.records@;
            let n = records0.len() as int;
            assert(records1[n].user == user);
            assert(views_of(records1).subrange(0, n) =~= views_of(records0));
            assert forall|a: Address|
                ids_of(self.user_records@, a) == user_ids_of(
                    records1,
                    a,
                    records1.len() as int,
                ) by {
                assert(ids_of(old(self).user_records@, a) == user_ids_of(records0, a, n));
                lemma_user_ids_of_agree(records0, records1, a, n);
                if a == user {
                    assert(user_ids_of(records1, a, n + 1) == user_ids_of(records1, a, n).push(
                        (n + 1) as u64,
                    ));
                } else {
                    assert(user_ids_of(records1, a, n + 1) == user_ids_of(records1, a, n));
                }
            }
        }

        let outcome = if fee_amount > 0 {
            self.events.push(
                RegistryEvent::FeePaid { id, wallet: cfg.fee_wallet, amount: fee_amount },
            );
            self.events.push(
                RegistryEvent::ActionLogged { id, user, action_type, plan_hash, fee_amount },
            );
            LogOutcome {
                id,
                fee_transfer: Some(
                    FeeTransfer {
                        token: token_address,
                        from: user,
                        to: cfg.fee_wallet,
                        amount: fee_amount,
                    },
                ),
            }
        } else {
            self.events.push(
                RegistryEvent::ActionLogged { id, user, action_type, plan_hash, fee_amount },
            );
            LogOutcome { id, fee_transfer: None }
        };
        Ok(outcome)
    }

    /// Appends a transaction reference to record `id`.  Only the record's
    /// original user may append, and only with that user's authorization;
    /// any other principal gets `NotAuthorized` and the record stays as it
    /// was.
    pub fn append_tx_ref(
        &mut self,
        auth: &AuthContext,
        user: Address,
        id: u64,
        tx_ref: String,
    ) -> (r: Result<(), RegistryError>)
        requires
            old(self).wf(),
        ensures
            final(self).wf(),
            match old(self).append_gate(*auth, user, id) {
                Some(e) => r == Err::<(), RegistryError>(e) && *final(self) == *old(self),
                None => ({
                    &&& r == Ok::<(), RegistryError>(())
                    &&& final(self).recs() == old(self).recs().update(
                        id - 1,
                        final(self).recs()[id - 1],
                    )
                    &&& with_tx_ref(old(self).recs()[id - 1], final(self).recs()[id - 1], tx_ref)
                    &&& final(self).config == old(self).config
                    &&& final(self).next_id == old(self).next_id
                    &&& final(self).user_records@ == old(self).user_records@
                    &&& final(self).events@ == old(self).events@
                }),
            },
    {
        if !auth.allows(&user) {
            return Err(RegistryError::NotAuthorized);
        }
        if id < 1 || id > self.records.len() as u64 {
            return Err(RegistryError::RecordNotFound);
        }
        let idx = (id - 1) as usize;
        if self.records[idx].user != user {
            return Err(RegistryError::NotAuthorized);
        }
        let ghost records0 = self.records@;
        let mut rec = copy_record(&self.records[idx]);
        rec.tx_refs.push(tx_ref);
        let ghost recv = rec@;
        self.records[idx] = rec;
        proof {
            let records1 = self.records@;
            assert(records1[idx as int]@ == recv);
            assert(records1[idx as int].user == records0[idx as int].user);
            assert forall|a: Address|
                ids_of(self.user_records@, a) == user_ids_of(
                    records1,
                    a,
                    records1.len() as int,
                ) by {
                assert(ids_of(old(self).user_records@, a) == user_ids_of(
                    records0,
                    a,
                    records0.len() as int,
                ));
                lemma_user_ids_of_agree(records0, records1, a, records0.len() as int);
            }
            assert(views_of(records1) =~= views_of(records0).update(
                idx as int,
                views_of(records1)[idx as int],
            ));
            assert(recv =~= ActionRecordV {
                tx_refs: records0[idx as int]@.tx_refs.push(tx_ref),
                ..records0[idx as int]@
            });
        }
        Ok(())
    }

    /// Returns the record with ID `id`, or `RecordNotFound` for an ID that
    /// was never allocated.
    pub fn get_record(&self, id: u64) -> (r: Result<ActionRecord, RegistryError>)
        requires
            self.wf(),
        ensures
            match r {
                Ok(rec) => 1 <= id && id as int <= self.recs().len() && rec@ == self.recs()[id
                    - 1],
                Err(e) => e == RegistryError::RecordNotFound && (id < 1 || id as int
                    > self.recs().len()),
            },
    {
        if id < 1 || id > self.records.len() as u64 {
            return Err(RegistryError::RecordNotFound);
        }
        let idx = (id - 1) as usize;
        Ok(copy_record(&self.records[idx]))
    }

    /// Returns the IDs of all records logged by `user`, in logging order.
    pub fn get_user_records(&self, user: Address) -> (r: Vec<u64>)
        requires
            self.wf(),
        ensures
            r@ == self.user_ids(user),
    {
        let ghost s0 = self.user_records@;
        let n = self.user_records.len();
        let mut i: usize = 0;
        while i < n
            invariant
                i <= n,
                n == self.user_records@.len(),
                self.user_records@ == s0,
                forall|j: int| 0 <= j < i ==> s0[j].0 != user,
            decreases n - i,
        {
            if self.user_records[i].0 == user {
                proof {
                    assert(s0.skip(i as int)[0] == s0[i as int]);
                    lemma_assoc_get_skip(s0, user, i as int);
                }
                return copy_ids(&self.user_records[i].1);
            }
            i = i + 1;
        }
        proof {
            lemma_assoc_get_none(s0, user);
        }
        Vec::new()
    }

    /// Returns the configuration, or `RecordNotFound` before initialization.
    pub fn get_config(&self) -> (r: Result<Config, RegistryError>)
        ensures
            match self.config {
                Some(c) => r == Ok::<Config, RegistryError>(c),
                None => r == Err::<Config, RegistryError>(RegistryError::RecordNotFound),
            },
    {
        match self.config {
            Some(c) => Ok(c),
            None => Err(RegistryError::RecordNotFound),
        }
    }

    /// Sets the fee rate.  Owner-only; a rate above the ceiling is rejected
    /// with `InvalidFeeRate` and the stored configuration keeps its old
    /// rate.
    pub fn set_fee_bps(&mut self, auth: &AuthContext, fee_bps: u32) -> (r: Result<
        (),
        RegistryError,
    >)
        requires
            old(self).wf(),
        ensures
            final(self).wf(),
            match old(self).admin_gate(*auth) {
                Some(e) => r == Err::<(), RegistryError>(e) && *final(self) == *old(self),
                None => (if fee_bps > BPS_DENOMINATOR {
                    r == Err::<(), RegistryError>(RegistryError::InvalidFeeRate) && *final(self)
                        == *old(self)
                } else {
                    r == Ok::<(), RegistryError>(()) && *final(self) == (StellarWizardRegistry {
                        config: Some(Config { fee_bps, ..old(self).config->Some_0 }),
                        ..*old(self)
                    })
                }),
            },
    {
        let cfg = match self.config {
            Some(c) => c,
            None => {
                return Err(RegistryError::RecordNotFound);
            },
        };
        if !auth.allows(&cfg.owner) {
            return Err(RegistryError::NotAuthorized);
        }
        if fee_bps > BPS_DENOMINATOR {
            return Err(RegistryError::InvalidFeeRate);
        }
        self.config = Some(Config { fee_bps, ..cfg });
        Ok(())
    }

    /// Sets the wallet that receives commissions.  Owner-only.
    pub fn set_fee_wallet(&mut self, auth: &AuthContext, fee_wallet: Address) -> (r: Result<
        (),
        RegistryError,
    >)
        requires
            old(self).wf(),
        ensures
            final(self).wf(),
            match old(self).admin_gate(*auth) {
                Some(e) => r == Err::<(), RegistryError>(e) && *final(self) == *old(self),
                None => r == Ok::<(), RegistryError>(()) && *final(self) == (
                StellarWizardRegistry {
                    config: Some(Config { fee_wallet, ..old(self).config->Some_0 }),
                    ..*old(self)
                }),
            },
    {
        let cfg = match self.config {
            Some(c) => c,
            None => {
                return Err(RegistryError::RecordNotFound);
            },
        };
        if !auth.allows(&cfg.owner) {
            return Err(RegistryError::NotAuthorized);
        }
        self.config = Some(Config { fee_wallet, ..cfg });
        Ok(())
    }

    /// Pauses or resumes the primary logging operation.  Owner-only; reads
    /// and the other administrative operations stay available while paused.
    pub fn set_paused(&mut self, auth: &AuthContext, paused: bool) -> (r: Result<
        (),
        RegistryError,
    >)
        requires
            old(self).wf(),
        ensures
            final(self).wf(),
            match old(self).admin_gate(*auth) {
                Some(e) => r == Err::<(), RegistryError>(e) && *final(self) == *old(self),
                None => r == Ok::<(), RegistryError>(()) && *final(self) == (
                StellarWizardRegistry {
                    config: Some(Config { paused, ..old(self).config->Some_0 }),
                    ..*old(self)
                }),
            },
    {
        let cfg = match self.config {
            Some(c) => c,
            None => {
                return Err(RegistryError::RecordNotFound);
            },
        };
        if !auth.allows(&cfg.owner) {
            return Err(RegistryError::NotAuthorized);
        }
        self.config = Some(Config { paused, ..cfg });
        Ok(())
    }

    /// Hands the configuration to a new owner.  Owner-only.
    pub fn transfer_ownership(&mut self, auth: &AuthContext, new_owner: Address) -> (r: Result<
        (),
        RegistryError,
    >)
        requires
            old(self).wf(),
        ensures
            final(self).wf(),
            match old(self).admin_gate(*auth) {
                Some(e) => r == Err::<(), RegistryError>(e) && *final(self) == *old(self),
                None => r == Ok::<(), RegistryError>(()) && *final(self) == (
                StellarWizardRegistry {
                    config: Some(Config { owner: new_owner, ..old(self).config->Some_0 }),
                    ..*old(self)
                }),
            },
    {
        let cfg = match self.config {
            Some(c) => c,
            None => {
                return Err(RegistryError::RecordNotFound);
            },
        };
        if !auth.allows(&cfg.owner) {
            return Err(RegistryError::NotAuthorized);
        }
        self.config = Some(Config { owner: new_owner, ..cfg });
        Ok(())
    }

    /// The number of records logged so far.
    pub fn get_total_records(&self) -> (r: u64)
        requires
            self.wf(),
        ensures
            r as int == self.recs().len(),
    {
        self.next_id - 1
    }

    /// The window `get_records_range(start, limit)` must return: the records
    /// with IDs from `max(start, 1)` through `start + limit - 1`, clipped to
    /// the last allocated ID; a zero limit means "through the last record".
    pub open spec fn spec_range(self, start: int, limit: int) -> Seq<ActionRecordV> {
        let total = self.recs().len() as int;
        let lo = if start < 1 {
            1int
        } else {
            start
        };
        let hi = if limit == 0 {
            total
        } else if start + limit - 1 <= total {
            start + limit - 1
        } else {
            total
        };
        if hi < lo {
            Seq::empty()
        } else {
            self.recs().subrange(lo - 1, hi)
        }
    }

    /// Returns records for pagination: the window of `limit` records
    /// starting at ID `start`, clipped to the records that exist.  A zero
    /// limit means "through the last record".  A cursor past the last
    /// record yields an empty result, not an error.
    pub fn get_records_range(&self, start: u64, limit: u32) -> (r: Vec<ActionRecord>)
        requires
            self.wf(),
        ensures
            views_of(r@) == self.spec_range(start as int, limit as int),
    {
        let mut out: Vec<ActionRecord> = Vec::new();
        let total = self.get_total_records();
        let lo: u64 = if start < 1 {
            1
        } else {
            start
        };
        let hi: u64 = if limit == 0 {
            total
        } else if start > total {
            total
        } else {
            let remaining = total - start;
            if (limit - 1) as u64 <= remaining {
                start + limit as u64 - 1
            } else {
                total
            }
        };
        let mut id = lo;
        proof {
            if hi >= lo {
                assert(views_of(out@) =~= self.recs().subrange(lo as int - 1, lo as int - 1));
            }
        }
        while id <= hi
            invariant
                self.wf(),
                1 <= lo,
                lo <= id,
                hi as int <= self.recs().len(),
                hi < lo ==> id == lo && out@ == Seq::<ActionRecord>::empty(),
                hi >= lo ==> id as int <= hi + 1 && views_of(out@) == self.recs().subrange(
                    lo - 1,
                    id - 1,
                ),
            decreases hi + 1 - id,
        {
            if let Ok(rec) = self.get_record(id) {
                let ghost out0 = out@;
                out.push(rec);
                proof {
                    assert(views_of(out@) =~= views_of(out0).push(self.recs()[id - 1]));
                    assert(self.recs().subrange(lo - 1, id - 1).push(self.recs()[id - 1])
                        =~= self.recs().subrange(lo - 1, id as int));
                }
            }
            id = id + 1;
        }
        proof {
            if hi < lo {
                assert(views_of(out@) =~= Seq::<ActionRecordV>::empty());
                assert(self.spec_range(start as int, limit as int) =~= Seq::<
                    ActionRecordV,
                >::empty());
            } else {
                assert(views_of(out@) =~= self.spec_range(start as int, limit as int));
            }
        }
        out
    }
}

} // verus!
