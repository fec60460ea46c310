//! The crate-level laws: facts that relate several operations, stated over
//! the same spec functions the operations' contracts use.

use vstd::prelude::*;

use crate::factory::{summary_of, FactoryRegistry};
use crate::registry::StellarWizardRegistry;

verus! {

/// A well-formed factory holds exactly the collections with IDs `1` up to
/// but excluding `next_collection_id`, and counts them all.  Together with
/// `create_collection`'s contract — the `k`-th successful creation returns
/// ID `k` and increments the counter — the IDs handed out by `N` creations
/// are exactly `1..N` in call order.
pub proof fn lemma_collection_ids_complete(s: FactoryRegistry)
    requires
        s.wf(),
    ensures
        forall|id: u128| s.has_collection(id) <==> 1 <= id < s.next_collection_id,
        s.collections@.len() == s.next_collection_id - 1,
{
}

/// A listing window never mixes up or invents rows: `list_collections`
/// starting at cursor `c >= 1` returns exactly `min(l, next_id - c)` rows
/// when `c` is below the next ID, and none otherwise.
pub proof fn lemma_list_count(s: FactoryRegistry, c: int, l: int)
    requires
        s.wf(),
        1 <= c,
        0 <= l,
    ensures
        c < s.next_collection_id ==> s.spec_list(c, l).len() == (if l
            <= s.next_collection_id - c {
            l
        } else {
            s.next_collection_id - c
        }),
        c >= s.next_collection_id ==> s.spec_list(c, l).len() == 0,
{
}

/// Listing pages with contiguous cursors concatenate to the one window
/// their joint bounds describe: no row is lost and none is repeated.
pub proof fn lemma_list_pages_join(s: FactoryRegistry, c: int, l1: int, l2: int)
    requires
        s.wf(),
        1 <= c,
        0 <= l1,
        0 <= l2,
    ensures
        s.spec_list(c, l1) + s.spec_list(c + l1, l2) == s.spec_list(c, l1 + l2),
{
    let next = s.next_collection_id as int;
    let p1 = s.spec_list(c, l1);
    let p2 = s.spec_list(c + l1, l2);
    let whole = s.spec_list(c, l1 + l2);
    assert forall|k: int| 0 <= k < whole.len() implies whole[k] == summary_of(
        s.collections@,
        c - 1 + k,
    ) by {}
    assert(p1 + p2 =~= whole);
}

/// A well-formed registry numbers its records consecutively from 1: the
/// record at position `i` carries ID `i + 1`, so no ID is duplicated and
/// none is skipped, and the registry counts them all.
pub proof fn lemma_record_ids_sequential(s: StellarWizardRegistry)
    requires
        s.wf(),
    ensures
        forall|i: int| 0 <= i < s.recs().len() ==> s.recs()[i].id == i + 1,
        s.recs().len() == s.next_id - 1,
        forall|i: int, j: int|
            0 <= i < j < s.recs().len() ==> s.recs()[i].id != s.recs()[j].id,
{
    assert forall|i: int| 0 <= i < s.recs().len() implies s.recs()[i].id == i + 1 by {
        assert(s.recs()[i] == s.records@[i]@);
    }
}

/// The registry's pagination window with an explicit positive limit holds
/// exactly `min(l, next_id - c)` records when the cursor is below the next
/// ID, and none otherwise.
pub proof fn lemma_range_count(s: StellarWizardRegistry, c: int, l: int)
    requires
        s.wf(),
        1 <= c,
        1 <= l,
    ensures
        c < s.next_id ==> s.spec_range(c, l).len() == (if l <= s.next_id - c {
            l
        } else {
            s.next_id - c
        }),
        c >= s.next_id ==> s.spec_range(c, l).len() == 0,
{
}

/// Registry pagination pages with contiguous cursors and explicit positive
/// limits concatenate to the one window their joint bounds describe.
pub proof fn lemma_range_pages_join(s: StellarWizardRegistry, c: int, l1: int, l2: int)
    requires
        s.wf(),
        1 <= c,
        1 <= l1,
        1 <= l2,
    ensures
        s.spec_range(c, l1) + s.spec_range(c + l1, l2) == s.spec_range(c, l1 + l2),
{
    let p1 = s.spec_range(c, l1);
    let p2 = s.spec_range(c + l1, l2);
    let whole = s.spec_range(c, l1 + l2);
    assert forall|k: int| 0 <= k < whole.len() implies whole[k] == s.recs()[c - 1 + k] by {}
    assert(p1 + p2 =~= whole);
}

} // verus!
