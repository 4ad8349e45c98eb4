//! The ledger's general laws, proved once over the model that the operation
//! contracts speak of.

use vstd::prelude::*;

use crate::error::ContractError;
use crate::msg::MemberLookup;
use crate::state::{
    ballot_key_lt, ballot_lt, ballots_sorted, cats_contain, find_ballot, find_ballot_from,
    insert_pos, insert_pos_from, lemma_insert_pos_from_props, upsert, BallotRecord, ContestState,
};
use crate::contract::{add_category_outcome, add_category_post, membership_error};

verus! {

/// Entry identifiers are dense and sequential: in a well-formed state the
/// record at index `i` carries id `i + 1`, so ids run 1, 2, ... in creation
/// order across all categories, in step with the global counter.
pub proof fn lemma_entry_ids_dense(s: ContestState)
    requires
        s.well_formed(),
    ensures
        s.entries@.len() == s.next_entry_id as int,
        forall|i: int| 0 <= i < s.entries@.len() ==> (#[trigger] s.entries@[i]).id as int == i + 1,
{
}

/// Exactly one ballot may be stored per (entry, judge) pair: two stored
/// ballots that agree on both keys are the same record.
pub proof fn lemma_one_ballot_per_pair(s: ContestState, i: int, k: int)
    requires
        s.well_formed(),
        0 <= i < s.votes@.len(),
        0 <= k < s.votes@.len(),
        s.votes@[i].entry_id == s.votes@[k].entry_id,
        s.votes@[i].judge@ == s.votes@[k].judge@,
    ensures
        i == k,
{
    if i < k {
        assert(ballot_lt(s.votes@[i], s.votes@[k]));
    } else if k < i {
        assert(ballot_lt(s.votes@[k], s.votes@[i]));
    }
    if i != k {
        crate::order::lemma_addr_lt_asym(s.votes@[i].judge@, s.votes@[k].judge@);
    }
}

/// A category, once added, cannot be added again: whatever state a
/// successful addition leaves, adding any name with the same characters
/// fails `InvalidCategory`, even for an authorized caller.
pub proof fn lemma_duplicate_category_rejected(
    pre: ContestState,
    post: ContestState,
    lookup: MemberLookup,
    lookup2: MemberLookup,
    category: String,
    again: String,
)
    requires
        add_category_post(pre, post, lookup, category, Ok::<(), ContractError>(())),
        again@ == category@,
        membership_error(lookup2) is None,
    ensures
        add_category_outcome(post, lookup2, again@) == Some(ContractError::InvalidCategory),
{
    let n = pre.categories@.len() as int;
    assert(post.categories@[n] == category);
    assert(cats_contain(post.categories@, again@));
}

/// The insertion position of a key whose predecessors all order below it
/// and whose successor (if any) does not.
proof fn lemma_insert_pos_from_eq(t: Seq<BallotRecord>, e: u8, j: Seq<char>, i: int, p: int)
    requires
        0 <= i <= p <= t.len(),
        forall|k: int| i <= k < p ==> ballot_key_lt((#[trigger] t[k]).entry_id, t[k].judge@, e, j),
        p < t.len() ==> !ballot_key_lt(t[p].entry_id, t[p].judge@, e, j),
    ensures
        insert_pos_from(t, e, j, i) == p,
    decreases p - i,
{
    if i < p {
        lemma_insert_pos_from_eq(t, e, j, i + 1, p);
    }
}

/// A scan for a key passes over records that order strictly below it.
proof fn lemma_find_skips_lt(t: Seq<BallotRecord>, e: u8, j: Seq<char>, i: int, p: int)
    requires
        0 <= i <= p <= t.len(),
        forall|k: int| i <= k < p ==> ballot_key_lt((#[trigger] t[k]).entry_id, t[k].judge@, e, j),
    ensures
        find_ballot_from(t, e, j, i) == find_ballot_from(t, e, j, p),
    decreases p - i,
{
    if i < p {
        if t[i].entry_id == e && t[i].judge@ == j {
            crate::order::lemma_addr_lt_asym(j, j);
            assert(false);
        }
        lemma_find_skips_lt(t, e, j, i + 1, p);
    }
}

/// After a ballot is stored, a lookup of its (entry, judge) pair returns
/// exactly the stored scores.
pub proof fn lemma_upsert_stores(s: Seq<BallotRecord>, rec: BallotRecord)
    requires
        ballots_sorted(s),
    ensures
        find_ballot(upsert(s, rec), rec.entry_id, rec.judge@) == Some(rec.ballot),
{
    let e = rec.entry_id;
    let j = rec.judge@;
    let p = insert_pos(s, e, j);
    lemma_insert_pos_from_props(s, e, j, 0);
    let t = upsert(s, rec);
    assert(t[p] == rec);
    assert forall|k: int| 0 <= k < p implies ballot_key_lt(
        (#[trigger] t[k]).entry_id,
        t[k].judge@,
        e,
        j,
    ) by {
        assert(t[k] == s[k]);
    }
    lemma_find_skips_lt(t, e, j, 0, p);
    assert(find_ballot_from(t, e, j, p) == Some(rec.ballot));
}

/// Casting a second ballot from the same judge for the same entry replaces
/// the first outright: the ledger ends exactly as if only the second ballot
/// had ever been cast.
pub proof fn lemma_second_ballot_replaces(
    s: Seq<BallotRecord>,
    rec1: BallotRecord,
    rec2: BallotRecord,
)
    requires
        ballots_sorted(s),
        rec1.entry_id == rec2.entry_id,
        rec1.judge@ == rec2.judge@,
    ensures
        upsert(upsert(s, rec1), rec2) == upsert(s, rec2),
{
    let e = rec1.entry_id;
    let j = rec1.judge@;
    let p = insert_pos(s, e, j);
    lemma_insert_pos_from_props(s, e, j, 0);
    crate::order::lemma_addr_lt_asym(j, j);
    let t1 = upsert(s, rec1);
    assert(t1[p] == rec1);
    assert forall|k: int| 0 <= k < p implies ballot_key_lt(
        (#[trigger] t1[k]).entry_id,
        t1[k].judge@,
        e,
        j,
    ) by {
        assert(t1[k] == s[k]);
    }
    lemma_insert_pos_from_eq(t1, e, j, 0, p);
    if p < s.len() && s[p].entry_id == e && s[p].judge@ == j {
        assert(upsert(t1, rec2) =~= s.update(p, rec2));
    } else {
        assert(upsert(t1, rec2) =~= s.insert(p, rec2));
    }
}

} // verus!
