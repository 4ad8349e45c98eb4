//! The persisted state model of the ledger and its mathematical semantics.
//!
//! The state holds the registry configuration, the ordered category list, the
//! global entry counter, the entries in creation order and the ballots in
//! ascending key order.  The spec functions in this module are the model that
//! every operation's contract speaks of: membership of a category, the sorted
//! ballot order, the upsert of a ballot, the page taken by a paginated read
//! and the sums of a page.

use vstd::prelude::*;

use crate::order::addr_lt;

verus! {

/// References to the two membership registries, fixed at initialization.
#[derive(Debug, PartialEq, Eq)]
pub struct Config {
    /// Address of the organizer-membership registry.
    pub admins_cw4_group: String,
    /// Address of the judge-membership registry.
    pub makers_cw4_group: String,
}

/// One ballot: four non-negative scores, one per quality axis.
#[derive(Clone, Copy, Debug, PartialEq, Eq, Structural)]
pub struct Votes {
    pub look: u128,
    pub smell: u128,
    pub taste: u128,
    pub post_melt: u128,
}

/// A competitor entry.  All fields are opaque strings except `maker_addr`,
/// which the runtime validated as a participant identifier.
#[derive(Debug, PartialEq, Eq)]
pub struct Entry {
    pub name: String,
    pub category: String,
    pub maker_addr: String,
    pub maker_name: String,
    pub breeder: String,
    pub genetics: String,
    pub farmer: String,
}

/// An entry together with its globally unique identifier.
#[derive(Debug, PartialEq, Eq)]
pub struct EntryRecord {
    pub id: u8,
    pub data: Entry,
}

/// One stored ballot, keyed by entry identifier and judge address.
#[derive(Debug, PartialEq, Eq)]
pub struct BallotRecord {
    pub entry_id: u8,
    pub judge: String,
    pub ballot: Votes,
}

/// The whole persisted state: one consistent snapshot of the ledger.
#[derive(Debug)]
pub struct ContestState {
    pub config: Config,
    /// Category names, in insertion order, unique.
    pub categories: Vec<String>,
    /// The global entry counter; the id of the most recently created entry.
    pub next_entry_id: u8,
    /// Entries in creation order; the record at index `i` has id `i + 1`.
    pub entries: Vec<EntryRecord>,
    /// Ballots, strictly sorted by (entry id, judge address).
    pub votes: Vec<BallotRecord>,
}

impl Clone for Entry {
    fn clone(&self) -> (res: Entry)
        ensures
            res == *self,
    {
        Entry {
            name: self.name.clone(),
            category: self.category.clone(),
            maker_addr: self.maker_addr.clone(),
            maker_name: self.maker_name.clone(),
            breeder: self.breeder.clone(),
            genetics: self.genetics.clone(),
            farmer: self.farmer.clone(),
        }
    }
}

impl Clone for BallotRecord {
    fn clone(&self) -> (res: BallotRecord)
        ensures
            res == *self,
    {
        BallotRecord { entry_id: self.entry_id, judge: self.judge.clone(), ballot: self.ballot }
    }
}

/// Whether some category in `cats` has the name `c`.
pub open spec fn cats_contain(cats: Seq<String>, c: Seq<char>) -> bool {
    exists|i: int| 0 <= i < cats.len() && (#[trigger] cats[i])@ == c
}

/// Category names are pairwise distinct.
pub open spec fn cats_unique(cats: Seq<String>) -> bool {
    forall|i: int, j: int| 0 <= i < j < cats.len() ==> (#[trigger] cats[i])@ != (#[trigger] cats[j])@
}

/// Strict order on ballot keys: entry id first, then the judge address in
/// byte order.
pub open spec fn ballot_key_lt(e1: u8, j1: Seq<char>, e2: u8, j2: Seq<char>) -> bool {
    e1 < e2 || (e1 == e2 && addr_lt(j1, j2))
}

/// Strict order on stored ballots by their keys.
pub open spec fn ballot_lt(a: BallotRecord, b: BallotRecord) -> bool {
    ballot_key_lt(a.entry_id, a.judge@, b.entry_id, b.judge@)
}

/// The ballot sequence is strictly sorted by key; keys are therefore unique.
pub open spec fn ballots_sorted(s: Seq<BallotRecord>) -> bool {
    forall|i: int, j: int| 0 <= i < j < s.len() ==> ballot_lt(#[trigger] s[i], #[trigger] s[j])
}

/// The first stored ballot for `(e, j)` at or after position `i`, if any.
pub open spec fn find_ballot_from(s: Seq<BallotRecord>, e: u8, j: Seq<char>, i: int) -> Option<
    Votes,
>
    decreases s.len() - i,
{
    if i >= s.len() {
        None
    } else if s[i].entry_id == e && s[i].judge@ == j {
        Some(s[i].ballot)
    } else {
        find_ballot_from(s, e, j, i + 1)
    }
}

/// The stored ballot for `(e, j)`, if any.
pub open spec fn find_ballot(s: Seq<BallotRecord>, e: u8, j: Seq<char>) -> Option<Votes> {
    find_ballot_from(s, e, j, 0)
}

/// The first position at or after `i` whose key is not below `(e, j)`; the
/// position where a ballot with that key lives or would be inserted.
pub open spec fn insert_pos_from(s: Seq<BallotRecord>, e: u8, j: Seq<char>, i: int) -> int
    decreases s.len() - i,
{
    if i >= s.len() {
        s.len() as int
    } else if ballot_key_lt(s[i].entry_id, s[i].judge@, e, j) {
        insert_pos_from(s, e, j, i + 1)
    } else {
        i
    }
}

/// The position where the ballot keyed `(e, j)` lives or would be inserted.
pub open spec fn insert_pos(s: Seq<BallotRecord>, e: u8, j: Seq<char>) -> int {
    insert_pos_from(s, e, j, 0)
}

/// Storing a ballot: overwrite the ballot with the same key if one exists,
/// otherwise insert at the position that keeps the sequence sorted.
pub open spec fn upsert(s: Seq<BallotRecord>, rec: BallotRecord) -> Seq<BallotRecord> {
    let p = insert_pos(s, rec.entry_id, rec.judge@);
    if p < s.len() && s[p].entry_id == rec.entry_id && s[p].judge@ == rec.judge@ {
        s.update(p, rec)
    } else {
        s.insert(p, rec)
    }
}

/// Whether an entry record matches a page read of `cat` bounded below
/// (exclusively) by id `after`.
pub open spec fn entry_matches(r: EntryRecord, cat: Seq<char>, after: int) -> bool {
    r.data.category@ == cat && r.id > after
}

/// The page an entry listing returns: of the records from position `i` on,
/// the first `lim` that belong to `cat` and have an id above `after`.
pub open spec fn entries_page_from(
    s: Seq<EntryRecord>,
    cat: Seq<char>,
    after: int,
    lim: int,
    i: int,
) -> Seq<EntryRecord>
    decreases s.len() - i,
{
    if i >= s.len() || lim <= 0 {
        Seq::empty()
    } else if entry_matches(s[i], cat, after) {
        seq![s[i]] + entries_page_from(s, cat, after, lim - 1, i + 1)
    } else {
        entries_page_from(s, cat, after, lim, i + 1)
    }
}

/// The page an entry listing returns.
pub open spec fn entries_page(s: Seq<EntryRecord>, cat: Seq<char>, after: int, lim: int) -> Seq<
    EntryRecord,
> {
    entries_page_from(s, cat, after, lim, 0)
}

/// Whether a ballot record matches a tally read of entry `e` bounded below
/// (exclusively) by the judge address `after`.
pub open spec fn ballot_matches(r: BallotRecord, e: u8, after: Option<Seq<char>>) -> bool {
    r.entry_id == e && (after is None || addr_lt(after->0, r.judge@))
}

/// The page a tally returns: of the ballots from position `i` on, the first
/// `lim` cast on entry `e` by a judge above `after`.
pub open spec fn ballots_page_from(
    s: Seq<BallotRecord>,
    e: u8,
    after: Option<Seq<char>>,
    lim: int,
    i: int,
) -> Seq<BallotRecord>
    decreases s.len() - i,
{
    if i >= s.len() || lim <= 0 {
        Seq::empty()
    } else if ballot_matches(s[i], e, after) {
        seq![s[i]] + ballots_page_from(s, e, after, lim - 1, i + 1)
    } else {
        ballots_page_from(s, e, after, lim, i + 1)
    }
}

/// The page a tally returns.
pub open spec fn ballots_page(
    s: Seq<BallotRecord>,
    e: u8,
    after: Option<Seq<char>>,
    lim: int,
) -> Seq<BallotRecord> {
    ballots_page_from(s, e, after, lim, 0)
}

/// The field-wise sums (look, smell, taste, after-melt) over the first `k`
/// ballots of a page.
pub open spec fn tally_sums_to(s: Seq<BallotRecord>, k: int) -> (int, int, int, int)
    decreases k,
{
    if k <= 0 {
        (0, 0, 0, 0)
    } else {
        let p = tally_sums_to(s, k - 1);
        let b = s[k - 1].ballot;
        (p.0 + b.look, p.1 + b.smell, p.2 + b.taste, p.3 + b.post_melt)
    }
}

/// The field-wise sums over a whole page.
pub open spec fn tally_sums(s: Seq<BallotRecord>) -> (int, int, int, int) {
    tally_sums_to(s, s.len() as int)
}

/// The sum of the four score fields of one ballot.
pub open spec fn votes_total(v: Votes) -> int {
    v.look + v.smell + v.taste + v.post_melt
}

/// Whether every sum a tally of this page computes fits in its word.
pub open spec fn tally_fits(s: Seq<BallotRecord>) -> bool {
    &&& forall|k: int| 0 <= k < s.len() ==> votes_total((#[trigger] s[k]).ballot) <= u128::MAX
    &&& tally_sums(s).0 <= u128::MAX
    &&& tally_sums(s).1 <= u128::MAX
    &&& tally_sums(s).2 <= u128::MAX
    &&& tally_sums(s).3 <= u128::MAX
}

/// Keys that neither order below the other are the same key.
pub proof fn lemma_ballot_key_connected(e1: u8, j1: Seq<char>, e2: u8, j2: Seq<char>)
    requires
        !ballot_key_lt(e1, j1, e2, j2),
        !ballot_key_lt(e2, j2, e1, j1),
    ensures
        e1 == e2,
        j1 == j2,
{
    crate::order::lemma_addr_lt_connected(j1, j2);
}

/// The ballot key order is transitive.
pub proof fn lemma_ballot_key_trans(
    e1: u8,
    j1: Seq<char>,
    e2: u8,
    j2: Seq<char>,
    e3: u8,
    j3: Seq<char>,
)
    requires
        ballot_key_lt(e1, j1, e2, j2),
        ballot_key_lt(e2, j2, e3, j3),
    ensures
        ballot_key_lt(e1, j1, e3, j3),
{
    if e1 == e2 && e2 == e3 {
        crate::order::lemma_addr_lt_trans(j1, j2, j3);
    }
}

/// Properties of the insertion position: everything before it orders below
/// the key, and the record at it (if any) does not.
pub proof fn lemma_insert_pos_from_props(s: Seq<BallotRecord>, e: u8, j: Seq<char>, i: int)
    requires
        0 <= i <= s.len(),
    ensures
        i <= insert_pos_from(s, e, j, i) <= s.len(),
        forall|k: int|
            i <= k < insert_pos_from(s, e, j, i) ==> ballot_key_lt(
                (#[trigger] s[k]).entry_id,
                s[k].judge@,
                e,
                j,
            ),
        insert_pos_from(s, e, j, i) < s.len() ==> !ballot_key_lt(
            s[insert_pos_from(s, e, j, i)].entry_id,
            s[insert_pos_from(s, e, j, i)].judge@,
            e,
            j,
        ),
    decreases s.len() - i,
{
    if i < s.len() && ballot_key_lt(s[i].entry_id, s[i].judge@, e, j) {
        lemma_insert_pos_from_props(s, e, j, i + 1);
    }
}

/// A longer prefix never sums lower: the scores are non-negative.
pub proof fn lemma_tally_sums_to_mono(s: Seq<BallotRecord>, k1: int, k2: int)
    requires
        0 <= k1 <= k2 <= s.len(),
    ensures
        tally_sums_to(s, k1).0 <= tally_sums_to(s, k2).0,
        tally_sums_to(s, k1).1 <= tally_sums_to(s, k2).1,
        tally_sums_to(s, k1).2 <= tally_sums_to(s, k2).2,
        tally_sums_to(s, k1).3 <= tally_sums_to(s, k2).3,
    decreases k2 - k1,
{
    if k1 < k2 {
        lemma_tally_sums_to_mono(s, k1, k2 - 1);
    }
}

impl ContestState {
    /// The state invariant: categories are unique; entry ids are dense,
    /// starting at 1, in step with the global counter; every entry's category
    /// is listed; ballots are strictly sorted by key, reference an existing
    /// entry, and never come from the entry's own maker.
    pub open spec fn well_formed(self) -> bool {
        &&& cats_unique(self.categories@)
        &&& self.next_entry_id as int == self.entries@.len()
        &&& forall|i: int|
            0 <= i < self.entries@.len() ==> (#[trigger] self.entries@[i]).id as int == i + 1
        &&& forall|i: int|
            0 <= i < self.entries@.len() ==> cats_contain(
                self.categories@,
                (#[trigger] self.entries@[i]).data.category@,
            )
        &&& ballots_sorted(self.votes@)
        &&& forall|k: int|
            0 <= k < self.votes@.len() ==> 1 <= (#[trigger] self.votes@[k]).entry_id as int
                <= self.entries@.len()
        &&& forall|k: int|
            0 <= k < self.votes@.len() ==> (#[trigger] self.votes@[k]).judge@
                != self.entries@[self.votes@[k].entry_id - 1].data.maker_addr@
    }
}

} // verus!
