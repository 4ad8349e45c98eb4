//! The command processor and the query engine.
//!
//! A mutating call checks authorization against the answer of the proper
//! membership registry, validates against the ledgers, and only then mutates;
//! any failure aborts with no partial effect.  Queries read one consistent
//! snapshot and need no authorization.
//!
//! The registries and the address validator belong to the surrounding
//! runtime: their answers enter here as values (`MemberLookup`,
//! `Option<String>`, `CheckedAddr`), and every decision taken on those
//! answers is verified.

use vstd::prelude::*;

use crate::error::ContractError;
use crate::msg::{
    CheckedAddr, EntriesResponse, ExecuteMsg, MemberLookup, QueryAnswer, QueryMsg,
    TallyVotesResponse, VotesResponse,
};
use crate::state::{
    ballot_key_lt, ballots_page, ballots_page_from, cats_contain, entries_page, entries_page_from,
    find_ballot, find_ballot_from, insert_pos, insert_pos_from, lemma_ballot_key_connected,
    lemma_ballot_key_trans, lemma_insert_pos_from_props, lemma_tally_sums_to_mono, tally_fits,
    tally_sums, tally_sums_to, upsert, votes_total, BallotRecord, Config, ContestState, Entry,
    EntryRecord, Votes,
};

verus! {

/// What one registry answer means for authorization: an unreachable
/// registry is fatal, an address without a recorded weight is unauthorized,
/// any recorded weight (zero included) passes.
pub open spec fn membership_error(lookup: MemberLookup) -> Option<ContractError> {
    match lookup {
        MemberLookup::Unavailable => Some(ContractError::CollaboratorUnavailable),
        MemberLookup::NotMember => Some(ContractError::Unauthorized),
        MemberLookup::Member(_) => None,
    }
}

/// MembershipGate: decide authorization from a registry answer.
pub fn check_membership(lookup: &MemberLookup) -> (r: Result<(), ContractError>)
    ensures
        r == match membership_error(*lookup) {
            Some(e) => Err::<(), ContractError>(e),
            None => Ok::<(), ContractError>(()),
        },
{
    match lookup {
        MemberLookup::Unavailable => Err(ContractError::CollaboratorUnavailable),
        MemberLookup::NotMember => Err(ContractError::Unauthorized),
        MemberLookup::Member(_) => Ok(()),
    }
}

/// Which registry gates a command: organizers create categories and entries,
/// judges vote.
pub fn required_registry<'a>(config: &'a Config, msg: &ExecuteMsg) -> (r: &'a String)
    ensures
        *r == match *msg {
            ExecuteMsg::Vote { .. } => config.makers_cw4_group,
            _ => config.admins_cw4_group,
        },
{
    match msg {
        ExecuteMsg::Vote { .. } => &config.makers_cw4_group,
        _ => &config.admins_cw4_group,
    }
}

/// CategoryRegistry: whether a category of this name exists.
pub fn contains_category(cats: &Vec<String>, name: &String) -> (r: bool)
    ensures
        r == cats_contain(cats@, name@),
{
    let n = cats.len();
    let mut i: usize = 0;
    while i < n
        invariant
            n == cats@.len(),
            0 <= i <= n,
            forall|k: int| 0 <= k < i ==> (#[trigger] cats@[k])@ != name@,
        decreases n - i,
    {
        if cats[i] == *name {
            return true;
        }
        i = i + 1;
    }
    false
}

/// Initialization: both registry addresses must have passed the runtime's
/// validation; the ledgers start empty and the entry counter at zero.
pub fn instantiate(admins_cw4_group: Option<String>, makers_cw4_group: Option<String>) -> (r:
    Result<ContestState, ContractError>)
    ensures
        match r {
            Ok(s) => {
                &&& admins_cw4_group is Some
                &&& makers_cw4_group is Some
                &&& s.well_formed()
                &&& s.config.admins_cw4_group == admins_cw4_group->0
                &&& s.config.makers_cw4_group == makers_cw4_group->0
                &&& s.categories@.len() == 0
                &&& s.next_entry_id == 0
                &&& s.entries@.len() == 0
                &&& s.votes@.len() == 0
            },
            Err(e) => e == ContractError::MalformedInput && (admins_cw4_group is None
                || makers_cw4_group is None),
        },
{
    let admins = match admins_cw4_group {
        Some(a) => a,
        None => {
            return Err(ContractError::MalformedInput);
        },
    };
    let makers = match makers_cw4_group {
        Some(a) => a,
        None => {
            return Err(ContractError::MalformedInput);
        },
    };
    Ok(
        ContestState {
            config: Config { admins_cw4_group: admins, makers_cw4_group: makers },
            categories: Vec::new(),
            next_entry_id: 0,
            entries: Vec::new(),
            votes: Vec::new(),
        },
    )
}

/// The cause on which adding a category fails, or `None` where it succeeds:
/// authorization first, then the uniqueness check.
pub open spec fn add_category_outcome(
    pre: ContestState,
    lookup: MemberLookup,
    category: Seq<char>,
) -> Option<ContractError> {
    if membership_error(lookup) is Some {
        membership_error(lookup)
    } else if cats_contain(pre.categories@, category) {
        Some(ContractError::InvalidCategory)
    } else {
        None
    }
}

/// What adding a category does: on failure nothing, on success exactly an
/// append of the new name.
pub open spec fn add_category_post(
    pre: ContestState,
    post: ContestState,
    lookup: MemberLookup,
    category: String,
    r: Result<(), ContractError>,
) -> bool {
    match add_category_outcome(pre, lookup, category@) {
        Some(e) => r == Err::<(), ContractError>(e) && post == pre,
        None => {
            &&& r == Ok::<(), ContractError>(())
            &&& post.config == pre.config
            &&& post.next_entry_id == pre.next_entry_id
            &&& post.entries == pre.entries
            &&& post.votes == pre.votes
            &&& post.categories@ == pre.categories@.push(category)
        },
    }
}

/// CommandProcessor: add a category.  Only an organizer may; a name already
/// present is rejected; otherwise the name is appended, so the listing order
/// is the insertion order.
pub fn execute_add_category(
    state: &mut ContestState,
    lookup: &MemberLookup,
    category: String,
) -> (r: Result<(), ContractError>)
    requires
        old(state).well_formed(),
    ensures
        final(state).well_formed(),
        add_category_post(*old(state), *final(state), *lookup, category, r),
{
    check_membership(lookup)?;
    if contains_category(&state.categories, &category) {
        return Err(ContractError::InvalidCategory);
    }
    let ghost pre = *state;
    state.categories.push(category);
    proof {
        assert forall|i: int, j: int| 0 <= i < j < state.categories@.len() implies (
        #[trigger] state.categories@[i])@ != (#[trigger] state.categories@[j])@ by {
            if j < pre.categories@.len() {
            } else {
                assert(state.categories@[j] == category);
                assert(pre.categories@[i]@ != category@);
            }
        }
        assert forall|i: int| 0 <= i < state.entries@.len() implies cats_contain(
            state.categories@,
            (#[trigger] state.entries@[i]).data.category@,
        ) by {
            assert(cats_contain(pre.categories@, state.entries@[i].data.category@));
            let w = choose|k: int|
                0 <= k < pre.categories@.len() && (#[trigger] pre.categories@[k])@
                    == state.entries@[i].data.category@;
            assert(state.categories@[w]@ == state.entries@[i].data.category@);
        }
    }
    Ok(())
}

/// The cause on which adding an entry fails, or `None` where it succeeds:
/// authorization, then the category check, then the counter, then the maker
/// address validation.
pub open spec fn add_entry_outcome(
    pre: ContestState,
    lookup: MemberLookup,
    category: Seq<char>,
    maker_addr: Option<String>,
) -> Option<ContractError> {
    if membership_error(lookup) is Some {
        membership_error(lookup)
    } else if !cats_contain(pre.categories@, category) {
        Some(ContractError::InvalidCategory)
    } else if pre.next_entry_id == 255 {
        Some(ContractError::Overflow)
    } else if maker_addr is None {
        Some(ContractError::MalformedInput)
    } else {
        None
    }
}

/// What adding an entry does: on failure nothing, on success exactly an
/// append of the new record under the next identifier, and the counter
/// stepped by one.
pub open spec fn add_entry_post(
    pre: ContestState,
    post: ContestState,
    lookup: MemberLookup,
    name: String,
    category: String,
    maker_addr: Option<String>,
    maker_name: String,
    breeder: String,
    genetics: String,
    farmer: String,
    r: Result<(), ContractError>,
) -> bool {
    match add_entry_outcome(pre, lookup, category@, maker_addr) {
        Some(e) => r == Err::<(), ContractError>(e) && post == pre,
        None => {
            &&& r == Ok::<(), ContractError>(())
            &&& post.config == pre.config
            &&& post.categories == pre.categories
            &&& post.votes == pre.votes
            &&& post.next_entry_id == pre.next_entry_id + 1
            &&& post.entries@ == pre.entries@.push(
                EntryRecord {
                    id: (pre.next_entry_id + 1) as u8,
                    data: Entry {
                        name,
                        category,
                        maker_addr: maker_addr->0,
                        maker_name,
                        breeder,
                        genetics,
                        farmer,
                    },
                },
            )
        },
    }
}

/// CommandProcessor: create an entry.  Only an organizer may; the category
/// must exist; the identifier comes from the global counter, shared across
/// all categories, and is allocated only after every validation has passed.
pub fn execute_add_entry(
    state: &mut ContestState,
    lookup: &MemberLookup,
    name: String,
    category: String,
    maker_addr: Option<String>,
    maker_name: String,
    breeder: String,
    genetics: String,
    farmer: String,
) -> (r: Result<(), ContractError>)
    requires
        old(state).well_formed(),
    ensures
        final(state).well_formed(),
        add_entry_post(
            *old(state),
            *final(state),
            *lookup,
            name,
            category,
            maker_addr,
            maker_name,
            breeder,
            genetics,
            farmer,
            r,
        ),
{
    check_membership(lookup)?;
    if !contains_category(&state.categories, &category) {
        return Err(ContractError::InvalidCategory);
    }
    if state.next_entry_id == 255 {
        return Err(ContractError::Overflow);
    }
    let maker = match maker_addr {
        Some(a) => a,
        None => {
            return Err(ContractError::MalformedInput);
        },
    };
    let ghost pre = *state;
    let entry_id = state.next_entry_id + 1;
    let rec = EntryRecord {
        id: entry_id,
        data: Entry {
            name,
            category,
            maker_addr: maker,
            maker_name,
            breeder,
            genetics,
            farmer,
        },
    };
    state.entries.push(rec);
    state.next_entry_id = entry_id;
    proof {
        assert forall|k: int|
            0 <= k < state.votes@.len() implies (#[trigger] state.votes@[k]).judge@
            != state.entries@[state.votes@[k].entry_id - 1].data.maker_addr@ by {
            assert(state.entries@[state.votes@[k].entry_id - 1] == pre.entries@[state.votes@[k].entry_id
                - 1]);
        }
    }
    Ok(())
}

/// Whether the entry `entry_id` exists under `category`.
pub open spec fn has_entry(pre: ContestState, category: Seq<char>, entry_id: u8) -> bool {
    &&& 1 <= entry_id as int <= pre.entries@.len()
    &&& pre.entries@[entry_id - 1].data.category@ == category
}

/// The cause on which casting a vote fails, or `None` where it succeeds:
/// authorization, then the category check before anything else, then the
/// entry lookup, then the maker-identity check.
pub open spec fn vote_outcome(
    pre: ContestState,
    lookup: MemberLookup,
    sender: Seq<char>,
    category: Seq<char>,
    entry_id: u8,
) -> Option<ContractError> {
    if membership_error(lookup) is Some {
        membership_error(lookup)
    } else if !cats_contain(pre.categories@, category) {
        Some(ContractError::InvalidCategory)
    } else if !has_entry(pre, category, entry_id) {
        Some(ContractError::NotFound)
    } else if sender == pre.entries@[entry_id - 1].data.maker_addr@ {
        Some(ContractError::InvalidMaker)
    } else {
        None
    }
}

/// What casting a vote does: on failure nothing, on success exactly the
/// upsert of the sender's ballot — a second ballot from the same judge for
/// the same entry replaces the stored one.
pub open spec fn vote_post(
    pre: ContestState,
    post: ContestState,
    lookup: MemberLookup,
    sender: String,
    category: String,
    entry_id: u8,
    votes: Votes,
    r: Result<(), ContractError>,
) -> bool {
    match vote_outcome(pre, lookup, sender@, category@, entry_id) {
        Some(e) => r == Err::<(), ContractError>(e) && post == pre,
        None => {
            &&& r == Ok::<(), ContractError>(())
            &&& post.config == pre.config
            &&& post.categories == pre.categories
            &&& post.entries == pre.entries
            &&& post.next_entry_id == pre.next_entry_id
            &&& post.votes@ == upsert(
                pre.votes@,
                BallotRecord { entry_id, judge: sender, ballot: votes },
            )
        },
    }
}

/// The upsert of a ballot keeps the ledger sorted, and every record of the
/// result is the new record or one of the old ones.
proof fn lemma_upsert_preserves(s: Seq<BallotRecord>, rec: BallotRecord)
    requires
        crate::state::ballots_sorted(s),
    ensures
        crate::state::ballots_sorted(upsert(s, rec)),
        upsert(s, rec).len() <= s.len() + 1,
        forall|k: int|
            0 <= k < upsert(s, rec).len() ==> (#[trigger] upsert(s, rec)[k] == rec || exists|m: int|
                0 <= m < s.len() && upsert(s, rec)[k] == s[m]),
{
    let p = insert_pos(s, rec.entry_id, rec.judge@);
    lemma_insert_pos_from_props(s, rec.entry_id, rec.judge@, 0);
    if p < s.len() && s[p].entry_id == rec.entry_id && s[p].judge@ == rec.judge@ {
        let t = s.update(p, rec);
        assert forall|i: int, j: int| 0 <= i < j < t.len() implies crate::state::ballot_lt(
            #[trigger] t[i],
            #[trigger] t[j],
        ) by {
            assert(crate::state::ballot_lt(s[i], s[j]));
        }
        assert forall|k: int| 0 <= k < t.len() implies (#[trigger] t[k] == rec || exists|m: int|
            0 <= m < s.len() && t[k] == s[m]) by {
            if k != p {
                assert(t[k] == s[k]);
            }
        }
    } else {
        let t = s.insert(p, rec);
        if p < s.len() {
            if !ballot_key_lt(rec.entry_id, rec.judge@, s[p].entry_id, s[p].judge@) {
                lemma_ballot_key_connected(
                    s[p].entry_id,
                    s[p].judge@,
                    rec.entry_id,
                    rec.judge@,
                );
                assert(false);
            }
        }
        assert forall|i: int, j: int| 0 <= i < j < t.len() implies crate::state::ballot_lt(
            #[trigger] t[i],
            #[trigger] t[j],
        ) by {
            if i < p && j == p {
                assert(t[i] == s[i]);
            } else if i < p && j > p {
                assert(t[i] == s[i] && t[j] == s[j - 1]);
            } else if i == p && j > p {
                assert(t[j] == s[j - 1]);
                if p < j - 1 {
                    assert(crate::state::ballot_lt(s[p], s[j - 1]));
                    lemma_ballot_key_trans(
                        rec.entry_id,
                        rec.judge@,
                        s[p].entry_id,
                        s[p].judge@,
                        s[j - 1].entry_id,
                        s[j - 1].judge@,
                    );
                }
            } else if i > p {
                assert(t[i] == s[i - 1] && t[j] == s[j - 1]);
            }
        }
        assert forall|k: int| 0 <= k < t.len() implies (#[trigger] t[k] == rec || exists|m: int|
            0 <= m < s.len() && t[k] == s[m]) by {
            if k < p {
                assert(t[k] == s[k]);
            } else if k > p {
                assert(t[k] == s[k - 1]);
            }
        }
    }
}

/// The position at which a ballot with this key lives or would be inserted.
fn find_insert_pos(votes: &Vec<BallotRecord>, e: u8, j: &String) -> (pos: usize)
    ensures
        pos as int == insert_pos(votes@, e, j@),
{
    let n = votes.len();
    let mut pos: usize = 0;
    while pos < n
        invariant
            n == votes@.len(),
            0 <= pos <= n,
            insert_pos(votes@, e, j@) == insert_pos_from(votes@, e, j@, pos as int),
        decreases n - pos,
    {
        let before = if votes[pos].entry_id < e {
            true
        } else if votes[pos].entry_id > e {
            false
        } else {
            crate::order::addr_str_lt(votes[pos].judge.as_str(), j.as_str())
        };
        if !before {
            return pos;
        }
        pos = pos + 1;
    }
    pos
}

/// CommandProcessor: cast a vote.  Only a judge may; the category must exist
/// before anything else is checked; the entry must exist under it; a judge
/// never votes on their own entry; the ballot is stored one-per-(entry,
/// judge), overwriting any earlier ballot of the pair.
pub fn execute_vote(
    state: &mut ContestState,
    sender: String,
    lookup: &MemberLookup,
    category: String,
    entry_id: u8,
    votes: Votes,
) -> (r: Result<(), ContractError>)
    requires
        old(state).well_formed(),
    ensures
        final(state).well_formed(),
        vote_post(*old(state), *final(state), *lookup, sender, category, entry_id, votes, r),
{
    check_membership(lookup)?;
    if !contains_category(&state.categories, &category) {
        return Err(ContractError::InvalidCategory);
    }
    let n_entries = state.entries.len();
    if entry_id == 0 || entry_id as usize > n_entries {
        return Err(ContractError::NotFound);
    }
    let idx = (entry_id - 1) as usize;
    let same_category = state.entries[idx].data.category == category;
    if !same_category {
        return Err(ContractError::NotFound);
    }
    let is_maker = state.entries[idx].data.maker_addr == sender;
    if is_maker {
        return Err(ContractError::InvalidMaker);
    }
    let rec = BallotRecord { entry_id, judge: sender, ballot: votes };
    let ghost pre = *state;
    let pos = find_insert_pos(&state.votes, entry_id, &rec.judge);
    proof {
        lemma_insert_pos_from_props(pre.votes@, entry_id, rec.judge@, 0);
        lemma_upsert_preserves(pre.votes@, rec);
    }
    let nv = state.votes.len();
    if pos < nv && state.votes[pos].entry_id == entry_id && state.votes[pos].judge == rec.judge {
        state.votes.remove(pos);
        state.votes.insert(pos, rec);
        proof {
            assert(state.votes@ =~= pre.votes@.update(pos as int, rec));
        }
    } else {
        state.votes.insert(pos, rec);
    }
    proof {
        assert(state.votes@ == upsert(pre.votes@, rec));
        assert forall|k: int|
            0 <= k < state.votes@.len() implies 1 <= (#[trigger] state.votes@[k]).entry_id as int
            <= state.entries@.len() && state.votes@[k].judge@
            != state.entries@[state.votes@[k].entry_id - 1].data.maker_addr@ by {
            if state.votes@[k] == rec {
            } else {
                let m = choose|m: int| 0 <= m < pre.votes@.len() && state.votes@[k] == pre.votes@[m];
                assert(1 <= pre.votes@[m].entry_id as int <= pre.entries@.len());
            }
        }
    }
    Ok(())
}

/// The page limit in force: the requested one, or 30 by default.
pub open spec fn eff_limit(limit: Option<u8>) -> int {
    if limit is Some {
        limit->0 as int
    } else {
        30
    }
}

/// The exclusive lower id bound in force: the requested one, or 0 — entry
/// ids start at 1, so a bound of 0 excludes nothing.
pub open spec fn after_val(start_after: Option<u8>) -> int {
    if start_after is Some {
        start_after->0 as int
    } else {
        0
    }
}

/// An entry page, row by row, as the listing returns it.
pub open spec fn page_to_responses(p: Seq<EntryRecord>) -> Seq<EntriesResponse> {
    p.map_values(|r: EntryRecord| EntriesResponse { id: r.id, data: r.data })
}

/// QueryEngine: the category names, in insertion order, unpaginated.
pub fn query_categories(state: &ContestState) -> (r: Vec<String>)
    ensures
        r@ == state.categories@,
{
    let n = state.categories.len();
    let mut out: Vec<String> = Vec::new();
    let mut i: usize = 0;
    while i < n
        invariant
            n == state.categories@.len(),
            0 <= i <= n,
            out@.len() == i,
            forall|k: int| 0 <= k < i ==> #[trigger] out@[k] == state.categories@[k],
        decreases n - i,
    {
        out.push(state.categories[i].clone());
        i = i + 1;
    }
    proof {
        assert(out@ =~= state.categories@);
    }
    out
}

/// QueryEngine: one entry by category and id, or not-found.
pub fn query_entry(state: &ContestState, category: String, entry_id: u8) -> (r: Result<
    Entry,
    ContractError,
>)
    ensures
        match r {
            Ok(e) => has_entry(*state, category@, entry_id) && e == state.entries@[entry_id
                - 1].data,
            Err(err) => err == ContractError::NotFound && !has_entry(*state, category@, entry_id),
        },
{
    let n = state.entries.len();
    if entry_id == 0 || entry_id as usize > n {
        return Err(ContractError::NotFound);
    }
    let idx = (entry_id - 1) as usize;
    let same = state.entries[idx].data.category == category;
    if !same {
        return Err(ContractError::NotFound);
    }
    Ok(state.entries[idx].data.clone())
}

/// QueryEngine: the entries of one category, ascending by id, beginning
/// strictly after `start_after`, at most `limit` rows (30 by default).
pub fn query_entries(
    state: &ContestState,
    category: String,
    start_after: Option<u8>,
    limit: Option<u8>,
) -> (r: Vec<EntriesResponse>)
    ensures
        r@ == page_to_responses(
            entries_page(state.entries@, category@, after_val(start_after), eff_limit(limit)),
        ),
{
    let lim: usize = match limit {
        Some(l) => l as usize,
        None => 30,
    };
    let aft: u8 = match start_after {
        Some(a) => a,
        None => 0,
    };
    let ghost s = state.entries@;
    let ghost cat = category@;
    let ghost av = after_val(start_after);
    let ghost el = eff_limit(limit);
    let n = state.entries.len();
    let mut out: Vec<EntriesResponse> = Vec::new();
    let ghost mut taken: Seq<EntryRecord> = Seq::empty();
    let mut i: usize = 0;
    proof {
        assert(taken + entries_page_from(s, cat, av, el, 0) =~= entries_page(s, cat, av, el));
    }
    while i < n
        invariant
            n == s.len(),
            s == state.entries@,
            cat == category@,
            av == after_val(start_after),
            el == eff_limit(limit),
            0 <= i <= n,
            lim as int == el,
            aft as int == av,
            out@ == page_to_responses(taken),
            taken.len() == out@.len(),
            out@.len() <= lim,
            taken + entries_page_from(s, cat, av, el - taken.len(), i as int) == entries_page(
                s,
                cat,
                av,
                el,
            ),
        decreases n - i,
    {
        let rec = &state.entries[i];
        let matched = rec.data.category == category && rec.id > aft;
        if matched && out.len() < lim {
            let ghost taken0 = taken;
            let ghost rest = entries_page_from(s, cat, av, el - taken0.len() - 1, i as int + 1);
            proof {
                assert(entries_page_from(s, cat, av, el - taken0.len(), i as int) == seq![
                    s[i as int],
                ] + rest);
                taken = taken.push(s[i as int]);
                assert(taken0 + (seq![s[i as int]] + rest) =~= taken + rest);
            }
            out.push(EntriesResponse { id: rec.id, data: rec.data.clone() });
            proof {
                assert(page_to_responses(taken) =~= page_to_responses(taken0).push(
                    EntriesResponse { id: s[i as int].id, data: s[i as int].data },
                ));
            }
        } else {
            proof {
                assert(entries_page_from(s, cat, av, el - taken.len(), i as int)
                    == entries_page_from(s, cat, av, el - taken.len(), i as int + 1));
            }
        }
        i = i + 1;
    }
    proof {
        assert(entries_page_from(s, cat, av, el - taken.len(), n as int) =~= Seq::<
            EntryRecord,
        >::empty());
        assert(taken + Seq::<EntryRecord>::empty() =~= taken);
    }
    out
}

/// QueryEngine: the ballot one judge cast on one entry, or not-found.  The
/// judge address must have passed the runtime's validation.
pub fn query_votes(state: &ContestState, entry_id: u8, maker_addr: Option<String>) -> (r: Result<
    Votes,
    ContractError,
>)
    ensures
        match maker_addr {
            None => r == Err::<Votes, ContractError>(ContractError::MalformedInput),
            Some(a) => match find_ballot(state.votes@, entry_id, a@) {
                Some(v) => r == Ok::<Votes, ContractError>(v),
                None => r == Err::<Votes, ContractError>(ContractError::NotFound),
            },
        },
{
    let addr = match maker_addr {
        Some(a) => a,
        None => {
            return Err(ContractError::MalformedInput);
        },
    };
    let n = state.votes.len();
    let mut i: usize = 0;
    while i < n
        invariant
            maker_addr == Some::<String>(addr),
            n == state.votes@.len(),
            0 <= i <= n,
            find_ballot(state.votes@, entry_id, addr@) == find_ballot_from(
                state.votes@,
                entry_id,
                addr@,
                i as int,
            ),
        decreases n - i,
    {
        let rec = &state.votes[i];
        if rec.entry_id == entry_id && rec.judge == addr {
            proof {
                assert(find_ballot_from(state.votes@, entry_id, addr@, i as int) == Some(
                    state.votes@[i as int].ballot,
                ));
            }
            return Ok(rec.ballot);
        }
        i = i + 1;
    }
    proof {
        assert(find_ballot_from(state.votes@, entry_id, addr@, n as int) == None::<Votes>);
    }
    Err(ContractError::NotFound)
}

/// One tally row is correct for one stored ballot: same entry, the judge's
/// address, the ballot itself, and the sum of its four scores.
pub open spec fn tally_row_ok(row: VotesResponse, e: u8, rec: BallotRecord) -> bool {
    &&& row.entry_id == e
    &&& row.maker_addr@ == rec.judge@
    &&& row.votes == rec.ballot
    &&& row.sum == votes_total(rec.ballot)
}

/// A tally response is correct for a page: one row per ballot of the page,
/// in page order, and the aggregate equal to the field-wise sums over
/// exactly the ballots of that page.
pub open spec fn tally_response_ok(resp: TallyVotesResponse, e: u8, page: Seq<BallotRecord>) -> bool {
    &&& resp.votes@.len() == page.len()
    &&& forall|k: int| 0 <= k < page.len() ==> tally_row_ok(#[trigger] resp.votes@[k], e, page[k])
    &&& resp.sum.look == tally_sums(page).0
    &&& resp.sum.smell == tally_sums(page).1
    &&& resp.sum.taste == tally_sums(page).2
    &&& resp.sum.post_melt == tally_sums(page).3
}

/// The judge bound a tally runs from, as a spec value.
pub open spec fn tally_after(start_after: CheckedAddr) -> Option<Seq<char>> {
    match start_after {
        CheckedAddr::Valid(a) => Some(a@),
        _ => None,
    }
}

/// QueryEngine: the ballots cast on one entry, ascending by judge address in
/// byte order, beginning strictly after `start_after`, at most `limit` rows
/// (30 by default); each row carries its own sum, and the aggregate covers
/// only the rows of the returned page.  Overflow of any sum is fatal.
pub fn query_tally_votes(
    state: &ContestState,
    entry_id: u8,
    start_after: CheckedAddr,
    limit: Option<u8>,
) -> (r: Result<TallyVotesResponse, ContractError>)
    ensures
        match start_after {
            CheckedAddr::Malformed => r == Err::<TallyVotesResponse, ContractError>(
                ContractError::MalformedInput,
            ),
            _ => {
                let page = ballots_page(
                    state.votes@,
                    entry_id,
                    tally_after(start_after),
                    eff_limit(limit),
                );
                match r {
                    Ok(resp) => tally_fits(page) && tally_response_ok(resp, entry_id, page),
                    Err(e) => e == ContractError::Overflow && !tally_fits(page),
                }
            },
        },
{
    let after: Option<String> = match start_after {
        CheckedAddr::Malformed => {
            return Err(ContractError::MalformedInput);
        },
        CheckedAddr::Missing => None,
        CheckedAddr::Valid(a) => Some(a),
    };
    let lim: usize = match limit {
        Some(l) => l as usize,
        None => 30,
    };
    let ghost s = state.votes@;
    let ghost av = match after {
        Option::None => None::<Seq<char>>,
        Option::Some(ref a) => Some(a@),
    };
    let ghost el = eff_limit(limit);
    let n = state.votes.len();
    let mut page_vec: Vec<BallotRecord> = Vec::new();
    let mut i: usize = 0;
    proof {
        assert(page_vec@ + ballots_page_from(s, entry_id, av, el, 0) =~= ballots_page(
            s,
            entry_id,
            av,
            el,
        ));
    }
    while i < n
        invariant
            !(start_after is Malformed),
            n == s.len(),
            s == state.votes@,
            av == tally_after(start_after),
            el == eff_limit(limit),
            av == match after {
                Option::None => None::<Seq<char>>,
                Option::Some(ref a) => Some(a@),
            },
            0 <= i <= n,
            lim as int == el,
            page_vec@.len() <= lim,
            page_vec@ + ballots_page_from(s, entry_id, av, el - page_vec@.len(), i as int)
                == ballots_page(s, entry_id, av, el),
        decreases n - i,
    {
        let rec = &state.votes[i];
        let above = match &after {
            None => true,
            Some(a) => crate::order::addr_str_lt(a.as_str(), rec.judge.as_str()),
        };
        let matched = rec.entry_id == entry_id && above;
        if matched && page_vec.len() < lim {
            let ghost taken0 = page_vec@;
            let ghost rest = ballots_page_from(s, entry_id, av, el - taken0.len() - 1, i as int
                + 1);
            proof {
                assert(ballots_page_from(s, entry_id, av, el - taken0.len(), i as int) == seq![
                    s[i as int],
                ] + rest);
            }
            page_vec.push(rec.clone());
            proof {
                assert(taken0 + (seq![s[i as int]] + rest) =~= page_vec@ + rest);
            }
        } else {
            proof {
                assert(ballots_page_from(s, entry_id, av, el - page_vec@.len(), i as int)
                    == ballots_page_from(s, entry_id, av, el - page_vec@.len(), i as int + 1));
            }
        }
        i = i + 1;
    }
    proof {
        assert(ballots_page_from(s, entry_id, av, el - page_vec@.len(), n as int) =~= Seq::<
            BallotRecord,
        >::empty());
        assert(page_vec@ + Seq::<BallotRecord>::empty() =~= page_vec@);
    }
    let ghost page = page_vec@;
    let m = page_vec.len();
    let mut rows: Vec<VotesResponse> = Vec::new();
    let mut agg_look: u128 = 0;
    let mut agg_smell: u128 = 0;
    let mut agg_taste: u128 = 0;
    let mut agg_post_melt: u128 = 0;
    let mut k: usize = 0;
    while k < m
        invariant
            !(start_after is Malformed),
            m == page.len(),
            page == page_vec@,
            page == ballots_page(state.votes@, entry_id, tally_after(start_after), eff_limit(
                limit,
            )),
            0 <= k <= m,
            rows@.len() == k,
            forall|j: int| 0 <= j < k ==> tally_row_ok(#[trigger] rows@[j], entry_id, page[j]),
            forall|j: int| 0 <= j < k ==> votes_total((#[trigger] page[j]).ballot) <= u128::MAX,
            agg_look as int == tally_sums_to(page, k as int).0,
            agg_smell as int == tally_sums_to(page, k as int).1,
            agg_taste as int == tally_sums_to(page, k as int).2,
            agg_post_melt as int == tally_sums_to(page, k as int).3,
        decreases m - k,
    {
        let v = page_vec[k].ballot;
        proof {
            assert(page[k as int].ballot == v);
        }
        let s1 = match v.look.checked_add(v.smell) {
            Some(x) => x,
            None => {
                proof {
                    assert(votes_total(page[k as int].ballot) > u128::MAX);
                }
                return Err(ContractError::Overflow);
            },
        };
        let s2 = match s1.checked_add(v.taste) {
            Some(x) => x,
            None => {
                proof {
                    assert(votes_total(page[k as int].ballot) > u128::MAX);
                }
                return Err(ContractError::Overflow);
            },
        };
        let row_sum = match s2.checked_add(v.post_melt) {
            Some(x) => x,
            None => {
                proof {
                    assert(votes_total(page[k as int].ballot) > u128::MAX);
                }
                return Err(ContractError::Overflow);
            },
        };
        let new_look = match agg_look.checked_add(v.look) {
            Some(x) => x,
            None => {
                proof {
                    assert(tally_sums_to(page, k as int + 1).0 == tally_sums_to(page, k as int).0
                        + page[k as int].ballot.look);
                    lemma_tally_sums_to_mono(page, k as int + 1, m as int);
                    assert(tally_sums(page).0 > u128::MAX);
                }
                return Err(ContractError::Overflow);
            },
        };
        let new_smell = match agg_smell.checked_add(v.smell) {
            Some(x) => x,
            None => {
                proof {
                    assert(tally_sums_to(page, k as int + 1).1 == tally_sums_to(page, k as int).1
                        + page[k as int].ballot.smell);
                    lemma_tally_sums_to_mono(page, k as int + 1, m as int);
                    assert(tally_sums(page).1 > u128::MAX);
                }
                return Err(ContractError::Overflow);
            },
        };
        let new_taste = match agg_taste.checked_add(v.taste) {
            Some(x) => x,
            None => {
                proof {
                    assert(tally_sums_to(page, k as int + 1).2 == tally_sums_to(page, k as int).2
                        + page[k as int].ballot.taste);
                    lemma_tally_sums_to_mono(page, k as int + 1, m as int);
                    assert(tally_sums(page).2 > u128::MAX);
                }
                return Err(ContractError::Overflow);
            },
        };
        let new_post_melt = match agg_post_melt.checked_add(v.post_melt) {
            Some(x) => x,
            None => {
                proof {
                    assert(tally_sums_to(page, k as int + 1).3 == tally_sums_to(page, k as int).3
                        + page[k as int].ballot.post_melt);
                    lemma_tally_sums_to_mono(page, k as int + 1, m as int);
                    assert(tally_sums(page).3 > u128::MAX);
                }
                return Err(ContractError::Overflow);
            },
        };
        agg_look = new_look;
        agg_smell = new_smell;
        agg_taste = new_taste;
        agg_post_melt = new_post_melt;
        rows.push(
            VotesResponse {
                entry_id,
                maker_addr: page_vec[k].judge.clone(),
                votes: v,
                sum: row_sum,
            },
        );
        k = k + 1;
    }
    Ok(
        TallyVotesResponse {
            votes: rows,
            sum: Votes {
                look: agg_look,
                smell: agg_smell,
                taste: agg_taste,
                post_melt: agg_post_melt,
            },
        },
    )
}

/// CommandProcessor: dispatch one command.  `lookup` is the answer of the
/// registry that gates the command (see `required_registry`), and
/// `maker_addr` is the runtime's validation of the maker address carried by
/// an `AddEntry` command (`None` where it failed or the command carries
/// none).
pub fn execute(
    state: &mut ContestState,
    sender: String,
    lookup: &MemberLookup,
    maker_addr: Option<String>,
    msg: ExecuteMsg,
) -> (r: Result<(), ContractError>)
    requires
        old(state).well_formed(),
    ensures
        final(state).well_formed(),
        match msg {
            ExecuteMsg::AddCategory { category } => add_category_post(
                *old(state),
                *final(state),
                *lookup,
                category,
                r,
            ),
            ExecuteMsg::AddEntry {
                name,
                category,
                maker_addr: _,
                maker_name,
                breeder,
                genetics,
                farmer,
            } => add_entry_post(
                *old(state),
                *final(state),
                *lookup,
                name,
                category,
                maker_addr,
                maker_name,
                breeder,
                genetics,
                farmer,
                r,
            ),
            ExecuteMsg::Vote { category, entry_id, votes } => vote_post(
                *old(state),
                *final(state),
                *lookup,
                sender,
                category,
                entry_id,
                votes,
                r,
            ),
        },
{
    match msg {
        ExecuteMsg::AddCategory { category } => execute_add_category(state, lookup, category),
        ExecuteMsg::AddEntry {
            name,
            category,
            maker_addr: _,
            maker_name,
            breeder,
            genetics,
            farmer,
        } => execute_add_entry(
            state,
            lookup,
            name,
            category,
            maker_addr,
            maker_name,
            breeder,
            genetics,
            farmer,
        ),
        ExecuteMsg::Vote { category, entry_id, votes } => execute_vote(
            state,
            sender,
            lookup,
            category,
            entry_id,
            votes,
        ),
    }
}

/// QueryEngine: dispatch one query.  `addr` is the runtime's validation of
/// the address parameter a `Votes` or `TallyVotes` query carries (`Missing`
/// where the query carries none); the other queries ignore it.
pub fn query(state: &ContestState, msg: QueryMsg, addr: CheckedAddr) -> (r: Result<
    QueryAnswer,
    ContractError,
>)
    ensures
        match msg {
            QueryMsg::Categories {} => r matches Ok(QueryAnswer::Categories(c)) && c@
                == state.categories@,
            QueryMsg::Entry { category, entry_id } => match r {
                Ok(a) => a matches QueryAnswer::OneEntry(e) && has_entry(*state, category@, entry_id)
                    && e == state.entries@[entry_id - 1].data,
                Err(e) => e == ContractError::NotFound && !has_entry(*state, category@, entry_id),
            },
            QueryMsg::Entries { category, start_after, limit } => r matches Ok(
                QueryAnswer::EntryPage(p),
            ) && p@ == page_to_responses(
                entries_page(state.entries@, category@, after_val(start_after), eff_limit(limit)),
            ),
            QueryMsg::Votes { entry_id, maker_addr: _ } => match addr {
                CheckedAddr::Valid(a) => match find_ballot(state.votes@, entry_id, a@) {
                    Some(v) => r == Ok::<QueryAnswer, ContractError>(QueryAnswer::OneBallot(v)),
                    None => r == Err::<QueryAnswer, ContractError>(ContractError::NotFound),
                },
                _ => r == Err::<QueryAnswer, ContractError>(ContractError::MalformedInput),
            },
            QueryMsg::TallyVotes { entry_id, start_after: _, limit } => match addr {
                CheckedAddr::Malformed => r == Err::<QueryAnswer, ContractError>(
                    ContractError::MalformedInput,
                ),
                _ => {
                    let page = ballots_page(
                        state.votes@,
                        entry_id,
                        tally_after(addr),
                        eff_limit(limit),
                    );
                    match r {
                        Ok(a) => a matches QueryAnswer::Tally(resp) && tally_fits(page)
                            && tally_response_ok(resp, entry_id, page),
                        Err(e) => e == ContractError::Overflow && !tally_fits(page),
                    }
                },
            },
        },
{
    match msg {
        QueryMsg::Categories {} => Ok(QueryAnswer::Categories(query_categories(state))),
        QueryMsg::Entry { category, entry_id } => match query_entry(state, category, entry_id) {
            Ok(e) => Ok(QueryAnswer::OneEntry(e)),
            Err(e) => Err(e),
        },
        QueryMsg::Entries { category, start_after, limit } => Ok(
            QueryAnswer::EntryPage(query_entries(state, category, start_after, limit)),
        ),
        QueryMsg::Votes { entry_id, maker_addr: _ } => {
            let checked: Option<String> = match addr {
                CheckedAddr::Valid(a) => Some(a),
                _ => None,
            };
            match query_votes(state, entry_id, checked) {
                Ok(v) => Ok(QueryAnswer::OneBallot(v)),
                Err(e) => Err(e),
            }
        },
        QueryMsg::TallyVotes { entry_id, start_after: _, limit } => {
            match query_tally_votes(state, entry_id, addr, limit) {
                Ok(resp) => Ok(QueryAnswer::Tally(resp)),
                Err(e) => Err(e),
            }
        },
    }
}

} // verus!
