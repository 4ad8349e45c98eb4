//! Commands, queries and their responses, together with the values in which
//! the surrounding runtime hands the library the answers of its collaborators
//! (the two membership registries and the address validator).

use vstd::prelude::*;

use crate::state::{Entry, Votes};

verus! {

/// Initialization message: the addresses of the two membership registries,
/// as received on the wire, before validation.
#[derive(Clone, Debug, PartialEq, Eq)]
pub struct InstantiateMsg {
    pub admins_cw4_group: String,
    pub makers_cw4_group: String,
}

/// The three mutating operations.
#[derive(Debug, PartialEq, Eq)]
pub enum ExecuteMsg {
    AddCategory { category: String },
    AddEntry {
        name: String,
        category: String,
        /// The maker address as received on the wire, before validation.
        maker_addr: String,
        maker_name: String,
        breeder: String,
        genetics: String,
        farmer: String,
    },
    Vote { category: String, entry_id: u8, votes: Votes },
}

/// The five read-only queries.
#[derive(Debug, PartialEq, Eq)]
pub enum QueryMsg {
    Categories {},
    Entry { category: String, entry_id: u8 },
    Entries { category: String, start_after: Option<u8>, limit: Option<u8> },
    Votes { entry_id: u8, maker_addr: String },
    TallyVotes { entry_id: u8, start_after: Option<String>, limit: Option<u8> },
}

/// One row of an entry listing.
#[derive(Debug, PartialEq, Eq)]
pub struct EntriesResponse {
    pub id: u8,
    pub data: Entry,
}

/// One row of a tally: a judge's ballot and the sum of its four scores.
#[derive(Debug, PartialEq, Eq)]
pub struct VotesResponse {
    pub entry_id: u8,
    pub maker_addr: String,
    pub votes: Votes,
    pub sum: u128,
}

/// A tally page and the aggregate over exactly the ballots of that page.
#[derive(Debug, PartialEq, Eq)]
pub struct TallyVotesResponse {
    pub votes: Vec<VotesResponse>,
    pub sum: Votes,
}

/// The outcome of asking a membership registry for an address's weight.
/// Any present weight, zero included, means the address is a member.
#[derive(Clone, Copy, Debug, PartialEq, Eq, Structural)]
pub enum MemberLookup {
    /// The registry could not be consulted at all.
    Unavailable,
    /// The registry answered: no weight recorded for the address.
    NotMember,
    /// The registry answered with the recorded weight.
    Member(u64),
}

/// An optional address parameter after the runtime's validation pass.
#[derive(Debug, PartialEq, Eq)]
pub enum CheckedAddr {
    /// No address was given.
    Missing,
    /// An address was given and failed validation.
    Malformed,
    /// The address, as the validator normalized it.
    Valid(String),
}

/// A typed query answer; the runtime serializes it onto the wire.
#[derive(Debug, PartialEq, Eq)]
pub enum QueryAnswer {
    Categories(Vec<String>),
    OneEntry(Entry),
    EntryPage(Vec<EntriesResponse>),
    OneBallot(Votes),
    Tally(TallyVotesResponse),
}

} // verus!
