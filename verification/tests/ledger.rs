use voting_contract::contract::{
    execute, query, query_entries, query_entry, query_tally_votes, query_votes,
    required_registry,
};
use voting_contract::error::ContractError;
use voting_contract::msg::{
    CheckedAddr, ExecuteMsg, InstantiateMsg, MemberLookup, QueryAnswer, QueryMsg,
};
use voting_contract::state::{ContestState, Votes};

fn setup_contract() -> ContestState {
    voting_contract::contract::instantiate(
        Some("admins_group".to_string()),
        Some("makers_group".to_string()),
    )
    .unwrap()
}

fn setup_category(state: &mut ContestState, category: &str) {
    execute(
        state,
        "juno..admin".to_string(),
        &MemberLookup::Member(1),
        None,
        ExecuteMsg::AddCategory { category: category.to_string() },
    )
    .unwrap();
}

fn setup_entry(state: &mut ContestState, category: &str, maker_addr: &str) {
    execute(
        state,
        "juno..admin".to_string(),
        &MemberLookup::Member(1),
        Some(maker_addr.to_string()),
        ExecuteMsg::AddEntry {
            name: "entry_name".to_string(),
            category: category.to_string(),
            maker_addr: maker_addr.to_string(),
            maker_name: "maker_name".to_string(),
            breeder: "entry_breeder".to_string(),
            genetics: "entry_genetics".to_string(),
            farmer: "entry_farmer".to_string(),
        },
    )
    .unwrap();
}

fn cast_vote(
    state: &mut ContestState,
    sender: &str,
    category: &str,
    entry_id: u8,
    votes: Votes,
) -> Result<(), ContractError> {
    execute(
        state,
        sender.to_string(),
        &MemberLookup::Member(1),
        None,
        ExecuteMsg::Vote { category: category.to_string(), entry_id, votes },
    )
}

#[test]
fn entry_ids_span_categories() {
    let mut state = setup_contract();
    setup_category(&mut state, "category_1");
    setup_category(&mut state, "category_2");

    // The second entry gets id 2 even though it opens a new category.
    setup_entry(&mut state, "category_1", "juno..firstmaker");
    setup_entry(&mut state, "category_2", "juno..secondmaker");
    setup_entry(&mut state, "category_1", "third_maker");

    let res = query_entries(&state, "category_1".to_string(), None, None);
    assert_eq!(res.len(), 2);
    assert_eq!(res[0].id, 1);
    assert_eq!(res[1].id, 3);

    let res = query_entries(&state, "category_2".to_string(), None, None);
    assert_eq!(res.len(), 1);
    assert_eq!(res[0].id, 2);
}

#[test]
fn default_limit_is_thirty() {
    let mut state = setup_contract();
    setup_category(&mut state, "category_1");
    let mut k: u32 = 0;
    while k < 31 {
        setup_entry(&mut state, "category_1", &format!("maker{}", k));
        k += 1;
    }

    let res = query_entries(&state, "category_1".to_string(), None, None);
    assert_eq!(res.len(), 30);
    assert_eq!(res[0].id, 1);
    assert_eq!(res[29].id, 30);

    let res = query_entries(&state, "category_1".to_string(), None, Some(31));
    assert_eq!(res.len(), 31);
}

#[test]
fn second_ballot_replaces_first() {
    let mut state = setup_contract();
    setup_category(&mut state, "category_1");
    setup_entry(&mut state, "category_1", "juno..firstmaker");

    let first = Votes { look: 100, smell: 100, taste: 100, post_melt: 100 };
    let second = Votes { look: 1, smell: 2, taste: 3, post_melt: 4 };
    cast_vote(&mut state, "juno..secondmaker", "category_1", 1, first).unwrap();
    cast_vote(&mut state, "juno..secondmaker", "category_1", 1, second).unwrap();

    let stored = query_votes(&state, 1, Some("juno..secondmaker".to_string())).unwrap();
    assert_eq!(stored, second);

    // One ballot, not two, and the aggregate holds only the second values.
    let res = query_tally_votes(&state, 1, CheckedAddr::Missing, None).unwrap();
    assert_eq!(res.votes.len(), 1);
    assert_eq!(res.votes[0].sum, 10);
    assert_eq!(res.sum, second);
}

#[test]
fn invalid_category_before_missing_entry() {
    let mut state = setup_contract();
    setup_category(&mut state, "category_1");
    setup_entry(&mut state, "category_1", "juno..firstmaker");

    let votes = Votes { look: 1, smell: 1, taste: 1, post_melt: 1 };

    // Nonexistent category wins over the nonexistent entry.
    let err = cast_vote(&mut state, "juno..secondmaker", "category_2", 7, votes).unwrap_err();
    assert_eq!(err, ContractError::InvalidCategory);

    // With an existing category the missing entry is reported.
    let err = cast_vote(&mut state, "juno..secondmaker", "category_1", 7, votes).unwrap_err();
    assert_eq!(err, ContractError::NotFound);
}

#[test]
fn unreachable_registry_is_fatal() {
    let mut state = setup_contract();
    setup_category(&mut state, "category_1");
    setup_entry(&mut state, "category_1", "juno..firstmaker");

    let err = execute(
        &mut state,
        "juno..admin".to_string(),
        &MemberLookup::Unavailable,
        None,
        ExecuteMsg::AddCategory { category: "category_2".to_string() },
    )
    .unwrap_err();
    assert_eq!(err, ContractError::CollaboratorUnavailable);

    let err = execute(
        &mut state,
        "juno..secondmaker".to_string(),
        &MemberLookup::Unavailable,
        None,
        ExecuteMsg::Vote {
            category: "category_1".to_string(),
            entry_id: 1,
            votes: Votes { look: 1, smell: 1, taste: 1, post_melt: 1 },
        },
    )
    .unwrap_err();
    assert_eq!(err, ContractError::CollaboratorUnavailable);
}

#[test]
fn zero_weight_is_still_membership() {
    let mut state = setup_contract();
    execute(
        &mut state,
        "juno..admin".to_string(),
        &MemberLookup::Member(0),
        None,
        ExecuteMsg::AddCategory { category: "category_1".to_string() },
    )
    .unwrap();
    assert_eq!(query_categories_len(&state), 1);
}

fn query_categories_len(state: &ContestState) -> usize {
    voting_contract::contract::query_categories(state).len()
}

#[test]
fn instantiate_from_message() {
    let msg = InstantiateMsg {
        admins_cw4_group: "admins_group".to_string(),
        makers_cw4_group: "makers_group".to_string(),
    };
    let state = voting_contract::contract::instantiate(
        Some(msg.admins_cw4_group.clone()),
        Some(msg.makers_cw4_group.clone()),
    )
    .unwrap();
    assert_eq!(state.config.admins_cw4_group, msg.admins_cw4_group);
    assert_eq!(state.config.makers_cw4_group, msg.makers_cw4_group);
    assert_eq!(state.next_entry_id, 0);
    assert_eq!(voting_contract::contract::query_categories(&state).len(), 0);
}

#[test]
fn malformed_registry_address_rejected() {
    let err = voting_contract::contract::instantiate(None, Some("makers_group".to_string()))
        .unwrap_err();
    assert_eq!(err, ContractError::MalformedInput);

    let err = voting_contract::contract::instantiate(Some("admins_group".to_string()), None)
        .unwrap_err();
    assert_eq!(err, ContractError::MalformedInput);
}

#[test]
fn malformed_maker_address_rejected() {
    let mut state = setup_contract();
    setup_category(&mut state, "category_1");

    let err = execute(
        &mut state,
        "juno..admin".to_string(),
        &MemberLookup::Member(1),
        None,
        ExecuteMsg::AddEntry {
            name: "entry_name".to_string(),
            category: "category_1".to_string(),
            maker_addr: "not an address".to_string(),
            maker_name: "maker_name".to_string(),
            breeder: "entry_breeder".to_string(),
            genetics: "entry_genetics".to_string(),
            farmer: "entry_farmer".to_string(),
        },
    )
    .unwrap_err();
    assert_eq!(err, ContractError::MalformedInput);
}

#[test]
fn ballot_lookup_errors() {
    let mut state = setup_contract();
    setup_category(&mut state, "category_1");
    setup_entry(&mut state, "category_1", "juno..firstmaker");

    let err = query_votes(&state, 1, None).unwrap_err();
    assert_eq!(err, ContractError::MalformedInput);

    let err = query_votes(&state, 1, Some("juno..secondmaker".to_string())).unwrap_err();
    assert_eq!(err, ContractError::NotFound);
}

#[test]
fn entry_lookup_not_found() {
    let mut state = setup_contract();
    setup_category(&mut state, "category_1");
    setup_category(&mut state, "category_2");
    setup_entry(&mut state, "category_1", "juno..firstmaker");

    let err = query_entry(&state, "category_1".to_string(), 2).unwrap_err();
    assert_eq!(err, ContractError::NotFound);

    // The entry exists, but under the other category.
    let err = query_entry(&state, "category_2".to_string(), 1).unwrap_err();
    assert_eq!(err, ContractError::NotFound);

    let found = query_entry(&state, "category_1".to_string(), 1).unwrap();
    assert_eq!(found.maker_addr, "juno..firstmaker");
}

#[test]
fn tally_overflow_is_fatal() {
    let mut state = setup_contract();
    setup_category(&mut state, "category_1");
    setup_entry(&mut state, "category_1", "juno..firstmaker");

    // One ballot whose own four scores overflow their sum.
    cast_vote(
        &mut state,
        "juno..secondmaker",
        "category_1",
        1,
        Votes { look: u128::MAX, smell: u128::MAX, taste: 0, post_melt: 0 },
    )
    .unwrap();
    let err = query_tally_votes(&state, 1, CheckedAddr::Missing, None).unwrap_err();
    assert_eq!(err, ContractError::Overflow);
}

#[test]
fn tally_aggregate_overflow_is_fatal() {
    let mut state = setup_contract();
    setup_category(&mut state, "category_1");
    setup_entry(&mut state, "category_1", "juno..firstmaker");

    // Each ballot sums fine on its own; the page aggregate overflows.
    cast_vote(
        &mut state,
        "juno..secondmaker",
        "category_1",
        1,
        Votes { look: u128::MAX, smell: 0, taste: 0, post_melt: 0 },
    )
    .unwrap();
    cast_vote(
        &mut state,
        "third_maker",
        "category_1",
        1,
        Votes { look: 1, smell: 0, taste: 0, post_melt: 0 },
    )
    .unwrap();
    let err = query_tally_votes(&state, 1, CheckedAddr::Missing, None).unwrap_err();
    assert_eq!(err, ContractError::Overflow);

    // A page that holds only one of the two ballots still fits.
    let res = query_tally_votes(&state, 1, CheckedAddr::Missing, Some(1)).unwrap();
    assert_eq!(res.votes.len(), 1);
    assert_eq!(res.sum.look, u128::MAX);
}

#[test]
fn tally_of_empty_page() {
    let mut state = setup_contract();
    setup_category(&mut state, "category_1");
    setup_entry(&mut state, "category_1", "juno..firstmaker");

    let res = query_tally_votes(&state, 1, CheckedAddr::Missing, None).unwrap();
    assert_eq!(res.votes.len(), 0);
    assert_eq!(res.sum, Votes { look: 0, smell: 0, taste: 0, post_melt: 0 });

    cast_vote(
        &mut state,
        "juno..secondmaker",
        "category_1",
        1,
        Votes { look: 1, smell: 2, taste: 3, post_melt: 4 },
    )
    .unwrap();

    // A bound past every judge address leaves the page empty.
    let res = query_tally_votes(&state, 1, CheckedAddr::Valid("zzz".to_string()), None).unwrap();
    assert_eq!(res.votes.len(), 0);
    assert_eq!(res.sum, Votes { look: 0, smell: 0, taste: 0, post_melt: 0 });
}

#[test]
fn tally_malformed_bound_rejected() {
    let mut state = setup_contract();
    setup_category(&mut state, "category_1");

    let err = query_tally_votes(&state, 1, CheckedAddr::Malformed, None).unwrap_err();
    assert_eq!(err, ContractError::MalformedInput);
}

#[test]
fn entry_counter_overflow_is_fatal() {
    let mut state = setup_contract();
    setup_category(&mut state, "category_1");
    let mut k: u32 = 0;
    while k < 255 {
        setup_entry(&mut state, "category_1", &format!("maker{}", k));
        k += 1;
    }

    let err = execute(
        &mut state,
        "juno..admin".to_string(),
        &MemberLookup::Member(1),
        Some("one_more".to_string()),
        ExecuteMsg::AddEntry {
            name: "entry_name".to_string(),
            category: "category_1".to_string(),
            maker_addr: "one_more".to_string(),
            maker_name: "maker_name".to_string(),
            breeder: "entry_breeder".to_string(),
            genetics: "entry_genetics".to_string(),
            farmer: "entry_farmer".to_string(),
        },
    )
    .unwrap_err();
    assert_eq!(err, ContractError::Overflow);
}

#[test]
fn query_dispatch() {
    let mut state = setup_contract();
    setup_category(&mut state, "category_1");
    setup_entry(&mut state, "category_1", "juno..firstmaker");
    cast_vote(
        &mut state,
        "juno..secondmaker",
        "category_1",
        1,
        Votes { look: 1, smell: 2, taste: 3, post_melt: 4 },
    )
    .unwrap();

    let ans = query(&state, QueryMsg::Categories {}, CheckedAddr::Missing).unwrap();
    match ans {
        QueryAnswer::Categories(c) => assert_eq!(c, vec!["category_1"]),
        _ => panic!("wrong answer variant"),
    }

    let ans = query(
        &state,
        QueryMsg::Entry { category: "category_1".to_string(), entry_id: 1 },
        CheckedAddr::Missing,
    )
    .unwrap();
    match ans {
        QueryAnswer::OneEntry(e) => assert_eq!(e.maker_addr, "juno..firstmaker"),
        _ => panic!("wrong answer variant"),
    }

    let ans = query(
        &state,
        QueryMsg::Entries {
            category: "category_1".to_string(),
            start_after: None,
            limit: None,
        },
        CheckedAddr::Missing,
    )
    .unwrap();
    match ans {
        QueryAnswer::EntryPage(p) => assert_eq!(p.len(), 1),
        _ => panic!("wrong answer variant"),
    }

    let ans = query(
        &state,
        QueryMsg::Votes { entry_id: 1, maker_addr: "juno..secondmaker".to_string() },
        CheckedAddr::Valid("juno..secondmaker".to_string()),
    )
    .unwrap();
    match ans {
        QueryAnswer::OneBallot(v) => assert_eq!(v, Votes { look: 1, smell: 2, taste: 3, post_melt: 4 }),
        _ => panic!("wrong answer variant"),
    }

    let ans = query(
        &state,
        QueryMsg::TallyVotes { entry_id: 1, start_after: None, limit: None },
        CheckedAddr::Missing,
    )
    .unwrap();
    match ans {
        QueryAnswer::Tally(t) => {
            assert_eq!(t.votes.len(), 1);
            assert_eq!(t.votes[0].sum, 10);
        },
        _ => panic!("wrong answer variant"),
    }
}

#[test]
fn registry_choice_per_command() {
    let state = setup_contract();

    let msg = ExecuteMsg::AddCategory { category: "category_1".to_string() };
    assert_eq!(required_registry(&state.config, &msg), "admins_group");

    let msg = ExecuteMsg::Vote {
        category: "category_1".to_string(),
        entry_id: 1,
        votes: Votes { look: 0, smell: 0, taste: 0, post_melt: 0 },
    };
    assert_eq!(required_registry(&state.config, &msg), "makers_group");
}
