use voting_contract::contract::{execute, query_categories, query_entries, query_tally_votes};
use voting_contract::msg::{CheckedAddr, ExecuteMsg, MemberLookup};
use voting_contract::state::{ContestState, Entry, Votes};

fn setup_contract(admins_cw4_group: &str, makers_cw4_group: &str) -> ContestState {
    voting_contract::contract::instantiate(
        Some(admins_cw4_group.to_string()),
        Some(makers_cw4_group.to_string()),
    )
    .unwrap()
}

fn setup_category(state: &mut ContestState, category: &str) {
    execute(
        state,
        "juno..admin".to_string(),
        &MemberLookup::Member(1),
        None,
        ExecuteMsg::AddCategory { category: category.to_string() },
    )
    .unwrap();
}

fn setup_entry(state: &mut ContestState, category: &str, maker_addr: &str) {
    execute(
        state,
        "juno..admin".to_string(),
        &MemberLookup::Member(1),
        Some(maker_addr.to_string()),
        ExecuteMsg::AddEntry {
            name: "entry_name".to_string(),
            category: category.to_string(),
            maker_addr: maker_addr.to_string(),
            maker_name: "maker_name".to_string(),
            breeder: "entry_breeder".to_string(),
            genetics: "entry_genetics".to_string(),
            farmer: "entry_farmer".to_string(),
        },
    )
    .unwrap();
}

fn setup_vote(state: &mut ContestState, sender: &str, entry_id: u8, votes: Votes) {
    execute(
        state,
        sender.to_string(),
        &MemberLookup::Member(1),
        None,
        ExecuteMsg::Vote { category: "category_1".to_string(), entry_id, votes },
    )
    .unwrap();
}

fn sample_entry(maker_addr: &str) -> Entry {
    Entry {
        name: "entry_name".to_string(),
        category: "category_1".to_string(),
        maker_addr: maker_addr.to_string(),
        maker_name: "maker_name".to_string(),
        breeder: "entry_breeder".to_string(),
        genetics: "entry_genetics".to_string(),
        farmer: "entry_farmer".to_string(),
    }
}

#[test]
fn test_categories() {
    let mut state = setup_contract("admins_group", "makers_group");

    setup_category(&mut state, "category_1");
    setup_category(&mut state, "category_2");
    setup_category(&mut state, "category_3");

    let res = query_categories(&state);
    assert_eq!(res, vec!["category_1", "category_2", "category_3"]);
}

#[test]
fn test_entries() {
    let mut state = setup_contract("admins_group", "makers_group");

    setup_category(&mut state, "category_1");
    setup_entry(&mut state, "category_1", "juno..firstmaker");
    setup_entry(&mut state, "category_1", "juno..secondmaker");
    setup_entry(&mut state, "category_1", "third_maker");

    let res = query_entries(&state, "category_1".to_string(), None, None);
    assert_eq!(res.len(), 3);
    assert_eq!(res[1].data, sample_entry("juno..secondmaker"));

    let res = query_entries(&state, "category_1".to_string(), Some(2), None);
    assert_eq!(res.len(), 1);
    assert_eq!(res[0].data, sample_entry("third_maker"));

    let res = query_entries(&state, "category_1".to_string(), Some(1), Some(1));
    assert_eq!(res.len(), 1);
    assert_eq!(res[0].data, sample_entry("juno..secondmaker"));
}

#[test]
fn test_votes() {
    let mut state = setup_contract("admins_group", "makers_group");

    setup_category(&mut state, "category_1");
    setup_entry(&mut state, "category_1", "juno..firstmaker");
    setup_vote(
        &mut state,
        "juno..secondmaker",
        1,
        Votes { look: 775, smell: 820, taste: 1000, post_melt: 250 },
    );
    setup_vote(
        &mut state,
        "third_maker",
        1,
        Votes { look: 450, smell: 259, taste: 720, post_melt: 180 },
    );
    setup_vote(
        &mut state,
        "fourth_maker",
        1,
        Votes { look: 603, smell: 278, taste: 383, post_melt: 286 },
    );
    setup_vote(
        &mut state,
        "fifth_maker",
        1,
        Votes { look: 950, smell: 279, taste: 632, post_melt: 492 },
    );

    let res = query_tally_votes(&state, 1, CheckedAddr::Missing, None).unwrap();
    assert_eq!(res.votes.len(), 4);
    assert_eq!(res.votes[0].maker_addr, "fifth_maker");
    assert_eq!(res.votes[0].sum, 2353);
    assert_eq!(res.votes[1].maker_addr, "fourth_maker");
    assert_eq!(res.votes[1].sum, 1550);
    assert_eq!(res.sum.look, 2778);
    assert_eq!(res.sum.smell, 1636);
    assert_eq!(res.sum.taste, 2735);
    assert_eq!(res.sum.post_melt, 1208);

    let res = query_tally_votes(
        &state,
        1,
        CheckedAddr::Valid("fourth_maker".to_string()),
        Some(2),
    )
    .unwrap();
    assert_eq!(res.votes.len(), 2);
    assert_eq!(res.votes[0].maker_addr, "juno..secondmaker");
    assert_eq!(res.votes[0].sum, 2845);
    assert_eq!(res.votes[1].maker_addr, "third_maker");
    assert_eq!(res.votes[1].sum, 1609);
    assert_eq!(res.sum.look, 1225);
    assert_eq!(res.sum.smell, 1079);
    assert_eq!(res.sum.taste, 1720);
    assert_eq!(res.sum.post_melt, 430);
}
