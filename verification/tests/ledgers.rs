use proposal_ledger::identity::Identity;
use proposal_ledger::ledger::{
    accept, audit, check_entry, create_proposal, edit_proposal, end_proposal, get_proposal,
    get_proposal_count, open_ledger, vote,
};
use proposal_ledger::proposal::{Choice, CreateProposal, Proposal, VoteError};
use proposal_ledger::record::MAX_RECORD_SIZE;
use proposal_ledger::store::ProposalStore;

fn who(tag: u8) -> Identity {
    Identity::new(vec![tag, 0, 0, 0, 0, 0, 0, 1, 1, 1])
}

fn ask(description: &str, is_active: bool) -> CreateProposal {
    CreateProposal { description: description.to_string(), is_active }
}

fn ledger_with_one(owner: &Identity, is_active: bool) -> ProposalStore {
    let mut store = ProposalStore::new();
    let p = create_proposal(&mut store, owner, ask("one", is_active)).unwrap();
    assert_eq!(p.id, 1);
    store
}

#[test]
fn created_proposal_has_no_votes_and_belongs_to_the_caller() {
    let mut store = ProposalStore::new();
    let p = create_proposal(&mut store, &who(9), ask("Paint the shed", false)).unwrap();
    let expected = Proposal {
        id: 1,
        description: "Paint the shed".to_string(),
        approve: 0,
        reject: 0,
        is_active: false,
        voted: vec![],
        owner: who(9),
    };
    assert_eq!(p, expected);
    assert_eq!(get_proposal(&store, 1), Some(expected));
    assert_eq!(get_proposal_count(&store), 1);
}

#[test]
fn ids_count_up_from_one_and_never_repeat() {
    let mut store = ProposalStore::new();
    let mut seen: Vec<u64> = Vec::new();
    for round in 0..50u64 {
        let owner = who((round % 5) as u8);
        let p = create_proposal(&mut store, &owner, ask("again", round % 2 == 0)).unwrap();
        assert_eq!(p.id, round + 1);
        assert!(!seen.contains(&p.id));
        seen.push(p.id);
        let _ = vote(&mut store, &who(200), p.id, Choice::Approve);
        let _ = end_proposal(&mut store, &owner, 1);
        let _ = edit_proposal(&mut store, &owner, p.id, ask("edited", true));
        assert_eq!(get_proposal_count(&store), round + 1);
    }
}

#[test]
fn missing_proposal_is_reported_by_every_operation() {
    let mut store = ledger_with_one(&who(1), true);
    assert_eq!(get_proposal(&store, 0), None);
    assert_eq!(get_proposal(&store, 2), None);
    assert_eq!(vote(&mut store, &who(2), 2, Choice::Approve), Err(VoteError::NoSuchProposal));
    assert_eq!(vote(&mut store, &who(2), 0, Choice::Reject), Err(VoteError::NoSuchProposal));
    assert_eq!(end_proposal(&mut store, &who(1), 2), Err(VoteError::NoSuchProposal));
    assert_eq!(
        edit_proposal(&mut store, &who(1), 2, ask("nothing there", true)),
        Err(VoteError::NoSuchProposal)
    );
    assert_eq!(get_proposal_count(&store), 1);
}

#[test]
fn vote_counts_once_per_identity() {
    let mut store = ledger_with_one(&who(1), true);
    assert_eq!(vote(&mut store, &who(2), 1, Choice::Approve), Ok(()));
    assert_eq!(vote(&mut store, &who(2), 1, Choice::Approve), Err(VoteError::AlreadyVoted));
    assert_eq!(vote(&mut store, &who(2), 1, Choice::Reject), Err(VoteError::AlreadyVoted));
    assert_eq!(vote(&mut store, &who(3), 1, Choice::Reject), Ok(()));
    assert_eq!(vote(&mut store, &who(1), 1, Choice::Reject), Ok(()));
    assert_eq!(vote(&mut store, &who(3), 1, Choice::Approve), Err(VoteError::AlreadyVoted));
    let p = get_proposal(&store, 1).unwrap();
    assert_eq!(p.approve, 1);
    assert_eq!(p.reject, 2);
    assert_eq!(p.voted, vec![who(2), who(3), who(1)]);
}

#[test]
fn tallies_add_up_to_the_number_of_voters() {
    let mut store = ProposalStore::new();
    let _ = create_proposal(&mut store, &who(1), ask("a", true)).unwrap();
    let _ = create_proposal(&mut store, &who(2), ask("b", true)).unwrap();
    for round in 0..120u32 {
        let voter = who((round % 40) as u8);
        let key = 1 + (round % 3) as u64;
        let choice = if round % 2 == 0 { Choice::Approve } else { Choice::Reject };
        let _ = vote(&mut store, &voter, key, choice);
        for id in 1..=2u64 {
            let p = get_proposal(&store, id).unwrap();
            assert_eq!((p.approve + p.reject) as usize, p.voted.len());
        }
    }
    let p = get_proposal(&store, 1).unwrap();
    assert_eq!(p.voted.len(), 40);
    assert!(audit(&store));
}

#[test]
fn closed_proposal_takes_no_vote() {
    let mut store = ledger_with_one(&who(1), false);
    assert_eq!(
        vote(&mut store, &who(2), 1, Choice::Approve),
        Err(VoteError::ProposalIsNotActive)
    );
    let p = get_proposal(&store, 1).unwrap();
    assert_eq!(p.approve, 0);
    assert!(p.voted.is_empty());
}

#[test]
fn already_voted_comes_before_not_active() {
    let mut store = ledger_with_one(&who(1), true);
    assert_eq!(vote(&mut store, &who(2), 1, Choice::Reject), Ok(()));
    assert_eq!(end_proposal(&mut store, &who(1), 1), Ok(()));
    assert_eq!(vote(&mut store, &who(2), 1, Choice::Reject), Err(VoteError::AlreadyVoted));
    assert_eq!(
        vote(&mut store, &who(3), 1, Choice::Reject),
        Err(VoteError::ProposalIsNotActive)
    );
    assert_eq!(vote(&mut store, &who(2), 9, Choice::Reject), Err(VoteError::NoSuchProposal));
}

#[test]
fn only_the_owner_edits_and_closes() {
    let mut store = ledger_with_one(&who(1), true);
    assert_eq!(vote(&mut store, &who(2), 1, Choice::Approve), Ok(()));
    let before = store.record(1);
    assert_eq!(
        edit_proposal(&mut store, &who(2), 1, ask("mine now", false)),
        Err(VoteError::AccessRejected)
    );
    assert_eq!(end_proposal(&mut store, &who(2), 1), Err(VoteError::AccessRejected));
    assert_eq!(store.record(1), before);
    assert!(get_proposal(&store, 1).unwrap().is_active);
}

#[test]
fn edit_changes_description_and_flag_only() {
    let mut store = ledger_with_one(&who(1), true);
    assert_eq!(vote(&mut store, &who(2), 1, Choice::Approve), Ok(()));
    assert_eq!(vote(&mut store, &who(3), 1, Choice::Reject), Ok(()));
    assert_eq!(edit_proposal(&mut store, &who(1), 1, ask("one, revised", false)), Ok(()));
    let expected = Proposal {
        id: 1,
        description: "one, revised".to_string(),
        approve: 1,
        reject: 1,
        is_active: false,
        voted: vec![who(2), who(3)],
        owner: who(1),
    };
    assert_eq!(get_proposal(&store, 1), Some(expected));
}

#[test]
fn edit_may_open_a_closed_proposal_again() {
    let mut store = ledger_with_one(&who(1), true);
    assert_eq!(end_proposal(&mut store, &who(1), 1), Ok(()));
    assert_eq!(edit_proposal(&mut store, &who(1), 1, ask("one", true)), Ok(()));
    assert_eq!(vote(&mut store, &who(2), 1, Choice::Approve), Ok(()));
}

#[test]
fn end_closes_and_keeps_the_rest() {
    let mut store = ledger_with_one(&who(1), true);
    assert_eq!(vote(&mut store, &who(2), 1, Choice::Approve), Ok(()));
    let mut expected = get_proposal(&store, 1).unwrap();
    expected.is_active = false;
    assert_eq!(end_proposal(&mut store, &who(1), 1), Ok(()));
    assert_eq!(get_proposal(&store, 1), Some(expected.clone()));
    assert_eq!(end_proposal(&mut store, &who(1), 1), Ok(()));
    assert_eq!(get_proposal(&store, 1), Some(expected));
}

#[test]
fn reads_change_nothing() {
    let mut store = ledger_with_one(&who(1), true);
    assert_eq!(vote(&mut store, &who(2), 1, Choice::Approve), Ok(()));
    let first = get_proposal(&store, 1);
    let bytes = store.record(1);
    for _ in 0..10 {
        assert_eq!(get_proposal(&store, 1), first);
        assert_eq!(get_proposal(&store, 2), None);
        assert_eq!(get_proposal_count(&store), 1);
    }
    assert_eq!(store.record(1), bytes);
}

#[test]
fn proposal_too_large_to_store_is_not_created() {
    let mut store = ProposalStore::new();
    let room = MAX_RECORD_SIZE - 29 - 10;
    let too_long = "x".repeat(room + 1);
    assert_eq!(create_proposal(&mut store, &who(1), ask(&too_long, true)), None);
    assert_eq!(get_proposal_count(&store), 0);
    let fits = "x".repeat(room);
    let p = create_proposal(&mut store, &who(1), ask(&fits, true)).unwrap();
    assert_eq!(p.id, 1);
    assert_eq!(store.record(1).unwrap().len(), MAX_RECORD_SIZE);
}

#[test]
fn vote_that_cannot_be_written_is_an_update_error() {
    let mut store = ProposalStore::new();
    let room = MAX_RECORD_SIZE - 29 - 10;
    let almost = "x".repeat(room - 14);
    let _ = create_proposal(&mut store, &who(1), ask(&almost, true)).unwrap();
    assert_eq!(vote(&mut store, &who(2), 1, Choice::Approve), Ok(()));
    let before = get_proposal(&store, 1);
    assert_eq!(vote(&mut store, &who(3), 1, Choice::Approve), Err(VoteError::UpdateError));
    assert_eq!(get_proposal(&store, 1), before);
    assert_eq!(vote(&mut store, &who(2), 1, Choice::Approve), Err(VoteError::AlreadyVoted));
}

#[test]
fn edit_that_cannot_be_written_is_an_update_error() {
    let mut store = ledger_with_one(&who(1), true);
    let before = get_proposal(&store, 1);
    let too_long = "x".repeat(MAX_RECORD_SIZE);
    assert_eq!(
        edit_proposal(&mut store, &who(1), 1, ask(&too_long, false)),
        Err(VoteError::UpdateError)
    );
    assert_eq!(get_proposal(&store, 1), before);
    assert_eq!(
        edit_proposal(&mut store, &who(2), 1, ask(&too_long, false)),
        Err(VoteError::AccessRejected)
    );
}

#[test]
fn audit_accepts_what_the_operations_wrote() {
    let mut store = ProposalStore::new();
    assert!(audit(&store));
    for round in 0..20u8 {
        let _ = create_proposal(&mut store, &who(round), ask("p", true)).unwrap();
        let _ = vote(&mut store, &who(round + 1), 1, Choice::Approve);
        let _ = vote(&mut store, &who(round), (round as u64) + 1, Choice::Reject);
        assert!(audit(&store));
    }
    assert_eq!(end_proposal(&mut store, &who(3), 4), Ok(()));
    assert_eq!(edit_proposal(&mut store, &who(4), 5, ask("q", false)), Ok(()));
    assert!(audit(&store));
}

#[test]
fn audit_refuses_a_gap_in_the_ids() {
    let mut store = ProposalStore::new();
    let p = Proposal::fresh(2, "two".to_string(), true, who(1));
    assert_eq!(store.put(2, &p), Ok(None));
    assert!(!audit(&store));
}

#[test]
fn audit_refuses_a_record_under_another_id() {
    let mut store = ProposalStore::new();
    let p = Proposal::fresh(2, "two".to_string(), true, who(1));
    assert_eq!(store.put(1, &p), Ok(None));
    assert!(!audit(&store));
}

#[test]
fn audit_refuses_unsound_tallies() {
    let mut store = ProposalStore::new();
    let mut p = Proposal::fresh(1, "one".to_string(), true, who(1));
    p.approve = 1;
    assert_eq!(store.put(1, &p), Ok(None));
    assert!(!audit(&store));
    p.voted.push(who(2));
    assert_eq!(store.put(1, &p), Ok(Some(Proposal { voted: vec![], ..p.clone() })));
    assert!(audit(&store));
    p.voted.push(who(2));
    p.reject = 1;
    assert_eq!(store.put(1, &p).is_ok(), true);
    assert!(!audit(&store));
}

#[test]
fn check_entry_wants_the_exact_record() {
    let p = Proposal::fresh(3, "three".to_string(), true, who(1)).with_vote(who(2), Choice::Reject);
    let bytes = p.to_bytes().unwrap();
    assert!(check_entry(3, &bytes));
    assert!(!check_entry(4, &bytes));
    let mut longer = bytes.clone();
    longer.push(0);
    assert!(!check_entry(3, &longer));
    let mut wrong_tally = bytes.clone();
    wrong_tally[8] = 1;
    assert!(!check_entry(3, &wrong_tally));
    assert!(!check_entry(3, &Vec::new()));
}

#[test]
fn opened_ledger_on_fresh_memory_is_empty() {
    let mut store = open_ledger().unwrap();
    assert_eq!(get_proposal_count(&store), 0);
    let p = create_proposal(&mut store, &who(1), ask("first", true)).unwrap();
    assert_eq!(p.id, 1);
}

#[test]
fn accept_hands_a_sound_store_back_as_it_is() {
    let mut store = ProposalStore::new();
    let _ = create_proposal(&mut store, &who(1), ask("kept", true)).unwrap();
    assert_eq!(vote(&mut store, &who(2), 1, Choice::Reject), Ok(()));
    let before = get_proposal(&store, 1);
    let bytes = store.record(1);
    let ledger = accept(store).unwrap();
    assert_eq!(get_proposal_count(&ledger), 1);
    assert_eq!(get_proposal(&ledger, 1), before);
    assert_eq!(ledger.record(1), bytes);
}

#[test]
fn accept_takes_the_empty_store() {
    let ledger = accept(ProposalStore::new()).unwrap();
    assert_eq!(get_proposal_count(&ledger), 0);
}

#[test]
fn accept_refuses_a_store_that_is_no_ledger() {
    let mut gap = ProposalStore::new();
    let p = Proposal::fresh(3, "three".to_string(), true, who(1));
    assert_eq!(gap.put(3, &p), Ok(None));
    assert!(accept(gap).is_none());

    let mut wrong_id = ProposalStore::new();
    assert_eq!(wrong_id.put(1, &p), Ok(None));
    assert!(accept(wrong_id).is_none());

    let mut twice = ProposalStore::new();
    let mut q = Proposal::fresh(1, "one".to_string(), true, who(1));
    q.voted = vec![who(2), who(2)];
    q.approve = 2;
    assert_eq!(twice.put(1, &q), Ok(None));
    assert!(accept(twice).is_none());
}
