use proposal_ledger::identity::Identity;
use proposal_ledger::ledger::{
    create_proposal, edit_proposal, end_proposal, get_proposal, get_proposal_count, vote,
};
use proposal_ledger::proposal::{Choice, CreateProposal, VoteError};
use proposal_ledger::store::ProposalStore;

fn who(tag: u8) -> Identity {
    Identity::new(vec![tag, 0, 0, 0, 0, 0, 0, 1, 1, 1])
}

fn request(description: &str, is_active: bool) -> CreateProposal {
    CreateProposal { description: description.to_string(), is_active }
}

#[test]
fn lifecycle_of_one_proposal() {
    let owner = who(1);
    let a = who(2);
    let b = who(3);
    let mut store = ProposalStore::new();

    let created = create_proposal(&mut store, &owner, request("Raise budget", true)).unwrap();
    assert_eq!(created.id, 1);
    assert_eq!(created.approve, 0);
    assert_eq!(created.reject, 0);
    assert!(created.is_active);
    assert!(created.voted.is_empty());
    assert_eq!(created.owner, owner);
    assert_eq!(get_proposal_count(&store), 1);

    assert_eq!(vote(&mut store, &a, 1, Choice::Approve), Ok(()));
    let p = get_proposal(&store, 1).unwrap();
    assert_eq!(p.approve, 1);
    assert_eq!(p.reject, 0);
    assert_eq!(p.voted, vec![a.clone()]);

    assert_eq!(vote(&mut store, &a, 1, Choice::Approve), Err(VoteError::AlreadyVoted));
    let p = get_proposal(&store, 1).unwrap();
    assert_eq!(p.approve, 1);

    assert_eq!(end_proposal(&mut store, &owner, 1), Ok(()));
    assert!(!get_proposal(&store, 1).unwrap().is_active);

    assert_eq!(vote(&mut store, &b, 1, Choice::Reject), Err(VoteError::ProposalIsNotActive));

    assert_eq!(
        edit_proposal(&mut store, &b, 1, request("Raise budget v2", true)),
        Err(VoteError::AccessRejected)
    );
    let p = get_proposal(&store, 1).unwrap();
    assert_eq!(p.description, "Raise budget");
    assert!(!p.is_active);
}
