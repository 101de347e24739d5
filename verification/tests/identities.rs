use proposal_ledger::identity::{all_distinct, contains_identity, same_bytes, Identity};

#[test]
fn identity_is_its_bytes() {
    let a = Identity::new(vec![1, 2, 3]);
    assert_eq!(a.bytes, vec![1, 2, 3]);
    assert!(a.same(&Identity::new(vec![1, 2, 3])));
    assert!(!a.same(&Identity::new(vec![1, 2, 4])));
    assert!(!a.same(&Identity::new(vec![1, 2])));
    assert!(!a.same(&Identity::new(vec![1, 2, 3, 0])));
    assert!(Identity::new(vec![]).same(&Identity::new(vec![])));
}

#[test]
fn identity_clone_is_the_same() {
    let a = Identity::new(vec![4, 5]);
    let b = a.clone();
    assert_eq!(a, b);
    assert!(a.same(&b));
}

#[test]
fn same_bytes_compares_whole_strings() {
    assert!(same_bytes(&[], &[]));
    assert!(same_bytes(&[1, 2], &[1, 2]));
    assert!(!same_bytes(&[1, 2], &[2, 1]));
    assert!(!same_bytes(&[1], &[1, 1]));
}

#[test]
fn contains_identity_finds_members_only() {
    let ids = vec![Identity::new(vec![1]), Identity::new(vec![2, 2]), Identity::new(vec![])];
    assert!(contains_identity(&ids, &Identity::new(vec![1])));
    assert!(contains_identity(&ids, &Identity::new(vec![2, 2])));
    assert!(contains_identity(&ids, &Identity::new(vec![])));
    assert!(!contains_identity(&ids, &Identity::new(vec![2])));
    assert!(!contains_identity(&Vec::new(), &Identity::new(vec![1])));
}

#[test]
fn all_distinct_finds_a_repeat() {
    let a = Identity::new(vec![1]);
    let b = Identity::new(vec![2]);
    let c = Identity::new(vec![3]);
    assert!(all_distinct(&Vec::new()));
    assert!(all_distinct(&vec![a.clone()]));
    assert!(all_distinct(&vec![a.clone(), b.clone(), c.clone()]));
    assert!(!all_distinct(&vec![a.clone(), b.clone(), a.clone()]));
    assert!(!all_distinct(&vec![b.clone(), c.clone(), c.clone()]));
}
