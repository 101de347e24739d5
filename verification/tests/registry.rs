use proposal_ledger::identity::Identity;
use proposal_ledger::users::{
    create_user, edit_user, get_user, get_user_count, User, UserRegistry,
};

fn who(tag: u8) -> Identity {
    Identity::new(vec![tag, tag])
}

#[test]
fn new_registry_has_no_users() {
    let registry = UserRegistry::new();
    assert_eq!(get_user_count(&registry), 0);
    assert_eq!(registry.next_id(), 1);
    assert_eq!(get_user(&registry, 1), None);
}

#[test]
fn users_get_ids_from_a_counter_that_starts_at_one() {
    let mut registry = UserRegistry::new();
    assert_eq!(create_user(&mut registry, "ada".to_string(), who(1)), 1);
    assert_eq!(create_user(&mut registry, "bob".to_string(), who(2)), 2);
    assert_eq!(create_user(&mut registry, "ada".to_string(), who(1)), 3);
    assert_eq!(registry.next_id(), 4);
    assert_eq!(get_user_count(&registry), 3);
    assert_eq!(
        get_user(&registry, 2),
        Some(User { id: 2, name: "bob".to_string(), address: who(2) })
    );
    assert_eq!(get_user(&registry, 0), None);
    assert_eq!(get_user(&registry, 4), None);
}

#[test]
fn edit_user_replaces_name_and_identity() {
    let mut registry = UserRegistry::new();
    assert_eq!(create_user(&mut registry, "ada".to_string(), who(1)), 1);
    assert_eq!(create_user(&mut registry, "bob".to_string(), who(2)), 2);
    assert_eq!(edit_user(&mut registry, 1, "eve".to_string(), who(3)), Ok(()));
    assert_eq!(
        get_user(&registry, 1),
        Some(User { id: 1, name: "eve".to_string(), address: who(3) })
    );
    assert_eq!(
        get_user(&registry, 2),
        Some(User { id: 2, name: "bob".to_string(), address: who(2) })
    );
    assert_eq!(get_user_count(&registry), 2);
    assert_eq!(registry.next_id(), 3);
}

#[test]
fn edit_of_unknown_user_is_not_found() {
    let mut registry = UserRegistry::new();
    assert_eq!(create_user(&mut registry, "ada".to_string(), who(1)), 1);
    assert_eq!(
        edit_user(&mut registry, 2, "eve".to_string(), who(3)),
        Err("User not found".to_string())
    );
    assert_eq!(get_user_count(&registry), 1);
    assert_eq!(
        get_user(&registry, 1),
        Some(User { id: 1, name: "ada".to_string(), address: who(1) })
    );
}

#[test]
fn user_reads_change_nothing() {
    let mut registry = UserRegistry::new();
    assert_eq!(create_user(&mut registry, "ada".to_string(), who(1)), 1);
    let first = get_user(&registry, 1);
    for _ in 0..5 {
        assert_eq!(get_user(&registry, 1), first);
        assert_eq!(get_user_count(&registry), 1);
    }
}
