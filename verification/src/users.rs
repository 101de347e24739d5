//! The user registry: a counter-keyed table of names and identities.
//!
//! The registry lives in memory only. Ids are handed out by a counter that
//! starts at 1, so an id is never used twice. Anybody may edit any user.

use vstd::prelude::*;
use std::collections::HashMap;
use crate::identity::Identity;

verus! {

broadcast use vstd::std_specs::hash::group_hash_axioms;

/// A registered user.
#[derive(Debug, PartialEq, Eq)]
pub struct User {
    pub id: u64,
    pub name: String,
    pub address: Identity,
}

/// The mathematical model of a [`User`].
pub struct UserView {
    pub id: u64,
    pub name: Seq<char>,
    pub address: Seq<u8>,
}

impl View for User {
    type V = UserView;

    open spec fn view(&self) -> UserView {
        UserView { id: self.id, name: self.name@, address: self.address@ }
    }
}

impl Clone for User {
    fn clone(&self) -> (u: User)
        ensures
            u@ == self@,
    {
        User { id: self.id, name: self.name.clone(), address: self.address.clone() }
    }
}

/// The users by id, and the counter that gives the next id.
pub struct UserRegistry {
    users: HashMap<u64, User>,
    next_id: u64,
}

/// The mathematical model of a [`UserRegistry`].
pub struct RegistryView {
    pub users: Map<u64, UserView>,
    pub next_id: u64,
}

impl View for UserRegistry {
    type V = RegistryView;

    closed spec fn view(&self) -> RegistryView {
        RegistryView { users: self.users@.map_values(|u: User| u@), next_id: self.next_id }
    }
}

/// The invariant of the registry's model: every user is stored under its own
/// id, and every id in use came from the counter.
pub open spec fn registry_ok(v: RegistryView) -> bool {
    &&& v.users.dom().finite()
    &&& v.next_id >= 1
    &&& forall|id: u64| #[trigger]
        v.users.contains_key(id) ==> 1 <= id < v.next_id && v.users[id].id == id
}

/// The message of the error that [`edit_user`] gives for an unknown id.
pub open spec fn user_not_found() -> Seq<char> {
    "User not found"@
}

impl UserRegistry {
    /// A registry without users, whose first id will be 1.
    pub fn new() -> (registry: UserRegistry)
        ensures
            registry@.users == Map::<u64, UserView>::empty(),
            registry@.next_id == 1,
            registry_ok(registry@),
    {
        let registry = UserRegistry { users: HashMap::new(), next_id: 1 };
        assert(registry@.users =~= Map::<u64, UserView>::empty());
        registry
    }

    /// The id that the next user will get.
    pub fn next_id(&self) -> (id: u64)
        ensures
            id == self@.next_id,
    {
        self.next_id
    }
}

/// Registers a user and returns the new id: the counter's value, which then
/// goes up by one.
pub fn create_user(registry: &mut UserRegistry, name: String, address: Identity) -> (user_id: u64)
    requires
        registry_ok(old(registry)@),
        old(registry)@.next_id < u64::MAX,
    ensures
        registry_ok(final(registry)@),
        user_id == old(registry)@.next_id,
        !old(registry)@.users.contains_key(user_id),
        final(registry)@.next_id == user_id + 1,
        final(registry)@.users == old(registry)@.users.insert(
            user_id,
            (UserView { id: user_id, name: name@, address: address@ }),
        ),
{
    let user_id: u64 = registry.next_id;
    registry.next_id = registry.next_id + 1;
    let user = User { id: user_id, name, address };
    registry.users.insert(user_id, user);
    assert(registry@.users =~= old(registry)@.users.insert(
        user_id,
        (UserView { id: user_id, name: name@, address: address@ }),
    ));
    user_id
}

/// The user with the given id, if there is one. The registry stays as it is.
pub fn get_user(registry: &UserRegistry, user_id: u64) -> (r: Option<User>)
    ensures
        r is Some <==> registry@.users.contains_key(user_id),
        r matches Some(user) ==> user@ == registry@.users[user_id],
{
    match registry.users.get(&user_id) {
        Some(user) => Some(user.clone()),
        None => None,
    }
}

/// The number of users. The registry stays as it is.
pub fn get_user_count(registry: &UserRegistry) -> (n: u64)
    ensures
        n == registry@.users.dom().len(),
{
    assert(registry@.users.dom() =~= registry.users@.dom());
    registry.users.len() as u64
}

/// Replaces the name and the identity of a user; the id stays. An unknown id
/// gives the error "User not found" and changes nothing.
pub fn edit_user(registry: &mut UserRegistry, user_id: u64, name: String, address: Identity) -> (r:
    Result<(), String>)
    requires
        registry_ok(old(registry)@),
    ensures
        registry_ok(final(registry)@),
        r is Ok <==> old(registry)@.users.contains_key(user_id),
        r is Ok ==> final(registry)@.users == old(registry)@.users.insert(
            user_id,
            (UserView { id: user_id, name: name@, address: address@ }),
        ),
        r matches Err(message) ==> message@ == user_not_found() && final(registry)@.users == old(
            registry,
        )@.users,
        final(registry)@.next_id == old(registry)@.next_id,
{
    if registry.users.contains_key(&user_id) {
        assert(old(registry)@.users.contains_key(user_id));
        let user = User { id: user_id, name, address };
        registry.users.insert(user_id, user);
        assert(registry@.users =~= old(registry)@.users.insert(
            user_id,
            (UserView { id: user_id, name: name@, address: address@ }),
        ));
        assert(registry@.users.dom() =~= old(registry)@.users.dom());
        Ok(())
    } else {
        Err("User not found".to_owned())
    }
}

} // verus!
