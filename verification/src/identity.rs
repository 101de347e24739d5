//! Caller identities.
//!
//! The ledger never looks inside an identity: it only stores identities and
//! compares them. An identity is therefore kept as the raw bytes that the
//! hosting environment attached to the request.

use vstd::prelude::*;

verus! {

/// The authenticated principal behind a request.
#[derive(Debug, PartialEq, Eq)]
pub struct Identity {
    pub bytes: Vec<u8>,
}

impl View for Identity {
    type V = Seq<u8>;

    open spec fn view(&self) -> Seq<u8> {
        self.bytes@
    }
}

/// The views of a sequence of identities, in the same order.
pub open spec fn identity_views(ids: Seq<Identity>) -> Seq<Seq<u8>> {
    ids.map_values(|id: Identity| id@)
}

/// Tells whether two byte strings are equal.
pub fn same_bytes(a: &[u8], b: &[u8]) -> (eq: bool)
    ensures
        eq == (a@ == b@),
{
    if a.len() != b.len() {
        return false;
    }
    let mut i: usize = 0;
    while i < a.len()
        invariant
            a@.len() == b@.len(),
            i <= a@.len(),
            forall|j: int| 0 <= j < i ==> a@[j] == b@[j],
        decreases a@.len() - i,
    {
        if a[i] != b[i] {
            return false;
        }
        i = i + 1;
    }
    assert(a@ =~= b@);
    true
}

impl Identity {
    /// Wraps the bytes of a principal.
    pub fn new(bytes: Vec<u8>) -> (id: Identity)
        ensures
            id@ == bytes@,
    {
        Identity { bytes }
    }

    /// Tells whether two identities are the same principal.
    pub fn same(&self, other: &Identity) -> (eq: bool)
        ensures
            eq == (self@ == other@),
    {
        same_bytes(self.bytes.as_slice(), other.bytes.as_slice())
    }
}

impl Clone for Identity {
    fn clone(&self) -> (id: Identity)
        ensures
            id@ == self@,
    {
        Identity { bytes: self.bytes.clone() }
    }
}

/// Tells whether `who` occurs among `ids`.
pub fn contains_identity(ids: &Vec<Identity>, who: &Identity) -> (found: bool)
    ensures
        found == identity_views(ids@).contains(who@),
{
    let mut i: usize = 0;
    while i < ids.len()
        invariant
            i <= ids.len(),
            forall|j: int| 0 <= j < i ==> identity_views(ids@)[j] != who@,
        decreases ids.len() - i,
    {
        if ids[i].same(who) {
            assert(identity_views(ids@)[i as int] == who@);
            return true;
        }
        i = i + 1;
    }
    false
}

/// Tells whether no identity occurs twice among `ids`.
pub fn all_distinct(ids: &Vec<Identity>) -> (distinct: bool)
    ensures
        distinct == identity_views(ids@).no_duplicates(),
{
    let ghost views = identity_views(ids@);
    let mut i: usize = 0;
    while i < ids.len()
        invariant
            i <= ids.len(),
            views == identity_views(ids@),
            forall|a: int, b: int| 0 <= a < b < i ==> views[a] != views[b],
        decreases ids.len() - i,
    {
        let mut j: usize = 0;
        while j < i
            invariant
                j <= i < ids.len(),
                views == identity_views(ids@),
                forall|a: int| 0 <= a < j ==> views[a] != views[i as int],
            decreases i - j,
        {
            if ids[j].same(&ids[i]) {
                assert(views[j as int] == views[i as int]);
                return false;
            }
            j = j + 1;
        }
        i = i + 1;
    }
    true
}

} // verus!
