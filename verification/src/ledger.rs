//! The proposal lifecycle and voting engine.
//!
//! Every operation reads one record, decides, and writes the whole record
//! back. What it decides is a spec function of the ledger's model, the map
//! from ids to proposals: a `*_check` function gives the reply and a
//! `*_effect` function the ledger afterwards. The executable operations are
//! proved to compute exactly these.
//!
//! The caller of an operation is an explicit argument: whoever hands a
//! request to the ledger has authenticated it before.

use vstd::prelude::*;
use crate::identity::{all_distinct, same_bytes, Identity};
use crate::proposal::{Choice, CreateProposal, Proposal, ProposalView, VoteError};
use crate::record::{decode_record, lemma_record_len, storable, MAX_RECORD_SIZE};
use crate::store::{sound_record, ProposalStore};

verus! {

/// The invariant of the ledger's model: the ids in use are 1, 2, ... up to
/// the number of proposals, each proposal is stored under its own id, and on
/// each one every vote was counted once.
pub open spec fn ledger_ok(m: Map<u64, ProposalView>) -> bool {
    &&& m.dom().finite()
    &&& forall|key: u64| #[trigger] m.contains_key(key) <==> 1 <= key <= m.dom().len()
    &&& forall|key: u64| #[trigger] m.contains_key(key) ==> m[key].id == key && m[key].tallied()
}

/// A store that is well formed and whose model satisfies [`ledger_ok`].
pub open spec fn ledger_wf(store: ProposalStore) -> bool {
    store.wf() && ledger_ok(store@)
}

/// The proposal that a creation request makes: its id is the number of
/// proposals so far, plus one.
pub open spec fn created(
    m: Map<u64, ProposalView>,
    caller: Seq<u8>,
    description: Seq<char>,
    is_active: bool,
) -> ProposalView {
    ProposalView::fresh((m.dom().len() + 1) as u64, description, is_active, caller)
}

/// Whether a creation request succeeds: the new proposal must be small
/// enough to be stored, and its id must be a 64-bit number.
pub open spec fn create_check(
    m: Map<u64, ProposalView>,
    caller: Seq<u8>,
    description: Seq<char>,
    is_active: bool,
) -> bool {
    m.dom().len() < u64::MAX && storable(created(m, caller, description, is_active))
}

/// The ledger after a creation request.
pub open spec fn create_effect(
    m: Map<u64, ProposalView>,
    caller: Seq<u8>,
    description: Seq<char>,
    is_active: bool,
) -> Map<u64, ProposalView> {
    if create_check(m, caller, description, is_active) {
        let p = created(m, caller, description, is_active);
        m.insert(p.id, p)
    } else {
        m
    }
}

/// The reply to an edit request. Only the owner may edit; a proposal that
/// the edit would make too large to store cannot be written.
pub open spec fn edit_check(
    m: Map<u64, ProposalView>,
    caller: Seq<u8>,
    key: u64,
    description: Seq<char>,
    is_active: bool,
) -> Result<(), VoteError> {
    if !m.contains_key(key) {
        Err(VoteError::NoSuchProposal)
    } else if m[key].owner != caller {
        Err(VoteError::AccessRejected)
    } else if !storable(m[key].edited(description, is_active)) {
        Err(VoteError::UpdateError)
    } else {
        Ok(())
    }
}

/// The ledger after an edit request.
pub open spec fn edit_effect(
    m: Map<u64, ProposalView>,
    caller: Seq<u8>,
    key: u64,
    description: Seq<char>,
    is_active: bool,
) -> Map<u64, ProposalView> {
    if edit_check(m, caller, key, description, is_active) is Ok {
        m.insert(key, m[key].edited(description, is_active))
    } else {
        m
    }
}

/// The reply to a request to close a proposal. Only the owner may close.
pub open spec fn end_check(m: Map<u64, ProposalView>, caller: Seq<u8>, key: u64) -> Result<
    (),
    VoteError,
> {
    if !m.contains_key(key) {
        Err(VoteError::NoSuchProposal)
    } else if m[key].owner != caller {
        Err(VoteError::AccessRejected)
    } else {
        Ok(())
    }
}

/// The ledger after a request to close a proposal.
pub open spec fn end_effect(m: Map<u64, ProposalView>, caller: Seq<u8>, key: u64) -> Map<
    u64,
    ProposalView,
> {
    if end_check(m, caller, key) is Ok {
        m.insert(key, m[key].ended())
    } else {
        m
    }
}

/// The reply to a vote. The checks come in this order: the proposal exists,
/// the caller has not voted on it, it is active. A proposal that one more
/// voter would make too large to store cannot be written.
pub open spec fn vote_check(m: Map<u64, ProposalView>, caller: Seq<u8>, key: u64, choice: Choice)
    -> Result<(), VoteError> {
    if !m.contains_key(key) {
        Err(VoteError::NoSuchProposal)
    } else if m[key].has_voted(caller) {
        Err(VoteError::AlreadyVoted)
    } else if !m[key].is_active {
        Err(VoteError::ProposalIsNotActive)
    } else if !storable(m[key].with_vote(caller, choice)) {
        Err(VoteError::UpdateError)
    } else {
        Ok(())
    }
}

/// The ledger after a vote.
pub open spec fn vote_effect(m: Map<u64, ProposalView>, caller: Seq<u8>, key: u64, choice: Choice)
    -> Map<u64, ProposalView> {
    if vote_check(m, caller, key, choice) is Ok {
        m.insert(key, m[key].with_vote(caller, choice))
    } else {
        m
    }
}

/// Replacing a proposal by one with the same id and sound tallies keeps the
/// invariant.
proof fn lemma_replace_keeps_ok(m: Map<u64, ProposalView>, key: u64, p: ProposalView)
    requires
        ledger_ok(m),
        m.contains_key(key),
        p.id == key,
        p.tallied(),
    ensures
        ledger_ok(m.insert(key, p)),
{
    assert(m.insert(key, p).dom() =~= m.dom());
}

/// A vote that is accepted keeps the tallies sound.
pub proof fn lemma_vote_keeps_tallied(p: ProposalView, caller: Seq<u8>, choice: Choice)
    requires
        p.tallied(),
        !p.has_voted(caller),
        storable(p.with_vote(caller, choice)),
    ensures
        p.with_vote(caller, choice).tallied(),
        p.with_vote(caller, choice).approve + p.with_vote(caller, choice).reject == p.approve
            + p.reject + 1,
{
    let q = p.with_vote(caller, choice);
    lemma_record_len(q);
    assert(q.voted.len() == p.voted.len() + 1);
    assert forall|i: int, j: int| 0 <= i < q.voted.len() && 0 <= j < q.voted.len() && i != j implies
        q.voted[i] != q.voted[j] by {
        if i < p.voted.len() {
            assert(p.voted[i] == q.voted[i]);
            assert(p.voted.contains(p.voted[i]));
        }
        if j < p.voted.len() {
            assert(p.voted[j] == q.voted[j]);
            assert(p.voted.contains(p.voted[j]));
        }
    }
}

/// Whether `bytes` may stand under `key` in a ledger: they are the stored
/// form of a proposal with that id and with sound tallies.
pub open spec fn sound_entry(key: u64, bytes: Seq<u8>) -> bool {
    &&& sound_record(bytes)
    &&& decode_record(bytes).unwrap().id == key
    &&& decode_record(bytes).unwrap().tallied()
}

/// Tells whether `bytes` may stand under `key` in a ledger.
pub fn check_entry(key: u64, bytes: &Vec<u8>) -> (sound: bool)
    ensures
        sound == sound_entry(key, bytes@),
{
    if bytes.len() > MAX_RECORD_SIZE {
        return false;
    }
    let proposal = match Proposal::from_bytes(bytes.as_slice()) {
        Some(p) => p,
        None => {
            return false;
        },
    };
    let written = match proposal.to_bytes() {
        Some(b) => b,
        None => {
            return false;
        },
    };
    if !same_bytes(written.as_slice(), bytes.as_slice()) {
        return false;
    }
    if proposal.id != key {
        return false;
    }
    let votes: u64 = proposal.approve as u64 + proposal.reject as u64;
    if votes != proposal.voted.len() as u64 {
        return false;
    }
    all_distinct(&proposal.voted)
}

/// The ids from 1 to `n` are `n` in number.
proof fn lemma_ids_up_to(n: u64)
    ensures
        Set::new(|key: u64| 1 <= key <= n).finite(),
        Set::new(|key: u64| 1 <= key <= n).len() == n,
    decreases n,
{
    let ids = Set::new(|key: u64| 1 <= key <= n);
    if n == 0 {
        assert(ids =~= Set::<u64>::empty());
    } else {
        let fewer = Set::new(|key: u64| 1 <= key <= (n - 1) as u64);
        lemma_ids_up_to((n - 1) as u64);
        assert(ids =~= fewer.insert(n));
    }
}

/// Looks at every record of a store and tells whether it is a ledger: the
/// keys are 1, 2, ... up to the number of records, and under each key stands
/// the stored form of a proposal with that id and with sound tallies.
pub fn audit(store: &ProposalStore) -> (sound: bool)
    ensures
        sound == ledger_wf(*store),
{
    let n: u64 = store.len();
    assert(store@.dom() =~= store.records().dom());
    let mut checked: u64 = 0;
    while checked < n
        invariant
            checked <= n,
            store.records().dom().finite(),
            n == store.records().dom().len(),
            store@.dom() == store.records().dom(),
            forall|key: u64|
                1 <= key <= checked ==> #[trigger] store.records().contains_key(key)
                    && sound_entry(key, store.records()[key]),
        decreases n - checked,
    {
        let key: u64 = checked + 1;
        let bytes = match store.record(key) {
            Some(b) => b,
            None => {
                assert(!store@.contains_key(key));
                return false;
            },
        };
        if !check_entry(key, &bytes) {
            assert(store.records().contains_key(key));
            assert(store@.contains_key(key));
            return false;
        }
        assert forall|k: u64| 1 <= k <= key implies #[trigger] store.records().contains_key(k)
            && sound_entry(k, store.records()[k]) by {
            if k < key {
                assert(1 <= k <= checked);
            } else {
                assert(bytes@ == store.records()[key]);
            }
        }
        checked = key;
    }
    proof {
        let ids = Set::new(|key: u64| 1 <= key <= n);
        lemma_ids_up_to(n);
        assert(ids.subset_of(store.records().dom())) by {
            assert forall|key: u64| ids.contains(key) implies store.records().dom().contains(
                key,
            ) by {
                assert(store.records().contains_key(key));
            }
        }
        vstd::set_lib::lemma_subset_equality(ids, store.records().dom());
        assert forall|key: u64| #[trigger] store.records().contains_key(key) implies 1 <= key
            <= n && sound_entry(key, store.records()[key]) by {
            assert(ids.contains(key));
        }
        assert forall|key: u64| #[trigger] store@.contains_key(key) implies store@[key].id == key
            && store@[key].tallied() by {
            assert(store.records().contains_key(key));
        }
        assert forall|key: u64| 1 <= key <= n implies #[trigger] store@.contains_key(key) by {
            assert(store.records().contains_key(key));
        }
    }
    true
}

/// The ledger that the memory holds, or an empty one if it holds none;
/// `None` if what the memory holds is not a ledger: see [`accept`].
pub fn open_ledger() -> (r: Option<ProposalStore>)
    ensures
        r matches Some(store) ==> ledger_wf(store),
{
    accept(ProposalStore::load())
}

/// Takes a store for a ledger if it is one: the store itself where
/// [`audit`] finds it sound, `None` where it does not.
pub fn accept(store: ProposalStore) -> (r: Option<ProposalStore>)
    ensures
        r is Some <==> ledger_wf(store),
        r matches Some(ledger) ==> ledger == store,
{
    if audit(&store) {
        Some(store)
    } else {
        None
    }
}

/// The proposal under `key`, if there is one. The ledger stays as it is.
pub fn get_proposal(store: &ProposalStore, key: u64) -> (r: Option<Proposal>)
    requires
        store.wf(),
    ensures
        r is Some <==> store@.contains_key(key),
        r matches Some(p) ==> p@ == store@[key],
{
    store.get(key)
}

/// The number of proposals. The ledger stays as it is.
pub fn get_proposal_count(store: &ProposalStore) -> (n: u64)
    requires
        store.wf(),
    ensures
        n == store@.dom().len(),
{
    store.len()
}

/// Creates a proposal owned by `caller`, without votes, and returns it. Its
/// id is the number of proposals so far, plus one. `None` means that nothing
/// was created: the proposal would have been too large to store, or no
/// 64-bit id is left.
pub fn create_proposal(store: &mut ProposalStore, caller: &Identity, proposal: CreateProposal) -> (r:
    Option<Proposal>)
    requires
        ledger_wf(*old(store)),
    ensures
        ledger_wf(*final(store)),
        r is Some <==> create_check(
            old(store)@,
            caller@,
            proposal.description@,
            proposal.is_active,
        ),
        r matches Some(p) ==> p@ == created(
            old(store)@,
            caller@,
            proposal.description@,
            proposal.is_active,
        ),
        final(store)@ == create_effect(
            old(store)@,
            caller@,
            proposal.description@,
            proposal.is_active,
        ),
        r is None ==> *final(store) == *old(store),
{
    let count: u64 = store.len();
    if count == u64::MAX {
        return None;
    }
    let proposal_id: u64 = count + 1;
    let value = Proposal::fresh(
        proposal_id,
        proposal.description,
        proposal.is_active,
        caller.clone(),
    );
    match store.put(proposal_id, &value) {
        Ok(_) => {
            proof {
                let m = old(store)@;
                assert(!m.contains_key(proposal_id));
                assert(m.insert(proposal_id, value@).dom() =~= m.dom().insert(proposal_id));
            }
            Some(value)
        },
        Err(_) => None,
    }
}

/// Replaces the description and the activity flag of the proposal under
/// `key`. Only its owner may do so; tallies, voters, owner and id stay.
pub fn edit_proposal(
    store: &mut ProposalStore,
    caller: &Identity,
    key: u64,
    proposal: CreateProposal,
) -> (r: Result<(), VoteError>)
    requires
        ledger_wf(*old(store)),
    ensures
        ledger_wf(*final(store)),
        r == edit_check(old(store)@, caller@, key, proposal.description@, proposal.is_active),
        final(store)@ == edit_effect(
            old(store)@,
            caller@,
            key,
            proposal.description@,
            proposal.is_active,
        ),
        r is Err ==> *final(store) == *old(store),
{
    let old_proposal = match store.get(key) {
        Some(value) => value,
        None => {
            return Err(VoteError::NoSuchProposal);
        },
    };
    if !old_proposal.is_owned_by(caller) {
        return Err(VoteError::AccessRejected);
    }
    let value = old_proposal.edited(proposal.description, proposal.is_active);
    let res = store.put(key, &value);
    proof {
        if res is Ok {
            lemma_replace_keeps_ok(old(store)@, key, value@);
        }
    }
    match res {
        Ok(Some(_)) => Ok(()),
        Ok(None) => Err(VoteError::UpdateError),
        Err(_) => Err(VoteError::UpdateError),
    }
}

/// Closes the proposal under `key`. Only its owner may do so.
pub fn end_proposal(store: &mut ProposalStore, caller: &Identity, key: u64) -> (r: Result<
    (),
    VoteError,
>)
    requires
        ledger_wf(*old(store)),
    ensures
        ledger_wf(*final(store)),
        r == end_check(old(store)@, caller@, key),
        final(store)@ == end_effect(old(store)@, caller@, key),
        r is Err ==> *final(store) == *old(store),
{
    let old_proposal = match store.get(key) {
        Some(value) => value,
        None => {
            return Err(VoteError::NoSuchProposal);
        },
    };
    if !old_proposal.is_owned_by(caller) {
        return Err(VoteError::AccessRejected);
    }
    proof {
        store.lemma_wf();
        lemma_record_len(old_proposal@);
        lemma_record_len(old_proposal@.ended());
    }
    let value = old_proposal.ended();
    let res = store.put(key, &value);
    proof {
        if res is Ok {
            lemma_replace_keeps_ok(old(store)@, key, value@);
        }
    }
    match res {
        Ok(Some(_)) => Ok(()),
        Ok(None) => Err(VoteError::UpdateError),
        Err(_) => Err(VoteError::UpdateError),
    }
}

/// Casts the vote of `caller` on the proposal under `key`: one tally goes up
/// by one and the caller joins the voters.
pub fn vote(store: &mut ProposalStore, caller: &Identity, key: u64, choice: Choice) -> (r: Result<
    (),
    VoteError,
>)
    requires
        ledger_wf(*old(store)),
    ensures
        ledger_wf(*final(store)),
        r == vote_check(old(store)@, caller@, key, choice),
        final(store)@ == vote_effect(old(store)@, caller@, key, choice),
        r is Err ==> *final(store) == *old(store),
{
    let proposal = match store.get(key) {
        Some(value) => value,
        None => {
            return Err(VoteError::NoSuchProposal);
        },
    };
    if proposal.has_voted(caller) {
        return Err(VoteError::AlreadyVoted);
    } else if proposal.is_active != true {
        return Err(VoteError::ProposalIsNotActive);
    }
    proof {
        store.lemma_wf();
        lemma_record_len(proposal@);
    }
    let value = proposal.with_vote(caller.clone(), choice);
    let res = store.put(key, &value);
    proof {
        if res is Ok {
            lemma_vote_keeps_tallied(proposal@, caller@, choice);
            lemma_replace_keeps_ok(old(store)@, key, value@);
        }
    }
    match res {
        Ok(Some(_)) => Ok(()),
        Ok(None) => Err(VoteError::UpdateError),
        Err(_) => Err(VoteError::UpdateError),
    }
}

} // verus!
