//! What holds of the ledger over whole histories of requests.
//!
//! A history is a sequence of [`Call`]s. [`step`] and [`reply`] say what one
//! call does to the ledger's model and what it answers; they are made of the
//! same spec functions that the contracts of the operations in
//! [`crate::ledger`] use, so a law proved here of `step` and `reply` is a law
//! of the operations.

use vstd::prelude::*;
use crate::ledger::{
    create_check, create_effect, created, edit_check, edit_effect, end_check, end_effect,
    ledger_ok, lemma_vote_keeps_tallied, vote_check, vote_effect,
};
use crate::proposal::{Choice, ProposalView, VoteError};

verus! {

/// A request to the ledger.
pub enum Request {
    Create { description: Seq<char>, is_active: bool },
    Edit { key: u64, description: Seq<char>, is_active: bool },
    End { key: u64 },
    Vote { key: u64, choice: Choice },
    Get { key: u64 },
    Count,
}

/// A request together with the identity that makes it.
pub struct Call {
    pub caller: Seq<u8>,
    pub request: Request,
}

/// The answer to a call.
pub enum Reply {
    Created(Option<ProposalView>),
    Done(Result<(), VoteError>),
    Found(Option<ProposalView>),
    Counted(nat),
}

/// The answer that the ledger `m` gives to `call`.
pub open spec fn reply(m: Map<u64, ProposalView>, call: Call) -> Reply {
    match call.request {
        Request::Create { description, is_active } => Reply::Created(
            if create_check(m, call.caller, description, is_active) {
                Some(created(m, call.caller, description, is_active))
            } else {
                None
            },
        ),
        Request::Edit { key, description, is_active } => Reply::Done(
            edit_check(m, call.caller, key, description, is_active),
        ),
        Request::End { key } => Reply::Done(end_check(m, call.caller, key)),
        Request::Vote { key, choice } => Reply::Done(vote_check(m, call.caller, key, choice)),
        Request::Get { key } => Reply::Found(
            if m.contains_key(key) {
                Some(m[key])
            } else {
                None
            },
        ),
        Request::Count => Reply::Counted(m.dom().len()),
    }
}

/// The ledger after `call`.
pub open spec fn step(m: Map<u64, ProposalView>, call: Call) -> Map<u64, ProposalView> {
    match call.request {
        Request::Create { description, is_active } => create_effect(
            m,
            call.caller,
            description,
            is_active,
        ),
        Request::Edit { key, description, is_active } => edit_effect(
            m,
            call.caller,
            key,
            description,
            is_active,
        ),
        Request::End { key } => end_effect(m, call.caller, key),
        Request::Vote { key, choice } => vote_effect(m, call.caller, key, choice),
        Request::Get { key } => m,
        Request::Count => m,
    }
}

/// The ledger after the calls of a history, in order.
pub open spec fn run(m: Map<u64, ProposalView>, calls: Seq<Call>) -> Map<u64, ProposalView>
    decreases calls.len(),
{
    if calls.len() == 0 {
        m
    } else {
        step(run(m, calls.drop_last()), calls.last())
    }
}

/// The answer to the call at position `at` of a history that starts in `m`.
pub open spec fn reply_at(m: Map<u64, ProposalView>, calls: Seq<Call>, at: int) -> Reply {
    reply(run(m, calls.take(at)), calls[at])
}

/// `q` may be a later state of the proposal `p`: id and owner are the same,
/// no tally has gone down, and the voters of `p` are the first voters of `q`.
pub open spec fn grown(p: ProposalView, q: ProposalView) -> bool {
    &&& q.id == p.id
    &&& q.owner == p.owner
    &&& p.approve <= q.approve
    &&& p.reject <= q.reject
    &&& p.voted.is_prefix_of(q.voted)
}

/// `b` may come after `a`: no proposal has gone, and each one has only
/// grown.
pub open spec fn follows(a: Map<u64, ProposalView>, b: Map<u64, ProposalView>) -> bool {
    &&& a.dom().len() <= b.dom().len()
    &&& forall|key: u64| #[trigger]
        a.contains_key(key) ==> b.contains_key(key) && grown(a[key], b[key])
}

/// One call keeps the invariant, and the ledger after it follows the ledger
/// before it.
pub proof fn lemma_step(m: Map<u64, ProposalView>, call: Call)
    requires
        ledger_ok(m),
    ensures
        ledger_ok(step(m, call)),
        follows(m, step(m, call)),
{
    let n = step(m, call);
    match call.request {
        Request::Create { description, is_active } => {
            if create_check(m, call.caller, description, is_active) {
                let p = created(m, call.caller, description, is_active);
                assert(!m.contains_key(p.id));
                assert(n.dom() =~= m.dom().insert(p.id));
                assert(p.voted.no_duplicates());
            }
        },
        Request::Edit { key, description, is_active } => {
            if edit_check(m, call.caller, key, description, is_active) is Ok {
                assert(n.dom() =~= m.dom());
            }
        },
        Request::End { key } => {
            if end_check(m, call.caller, key) is Ok {
                assert(n.dom() =~= m.dom());
            }
        },
        Request::Vote { key, choice } => {
            if vote_check(m, call.caller, key, choice) is Ok {
                assert(n.dom() =~= m.dom());
                lemma_vote_keeps_tallied(m[key], call.caller, choice);
            }
        },
        Request::Get { key } => {},
        Request::Count => {},
    }
}

/// A history keeps the invariant, and the ledger at a later position follows
/// the ledger at an earlier one.
pub proof fn lemma_run(m: Map<u64, ProposalView>, calls: Seq<Call>, from: int, to: int)
    requires
        ledger_ok(m),
        0 <= from <= to <= calls.len(),
    ensures
        ledger_ok(run(m, calls.take(from))),
        ledger_ok(run(m, calls.take(to))),
        follows(run(m, calls.take(from)), run(m, calls.take(to))),
    decreases to,
{
    if to == 0 {
    } else {
        let before = calls.take(to - 1);
        assert(calls.take(to).drop_last() =~= before);
        if from == to {
            lemma_run(m, calls, to - 1, to - 1);
            lemma_step(run(m, before), calls[to - 1]);
        } else {
            lemma_run(m, calls, from, to - 1);
            lemma_step(run(m, before), calls[to - 1]);
        }
    }
}

/// Uniqueness of ids: two proposals created in one history have different
/// ids, whatever else was asked of the ledger in between.
pub proof fn lemma_created_ids_differ(
    m: Map<u64, ProposalView>,
    calls: Seq<Call>,
    first: int,
    second: int,
)
    requires
        ledger_ok(m),
        0 <= first < second < calls.len(),
        reply_at(m, calls, first) matches Reply::Created(Some(_)),
        reply_at(m, calls, second) matches Reply::Created(Some(_)),
    ensures
        reply_at(m, calls, first)->Created_0->Some_0.id != reply_at(
            m,
            calls,
            second,
        )->Created_0->Some_0.id,
{
    let s1 = run(m, calls.take(first));
    let s2 = run(m, calls.take(first + 1));
    let s3 = run(m, calls.take(second));
    assert(calls.take(first + 1).drop_last() =~= calls.take(first));
    lemma_run(m, calls, first, first + 1);
    lemma_run(m, calls, first + 1, second);
    match calls[first].request {
        Request::Create { description, is_active } => {
            let p = created(s1, calls[first].caller, description, is_active);
            assert(!s1.contains_key(p.id));
            assert(s2.dom() =~= s1.dom().insert(p.id));
        },
        _ => {},
    }
}

/// One vote each: once a vote of an identity on a proposal was accepted,
/// every later vote of that identity on that proposal is answered with
/// `AlreadyVoted`, whatever the choice.
pub proof fn lemma_vote_once(m: Map<u64, ProposalView>, calls: Seq<Call>, first: int, second: int)
    requires
        ledger_ok(m),
        0 <= first < second < calls.len(),
        calls[first].request is Vote,
        calls[second].request is Vote,
        calls[first].caller == calls[second].caller,
        calls[first].request->Vote_key == calls[second].request->Vote_key,
        reply_at(m, calls, first) == Reply::Done(Ok(())),
    ensures
        reply_at(m, calls, second) == Reply::Done(Err(VoteError::AlreadyVoted)),
{
    let s1 = run(m, calls.take(first));
    let s2 = run(m, calls.take(first + 1));
    let who = calls[first].caller;
    let key = calls[first].request->Vote_key;
    assert(calls.take(first + 1).drop_last() =~= calls.take(first));
    lemma_run(m, calls, first + 1, second);
    let s3 = run(m, calls.take(second));
    let choice = calls[first].request->Vote_choice;
    assert(s2 == vote_effect(s1, who, key, choice));
    assert(s2.contains_key(key));
    let voters = s2[key].voted;
    assert(voters[voters.len() - 1] == who);
    assert(s2[key].has_voted(who));
    assert(s3.contains_key(key));
    assert(s3[key].voted[voters.len() - 1] == who);
}

/// What a history cannot undo: a proposal stays in the ledger under its id
/// and with its owner, its tallies never go down, and whoever has voted on it
/// stays among its voters.
pub proof fn lemma_proposals_only_grow(
    m: Map<u64, ProposalView>,
    calls: Seq<Call>,
    from: int,
    to: int,
    key: u64,
)
    requires
        ledger_ok(m),
        0 <= from <= to <= calls.len(),
        run(m, calls.take(from)).contains_key(key),
    ensures
        run(m, calls.take(to)).contains_key(key),
        grown(run(m, calls.take(from))[key], run(m, calls.take(to))[key]),
        forall|who: Seq<u8>|
            run(m, calls.take(from))[key].has_voted(who) ==> run(m, calls.take(to))[key].has_voted(
                who,
            ),
{
    lemma_run(m, calls, from, to);
    let p = run(m, calls.take(from))[key];
    let q = run(m, calls.take(to))[key];
    assert forall|who: Seq<u8>| p.has_voted(who) implies q.has_voted(who) by {
        let i = choose|i: int| 0 <= i < p.voted.len() && p.voted[i] == who;
        assert(q.voted[i] == who);
    }
}

/// Sound tallies: after any history, on every proposal the two tallies add
/// up to the number of its voters, and no identity occurs twice among them.
pub proof fn lemma_tallies_add_up(m: Map<u64, ProposalView>, calls: Seq<Call>, key: u64)
    requires
        ledger_ok(m),
        run(m, calls).contains_key(key),
    ensures
        run(m, calls)[key].approve + run(m, calls)[key].reject == run(m, calls)[key].voted.len(),
        run(m, calls)[key].voted.no_duplicates(),
{
    assert(calls.take(calls.len() as int) =~= calls);
    lemma_run(m, calls, 0, calls.len() as int);
}

/// The activity gate: a vote on a closed proposal is refused with
/// `ProposalIsNotActive`, unless the caller has voted on it before: then the
/// answer is `AlreadyVoted`. Either way the ledger stays as it was.
pub proof fn lemma_closed_proposal_takes_no_vote(
    m: Map<u64, ProposalView>,
    caller: Seq<u8>,
    key: u64,
    choice: Choice,
)
    requires
        m.contains_key(key),
        !m[key].is_active,
    ensures
        m[key].has_voted(caller) ==> vote_check(m, caller, key, choice) == Err::<(), VoteError>(
            VoteError::AlreadyVoted,
        ),
        !m[key].has_voted(caller) ==> vote_check(m, caller, key, choice) == Err::<(), VoteError>(
            VoteError::ProposalIsNotActive,
        ),
        vote_effect(m, caller, key, choice) == m,
{
}

/// Ownership: whoever is not the owner of a proposal can neither edit nor
/// close it. The answer is `AccessRejected` and the ledger stays as it was.
pub proof fn lemma_only_owner_changes(
    m: Map<u64, ProposalView>,
    caller: Seq<u8>,
    key: u64,
    description: Seq<char>,
    is_active: bool,
)
    requires
        m.contains_key(key),
        m[key].owner != caller,
    ensures
        edit_check(m, caller, key, description, is_active) == Err::<(), VoteError>(
            VoteError::AccessRejected,
        ),
        edit_effect(m, caller, key, description, is_active) == m,
        end_check(m, caller, key) == Err::<(), VoteError>(VoteError::AccessRejected),
        end_effect(m, caller, key) == m,
{
}

/// Reads change nothing: after any number of lookups and counts the ledger
/// is as before, so a read gives the same answer however often it is asked.
pub proof fn lemma_reads_change_nothing(m: Map<u64, ProposalView>, calls: Seq<Call>)
    requires
        forall|i: int|
            0 <= i < calls.len() ==> (#[trigger] calls[i]).request is Get || calls[i].request
                is Count,
    ensures
        run(m, calls) == m,
    decreases calls.len(),
{
    if calls.len() > 0 {
        lemma_reads_change_nothing(m, calls.drop_last());
        assert(calls.last() == calls[calls.len() - 1]);
    }
}

} // verus!
