//! Proposals and the changes that a single proposal can undergo.
//!
//! A proposal is a plain record. Its mathematical model is [`ProposalView`];
//! the spec functions of this module say what editing, closing and voting do
//! to one record, and the executable methods are proved against them.

use vstd::prelude::*;
use crate::identity::{contains_identity, identity_views, Identity};

verus! {

/// The two ways to vote.
#[derive(Clone, Copy, Debug, PartialEq, Eq, Structural)]
pub enum Choice {
    Approve,
    Reject,
}

/// Why an operation on a proposal was refused.
#[derive(Clone, Copy, Debug, PartialEq, Eq, Structural)]
pub enum VoteError {
    /// The caller has voted on the proposal before.
    AlreadyVoted,
    /// The proposal is closed.
    ProposalIsNotActive,
    /// No proposal has the given id.
    NoSuchProposal,
    /// The caller does not own the proposal.
    AccessRejected,
    /// The changed record could not be written; the proposal is as before.
    UpdateError,
}

/// What a caller supplies to create or edit a proposal.
#[derive(Debug, PartialEq, Eq)]
pub struct CreateProposal {
    pub description: String,
    pub is_active: bool,
}

/// A votable unit: an owner, a description, two tallies, the activity flag and
/// the identities that have voted so far, oldest first.
#[derive(Debug, PartialEq, Eq)]
pub struct Proposal {
    pub id: u64,
    pub description: String,
    pub approve: u32,
    pub reject: u32,
    pub is_active: bool,
    pub voted: Vec<Identity>,
    pub owner: Identity,
}

/// The mathematical model of a [`Proposal`].
pub struct ProposalView {
    pub id: u64,
    pub description: Seq<char>,
    pub approve: u32,
    pub reject: u32,
    pub is_active: bool,
    pub voted: Seq<Seq<u8>>,
    pub owner: Seq<u8>,
}

impl View for Proposal {
    type V = ProposalView;

    open spec fn view(&self) -> ProposalView {
        ProposalView {
            id: self.id,
            description: self.description@,
            approve: self.approve,
            reject: self.reject,
            is_active: self.is_active,
            voted: identity_views(self.voted@),
            owner: self.owner@,
        }
    }
}

impl ProposalView {
    /// A new proposal: no votes yet, owned by its creator.
    pub open spec fn fresh(id: u64, description: Seq<char>, is_active: bool, owner: Seq<u8>) -> ProposalView {
        ProposalView {
            id,
            description,
            approve: 0,
            reject: 0,
            is_active,
            voted: Seq::empty(),
            owner,
        }
    }

    /// The proposal with a new description and activity flag, all else kept.
    pub open spec fn edited(self, description: Seq<char>, is_active: bool) -> ProposalView {
        ProposalView { description, is_active, ..self }
    }

    /// The proposal, closed.
    pub open spec fn ended(self) -> ProposalView {
        ProposalView { is_active: false, ..self }
    }

    /// Whether `who` has voted on the proposal.
    pub open spec fn has_voted(self, who: Seq<u8>) -> bool {
        self.voted.contains(who)
    }

    /// The proposal after `who` cast `choice`: one tally goes up by one and
    /// `who` joins the voters at the end.
    pub open spec fn with_vote(self, who: Seq<u8>, choice: Choice) -> ProposalView {
        match choice {
            Choice::Approve => ProposalView {
                approve: (self.approve + 1) as u32,
                voted: self.voted.push(who),
                ..self
            },
            Choice::Reject => ProposalView {
                reject: (self.reject + 1) as u32,
                voted: self.voted.push(who),
                ..self
            },
        }
    }

    /// Every vote was counted once: the tallies add up to the number of
    /// voters, and nobody occurs twice among them.
    pub open spec fn tallied(self) -> bool {
        &&& self.approve + self.reject == self.voted.len()
        &&& self.voted.no_duplicates()
    }
}

/// Copies a list of identities.
fn clone_identities(ids: &Vec<Identity>) -> (copy: Vec<Identity>)
    ensures
        identity_views(copy@) == identity_views(ids@),
{
    let mut copy: Vec<Identity> = Vec::new();
    let mut i: usize = 0;
    while i < ids.len()
        invariant
            i <= ids.len(),
            copy.len() == i,
            forall|j: int| 0 <= j < i ==> copy@[j]@ == ids@[j]@,
        decreases ids.len() - i,
    {
        copy.push(ids[i].clone());
        i = i + 1;
    }
    assert(identity_views(copy@) =~= identity_views(ids@));
    copy
}

impl Clone for Proposal {
    fn clone(&self) -> (p: Proposal)
        ensures
            p@ == self@,
    {
        Proposal {
            id: self.id,
            description: self.description.clone(),
            approve: self.approve,
            reject: self.reject,
            is_active: self.is_active,
            voted: clone_identities(&self.voted),
            owner: self.owner.clone(),
        }
    }
}

impl Proposal {
    /// Makes a new proposal without votes.
    pub fn fresh(id: u64, description: String, is_active: bool, owner: Identity) -> (p: Proposal)
        ensures
            p@ == ProposalView::fresh(id, description@, is_active, owner@),
    {
        let p = Proposal {
            id,
            description,
            approve: 0,
            reject: 0,
            is_active,
            voted: Vec::new(),
            owner,
        };
        assert(p@.voted =~= Seq::empty());
        p
    }

    /// Tells whether `who` owns the proposal.
    pub fn is_owned_by(&self, who: &Identity) -> (owned: bool)
        ensures
            owned == (self@.owner == who@),
    {
        self.owner.same(who)
    }

    /// Tells whether `who` has voted on the proposal.
    pub fn has_voted(&self, who: &Identity) -> (voted: bool)
        ensures
            voted == self@.has_voted(who@),
    {
        contains_identity(&self.voted, who)
    }

    /// Replaces the description and the activity flag.
    pub fn edited(self, description: String, is_active: bool) -> (p: Proposal)
        ensures
            p@ == self@.edited(description@, is_active),
    {
        Proposal {
            id: self.id,
            description,
            approve: self.approve,
            reject: self.reject,
            is_active,
            voted: self.voted,
            owner: self.owner,
        }
    }

    /// Closes the proposal.
    pub fn ended(self) -> (p: Proposal)
        ensures
            p@ == self@.ended(),
    {
        let mut p = self;
        p.is_active = false;
        p
    }

    /// Counts a vote of `who`.
    pub fn with_vote(self, who: Identity, choice: Choice) -> (p: Proposal)
        requires
            choice == Choice::Approve ==> self.approve < u32::MAX,
            choice == Choice::Reject ==> self.reject < u32::MAX,
        ensures
            p@ == self@.with_vote(who@, choice),
    {
        let mut p = self;
        match choice {
            Choice::Approve => {
                p.approve = p.approve + 1;
            },
            Choice::Reject => {
                p.reject = p.reject + 1;
            },
        }
        p.voted.push(who);
        assert(p@.voted =~= self@.voted.push(who@));
        p
    }
}

} // verus!
