//! The weighted-voting governance engine. Proposal `id` is stored at position
//! `id - 1`, so ids run from 1 with no gaps.
use vstd::prelude::*;

use crate::table::{lemma_pair_key_injective, pair_key, pair_key_spec};
use crate::token::SyndicateToken;
use crate::Address;

verus! {

/// Why a governance operation was refused. A refused operation changes nothing.
#[derive(Debug, Clone, Copy, PartialEq, Eq, Structural)]
pub enum GovernanceError {
    ProposalNotFound,
    AlreadyVoted,
    TokenContractNotSet,
    NoVotingPower,
    ProposalAlreadyExecuted,
    ProposalDidNotPass,
    /// A tally would exceed what a `u128` holds.
    TallyOverflow,
}

/// A proposal with its weighted tallies.
#[derive(Debug)]
pub struct Proposal {
    pub title: String,
    pub description: String,
    pub creator: Address,
    pub created_at: u64,
    pub yes_votes: u128,
    pub no_votes: u128,
    pub executed: bool,
}

/// `p` with `power` added to the side chosen by `support`.
pub open spec fn tallied(p: Proposal, support: bool, power: nat) -> Proposal {
    if support {
        Proposal { yes_votes: (p.yes_votes + power) as u128, ..p }
    } else {
        Proposal { no_votes: (p.no_votes + power) as u128, ..p }
    }
}

fn copy_proposal(p: &Proposal) -> (r: Proposal)
    ensures
        r == *p,
{
    Proposal {
        title: p.title.clone(),
        description: p.description.clone(),
        creator: p.creator,
        created_at: p.created_at,
        yes_votes: p.yes_votes,
        no_votes: p.no_votes,
        executed: p.executed,
    }
}

/// Proposals, vote records and the configured token ledger.
pub struct Governance {
    token_contract: Option<Address>,
    proposals: Vec<Proposal>,
    has_voted: Vec<u128>,
}

impl Governance {
    /// The proposals in order of creation; id `i` is at position `i - 1`.
    pub closed spec fn spec_proposals(&self) -> Seq<Proposal> {
        self.proposals@
    }

    /// Whether `voter` has voted on proposal `id`.
    pub closed spec fn spec_voted(&self, id: u64, voter: Address) -> bool {
        self.has_voted@.contains(pair_key_spec(id, voter))
    }

    pub closed spec fn spec_token_contract(&self) -> Option<Address> {
        self.token_contract
    }

    pub open spec fn spec_count(&self) -> nat {
        self.spec_proposals().len()
    }

    pub open spec fn has_proposal(&self, id: u64) -> bool {
        1 <= id <= self.spec_count()
    }

    pub open spec fn spec_proposal(&self, id: u64) -> Proposal {
        self.spec_proposals()[id - 1]
    }

    pub open spec fn wf(&self) -> bool {
        self.spec_count() <= u64::MAX
    }

    /// The first guard of `vote` that fails, given the caller's voting power.
    pub open spec fn vote_error(&self, caller: Address, id: u64, support: bool, power: nat) -> Option<
        GovernanceError,
    > {
        if !self.has_proposal(id) {
            Some(GovernanceError::ProposalNotFound)
        } else if self.spec_voted(id, caller) {
            Some(GovernanceError::AlreadyVoted)
        } else if self.spec_proposal(id).executed {
            Some(GovernanceError::ProposalAlreadyExecuted)
        } else if self.spec_token_contract().is_none() {
            Some(GovernanceError::TokenContractNotSet)
        } else if power == 0 {
            Some(GovernanceError::NoVotingPower)
        } else if (if support {
            self.spec_proposal(id).yes_votes
        } else {
            self.spec_proposal(id).no_votes
        }) + power > u128::MAX {
            Some(GovernanceError::TallyOverflow)
        } else {
            None
        }
    }

    /// `next` is `self` after `caller`'s vote of weight `power` on `id`.
    pub open spec fn vote_applied(
        &self,
        next: &Self,
        caller: Address,
        id: u64,
        support: bool,
        power: nat,
    ) -> bool {
        &&& next.spec_token_contract() == self.spec_token_contract()
        &&& next.spec_proposals() == self.spec_proposals().update(
            id - 1,
            tallied(self.spec_proposal(id), support, power),
        )
        &&& forall|i: u64, v: Address| #[trigger]
            next.spec_voted(i, v) == (self.spec_voted(i, v) || (i == id && v == caller))
    }

    /// The first guard of `execute_proposal` that fails.
    pub open spec fn execute_error(&self, id: u64) -> Option<GovernanceError> {
        if !self.has_proposal(id) {
            Some(GovernanceError::ProposalNotFound)
        } else if self.spec_proposal(id).executed {
            Some(GovernanceError::ProposalAlreadyExecuted)
        } else if self.spec_proposal(id).yes_votes <= self.spec_proposal(id).no_votes {
            Some(GovernanceError::ProposalDidNotPass)
        } else {
            None
        }
    }

    /// `next` is `self` with proposal `id` marked executed.
    pub open spec fn execute_applied(&self, next: &Self, id: u64) -> bool {
        &&& next.spec_token_contract() == self.spec_token_contract()
        &&& next.spec_proposals() == self.spec_proposals().update(
            id - 1,
            Proposal { executed: true, ..self.spec_proposal(id) },
        )
        &&& forall|i: u64, v: Address| #[trigger] next.spec_voted(i, v) == self.spec_voted(i, v)
    }

    /// An engine with no ledger configured and no proposals.
    pub fn new() -> (r: Governance)
        ensures
            r.wf(),
            r.spec_token_contract().is_none(),
            r.spec_count() == 0,
            forall|i: u64, v: Address| !#[trigger] r.spec_voted(i, v),
    {
        Governance { token_contract: None, proposals: Vec::new(), has_voted: Vec::new() }
    }

    /// Configures the token ledger and starts over with no proposals and no
    /// votes.
    pub fn init(&mut self, token_contract_hash: Address)
        ensures
            final(self).wf(),
            final(self).spec_token_contract() == Some(token_contract_hash),
            final(self).spec_count() == 0,
            forall|i: u64, v: Address| !#[trigger] final(self).spec_voted(i, v),
    {
        self.token_contract = Some(token_contract_hash);
        self.proposals = Vec::new();
        self.has_voted = Vec::new();
    }

    /// Adds a proposal by `caller` at time `now`, with zero tallies, and
    /// returns its id: one more than the number of proposals before.
    pub fn create_proposal(
        &mut self,
        caller: Address,
        now: u64,
        title: String,
        description: String,
    ) -> (r: u64)
        requires
            old(self).spec_count() < u64::MAX,
        ensures
            final(self).wf(),
            r == old(self).spec_count() + 1,
            final(self).spec_token_contract() == old(self).spec_token_contract(),
            final(self).spec_proposals() == old(self).spec_proposals().push(
                Proposal {
                    title,
                    description,
                    creator: caller,
                    created_at: now,
                    yes_votes: 0,
                    no_votes: 0,
                    executed: false,
                },
            ),
            forall|i: u64, v: Address| #[trigger]
                final(self).spec_voted(i, v) == old(self).spec_voted(i, v),
    {
        self.proposals.push(
            Proposal {
                title,
                description,
                creator: caller,
                created_at: now,
                yes_votes: 0,
                no_votes: 0,
                executed: false,
            },
        );
        self.proposals.len() as u64
    }

    /// The position of proposal `id`, where it exists.
    fn index_of(&self, id: u64) -> (r: Option<usize>)
        ensures
            match r {
                Some(i) => self.has_proposal(id) && i == id - 1,
                None => !self.has_proposal(id),
            },
    {
        if id == 0 || id as u128 > self.proposals.len() as u128 {
            None
        } else {
            Some((id - 1) as usize)
        }
    }

    fn voted(&self, id: u64, voter: Address) -> (r: bool)
        ensures
            r == self.spec_voted(id, voter),
    {
        let key = pair_key(id, voter);
        let mut i: usize = 0;
        while i < self.has_voted.len()
            invariant
                i <= self.has_voted@.len(),
                key == pair_key_spec(id, voter),
                forall|j: int| 0 <= j < i ==> self.has_voted@[j] != key,
            decreases self.has_voted@.len() - i,
        {
            if self.has_voted[i] == key {
                proof {
                    assert(self.has_voted@[i as int] == key);
                }
                return true;
            }
            i = i + 1;
        }
        false
    }

    /// Casts `caller`'s vote on proposal `proposal_id`, weighted by the
    /// caller's balance in `ledger` at this moment. `ledger` is the ledger at
    /// the configured token address. The guards are checked in the order of
    /// `vote_error`; the first that fails is returned and nothing changes.
    pub fn vote(
        &mut self,
        caller: Address,
        proposal_id: u64,
        support: bool,
        ledger: &SyndicateToken,
    ) -> (r: Result<(), GovernanceError>)
        requires
            old(self).wf(),
            ledger.wf(),
        ensures
            final(self).wf(),
            match old(self).vote_error(caller, proposal_id, support, ledger.spec_balance(caller)) {
                Some(e) => r == Err::<(), GovernanceError>(e) && *final(self) == *old(self),
                None => r == Ok::<(), GovernanceError>(()) && old(self).vote_applied(
                    &*final(self),
                    caller,
                    proposal_id,
                    support,
                    ledger.spec_balance(caller),
                ),
            },
    {
        let idx = match self.index_of(proposal_id) {
            Some(i) => i,
            None => {
                return Err(GovernanceError::ProposalNotFound);
            },
        };
        if self.voted(proposal_id, caller) {
            return Err(GovernanceError::AlreadyVoted);
        }
        if self.proposals[idx].executed {
            return Err(GovernanceError::ProposalAlreadyExecuted);
        }
        if self.token_contract.is_none() {
            return Err(GovernanceError::TokenContractNotSet);
        }
        let voting_power = ledger.balance_of(caller);
        if voting_power == 0 {
            return Err(GovernanceError::NoVotingPower);
        }
        let current = if support {
            self.proposals[idx].yes_votes
        } else {
            self.proposals[idx].no_votes
        };
        if voting_power > u128::MAX - current {
            return Err(GovernanceError::TallyOverflow);
        }
        let ghost before = *self;
        let key = pair_key(proposal_id, caller);
        self.has_voted.push(key);
        let mut p = copy_proposal(&self.proposals[idx]);
        if support {
            p.yes_votes = p.yes_votes + voting_power;
        } else {
            p.no_votes = p.no_votes + voting_power;
        }
        self.proposals.set(idx, p);
        proof {
            assert forall|i: u64, v: Address| #[trigger]
                self.spec_voted(i, v) == (before.spec_voted(i, v) || (i == proposal_id && v
                    == caller)) by {
                assert(self.has_voted@ == before.has_voted@.push(key));
                if pair_key_spec(i, v) == key {
                    lemma_pair_key_injective(i, v, proposal_id, caller);
                }
                if before.has_voted@.contains(pair_key_spec(i, v)) {
                    let j = choose|j: int|
                        0 <= j < before.has_voted@.len() && before.has_voted@[j] == pair_key_spec(
                            i,
                            v,
                        );
                    assert(self.has_voted@[j] == pair_key_spec(i, v));
                }
                if self.has_voted@.contains(pair_key_spec(i, v)) && pair_key_spec(i, v) != key {
                    let j = choose|j: int|
                        0 <= j < self.has_voted@.len() && self.has_voted@[j] == pair_key_spec(
                            i,
                            v,
                        );
                    assert(before.has_voted@[j] == pair_key_spec(i, v));
                }
                assert(self.has_voted@[self.has_voted@.len() - 1] == key);
            }
        }
        Ok(())
    }

    /// Marks proposal `proposal_id` executed where it has strictly more yes
    /// than no votes and was not executed before.
    pub fn execute_proposal(&mut self, proposal_id: u64) -> (r: Result<(), GovernanceError>)
        requires
            old(self).wf(),
        ensures
            final(self).wf(),
            match old(self).execute_error(proposal_id) {
                Some(e) => r == Err::<(), GovernanceError>(e) && *final(self) == *old(self),
                None => r == Ok::<(), GovernanceError>(()) && old(self).execute_applied(
                    &*final(self),
                    proposal_id,
                ),
            },
    {
        let idx = match self.index_of(proposal_id) {
            Some(i) => i,
            None => {
                return Err(GovernanceError::ProposalNotFound);
            },
        };
        if self.proposals[idx].executed {
            return Err(GovernanceError::ProposalAlreadyExecuted);
        }
        if self.proposals[idx].yes_votes <= self.proposals[idx].no_votes {
            return Err(GovernanceError::ProposalDidNotPass);
        }
        let mut p = copy_proposal(&self.proposals[idx]);
        p.executed = true;
        self.proposals.set(idx, p);
        Ok(())
    }

    pub fn get_proposal(&self, proposal_id: u64) -> (r: Option<Proposal>)
        ensures
            r == if self.has_proposal(proposal_id) {
                Some(self.spec_proposal(proposal_id))
            } else {
                None::<Proposal>
            },
    {
        match self.index_of(proposal_id) {
            Some(i) => Some(copy_proposal(&self.proposals[i])),
            None => None,
        }
    }

    /// The (yes, no) tallies of proposal `proposal_id`.
    pub fn get_proposal_votes(&self, proposal_id: u64) -> (r: Result<(u128, u128), GovernanceError>)
        ensures
            r == if self.has_proposal(proposal_id) {
                Ok::<(u128, u128), GovernanceError>(
                    (
                        self.spec_proposal(proposal_id).yes_votes,
                        self.spec_proposal(proposal_id).no_votes,
                    ),
                )
            } else {
                Err::<(u128, u128), GovernanceError>(GovernanceError::ProposalNotFound)
            },
    {
        match self.index_of(proposal_id) {
            Some(i) => Ok((self.proposals[i].yes_votes, self.proposals[i].no_votes)),
            None => Err(GovernanceError::ProposalNotFound),
        }
    }

    pub fn has_user_voted(&self, proposal_id: u64, voter: Address) -> (r: bool)
        ensures
            r == self.spec_voted(proposal_id, voter),
    {
        self.voted(proposal_id, voter)
    }

    pub fn get_token_contract(&self) -> (r: Option<Address>)
        ensures
            r == self.spec_token_contract(),
    {
        self.token_contract
    }

    pub fn get_proposal_count(&self) -> (r: u64)
        requires
            self.wf(),
        ensures
            r == self.spec_count(),
    {
        self.proposals.len() as u64
    }
    /// After a vote of `caller` on `id` has been recorded, every further
    /// vote of `caller` on `id` is refused as a repeat, whatever its side
    /// and weight, and so leaves the tallies as they were.
    pub proof fn lemma_single_vote(
        before: &Self,
        after: &Self,
        caller: Address,
        id: u64,
        support: bool,
        power: nat,
        support2: bool,
        power2: nat,
    )
        requires
            before.vote_error(caller, id, support, power).is_none(),
            before.vote_applied(after, caller, id, support, power),
        ensures
            after.vote_error(caller, id, support2, power2) == Some(GovernanceError::AlreadyVoted),
    {
        assert(after.spec_voted(id, caller));
    }

    /// A proposal that exists is executed exactly when it was not executed
    /// before and has strictly more yes than no votes; a tie or a deficit
    /// is refused as not passed.
    pub proof fn lemma_execute_condition(g: &Self, id: u64)
        requires
            g.has_proposal(id),
        ensures
            g.execute_error(id).is_none() <==> (!g.spec_proposal(id).executed
                && g.spec_proposal(id).yes_votes > g.spec_proposal(id).no_votes),
            !g.spec_proposal(id).executed && g.spec_proposal(id).yes_votes <= g.spec_proposal(
                id,
            ).no_votes ==> g.execute_error(id) == Some(GovernanceError::ProposalDidNotPass),
    {
    }

    /// Once a proposal has been executed, executing it again is refused as
    /// already done.
    pub proof fn lemma_execute_once(before: &Self, after: &Self, id: u64)
        requires
            before.execute_error(id).is_none(),
            before.execute_applied(after, id),
        ensures
            after.execute_error(id) == Some(GovernanceError::ProposalAlreadyExecuted),
    {
        assert(after.spec_proposal(id).executed);
    }

    /// Creating a proposal gives it the id one above the largest id in use:
    /// ids start at 1, rise by one, and are never reused; every earlier
    /// proposal keeps its id.
    pub proof fn lemma_proposal_ids(before: &Self, after: &Self, p: Proposal)
        requires
            before.spec_count() < u64::MAX,
            after.spec_proposals() == before.spec_proposals().push(p),
        ensures
            !before.has_proposal((before.spec_count() + 1) as u64),
            after.has_proposal(
                (before.spec_count() + 1) as u64,
            ) && after.spec_proposal((before.spec_count() + 1) as u64) == p,
            forall|i: u64| #[trigger]
                before.has_proposal(i) ==> i < before.spec_count() + 1 && after.has_proposal(i)
                    && after.spec_proposal(i) == before.spec_proposal(i),
            before.spec_count() == 0 ==> after.has_proposal(1) && after.spec_count() == 1,
    {
    }
}

} // verus!
