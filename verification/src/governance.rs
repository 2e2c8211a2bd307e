//! The governance engine: proposal lifecycle, weighted voting and
//! pass/fail resolution.
//!
//! A proposal is `Active` until finalized after its voting window, and then
//! `Passed`, `Rejected` or `Expired`; it never becomes `Active` again.
//! Voting weight is the voter's spendable balance at the moment of the
//! call.  The recorded approval threshold and voting-mechanism tag are
//! carried but deliberately not elaborated: resolution compares ayes
//! against nays, and every mechanism resolves to the same weight.

use vstd::prelude::*;
use crate::balances::CurrencyError;
use crate::ids::AccountId;
use crate::ids::Balance;
use crate::ids::BlockNumber;
use crate::ids::ClubId;
use crate::ids::ClubItemAccountKey;
use crate::ids::ClubItemKey;
use crate::ids::ProposalId;
use crate::state::Config;
use crate::state::RuntimeEvent;
use crate::store::KeyedMap;

verus! {

/// What a proposal is about.
#[derive(Clone, Copy, PartialEq, Eq, Structural, Debug)]
pub enum ProposalType {
    /// An investment requiring due diligence.
    Investment,
    /// Club management.
    Operational,
    /// Rapid response.
    Emergency,
    /// A fundamental rule change.
    Constitutional,
}

/// How votes are meant to be weighed.  All variants currently resolve to
/// the voter's balance; the tag is carried, not elaborated.
#[derive(Clone, Copy, PartialEq, Eq, Structural, Debug)]
pub enum VotingMechanism {
    /// Simple weighted majority.
    SimpleMajority,
    /// Quadratic voting.
    Quadratic,
    /// Conviction voting.
    Conviction,
    /// Delegated voting.
    Delegated,
}

/// A voter's choice.
#[derive(Clone, Copy, PartialEq, Eq, Structural, Debug)]
pub enum VoteChoice {
    /// In favor.
    Aye,
    /// Against.
    Nay,
    /// Neither.
    Abstain,
}

/// The lifecycle of a proposal.
#[derive(Clone, Copy, PartialEq, Eq, Structural, Debug)]
pub enum ProposalStatus {
    /// Accepting votes until its window ends.
    Active,
    /// Finalized with more aye than nay weight.
    Passed,
    /// Finalized without an aye majority.
    Rejected,
    /// Finalized with no votes at all.
    Expired,
    /// Withdrawn.
    Cancelled,
}

/// A governance item subject to weighted voting.
#[derive(Clone, PartialEq, Eq, Debug)]
pub struct Proposal {
    /// Identifier, unique within the club.
    pub id: ProposalId,
    /// The owning club.
    pub club_id: ClubId,
    /// Who proposed, and paid the deposit.
    pub proposer: u64,
    /// What the proposal is about.
    pub proposal_type: ProposalType,
    /// The recorded weighing rule.
    pub voting_mechanism: VotingMechanism,
    /// Short title.
    pub title: Vec<u8>,
    /// Full description.
    pub description: Vec<u8>,
    /// The deposit reserved from the proposer.
    pub deposit: Balance,
    /// Height at which the proposal was created.
    pub created_at: BlockNumber,
    /// Last height at which votes are accepted.
    pub voting_end: BlockNumber,
    /// Lifecycle state.
    pub status: ProposalStatus,
    /// Accumulated aye weight.
    pub aye_votes: Balance,
    /// Accumulated nay weight.
    pub nay_votes: Balance,
    /// Accumulated abstain weight.
    pub abstain_votes: Balance,
    /// Recorded approval threshold, in percent; carried, not consulted.
    pub approval_threshold: u8,
}

/// One account's immutable vote on one proposal.
#[derive(Clone, Copy, PartialEq, Eq, Structural, Debug)]
pub struct Vote {
    /// The voting account.
    pub voter: u64,
    /// Its choice.
    pub choice: VoteChoice,
    /// Its weight: the voter's free balance when the vote was cast.
    pub power: Balance,
    /// Height at which the vote was cast.
    pub cast_at: BlockNumber,
}

/// How a governance operation fails.  Every failure leaves the state
/// untouched.
#[derive(Clone, Copy, PartialEq, Eq, Structural, Debug)]
pub enum Error {
    /// The referenced proposal does not exist.
    NotFound,
    /// The proposal is not in the state the operation needs.
    InvalidState,
    /// Too late to vote, or too early to finalize.
    VotingPeriodEnded,
    /// The proposer's free balance does not cover the deposit.
    InsufficientFunds,
    /// The club's active-proposal cap, an id space or a text bound is
    /// exhausted.
    LimitExceeded,
    /// The approval threshold is outside 1 ..= 100.
    InvalidApprovalThreshold,
    /// The account has already voted on this proposal.
    AlreadyVoted,
    /// The voting duration exceeds the configured maximum.
    InvalidVotingDuration,
}

/// What the governance engine announces on success.
#[derive(Clone, PartialEq, Eq, Debug)]
pub enum Event {
    /// A proposal was created.
    ProposalCreated {
        /// The owning club.
        club_id: ClubId,
        /// The new proposal.
        proposal_id: ProposalId,
        /// Who proposed.
        proposer: u64,
        /// What it is about.
        proposal_type: ProposalType,
    },
    /// A vote was cast.
    VoteCast {
        /// The owning club.
        club_id: ClubId,
        /// The voted proposal.
        proposal_id: ProposalId,
        /// Who voted.
        voter: u64,
        /// The choice.
        choice: VoteChoice,
        /// The weight it carried.
        power: Balance,
    },
    /// A proposal passed.
    ProposalPassed {
        /// The owning club.
        club_id: ClubId,
        /// The passed proposal.
        proposal_id: ProposalId,
    },
    /// A proposal was rejected.
    ProposalRejected {
        /// The owning club.
        club_id: ClubId,
        /// The rejected proposal.
        proposal_id: ProposalId,
    },
    /// A proposal expired without votes.
    ProposalExpired {
        /// The owning club.
        club_id: ClubId,
        /// The expired proposal.
        proposal_id: ProposalId,
    },
}

/// The governance engine's persistent state.
pub struct Governance {
    pub(crate) proposals: KeyedMap<ClubItemKey, Proposal>,
    pub(crate) votes: KeyedMap<ClubItemAccountKey, Vote>,
    pub(crate) proposal_counts: KeyedMap<ClubId, u64>,
    pub(crate) active_proposals: KeyedMap<ClubId, Vec<ProposalId>>,
}

impl Governance {
    /// All proposals, by (club, id).
    pub closed spec fn proposals_map(self) -> Map<ClubItemKey, Proposal> {
        self.proposals@
    }

    /// All votes, by (club, proposal, account).
    pub closed spec fn votes_map(self) -> Map<ClubItemAccountKey, Vote> {
        self.votes@
    }

    /// How many proposal ids `club` has allocated.
    pub closed spec fn proposal_count_of(self, club: ClubId) -> int {
        if self.proposal_counts@.contains_key(club) {
            self.proposal_counts@[club] as int
        } else {
            0
        }
    }

    /// The ids of `club`'s proposals still counted against its cap.
    pub closed spec fn active_list_of(self, club: ClubId) -> Seq<ProposalId> {
        if self.active_proposals@.contains_key(club) {
            self.active_proposals@[club]@
        } else {
            Seq::empty()
        }
    }

    /// Every stored proposal is coherent with its key and its id was
    /// allocated; every vote names its voter.
    pub open spec fn wf_records(self) -> bool {
        &&& forall|k: ClubItemKey| #[trigger]
            self.proposals_map().contains_key(k) ==> {
                let p = self.proposals_map()[k];
                &&& p.id == k.item
                &&& p.club_id == k.club
                &&& k.item < self.proposal_count_of(k.club)
            }
        &&& forall|k: ClubItemAccountKey| #[trigger]
            self.votes_map().contains_key(k) ==> self.votes_map()[k].voter == k.who
    }

    /// The underlying stores are maps.
    pub closed spec fn wf_maps(self) -> bool {
        &&& self.proposals.wf()
        &&& self.votes.wf()
        &&& self.proposal_counts.wf()
        &&& self.active_proposals.wf()
    }

    /// The whole governance invariant.
    pub open spec fn wf(self) -> bool {
        &&& self.wf_maps()
        &&& self.wf_records()
    }

    /// A governance engine that has never seen an operation.
    pub fn new() -> (r: Governance)
        ensures
            r.wf(),
            r.proposals_map() == Map::<ClubItemKey, Proposal>::empty(),
            r.votes_map() == Map::<ClubItemAccountKey, Vote>::empty(),
            forall|c: ClubId| #[trigger] r.proposal_count_of(c) == 0,
            forall|c: ClubId| #[trigger] r.active_list_of(c) == Seq::<ProposalId>::empty(),
    {
        Governance {
            proposals: KeyedMap::new(),
            votes: KeyedMap::new(),
            proposal_counts: KeyedMap::new(),
            active_proposals: KeyedMap::new(),
        }
    }
}

} // verus!

verus! {

/// `s` with every occurrence of `x` taken out, order kept.
pub open spec fn remove_all(s: Seq<ProposalId>, x: ProposalId) -> Seq<ProposalId>
    decreases s.len(),
{
    if s.len() == 0 {
        Seq::empty()
    } else if s.last() == x {
        remove_all(s.drop_last(), x)
    } else {
        remove_all(s.drop_last(), x).push(s.last())
    }
}

/// A copy of `v` with every occurrence of `x` taken out.
fn remove_id(v: &Vec<ProposalId>, x: ProposalId) -> (r: Vec<ProposalId>)
    ensures
        r@ == remove_all(v@, x),
{
    let mut r: Vec<ProposalId> = Vec::new();
    let n = v.len();
    let mut i: usize = 0;
    while i < n
        invariant
            n == v@.len(),
            0 <= i <= n,
            r@ == remove_all(v@.subrange(0, i as int), x),
        decreases n - i,
    {
        proof {
            assert(v@.subrange(0, i + 1).drop_last() =~= v@.subrange(0, i as int));
            assert(v@.subrange(0, i + 1).last() == v@[i as int]);
        }
        if v[i] != x {
            r.push(v[i]);
        }
        i += 1;
    }
    proof {
        assert(v@.subrange(0, n as int) =~= v@);
    }
    r
}

impl Governance {
    /// The proposal counter of `club`, read from the store.
    fn proposal_count_get(&self, club_id: ClubId) -> (r: u64)
        requires
            self.wf_maps(),
        ensures
            r == self.proposal_count_of(club_id),
    {
        self.proposal_counts.get_or(club_id, 0)
    }

    /// The active-proposal ids of `club`, copied from the store.
    fn active_list_get(&self, club_id: ClubId) -> (r: Vec<ProposalId>)
        requires
            self.wf_maps(),
        ensures
            r@ == self.active_list_of(club_id),
    {
        match self.active_proposals.get(club_id) {
            Some(v) => crate::store::copy_vec(v),
            None => Vec::new(),
        }
    }

}

impl crate::state::Chain {
    /// Create a proposal for `club_id`: reserve the configured deposit
    /// from `proposer`, allocate the next proposal id, and open a voting
    /// window of `voting_duration` blocks with zeroed tallies.
    ///
    /// Fails with `InvalidVotingDuration` beyond the configured maximum,
    /// `InvalidApprovalThreshold` outside 1 ..= 100, `InsufficientFunds`
    /// when the deposit cannot be reserved, and `LimitExceeded` when the
    /// club's id space, its active-proposal cap, or a text bound is
    /// exhausted; a failure changes nothing.
    pub fn create_proposal(
        &mut self,
        club_id: ClubId,
        proposer: u64,
        proposal_type: ProposalType,
        voting_mechanism: VotingMechanism,
        title: Vec<u8>,
        description: Vec<u8>,
        voting_duration: BlockNumber,
        approval_threshold: u8,
    ) -> (r: Result<(), Error>)
        requires
            old(self).wf(),
        ensures
            final(self).wf(),
            r is Err ==> *final(self) == *old(self),
            r is Ok <==> voting_duration <= old(self).config.max_voting_duration && 0
                < approval_threshold <= 100 && old(self).balances.free_of(AccountId::User(proposer))
                >= old(self).config.min_proposal_deposit && old(self).governance.proposal_count_of(
                club_id,
            ) < u64::MAX && old(self).governance.active_list_of(club_id).len() < old(
                self,
            ).config.max_proposals_per_club && title@.len() <= crate::state::MAX_TITLE_LEN
                && description@.len() <= crate::state::MAX_DESCRIPTION_LEN,
            voting_duration > old(self).config.max_voting_duration ==> r == Err::<(), Error>(
                Error::InvalidVotingDuration,
            ),
            voting_duration <= old(self).config.max_voting_duration && !(0 < approval_threshold
                <= 100) ==> r == Err::<(), Error>(Error::InvalidApprovalThreshold),
            voting_duration <= old(self).config.max_voting_duration && 0 < approval_threshold <= 100
                && old(self).balances.free_of(AccountId::User(proposer)) < old(
                self,
            ).config.min_proposal_deposit ==> r == Err::<(), Error>(Error::InsufficientFunds),
            voting_duration <= old(self).config.max_voting_duration && 0 < approval_threshold <= 100
                && old(self).balances.free_of(AccountId::User(proposer)) >= old(
                self,
            ).config.min_proposal_deposit && r is Err ==> r == Err::<(), Error>(
                Error::LimitExceeded,
            ),
            r is Ok ==> ({
                let id = old(self).governance.proposal_count_of(club_id) as u64;
                let k = ClubItemKey { club: club_id, item: id };
                let p = final(self).governance.proposals_map()[k];
                &&& !old(self).governance.proposals_map().contains_key(k)
                &&& final(self).governance.proposals_map().contains_key(k)
                &&& final(self).governance.proposals_map() == old(
                    self,
                ).governance.proposals_map().insert(k, p)
                &&& p.id == id
                &&& p.club_id == club_id
                &&& p.proposer == proposer
                &&& p.proposal_type == proposal_type
                &&& p.voting_mechanism == voting_mechanism
                &&& p.title@ == title@
                &&& p.description@ == description@
                &&& p.deposit == old(self).config.min_proposal_deposit
                &&& p.created_at == old(self).height
                &&& p.voting_end == crate::arith::spec_sat_add_u32(
                    old(self).height,
                    voting_duration,
                )
                &&& p.status is Active
                &&& p.aye_votes == 0
                &&& p.nay_votes == 0
                &&& p.abstain_votes == 0
                &&& p.approval_threshold == approval_threshold
                &&& final(self).governance.proposal_count_of(club_id) == id + 1
                &&& forall|c: ClubId|
                    c != club_id ==> #[trigger] final(self).governance.proposal_count_of(c) == old(
                        self,
                    ).governance.proposal_count_of(c)
                &&& final(self).governance.active_list_of(club_id) == old(
                    self,
                ).governance.active_list_of(club_id).push(id)
                &&& forall|c: ClubId|
                    c != club_id ==> #[trigger] final(self).governance.active_list_of(c) == old(
                        self,
                    ).governance.active_list_of(c)
                &&& final(self).governance.votes_map() == old(self).governance.votes_map()
                &&& final(self).balances.free_of(AccountId::User(proposer)) == old(
                    self,
                ).balances.free_of(AccountId::User(proposer)) - p.deposit
                &&& final(self).balances.reserved_of(AccountId::User(proposer)) == old(
                    self,
                ).balances.reserved_of(AccountId::User(proposer)) + p.deposit
                &&& forall|a: AccountId|
                    a != AccountId::User(proposer) ==> final(self).balances.account(a) == old(
                        self,
                    ).balances.account(a)
                &&& final(self).balances.issuance() == old(self).balances.issuance()
                &&& final(self).events@ == old(self).events@.push(
                    RuntimeEvent::Governance(
                        Event::ProposalCreated { club_id, proposal_id: id, proposer, proposal_type },
                    ),
                )
            }),
            final(self).treasury == old(self).treasury,
            final(self).config == old(self).config,
            final(self).height == old(self).height,
            final(self).disputes == old(self).disputes,
            final(self).members == old(self).members,
            final(self).analytics == old(self).analytics,
            final(self).crosschain == old(self).crosschain,
    {
        if voting_duration > self.config.max_voting_duration {
            return Err(Error::InvalidVotingDuration);
        }
        if approval_threshold == 0 || approval_threshold > 100 {
            return Err(Error::InvalidApprovalThreshold);
        }
        let deposit = self.config.min_proposal_deposit;
        if self.balances.free_balance(AccountId::User(proposer)) < deposit {
            return Err(Error::InsufficientFunds);
        }
        let count = self.governance.proposal_count_get(club_id);
        if count == u64::MAX {
            return Err(Error::LimitExceeded);
        }
        let mut active = self.governance.active_list_get(club_id);
        if active.len() >= self.config.max_proposals_per_club as usize {
            return Err(Error::LimitExceeded);
        }
        if title.len() > crate::state::MAX_TITLE_LEN {
            return Err(Error::LimitExceeded);
        }
        if description.len() > crate::state::MAX_DESCRIPTION_LEN {
            return Err(Error::LimitExceeded);
        }
        match self.balances.reserve(AccountId::User(proposer), deposit) {
            Err(CurrencyError::InsufficientFunds) => {
                return Err(Error::InsufficientFunds);
            },
            Ok(()) => {},
        }
        let voting_end = crate::arith::sat_add_u32(self.height, voting_duration);
        let proposal = Proposal {
            id: count,
            club_id,
            proposer,
            proposal_type,
            voting_mechanism,
            title,
            description,
            deposit,
            created_at: self.height,
            voting_end,
            status: ProposalStatus::Active,
            aye_votes: 0,
            nay_votes: 0,
            abstain_votes: 0,
            approval_threshold,
        };
        let k = ClubItemKey { club: club_id, item: count };
        proof {
            if old(self).governance.proposals_map().contains_key(k) {
                assert(k.item < old(self).governance.proposal_count_of(k.club));
            }
        }
        self.governance.proposals.insert(k, proposal);
        self.governance.proposal_counts.insert(club_id, count + 1);
        active.push(count);
        self.governance.active_proposals.insert(club_id, active);
        proof {
            let prior = old(self).governance;
            assert forall|k2: ClubItemKey| #[trigger]
                self.governance.proposals_map().contains_key(k2) implies {
                let p = self.governance.proposals_map()[k2];
                &&& p.id == k2.item
                &&& p.club_id == k2.club
                &&& k2.item < self.governance.proposal_count_of(k2.club)
            } by {
                if k2 != k {
                    assert(prior.proposals_map().contains_key(k2));
                    assert(k2.item < prior.proposal_count_of(k2.club));
                }
            }
            assert forall|k2: ClubItemAccountKey| #[trigger]
                self.governance.votes_map().contains_key(k2) implies self.governance.votes_map()[k2].voter == k2.who by {
                assert(prior.votes_map().contains_key(k2));
            }
            assert forall|c: ClubId|
                #[trigger] self.treasury.balance_of(c) == old(self).treasury.balance_of(
                    c,
                ) by {}
            self.lemma_wf_tie_preserved(*old(self));
        }
        self.events.push(
            RuntimeEvent::Governance(
                Event::ProposalCreated { club_id, proposal_id: count, proposer, proposal_type },
            ),
        );
        Ok(())
    }

    /// Cast `voter`'s vote on an active proposal, weighted by the voter's
    /// spendable balance at this very moment — not a snapshot from the
    /// proposal's creation.  One account, one vote, immutable once cast.
    ///
    /// Fails with `NotFound` for an unknown proposal, `InvalidState` when
    /// it is no longer active, `VotingPeriodEnded` past the voting window,
    /// and `AlreadyVoted` on a repeat; a failure changes nothing.
    pub fn vote(
        &mut self,
        club_id: ClubId,
        proposal_id: ProposalId,
        voter: u64,
        choice: VoteChoice,
    ) -> (r: Result<(), Error>)
        requires
            old(self).wf(),
        ensures
            final(self).wf(),
            r is Err ==> *final(self) == *old(self),
            ({
                let k = ClubItemKey { club: club_id, item: proposal_id };
                let ck = ClubItemAccountKey { club: club_id, item: proposal_id, who: voter };
                let m = old(self).governance.proposals_map();
                &&& (r is Ok <==> m.contains_key(k) && m[k].status is Active && old(self).height
                    <= m[k].voting_end && !old(self).governance.votes_map().contains_key(ck))
                &&& (!m.contains_key(k) ==> r == Err::<(), Error>(Error::NotFound))
                &&& (m.contains_key(k) && !(m[k].status is Active) ==> r == Err::<(), Error>(
                    Error::InvalidState,
                ))
                &&& (m.contains_key(k) && m[k].status is Active && old(self).height
                    > m[k].voting_end ==> r == Err::<(), Error>(Error::VotingPeriodEnded))
                &&& (m.contains_key(k) && m[k].status is Active && old(self).height
                    <= m[k].voting_end && old(self).governance.votes_map().contains_key(ck) ==> r
                    == Err::<(), Error>(Error::AlreadyVoted))
                &&& (r is Ok ==> {
                    let p = m[k];
                    let weight = old(self).balances.free_of(AccountId::User(voter)) as u64;
                    let p2 = final(self).governance.proposals_map()[k];
                    &&& final(self).governance.votes_map() == old(
                        self,
                    ).governance.votes_map().insert(
                        ck,
                        Vote { voter, choice, power: weight, cast_at: old(self).height },
                    )
                    &&& final(self).governance.proposals_map().contains_key(k)
                    &&& final(self).governance.proposals_map() == m.insert(k, p2)
                    &&& p2.aye_votes == (if choice is Aye {
                        crate::arith::spec_sat_add_u64(p.aye_votes, weight)
                    } else {
                        p.aye_votes
                    })
                    &&& p2.nay_votes == (if choice is Nay {
                        crate::arith::spec_sat_add_u64(p.nay_votes, weight)
                    } else {
                        p.nay_votes
                    })
                    &&& p2.abstain_votes == (if choice is Abstain {
                        crate::arith::spec_sat_add_u64(p.abstain_votes, weight)
                    } else {
                        p.abstain_votes
                    })
                    &&& p2.status == p.status
                    &&& p2.id == p.id
                    &&& p2.club_id == p.club_id
                    &&& p2.proposer == p.proposer
                    &&& p2.voting_end == p.voting_end
                    &&& p2.title@ == p.title@
                    &&& p2.description@ == p.description@
                    &&& p2.deposit == p.deposit
                    &&& p2.created_at == p.created_at
                    &&& p2.proposal_type == p.proposal_type
                    &&& p2.voting_mechanism == p.voting_mechanism
                    &&& p2.approval_threshold == p.approval_threshold
                    &&& final(self).events@ == old(self).events@.push(
                        RuntimeEvent::Governance(
                            Event::VoteCast { club_id, proposal_id, voter, choice, power: weight },
                        ),
                    )
                })
            }),
            forall|c: ClubId|
                #[trigger] final(self).governance.proposal_count_of(c) == old(
                    self,
                ).governance.proposal_count_of(c) && final(self).governance.active_list_of(c)
                    == old(self).governance.active_list_of(c),
            final(self).balances == old(self).balances,
            final(self).treasury == old(self).treasury,
            final(self).config == old(self).config,
            final(self).height == old(self).height,
            final(self).disputes == old(self).disputes,
            final(self).members == old(self).members,
            final(self).analytics == old(self).analytics,
            final(self).crosschain == old(self).crosschain,
    {
        let k = ClubItemKey { club: club_id, item: proposal_id };
        let ck = ClubItemAccountKey { club: club_id, item: proposal_id, who: voter };
        let p_voting_end = match self.governance.proposals.get(k) {
            None => {
                return Err(Error::NotFound);
            },
            Some(p) => {
                match p.status {
                    ProposalStatus::Active => {},
                    _ => {
                        return Err(Error::InvalidState);
                    },
                }
                p.voting_end
            },
        };
        if self.height > p_voting_end {
            return Err(Error::VotingPeriodEnded);
        }
        if self.governance.votes.contains(ck) {
            return Err(Error::AlreadyVoted);
        }
        let weight = self.balances.free_balance(AccountId::User(voter));
        let record = Vote { voter, choice, power: weight, cast_at: self.height };
        self.governance.votes.insert(ck, record);
        let updated = match self.governance.proposals.get(k) {
            None => {
                return Err(Error::NotFound);
            },
            Some(p) => Proposal {
                id: p.id,
                club_id: p.club_id,
                proposer: p.proposer,
                proposal_type: p.proposal_type,
                voting_mechanism: p.voting_mechanism,
                title: crate::store::copy_vec(&p.title),
                description: crate::store::copy_vec(&p.description),
                deposit: p.deposit,
                created_at: p.created_at,
                voting_end: p.voting_end,
                status: p.status,
                aye_votes: match choice {
                    VoteChoice::Aye => crate::arith::sat_add_u64(p.aye_votes, weight),
                    _ => p.aye_votes,
                },
                nay_votes: match choice {
                    VoteChoice::Nay => crate::arith::sat_add_u64(p.nay_votes, weight),
                    _ => p.nay_votes,
                },
                abstain_votes: match choice {
                    VoteChoice::Abstain => crate::arith::sat_add_u64(p.abstain_votes, weight),
                    _ => p.abstain_votes,
                },
                approval_threshold: p.approval_threshold,
            },
        };
        self.governance.proposals.insert(k, updated);
        proof {
            let prior = old(self).governance;
            assert forall|k2: ClubItemKey| #[trigger]
                self.governance.proposals_map().contains_key(k2) implies {
                let p = self.governance.proposals_map()[k2];
                &&& p.id == k2.item
                &&& p.club_id == k2.club
                &&& k2.item < self.governance.proposal_count_of(k2.club)
            } by {
                assert(prior.proposals_map().contains_key(k2));
            }
            assert forall|k2: ClubItemAccountKey| #[trigger]
                self.governance.votes_map().contains_key(k2) implies self.governance.votes_map()[k2].voter == k2.who by {
                if k2 != ck {
                    assert(prior.votes_map().contains_key(k2));
                }
            }
            assert forall|c: ClubId|
                #[trigger] self.treasury.balance_of(c) == old(self).treasury.balance_of(
                    c,
                ) by {}
            self.lemma_wf_tie_preserved(*old(self));
        }
        self.events.push(
            RuntimeEvent::Governance(
                Event::VoteCast { club_id, proposal_id, voter, choice, power: weight },
            ),
        );
        Ok(())
    }

    /// Decide an active proposal once its voting window has passed: with
    /// no votes at all it expires; otherwise it passes exactly when aye
    /// weight strictly exceeds nay weight — a tie rejects.  The recorded
    /// approval threshold is carried but deliberately not consulted.  The
    /// proposal leaves the club's active list whatever the outcome.
    ///
    /// Fails with `NotFound` for an unknown proposal, `InvalidState` when
    /// it is not active, and `VotingPeriodEnded` while the window still
    /// runs — a proposal cannot be finalized early; a failure changes
    /// nothing.
    pub fn finalize_proposal(&mut self, club_id: ClubId, proposal_id: ProposalId) -> (r: Result<
        (),
        Error,
    >)
        requires
            old(self).wf(),
        ensures
            final(self).wf(),
            r is Err ==> *final(self) == *old(self),
            ({
                let k = ClubItemKey { club: club_id, item: proposal_id };
                let m = old(self).governance.proposals_map();
                &&& (r is Ok <==> m.contains_key(k) && m[k].status is Active && old(self).height
                    > m[k].voting_end)
                &&& (!m.contains_key(k) ==> r == Err::<(), Error>(Error::NotFound))
                &&& (m.contains_key(k) && !(m[k].status is Active) ==> r == Err::<(), Error>(
                    Error::InvalidState,
                ))
                &&& (m.contains_key(k) && m[k].status is Active && old(self).height
                    <= m[k].voting_end ==> r == Err::<(), Error>(Error::VotingPeriodEnded))
                &&& (r is Ok ==> {
                    let p = m[k];
                    let no_votes = p.aye_votes == 0 && p.nay_votes == 0 && p.abstain_votes == 0;
                    let outcome = if no_votes {
                        ProposalStatus::Expired
                    } else if p.aye_votes > p.nay_votes {
                        ProposalStatus::Passed
                    } else {
                        ProposalStatus::Rejected
                    };
                    let p2 = final(self).governance.proposals_map()[k];
                    &&& final(self).governance.proposals_map().contains_key(k)
                    &&& final(self).governance.proposals_map() == m.insert(k, p2)
                    &&& p2.status == outcome
                    &&& p2.aye_votes == p.aye_votes
                    &&& p2.nay_votes == p.nay_votes
                    &&& p2.abstain_votes == p.abstain_votes
                    &&& p2.id == p.id
                    &&& p2.club_id == p.club_id
                    &&& p2.proposer == p.proposer
                    &&& p2.voting_end == p.voting_end
                    &&& final(self).governance.active_list_of(club_id) == remove_all(
                        old(self).governance.active_list_of(club_id),
                        proposal_id,
                    )
                    &&& forall|c: ClubId|
                        c != club_id ==> #[trigger] final(self).governance.active_list_of(c) == old(
                            self,
                        ).governance.active_list_of(c)
                    &&& final(self).governance.votes_map() == old(self).governance.votes_map()
                    &&& final(self).events@ == old(self).events@.push(
                        RuntimeEvent::Governance(
                            if no_votes {
                                Event::ProposalExpired { club_id, proposal_id }
                            } else if p.aye_votes > p.nay_votes {
                                Event::ProposalPassed { club_id, proposal_id }
                            } else {
                                Event::ProposalRejected { club_id, proposal_id }
                            },
                        ),
                    )
                })
            }),
            forall|c: ClubId|
                #[trigger] final(self).governance.proposal_count_of(c) == old(
                    self,
                ).governance.proposal_count_of(c),
            final(self).balances == old(self).balances,
            final(self).treasury == old(self).treasury,
            final(self).config == old(self).config,
            final(self).height == old(self).height,
            final(self).disputes == old(self).disputes,
            final(self).members == old(self).members,
            final(self).analytics == old(self).analytics,
            final(self).crosschain == old(self).crosschain,
    {
        let k = ClubItemKey { club: club_id, item: proposal_id };
        let updated = match self.governance.proposals.get(k) {
            None => {
                return Err(Error::NotFound);
            },
            Some(p) => {
                match p.status {
                    ProposalStatus::Active => {},
                    _ => {
                        return Err(Error::InvalidState);
                    },
                }
                if self.height <= p.voting_end {
                    return Err(Error::VotingPeriodEnded);
                }
                let no_votes = p.aye_votes == 0 && p.nay_votes == 0 && p.abstain_votes == 0;
                let outcome = if no_votes {
                    ProposalStatus::Expired
                } else if p.aye_votes > p.nay_votes {
                    ProposalStatus::Passed
                } else {
                    ProposalStatus::Rejected
                };
                Proposal {
                    id: p.id,
                    club_id: p.club_id,
                    proposer: p.proposer,
                    proposal_type: p.proposal_type,
                    voting_mechanism: p.voting_mechanism,
                    title: crate::store::copy_vec(&p.title),
                    description: crate::store::copy_vec(&p.description),
                    deposit: p.deposit,
                    created_at: p.created_at,
                    voting_end: p.voting_end,
                    status: outcome,
                    aye_votes: p.aye_votes,
                    nay_votes: p.nay_votes,
                    abstain_votes: p.abstain_votes,
                    approval_threshold: p.approval_threshold,
                }
            },
        };
        let no_votes = updated.aye_votes == 0 && updated.nay_votes == 0 && updated.abstain_votes
            == 0;
        let passed = updated.aye_votes > updated.nay_votes;
        self.governance.proposals.insert(k, updated);
        let active = self.governance.active_list_get(club_id);
        let pruned = remove_id(&active, proposal_id);
        self.governance.active_proposals.insert(club_id, pruned);
        proof {
            let prior = old(self).governance;
            assert forall|k2: ClubItemKey| #[trigger]
                self.governance.proposals_map().contains_key(k2) implies {
                let p = self.governance.proposals_map()[k2];
                &&& p.id == k2.item
                &&& p.club_id == k2.club
                &&& k2.item < self.governance.proposal_count_of(k2.club)
            } by {
                assert(prior.proposals_map().contains_key(k2));
            }
            assert forall|k2: ClubItemAccountKey| #[trigger]
                self.governance.votes_map().contains_key(k2) implies self.governance.votes_map()[k2].voter == k2.who by {
                assert(prior.votes_map().contains_key(k2));
            }
            assert forall|c: ClubId|
                #[trigger] self.treasury.balance_of(c) == old(self).treasury.balance_of(
                    c,
                ) by {}
            self.lemma_wf_tie_preserved(*old(self));
        }
        let ev = if no_votes {
            Event::ProposalExpired { club_id, proposal_id }
        } else if passed {
            Event::ProposalPassed { club_id, proposal_id }
        } else {
            Event::ProposalRejected { club_id, proposal_id }
        };
        self.events.push(RuntimeEvent::Governance(ev));
        Ok(())
    }
}

} // verus!

verus! {

impl crate::state::Chain {
    /// The proposal `proposal_id` of `club_id`, if any.
    pub fn proposals(&self, club_id: ClubId, proposal_id: ProposalId) -> (r: Option<Proposal>)
        requires
            self.wf(),
        ensures
            ({
                let k = ClubItemKey { club: club_id, item: proposal_id };
                let m = self.governance.proposals_map();
                &&& (r is Some <==> m.contains_key(k))
                &&& (r is Some ==> {
                    let p = m[k];
                    let g = r->0;
                    &&& g.id == p.id
                    &&& g.club_id == p.club_id
                    &&& g.proposer == p.proposer
                    &&& g.proposal_type == p.proposal_type
                    &&& g.voting_mechanism == p.voting_mechanism
                    &&& g.title@ == p.title@
                    &&& g.description@ == p.description@
                    &&& g.deposit == p.deposit
                    &&& g.created_at == p.created_at
                    &&& g.voting_end == p.voting_end
                    &&& g.status == p.status
                    &&& g.aye_votes == p.aye_votes
                    &&& g.nay_votes == p.nay_votes
                    &&& g.abstain_votes == p.abstain_votes
                    &&& g.approval_threshold == p.approval_threshold
                })
            }),
    {
        let k = ClubItemKey { club: club_id, item: proposal_id };
        match self.governance.proposals.get(k) {
            None => None,
            Some(p) => Some(
                Proposal {
                    id: p.id,
                    club_id: p.club_id,
                    proposer: p.proposer,
                    proposal_type: p.proposal_type,
                    voting_mechanism: p.voting_mechanism,
                    title: crate::store::copy_vec(&p.title),
                    description: crate::store::copy_vec(&p.description),
                    deposit: p.deposit,
                    created_at: p.created_at,
                    voting_end: p.voting_end,
                    status: p.status,
                    aye_votes: p.aye_votes,
                    nay_votes: p.nay_votes,
                    abstain_votes: p.abstain_votes,
                    approval_threshold: p.approval_threshold,
                },
            ),
        }
    }

    /// The vote of `who` on a proposal, if cast.
    pub fn votes(&self, club_id: ClubId, proposal_id: ProposalId, who: u64) -> (r: Option<Vote>)
        requires
            self.wf(),
        ensures
            ({
                let ck = ClubItemAccountKey { club: club_id, item: proposal_id, who };
                let m = self.governance.votes_map();
                &&& (r is Some <==> m.contains_key(ck))
                &&& (r is Some ==> r->0 == m[ck])
            }),
    {
        let ck = ClubItemAccountKey { club: club_id, item: proposal_id, who };
        match self.governance.votes.get(ck) {
            None => None,
            Some(v) => Some(*v),
        }
    }

    /// How many proposal ids `club_id` has allocated.
    pub fn proposal_count(&self, club_id: ClubId) -> (r: u64)
        requires
            self.wf(),
        ensures
            r == self.governance.proposal_count_of(club_id),
    {
        self.governance.proposal_count_get(club_id)
    }

    /// The ids of `club_id`'s proposals still counted against its cap.
    pub fn active_proposals(&self, club_id: ClubId) -> (r: Vec<ProposalId>)
        requires
            self.wf(),
        ensures
            r@ == self.governance.active_list_of(club_id),
    {
        self.governance.active_list_get(club_id)
    }
}

} // verus!
