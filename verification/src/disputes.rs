//! The dispute engine: the same per-club voting pattern as governance, but
//! unweighted — one account, one vote — with an explicit tie-break.
//!
//! Resolution picks the side with strictly more votes; an exact tie favors
//! the subject.

use vstd::prelude::*;
use crate::ids::BlockNumber;
use crate::state::RuntimeEvent;
use crate::ids::ClubId;
use crate::ids::ClubItemAccountKey;
use crate::ids::ClubItemKey;
use crate::ids::DisputeId;
use crate::store::KeyedMap;

verus! {

/// The lifecycle of a dispute.
#[derive(Clone, Copy, PartialEq, Eq, Structural, Debug)]
pub enum DisputeStatus {
    /// Collecting evidence and votes.
    Open,
    /// Being mediated; still collecting evidence.
    InMediation,
    /// Being arbitrated; still collecting votes.
    InArbitration,
    /// Decided by vote.
    Resolved,
    /// Closed without resolution.
    Closed,
}

/// A dispute voter's choice.
#[derive(Clone, Copy, PartialEq, Eq, Structural, Debug)]
pub enum VoteChoice {
    /// Side with the account that opened the dispute.
    FavorInitiator,
    /// Side with the account the dispute is about.
    FavorSubject,
    /// Neither.
    Abstain,
}

/// A disagreement between two members, put to an unweighted vote.
#[derive(Clone, PartialEq, Eq, Debug)]
pub struct Dispute {
    /// Identifier, unique within the club.
    pub id: DisputeId,
    /// The owning club.
    pub club_id: ClubId,
    /// Who opened the dispute.
    pub initiator: u64,
    /// Whom the dispute is about.
    pub subject: u64,
    /// What the dispute is about.
    pub description: Vec<u8>,
    /// Lifecycle state.
    pub status: DisputeStatus,
    /// Height at which the dispute was opened.
    pub created_at: BlockNumber,
    /// Height of resolution, once resolved.
    pub resolved_at: Option<BlockNumber>,
    /// Votes siding with the initiator.
    pub favor_initiator_votes: u32,
    /// Votes siding with the subject.
    pub favor_subject_votes: u32,
    /// Abstentions.
    pub abstain_votes: u32,
}

/// One account's evidence on one dispute; at most one submission each.
#[derive(Clone, PartialEq, Eq, Debug)]
pub struct Evidence {
    /// Who submitted.
    pub submitter: u64,
    /// The submitted material.
    pub description: Vec<u8>,
    /// Height of submission.
    pub submitted_at: BlockNumber,
}

/// One account's immutable vote on one dispute.
#[derive(Clone, Copy, PartialEq, Eq, Structural, Debug)]
pub struct DisputeVote {
    /// The voting account.
    pub voter: u64,
    /// Its choice.
    pub choice: VoteChoice,
    /// Height at which the vote was cast.
    pub cast_at: BlockNumber,
}

/// How a dispute operation fails.  Every failure leaves the state
/// untouched.
#[derive(Clone, Copy, PartialEq, Eq, Structural, Debug)]
pub enum Error {
    /// The referenced dispute does not exist.
    NotFound,
    /// The dispute is not in the state the operation needs.
    InvalidState,
    /// The account has already voted on this dispute.
    AlreadyVoted,
    /// The account has already submitted evidence on this dispute.
    AlreadyDone,
    /// A description, or the id space, is too large.
    LimitExceeded,
    /// Resolution needs at least one vote.
    NoVotes,
}

/// What the dispute engine announces on success.
#[derive(Clone, PartialEq, Eq, Debug)]
pub enum Event {
    /// A dispute was opened.
    DisputeCreated {
        /// The owning club.
        club_id: ClubId,
        /// The new dispute.
        dispute_id: DisputeId,
        /// Who opened it.
        initiator: u64,
        /// Whom it is about.
        subject: u64,
    },
    /// Evidence was submitted.
    EvidenceSubmitted {
        /// The owning club.
        club_id: ClubId,
        /// The dispute concerned.
        dispute_id: DisputeId,
        /// Who submitted.
        submitter: u64,
    },
    /// A vote was cast on a dispute.
    DisputeVoted {
        /// The owning club.
        club_id: ClubId,
        /// The voted dispute.
        dispute_id: DisputeId,
        /// Who voted.
        voter: u64,
        /// The choice.
        choice: VoteChoice,
    },
    /// A dispute was resolved.
    DisputeResolved {
        /// The owning club.
        club_id: ClubId,
        /// The resolved dispute.
        dispute_id: DisputeId,
        /// The account the vote favored.
        winner: u64,
    },
}

/// The dispute engine's persistent state.
pub struct Disputes {
    pub(crate) disputes: KeyedMap<ClubItemKey, Dispute>,
    pub(crate) dispute_counts: KeyedMap<ClubId, u64>,
    pub(crate) evidence: KeyedMap<ClubItemAccountKey, Evidence>,
    pub(crate) dispute_votes: KeyedMap<ClubItemAccountKey, DisputeVote>,
}

impl Disputes {
    /// All disputes, by (club, id).
    pub closed spec fn disputes_map(self) -> Map<ClubItemKey, Dispute> {
        self.disputes@
    }

    /// How many dispute ids `club` has allocated.
    pub closed spec fn dispute_count_of(self, club: ClubId) -> int {
        if self.dispute_counts@.contains_key(club) {
            self.dispute_counts@[club] as int
        } else {
            0
        }
    }

    /// All evidence, by (club, dispute, account).
    pub closed spec fn evidence_map(self) -> Map<ClubItemAccountKey, Evidence> {
        self.evidence@
    }

    /// All dispute votes, by (club, dispute, account).
    pub closed spec fn votes_map(self) -> Map<ClubItemAccountKey, DisputeVote> {
        self.dispute_votes@
    }

    /// Every stored dispute is coherent with its key and its id was
    /// allocated; evidence and votes name their authors.
    pub open spec fn wf_records(self) -> bool {
        &&& forall|k: ClubItemKey| #[trigger]
            self.disputes_map().contains_key(k) ==> {
                let d = self.disputes_map()[k];
                &&& d.id == k.item
                &&& d.club_id == k.club
                &&& k.item < self.dispute_count_of(k.club)
            }
        &&& forall|k: ClubItemAccountKey| #[trigger]
            self.evidence_map().contains_key(k) ==> self.evidence_map()[k].submitter == k.who
        &&& forall|k: ClubItemAccountKey| #[trigger]
            self.votes_map().contains_key(k) ==> self.votes_map()[k].voter == k.who
    }

    /// The underlying stores are maps.
    pub closed spec fn wf_maps(self) -> bool {
        &&& self.disputes.wf()
        &&& self.dispute_counts.wf()
        &&& self.evidence.wf()
        &&& self.dispute_votes.wf()
    }

    /// The whole dispute-engine invariant.
    pub open spec fn wf(self) -> bool {
        &&& self.wf_maps()
        &&& self.wf_records()
    }

    /// A dispute engine that has never seen an operation.
    pub fn new() -> (r: Disputes)
        ensures
            r.wf(),
            r.disputes_map() == Map::<ClubItemKey, Dispute>::empty(),
            r.evidence_map() == Map::<ClubItemAccountKey, Evidence>::empty(),
            r.votes_map() == Map::<ClubItemAccountKey, DisputeVote>::empty(),
            forall|c: ClubId| #[trigger] r.dispute_count_of(c) == 0,
    {
        Disputes {
            disputes: KeyedMap::new(),
            dispute_counts: KeyedMap::new(),
            evidence: KeyedMap::new(),
            dispute_votes: KeyedMap::new(),
        }
    }
}

} // verus!

verus! {

impl Disputes {
    /// The dispute counter of `club`, read from the store.
    fn dispute_count_get(&self, club_id: ClubId) -> (r: u64)
        requires
            self.wf_maps(),
        ensures
            r == self.dispute_count_of(club_id),
    {
        self.dispute_counts.get_or(club_id, 0)
    }

}

impl crate::state::Chain {
    /// Open a dispute in `club_id` between `initiator` and `subject`.
    ///
    /// Fails with `LimitExceeded` when the description is too long or the
    /// club's dispute id space is exhausted; a failure changes nothing.
    pub fn open_dispute(
        &mut self,
        club_id: ClubId,
        initiator: u64,
        subject: u64,
        description: Vec<u8>,
    ) -> (r: Result<(), Error>)
        requires
            old(self).wf(),
        ensures
            final(self).wf(),
            r is Err ==> *final(self) == *old(self),
            r is Ok <==> description@.len() <= crate::state::MAX_DISPUTE_DESCRIPTION_LEN && old(
                self,
            ).disputes.dispute_count_of(club_id) < u64::MAX,
            r is Err ==> r == Err::<(), Error>(Error::LimitExceeded),
            r is Ok ==> ({
                let id = old(self).disputes.dispute_count_of(club_id) as u64;
                let k = ClubItemKey { club: club_id, item: id };
                let d = final(self).disputes.disputes_map()[k];
                &&& !old(self).disputes.disputes_map().contains_key(k)
                &&& final(self).disputes.disputes_map().contains_key(k)
                &&& final(self).disputes.disputes_map() == old(
                    self,
                ).disputes.disputes_map().insert(k, d)
                &&& d.id == id
                &&& d.club_id == club_id
                &&& d.initiator == initiator
                &&& d.subject == subject
                &&& d.description@ == description@
                &&& d.status is Open
                &&& d.created_at == old(self).height
                &&& d.resolved_at is None
                &&& d.favor_initiator_votes == 0
                &&& d.favor_subject_votes == 0
                &&& d.abstain_votes == 0
                &&& final(self).disputes.dispute_count_of(club_id) == id + 1
                &&& forall|c: ClubId|
                    c != club_id ==> #[trigger] final(self).disputes.dispute_count_of(c) == old(
                        self,
                    ).disputes.dispute_count_of(c)
                &&& final(self).events@ == old(self).events@.push(
                    RuntimeEvent::Disputes(
                        Event::DisputeCreated { club_id, dispute_id: id, initiator, subject },
                    ),
                )
            }),
            final(self).disputes.evidence_map() == old(self).disputes.evidence_map(),
            final(self).disputes.votes_map() == old(self).disputes.votes_map(),
            final(self).balances == old(self).balances,
            final(self).treasury == old(self).treasury,
            final(self).config == old(self).config,
            final(self).height == old(self).height,
            final(self).governance == old(self).governance,
            final(self).members == old(self).members,
            final(self).analytics == old(self).analytics,
            final(self).crosschain == old(self).crosschain,
    {
        if description.len() > crate::state::MAX_DISPUTE_DESCRIPTION_LEN {
            return Err(Error::LimitExceeded);
        }
        let count = self.disputes.dispute_count_get(club_id);
        if count == u64::MAX {
            return Err(Error::LimitExceeded);
        }
        let dispute = Dispute {
            id: count,
            club_id,
            initiator,
            subject,
            description,
            status: DisputeStatus::Open,
            created_at: self.height,
            resolved_at: None,
            favor_initiator_votes: 0,
            favor_subject_votes: 0,
            abstain_votes: 0,
        };
        let k = ClubItemKey { club: club_id, item: count };
        proof {
            if old(self).disputes.disputes_map().contains_key(k) {
                assert(k.item < old(self).disputes.dispute_count_of(k.club));
            }
        }
        self.disputes.disputes.insert(k, dispute);
        self.disputes.dispute_counts.insert(club_id, count + 1);
        proof {
            let prior = old(self).disputes;
            assert forall|k2: ClubItemKey| #[trigger]
                self.disputes.disputes_map().contains_key(k2) implies {
                let d = self.disputes.disputes_map()[k2];
                &&& d.id == k2.item
                &&& d.club_id == k2.club
                &&& k2.item < self.disputes.dispute_count_of(k2.club)
            } by {
                if k2 != k {
                    assert(prior.disputes_map().contains_key(k2));
                    assert(k2.item < prior.dispute_count_of(k2.club));
                }
            }
            assert forall|k2: ClubItemAccountKey| #[trigger]
                self.disputes.evidence_map().contains_key(k2) implies self.disputes.evidence_map()[k2].submitter
                == k2.who by {
                assert(prior.evidence_map().contains_key(k2));
            }
            assert forall|k2: ClubItemAccountKey| #[trigger]
                self.disputes.votes_map().contains_key(k2) implies self.disputes.votes_map()[k2].voter
                == k2.who by {
                assert(prior.votes_map().contains_key(k2));
            }
            self.lemma_wf_tie_preserved(*old(self));
        }
        self.events.push(
            RuntimeEvent::Disputes(
                Event::DisputeCreated { club_id, dispute_id: count, initiator, subject },
            ),
        );
        Ok(())
    }

    /// Record `submitter`'s evidence on a dispute that is open or in
    /// mediation; one submission per account per dispute.
    ///
    /// Fails with `NotFound` for an unknown dispute, `InvalidState` when
    /// the dispute no longer takes evidence, `AlreadyDone` on a repeat,
    /// and `LimitExceeded` when the material is too long; a failure
    /// changes nothing.
    pub fn submit_evidence(
        &mut self,
        club_id: ClubId,
        dispute_id: DisputeId,
        submitter: u64,
        evidence_description: Vec<u8>,
    ) -> (r: Result<(), Error>)
        requires
            old(self).wf(),
        ensures
            final(self).wf(),
            r is Err ==> *final(self) == *old(self),
            ({
                let k = ClubItemKey { club: club_id, item: dispute_id };
                let ck = ClubItemAccountKey { club: club_id, item: dispute_id, who: submitter };
                let m = old(self).disputes.disputes_map();
                let takes = m.contains_key(k) && (m[k].status is Open
                    || m[k].status is InMediation);
                &&& (r is Ok <==> takes && !old(self).disputes.evidence_map().contains_key(ck)
                    && evidence_description@.len() <= crate::state::MAX_EVIDENCE_LEN)
                &&& (!m.contains_key(k) ==> r == Err::<(), Error>(Error::NotFound))
                &&& (m.contains_key(k) && !(m[k].status is Open || m[k].status is InMediation)
                    ==> r == Err::<(), Error>(Error::InvalidState))
                &&& (takes && old(self).disputes.evidence_map().contains_key(ck) ==> r == Err::<
                    (),
                    Error,
                >(Error::AlreadyDone))
                &&& (takes && !old(self).disputes.evidence_map().contains_key(ck)
                    && evidence_description@.len() > crate::state::MAX_EVIDENCE_LEN ==> r == Err::<
                    (),
                    Error,
                >(Error::LimitExceeded))
                &&& (r is Ok ==> {
                    let e = final(self).disputes.evidence_map()[ck];
                    &&& final(self).disputes.evidence_map() == old(
                        self,
                    ).disputes.evidence_map().insert(ck, e)
                    &&& e.submitter == submitter
                    &&& e.description@ == evidence_description@
                    &&& e.submitted_at == old(self).height
                    &&& final(self).events@ == old(self).events@.push(
                        RuntimeEvent::Disputes(
                            Event::EvidenceSubmitted { club_id, dispute_id, submitter },
                        ),
                    )
                })
            }),
            final(self).disputes.disputes_map() == old(self).disputes.disputes_map(),
            final(self).disputes.votes_map() == old(self).disputes.votes_map(),
            forall|c: ClubId|
                #[trigger] final(self).disputes.dispute_count_of(c) == old(
                    self,
                ).disputes.dispute_count_of(c),
            final(self).balances == old(self).balances,
            final(self).treasury == old(self).treasury,
            final(self).config == old(self).config,
            final(self).height == old(self).height,
            final(self).governance == old(self).governance,
            final(self).members == old(self).members,
            final(self).analytics == old(self).analytics,
            final(self).crosschain == old(self).crosschain,
    {
        let k = ClubItemKey { club: club_id, item: dispute_id };
        match self.disputes.disputes.get(k) {
            None => {
                return Err(Error::NotFound);
            },
            Some(d) => {
                match d.status {
                    DisputeStatus::Open | DisputeStatus::InMediation => {},
                    _ => {
                        return Err(Error::InvalidState);
                    },
                }
            },
        }
        let ck = ClubItemAccountKey { club: club_id, item: dispute_id, who: submitter };
        if self.disputes.evidence.contains(ck) {
            return Err(Error::AlreadyDone);
        }
        if evidence_description.len() > crate::state::MAX_EVIDENCE_LEN {
            return Err(Error::LimitExceeded);
        }
        let e = Evidence { submitter, description: evidence_description, submitted_at: self.height };
        self.disputes.evidence.insert(ck, e);
        proof {
            let prior = old(self).disputes;
            assert forall|k2: ClubItemKey| #[trigger]
                self.disputes.disputes_map().contains_key(k2) implies {
                let d = self.disputes.disputes_map()[k2];
                &&& d.id == k2.item
                &&& d.club_id == k2.club
                &&& k2.item < self.disputes.dispute_count_of(k2.club)
            } by {
                assert(prior.disputes_map().contains_key(k2));
                assert(k2.item < prior.dispute_count_of(k2.club));
            }
            assert forall|k2: ClubItemAccountKey| #[trigger]
                self.disputes.evidence_map().contains_key(k2) implies self.disputes.evidence_map()[k2].submitter
                == k2.who by {
                if k2 != ck {
                    assert(prior.evidence_map().contains_key(k2));
                }
            }
            assert forall|k2: ClubItemAccountKey| #[trigger]
                self.disputes.votes_map().contains_key(k2) implies self.disputes.votes_map()[k2].voter
                == k2.who by {
                assert(prior.votes_map().contains_key(k2));
            }
            self.lemma_wf_tie_preserved(*old(self));
        }
        self.events.push(
            RuntimeEvent::Disputes(Event::EvidenceSubmitted { club_id, dispute_id, submitter }),
        );
        Ok(())
    }

    /// Cast `voter`'s unweighted vote on a dispute that is open or in
    /// arbitration; one account, one vote, immutable once cast.
    ///
    /// Fails with `NotFound` for an unknown dispute, `InvalidState` when
    /// the dispute no longer takes votes, and `AlreadyVoted` on a repeat;
    /// a failure changes nothing.
    pub fn vote_on_dispute(
        &mut self,
        club_id: ClubId,
        dispute_id: DisputeId,
        voter: u64,
        choice: VoteChoice,
    ) -> (r: Result<(), Error>)
        requires
            old(self).wf(),
        ensures
            final(self).wf(),
            r is Err ==> *final(self) == *old(self),
            ({
                let k = ClubItemKey { club: club_id, item: dispute_id };
                let ck = ClubItemAccountKey { club: club_id, item: dispute_id, who: voter };
                let m = old(self).disputes.disputes_map();
                let takes = m.contains_key(k) && (m[k].status is Open
                    || m[k].status is InArbitration);
                &&& (r is Ok <==> takes && !old(self).disputes.votes_map().contains_key(ck))
                &&& (!m.contains_key(k) ==> r == Err::<(), Error>(Error::NotFound))
                &&& (m.contains_key(k) && !(m[k].status is Open || m[k].status is InArbitration)
                    ==> r == Err::<(), Error>(Error::InvalidState))
                &&& (takes && old(self).disputes.votes_map().contains_key(ck) ==> r == Err::<
                    (),
                    Error,
                >(Error::AlreadyVoted))
                &&& (r is Ok ==> {
                    let d = m[k];
                    let d2 = final(self).disputes.disputes_map()[k];
                    &&& final(self).disputes.votes_map() == old(
                        self,
                    ).disputes.votes_map().insert(
                        ck,
                        DisputeVote { voter, choice, cast_at: old(self).height },
                    )
                    &&& final(self).disputes.disputes_map() == m.insert(k, d2)
                    &&& d2.favor_initiator_votes == (if choice is FavorInitiator {
                        crate::arith::spec_sat_add_u32(d.favor_initiator_votes, 1)
                    } else {
                        d.favor_initiator_votes
                    })
                    &&& d2.favor_subject_votes == (if choice is FavorSubject {
                        crate::arith::spec_sat_add_u32(d.favor_subject_votes, 1)
                    } else {
                        d.favor_subject_votes
                    })
                    &&& d2.abstain_votes == (if choice is Abstain {
                        crate::arith::spec_sat_add_u32(d.abstain_votes, 1)
                    } else {
                        d.abstain_votes
                    })
                    &&& d2.status == d.status
                    &&& d2.id == d.id
                    &&& d2.club_id == d.club_id
                    &&& d2.initiator == d.initiator
                    &&& d2.subject == d.subject
                    &&& d2.description@ == d.description@
                    &&& d2.created_at == d.created_at
                    &&& d2.resolved_at == d.resolved_at
                    &&& final(self).events@ == old(self).events@.push(
                        RuntimeEvent::Disputes(
                            Event::DisputeVoted { club_id, dispute_id, voter, choice },
                        ),
                    )
                })
            }),
            final(self).disputes.evidence_map() == old(self).disputes.evidence_map(),
            forall|c: ClubId|
                #[trigger] final(self).disputes.dispute_count_of(c) == old(
                    self,
                ).disputes.dispute_count_of(c),
            final(self).balances == old(self).balances,
            final(self).treasury == old(self).treasury,
            final(self).config == old(self).config,
            final(self).height == old(self).height,
            final(self).governance == old(self).governance,
            final(self).members == old(self).members,
            final(self).analytics == old(self).analytics,
            final(self).crosschain == old(self).crosschain,
    {
        let k = ClubItemKey { club: club_id, item: dispute_id };
        let updated = match self.disputes.disputes.get(k) {
            None => {
                return Err(Error::NotFound);
            },
            Some(d) => {
                match d.status {
                    DisputeStatus::Open | DisputeStatus::InArbitration => {},
                    _ => {
                        return Err(Error::InvalidState);
                    },
                }
                Dispute {
                    id: d.id,
                    club_id: d.club_id,
                    initiator: d.initiator,
                    subject: d.subject,
                    description: crate::store::copy_vec(&d.description),
                    status: d.status,
                    created_at: d.created_at,
                    resolved_at: d.resolved_at,
                    favor_initiator_votes: match choice {
                        VoteChoice::FavorInitiator => crate::arith::sat_add_u32(
                            d.favor_initiator_votes,
                            1,
                        ),
                        _ => d.favor_initiator_votes,
                    },
                    favor_subject_votes: match choice {
                        VoteChoice::FavorSubject => crate::arith::sat_add_u32(
                            d.favor_subject_votes,
                            1,
                        ),
                        _ => d.favor_subject_votes,
                    },
                    abstain_votes: match choice {
                        VoteChoice::Abstain => crate::arith::sat_add_u32(d.abstain_votes, 1),
                        _ => d.abstain_votes,
                    },
                }
            },
        };
        let ck = ClubItemAccountKey { club: club_id, item: dispute_id, who: voter };
        if self.disputes.dispute_votes.contains(ck) {
            return Err(Error::AlreadyVoted);
        }
        self.disputes.dispute_votes.insert(
            ck,
            DisputeVote { voter, choice, cast_at: self.height },
        );
        self.disputes.disputes.insert(k, updated);
        proof {
            let prior = old(self).disputes;
            assert forall|k2: ClubItemKey| #[trigger]
                self.disputes.disputes_map().contains_key(k2) implies {
                let d = self.disputes.disputes_map()[k2];
                &&& d.id == k2.item
                &&& d.club_id == k2.club
                &&& k2.item < self.disputes.dispute_count_of(k2.club)
            } by {
                assert(prior.disputes_map().contains_key(k2));
                assert(k2.item < prior.dispute_count_of(k2.club));
            }
            assert forall|k2: ClubItemAccountKey| #[trigger]
                self.disputes.evidence_map().contains_key(k2) implies self.disputes.evidence_map()[k2].submitter
                == k2.who by {
                assert(prior.evidence_map().contains_key(k2));
            }
            assert forall|k2: ClubItemAccountKey| #[trigger]
                self.disputes.votes_map().contains_key(k2) implies self.disputes.votes_map()[k2].voter
                == k2.who by {
                if k2 != ck {
                    assert(prior.votes_map().contains_key(k2));
                }
            }
            self.lemma_wf_tie_preserved(*old(self));
        }
        self.events.push(
            RuntimeEvent::Disputes(Event::DisputeVoted { club_id, dispute_id, voter, choice }),
        );
        Ok(())
    }

    /// Resolve a dispute by its votes: the side with strictly more votes
    /// wins, and an exact tie favors the subject — a documented policy,
    /// not an accident.
    ///
    /// Fails with `NotFound` for an unknown dispute, `InvalidState` when
    /// it cannot be resolved in its current state, and `NoVotes` when
    /// nobody voted; a failure changes nothing.
    pub fn resolve_dispute(&mut self, club_id: ClubId, dispute_id: DisputeId) -> (r: Result<
        (),
        Error,
    >)
        requires
            old(self).wf(),
        ensures
            final(self).wf(),
            r is Err ==> *final(self) == *old(self),
            ({
                let k = ClubItemKey { club: club_id, item: dispute_id };
                let m = old(self).disputes.disputes_map();
                let resolvable = m.contains_key(k) && (m[k].status is Open
                    || m[k].status is InArbitration);
                let total = m[k].favor_initiator_votes as int + m[k].favor_subject_votes as int
                    + m[k].abstain_votes as int;
                &&& (r is Ok <==> resolvable && total > 0)
                &&& (!m.contains_key(k) ==> r == Err::<(), Error>(Error::NotFound))
                &&& (m.contains_key(k) && !(m[k].status is Open || m[k].status is InArbitration)
                    ==> r == Err::<(), Error>(Error::InvalidState))
                &&& (resolvable && total == 0 ==> r == Err::<(), Error>(Error::NoVotes))
                &&& (r is Ok ==> {
                    let d = m[k];
                    let d2 = final(self).disputes.disputes_map()[k];
                    let winner = if d.favor_initiator_votes > d.favor_subject_votes {
                        d.initiator
                    } else {
                        d.subject
                    };
                    &&& final(self).disputes.disputes_map() == m.insert(k, d2)
                    &&& d2.status is Resolved
                    &&& d2.resolved_at == Some(old(self).height)
                    &&& d2.favor_initiator_votes == d.favor_initiator_votes
                    &&& d2.favor_subject_votes == d.favor_subject_votes
                    &&& d2.abstain_votes == d.abstain_votes
                    &&& d2.id == d.id
                    &&& d2.club_id == d.club_id
                    &&& d2.initiator == d.initiator
                    &&& d2.subject == d.subject
                    &&& final(self).events@ == old(self).events@.push(
                        RuntimeEvent::Disputes(
                            Event::DisputeResolved { club_id, dispute_id, winner },
                        ),
                    )
                })
            }),
            final(self).disputes.evidence_map() == old(self).disputes.evidence_map(),
            final(self).disputes.votes_map() == old(self).disputes.votes_map(),
            forall|c: ClubId|
                #[trigger] final(self).disputes.dispute_count_of(c) == old(
                    self,
                ).disputes.dispute_count_of(c),
            final(self).balances == old(self).balances,
            final(self).treasury == old(self).treasury,
            final(self).config == old(self).config,
            final(self).height == old(self).height,
            final(self).governance == old(self).governance,
            final(self).members == old(self).members,
            final(self).analytics == old(self).analytics,
            final(self).crosschain == old(self).crosschain,
    {
        let k = ClubItemKey { club: club_id, item: dispute_id };
        let (updated, winner) = match self.disputes.disputes.get(k) {
            None => {
                return Err(Error::NotFound);
            },
            Some(d) => {
                match d.status {
                    DisputeStatus::Open | DisputeStatus::InArbitration => {},
                    _ => {
                        return Err(Error::InvalidState);
                    },
                }
                if d.favor_initiator_votes == 0 && d.favor_subject_votes == 0 && d.abstain_votes
                    == 0 {
                    return Err(Error::NoVotes);
                }
                let winner = if d.favor_initiator_votes > d.favor_subject_votes {
                    d.initiator
                } else {
                    d.subject
                };
                (
                    Dispute {
                        id: d.id,
                        club_id: d.club_id,
                        initiator: d.initiator,
                        subject: d.subject,
                        description: crate::store::copy_vec(&d.description),
                        status: DisputeStatus::Resolved,
                        created_at: d.created_at,
                        resolved_at: Some(self.height),
                        favor_initiator_votes: d.favor_initiator_votes,
                        favor_subject_votes: d.favor_subject_votes,
                        abstain_votes: d.abstain_votes,
                    },
                    winner,
                )
            },
        };
        self.disputes.disputes.insert(k, updated);
        proof {
            let prior = old(self).disputes;
            assert forall|k2: ClubItemKey| #[trigger]
                self.disputes.disputes_map().contains_key(k2) implies {
                let d = self.disputes.disputes_map()[k2];
                &&& d.id == k2.item
                &&& d.club_id == k2.club
                &&& k2.item < self.disputes.dispute_count_of(k2.club)
            } by {
                assert(prior.disputes_map().contains_key(k2));
                assert(k2.item < prior.dispute_count_of(k2.club));
            }
            assert forall|k2: ClubItemAccountKey| #[trigger]
                self.disputes.evidence_map().contains_key(k2) implies self.disputes.evidence_map()[k2].submitter
                == k2.who by {
                assert(prior.evidence_map().contains_key(k2));
            }
            assert forall|k2: ClubItemAccountKey| #[trigger]
                self.disputes.votes_map().contains_key(k2) implies self.disputes.votes_map()[k2].voter
                == k2.who by {
                assert(prior.votes_map().contains_key(k2));
            }
            self.lemma_wf_tie_preserved(*old(self));
        }
        self.events.push(
            RuntimeEvent::Disputes(Event::DisputeResolved { club_id, dispute_id, winner }),
        );
        Ok(())
    }
}

} // verus!

verus! {

impl crate::state::Chain {
    /// The dispute `dispute_id` of `club_id`, if any.
    pub fn disputes(&self, club_id: ClubId, dispute_id: DisputeId) -> (r: Option<Dispute>)
        requires
            self.wf(),
        ensures
            ({
                let k = ClubItemKey { club: club_id, item: dispute_id };
                let m = self.disputes.disputes_map();
                &&& (r is Some <==> m.contains_key(k))
                &&& (r is Some ==> {
                    let d = m[k];
                    let g = r->0;
                    &&& g.id == d.id
                    &&& g.club_id == d.club_id
                    &&& g.initiator == d.initiator
                    &&& g.subject == d.subject
                    &&& g.description@ == d.description@
                    &&& g.status == d.status
                    &&& g.created_at == d.created_at
                    &&& g.resolved_at == d.resolved_at
                    &&& g.favor_initiator_votes == d.favor_initiator_votes
                    &&& g.favor_subject_votes == d.favor_subject_votes
                    &&& g.abstain_votes == d.abstain_votes
                })
            }),
    {
        let k = ClubItemKey { club: club_id, item: dispute_id };
        match self.disputes.disputes.get(k) {
            None => None,
            Some(d) => Some(
                Dispute {
                    id: d.id,
                    club_id: d.club_id,
                    initiator: d.initiator,
                    subject: d.subject,
                    description: crate::store::copy_vec(&d.description),
                    status: d.status,
                    created_at: d.created_at,
                    resolved_at: d.resolved_at,
                    favor_initiator_votes: d.favor_initiator_votes,
                    favor_subject_votes: d.favor_subject_votes,
                    abstain_votes: d.abstain_votes,
                },
            ),
        }
    }

    /// How many dispute ids `club_id` has allocated.
    pub fn dispute_count(&self, club_id: ClubId) -> (r: u64)
        requires
            self.wf(),
        ensures
            r == self.disputes.dispute_count_of(club_id),
    {
        self.disputes.dispute_count_get(club_id)
    }

    /// The evidence `who` submitted on a dispute, if any.
    pub fn evidence(&self, club_id: ClubId, dispute_id: DisputeId, who: u64) -> (r: Option<
        Evidence,
    >)
        requires
            self.wf(),
        ensures
            ({
                let ck = ClubItemAccountKey { club: club_id, item: dispute_id, who };
                let m = self.disputes.evidence_map();
                &&& (r is Some <==> m.contains_key(ck))
                &&& (r is Some ==> {
                    let e = m[ck];
                    let g = r->0;
                    &&& g.submitter == e.submitter
                    &&& g.description@ == e.description@
                    &&& g.submitted_at == e.submitted_at
                })
            }),
    {
        let ck = ClubItemAccountKey { club: club_id, item: dispute_id, who };
        match self.disputes.evidence.get(ck) {
            None => None,
            Some(e) => Some(
                Evidence {
                    submitter: e.submitter,
                    description: crate::store::copy_vec(&e.description),
                    submitted_at: e.submitted_at,
                },
            ),
        }
    }

    /// The vote of `who` on a dispute, if cast.
    pub fn dispute_votes(&self, club_id: ClubId, dispute_id: DisputeId, who: u64) -> (r: Option<
        DisputeVote,
    >)
        requires
            self.wf(),
        ensures
            ({
                let ck = ClubItemAccountKey { club: club_id, item: dispute_id, who };
                let m = self.disputes.votes_map();
                &&& (r is Some <==> m.contains_key(ck))
                &&& (r is Some ==> r->0 == m[ck])
            }),
    {
        let ck = ClubItemAccountKey { club: club_id, item: dispute_id, who };
        match self.disputes.dispute_votes.get(ck) {
            None => None,
            Some(v) => Some(*v),
        }
    }
}

} // verus!
