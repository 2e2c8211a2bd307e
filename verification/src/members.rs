//! The membership rolls: clubs, their members and reputation bookkeeping.

use vstd::prelude::*;
use crate::ids::BlockNumber;
use crate::state::RuntimeEvent;
use crate::ids::ClubAccountKey;
use crate::ids::ClubId;
use crate::ids::ReputationScore;
use crate::store::KeyedMap;

verus! {

/// A tenant organization owning one treasury and one governance namespace.
#[derive(Clone, PartialEq, Eq, Debug)]
pub struct Club {
    /// Identifier, unique across the platform.
    pub id: ClubId,
    /// Display name.
    pub name: Vec<u8>,
    /// Description.
    pub description: Vec<u8>,
    /// Who created the club; automatically its first member.
    pub creator: u64,
    /// Height at which the club was created.
    pub created_at: BlockNumber,
    /// Whether the club is active.
    pub is_active: bool,
}

/// One account's membership in one club.
#[derive(Clone, Copy, PartialEq, Eq, Structural, Debug)]
pub struct MemberProfile {
    /// The member's account.
    pub account: u64,
    /// The club joined.
    pub club_id: ClubId,
    /// Height at which the member joined.
    pub joined_at: BlockNumber,
    /// Accumulated reputation.
    pub reputation: ReputationScore,
    /// Contribution weight counter.
    pub contribution_weight: u64,
    /// Voting participation counter.
    pub voting_participation: u64,
    /// Share of this member's proposals that passed, in percent.
    pub proposal_success_rate: u8,
}

/// How a membership operation fails.  Every failure leaves the state
/// untouched.
#[derive(Clone, Copy, PartialEq, Eq, Structural, Debug)]
pub enum Error {
    /// The referenced club does not exist.
    NotFound,
    /// The account is already a member of the club.
    AlreadyMember,
    /// The account is not a member of the club.
    NotMember,
    /// The club is full, or the club id space is exhausted.
    LimitExceeded,
    /// The club name is empty or too long.
    InvalidClubName,
    /// The club description is too long.
    InvalidClubDescription,
}

/// What the membership engine announces on success.
#[derive(Clone, PartialEq, Eq, Debug)]
pub enum Event {
    /// A club was created.
    ClubCreated {
        /// The new club.
        club_id: ClubId,
        /// Its creator.
        creator: u64,
        /// Its name.
        name: Vec<u8>,
    },
    /// An account joined a club.
    MemberJoined {
        /// The club joined.
        club_id: ClubId,
        /// The new member.
        account: u64,
    },
    /// An account left a club.
    MemberLeft {
        /// The club left.
        club_id: ClubId,
        /// The departed member.
        account: u64,
    },
    /// A member's reputation changed.
    ReputationUpdated {
        /// The club concerned.
        club_id: ClubId,
        /// The member concerned.
        account: u64,
        /// The reputation after the change.
        new_reputation: ReputationScore,
    },
}

/// The membership engine's persistent state.
pub struct Members {
    pub(crate) clubs: KeyedMap<ClubId, Club>,
    pub(crate) club_count: u64,
    pub(crate) members: KeyedMap<ClubAccountKey, MemberProfile>,
    pub(crate) member_counts: KeyedMap<ClubId, u32>,
}

impl Members {
    /// All clubs, by id.
    pub closed spec fn clubs_map(self) -> Map<ClubId, Club> {
        self.clubs@
    }

    /// How many club ids have been allocated.
    pub closed spec fn club_count_spec(self) -> int {
        self.club_count as int
    }

    /// All member profiles, by (club, account).
    pub closed spec fn members_map(self) -> Map<ClubAccountKey, MemberProfile> {
        self.members@
    }

    /// The recorded member count of `club`.
    pub closed spec fn member_count_of(self, club: ClubId) -> int {
        if self.member_counts@.contains_key(club) {
            self.member_counts@[club] as int
        } else {
            0
        }
    }

    /// Every stored club is coherent with its key and its id was allocated;
    /// every profile names its member and club.
    pub open spec fn wf_records(self) -> bool {
        &&& forall|c: ClubId| #[trigger]
            self.clubs_map().contains_key(c) ==> {
                let club = self.clubs_map()[c];
                &&& club.id == c
                &&& c < self.club_count_spec()
            }
        &&& forall|k: ClubAccountKey| #[trigger]
            self.members_map().contains_key(k) ==> {
                let m = self.members_map()[k];
                &&& m.account == k.who
                &&& m.club_id == k.club
            }
    }

    /// The underlying stores are maps.
    pub closed spec fn wf_maps(self) -> bool {
        &&& self.clubs.wf()
        &&& self.members.wf()
        &&& self.member_counts.wf()
    }

    /// The whole membership invariant.
    pub open spec fn wf(self) -> bool {
        &&& self.wf_maps()
        &&& self.wf_records()
    }

    /// A membership engine that has never seen an operation.
    pub fn new() -> (r: Members)
        ensures
            r.wf(),
            r.clubs_map() == Map::<ClubId, Club>::empty(),
            r.members_map() == Map::<ClubAccountKey, MemberProfile>::empty(),
            r.club_count_spec() == 0,
            forall|c: ClubId| #[trigger] r.member_count_of(c) == 0,
    {
        Members {
            clubs: KeyedMap::new(),
            club_count: 0,
            members: KeyedMap::new(),
            member_counts: KeyedMap::new(),
        }
    }
}

} // verus!

verus! {

impl Members {
    /// The member count of `club`, read from the store.
    fn member_count_get(&self, club_id: ClubId) -> (r: u32)
        requires
            self.wf_maps(),
        ensures
            r == self.member_count_of(club_id),
    {
        self.member_counts.get_or(club_id, 0)
    }

}

impl crate::state::Chain {
    /// Create a club with `creator` as its first member.
    ///
    /// Fails with `InvalidClubName` for an empty or overlong name,
    /// `InvalidClubDescription` for an overlong description, and
    /// `LimitExceeded` when the club id space is exhausted; a failure
    /// changes nothing.
    pub fn create_club(&mut self, creator: u64, name: Vec<u8>, description: Vec<u8>) -> (r: Result<
        (),
        Error,
    >)
        requires
            old(self).wf(),
        ensures
            final(self).wf(),
            r is Err ==> *final(self) == *old(self),
            r is Ok <==> 0 < name@.len() <= crate::state::MAX_CLUB_NAME_LEN && description@.len()
                <= crate::state::MAX_CLUB_DESCRIPTION_LEN && old(self).members.club_count_spec()
                < u64::MAX,
            !(0 < name@.len() <= crate::state::MAX_CLUB_NAME_LEN) ==> r == Err::<(), Error>(
                Error::InvalidClubName,
            ),
            0 < name@.len() <= crate::state::MAX_CLUB_NAME_LEN && description@.len()
                > crate::state::MAX_CLUB_DESCRIPTION_LEN ==> r == Err::<(), Error>(
                Error::InvalidClubDescription,
            ),
            0 < name@.len() <= crate::state::MAX_CLUB_NAME_LEN && description@.len()
                <= crate::state::MAX_CLUB_DESCRIPTION_LEN && r is Err ==> r == Err::<(), Error>(
                Error::LimitExceeded,
            ),
            r is Ok ==> ({
                let id = old(self).members.club_count_spec() as u64;
                let mk = ClubAccountKey { club: id, who: creator };
                let club = final(self).members.clubs_map()[id];
                let profile = final(self).members.members_map()[mk];
                &&& !old(self).members.clubs_map().contains_key(id)
                &&& final(self).members.clubs_map() == old(self).members.clubs_map().insert(
                    id,
                    club,
                )
                &&& club.id == id
                &&& club.name@ == name@
                &&& club.description@ == description@
                &&& club.creator == creator
                &&& club.created_at == old(self).height
                &&& club.is_active
                &&& final(self).members.members_map() == old(self).members.members_map().insert(
                    mk,
                    profile,
                )
                &&& profile.account == creator
                &&& profile.club_id == id
                &&& profile.joined_at == old(self).height
                &&& profile.reputation == 0
                &&& final(self).members.member_count_of(id) == 1
                &&& forall|c: ClubId|
                    c != id ==> #[trigger] final(self).members.member_count_of(c) == old(
                        self,
                    ).members.member_count_of(c)
                &&& final(self).members.club_count_spec() == id + 1
                &&& final(self).events@.len() == old(self).events@.len() + 2
                &&& (forall|i: int|
                    0 <= i < old(self).events@.len() ==> #[trigger] final(self).events@[i] == old(
                        self,
                    ).events@[i])
                &&& (final(self).events@[old(self).events@.len() as int] matches
                    RuntimeEvent::Members(Event::ClubCreated {
                        club_id: ecid,
                        creator: ecr,
                        name: enm,
                    }) && ecid == id && ecr == creator && enm@ == name@)
                &&& final(self).events@.last() == RuntimeEvent::Members(
                    Event::MemberJoined { club_id: id, account: creator },
                )
            }),
            final(self).balances == old(self).balances,
            final(self).treasury == old(self).treasury,
            final(self).config == old(self).config,
            final(self).height == old(self).height,
            final(self).governance == old(self).governance,
            final(self).disputes == old(self).disputes,
            final(self).analytics == old(self).analytics,
            final(self).crosschain == old(self).crosschain,
    {
        if name.len() == 0 || name.len() > crate::state::MAX_CLUB_NAME_LEN {
            return Err(Error::InvalidClubName);
        }
        if description.len() > crate::state::MAX_CLUB_DESCRIPTION_LEN {
            return Err(Error::InvalidClubDescription);
        }
        if self.members.club_count == u64::MAX {
            return Err(Error::LimitExceeded);
        }
        let id = self.members.club_count;
        let event_name = crate::store::copy_vec(&name);
        let club = Club {
            id,
            name,
            description,
            creator,
            created_at: self.height,
            is_active: true,
        };
        proof {
            if old(self).members.clubs_map().contains_key(id) {
                assert(id < old(self).members.club_count_spec());
            }
        }
        self.members.clubs.insert(id, club);
        self.members.club_count = id + 1;
        let profile = MemberProfile {
            account: creator,
            club_id: id,
            joined_at: self.height,
            reputation: 0,
            contribution_weight: 0,
            voting_participation: 0,
            proposal_success_rate: 0,
        };
        let mk = ClubAccountKey { club: id, who: creator };
        self.members.members.insert(mk, profile);
        self.members.member_counts.insert(id, 1);
        proof {
            let prior = old(self).members;
            assert forall|c: ClubId| #[trigger] self.members.clubs_map().contains_key(c) implies {
                let club2 = self.members.clubs_map()[c];
                &&& club2.id == c
                &&& c < self.members.club_count_spec()
            } by {
                if c != id {
                    assert(prior.clubs_map().contains_key(c));
                    assert(c < prior.club_count_spec());
                }
            }
            assert forall|k2: ClubAccountKey| #[trigger]
                self.members.members_map().contains_key(k2) implies {
                let m = self.members.members_map()[k2];
                &&& m.account == k2.who
                &&& m.club_id == k2.club
            } by {
                if k2 != mk {
                    assert(prior.members_map().contains_key(k2));
                }
            }
            self.lemma_wf_tie_preserved(*old(self));
        }
        self.events.push(
            RuntimeEvent::Members(Event::ClubCreated { club_id: id, creator, name: event_name }),
        );
        self.events.push(RuntimeEvent::Members(Event::MemberJoined { club_id: id, account: creator }));
        Ok(())
    }

    /// Add `who` to an existing club.
    ///
    /// Fails with `NotFound` for an unknown club, `AlreadyMember` on a
    /// repeat, and `LimitExceeded` when the club is full; a failure
    /// changes nothing.
    pub fn join_club(&mut self, club_id: ClubId, who: u64) -> (r: Result<(), Error>)
        requires
            old(self).wf(),
        ensures
            final(self).wf(),
            r is Err ==> *final(self) == *old(self),
            ({
                let mk = ClubAccountKey { club: club_id, who };
                &&& (r is Ok <==> old(self).members.clubs_map().contains_key(club_id) && !old(
                    self,
                ).members.members_map().contains_key(mk) && old(self).members.member_count_of(
                    club_id,
                ) < old(self).config.max_members_per_club)
                &&& (!old(self).members.clubs_map().contains_key(club_id) ==> r == Err::<
                    (),
                    Error,
                >(Error::NotFound))
                &&& (old(self).members.clubs_map().contains_key(club_id) && old(
                    self,
                ).members.members_map().contains_key(mk) ==> r == Err::<(), Error>(
                    Error::AlreadyMember,
                ))
                &&& (old(self).members.clubs_map().contains_key(club_id) && !old(
                    self,
                ).members.members_map().contains_key(mk) && old(self).members.member_count_of(
                    club_id,
                ) >= old(self).config.max_members_per_club ==> r == Err::<(), Error>(
                    Error::LimitExceeded,
                ))
                &&& (r is Ok ==> {
                    let profile = final(self).members.members_map()[mk];
                    &&& final(self).members.members_map() == old(
                        self,
                    ).members.members_map().insert(mk, profile)
                    &&& profile.account == who
                    &&& profile.club_id == club_id
                    &&& profile.joined_at == old(self).height
                    &&& profile.reputation == 0
                    &&& final(self).members.member_count_of(club_id) == old(
                        self,
                    ).members.member_count_of(club_id) + 1
                    &&& forall|c: ClubId|
                        c != club_id ==> #[trigger] final(self).members.member_count_of(c) == old(
                            self,
                        ).members.member_count_of(c)
                    &&& final(self).events@ == old(self).events@.push(
                        RuntimeEvent::Members(Event::MemberJoined { club_id, account: who }),
                    )
                })
            }),
            final(self).members.clubs_map() == old(self).members.clubs_map(),
            final(self).members.club_count_spec() == old(self).members.club_count_spec(),
            final(self).balances == old(self).balances,
            final(self).treasury == old(self).treasury,
            final(self).config == old(self).config,
            final(self).height == old(self).height,
            final(self).governance == old(self).governance,
            final(self).disputes == old(self).disputes,
            final(self).analytics == old(self).analytics,
            final(self).crosschain == old(self).crosschain,
    {
        if !self.members.clubs.contains(club_id) {
            return Err(Error::NotFound);
        }
        let mk = ClubAccountKey { club: club_id, who };
        if self.members.members.contains(mk) {
            return Err(Error::AlreadyMember);
        }
        let count = self.members.member_count_get(club_id);
        if count >= self.config.max_members_per_club {
            return Err(Error::LimitExceeded);
        }
        let profile = MemberProfile {
            account: who,
            club_id,
            joined_at: self.height,
            reputation: 0,
            contribution_weight: 0,
            voting_participation: 0,
            proposal_success_rate: 0,
        };
        self.members.members.insert(mk, profile);
        self.members.member_counts.insert(club_id, count + 1);
        proof {
            let prior = old(self).members;
            assert forall|c: ClubId| #[trigger] self.members.clubs_map().contains_key(c) implies {
                let club2 = self.members.clubs_map()[c];
                &&& club2.id == c
                &&& c < self.members.club_count_spec()
            } by {
                assert(prior.clubs_map().contains_key(c));
            }
            assert forall|k2: ClubAccountKey| #[trigger]
                self.members.members_map().contains_key(k2) implies {
                let m = self.members.members_map()[k2];
                &&& m.account == k2.who
                &&& m.club_id == k2.club
            } by {
                if k2 != mk {
                    assert(prior.members_map().contains_key(k2));
                }
            }
            self.lemma_wf_tie_preserved(*old(self));
        }
        self.events.push(RuntimeEvent::Members(Event::MemberJoined { club_id, account: who }));
        Ok(())
    }

    /// Remove `who` from a club.
    ///
    /// Fails with `NotMember` when `who` is not a member; a failure
    /// changes nothing.
    pub fn leave_club(&mut self, club_id: ClubId, who: u64) -> (r: Result<(), Error>)
        requires
            old(self).wf(),
        ensures
            final(self).wf(),
            r is Err ==> *final(self) == *old(self),
            ({
                let mk = ClubAccountKey { club: club_id, who };
                &&& (r is Ok <==> old(self).members.members_map().contains_key(mk))
                &&& (r is Err ==> r == Err::<(), Error>(Error::NotMember))
                &&& (r is Ok ==> {
                    &&& final(self).members.members_map() == old(
                        self,
                    ).members.members_map().remove(mk)
                    &&& final(self).members.member_count_of(club_id) == (if old(
                        self,
                    ).members.member_count_of(club_id) > 0 {
                        old(self).members.member_count_of(club_id) - 1
                    } else {
                        0
                    })
                    &&& forall|c: ClubId|
                        c != club_id ==> #[trigger] final(self).members.member_count_of(c) == old(
                            self,
                        ).members.member_count_of(c)
                    &&& final(self).events@ == old(self).events@.push(
                        RuntimeEvent::Members(Event::MemberLeft { club_id, account: who }),
                    )
                })
            }),
            final(self).members.clubs_map() == old(self).members.clubs_map(),
            final(self).members.club_count_spec() == old(self).members.club_count_spec(),
            final(self).balances == old(self).balances,
            final(self).treasury == old(self).treasury,
            final(self).config == old(self).config,
            final(self).height == old(self).height,
            final(self).governance == old(self).governance,
            final(self).disputes == old(self).disputes,
            final(self).analytics == old(self).analytics,
            final(self).crosschain == old(self).crosschain,
    {
        let mk = ClubAccountKey { club: club_id, who };
        if !self.members.members.contains(mk) {
            return Err(Error::NotMember);
        }
        self.members.members.remove(mk);
        let count = self.members.member_count_get(club_id);
        let reduced = if count > 0 {
            count - 1
        } else {
            0
        };
        self.members.member_counts.insert(club_id, reduced);
        proof {
            let prior = old(self).members;
            assert forall|c: ClubId| #[trigger] self.members.clubs_map().contains_key(c) implies {
                let club2 = self.members.clubs_map()[c];
                &&& club2.id == c
                &&& c < self.members.club_count_spec()
            } by {
                assert(prior.clubs_map().contains_key(c));
            }
            assert forall|k2: ClubAccountKey| #[trigger]
                self.members.members_map().contains_key(k2) implies {
                let m = self.members.members_map()[k2];
                &&& m.account == k2.who
                &&& m.club_id == k2.club
            } by {
                assert(prior.members_map().contains_key(k2));
            }
            self.lemma_wf_tie_preserved(*old(self));
        }
        self.events.push(RuntimeEvent::Members(Event::MemberLeft { club_id, account: who }));
        Ok(())
    }

    /// Add `reputation_delta` to a member's reputation, saturating; a
    /// call for an account that is not a member does nothing and still
    /// succeeds, as other engines call this opportunistically.
    pub fn update_reputation(&mut self, club_id: ClubId, account: u64, reputation_delta: u64) -> (r:
        Result<(), Error>)
        requires
            old(self).wf(),
        ensures
            final(self).wf(),
            r is Ok,
            ({
                let mk = ClubAccountKey { club: club_id, who: account };
                if old(self).members.members_map().contains_key(mk) {
                    let m = old(self).members.members_map()[mk];
                    let m2 = final(self).members.members_map()[mk];
                    &&& final(self).members.members_map() == old(
                        self,
                    ).members.members_map().insert(mk, m2)
                    &&& m2.reputation == crate::arith::spec_sat_add_u64(
                        m.reputation,
                        reputation_delta,
                    )
                    &&& m2.account == m.account
                    &&& m2.club_id == m.club_id
                    &&& m2.joined_at == m.joined_at
                    &&& final(self).events@ == old(self).events@.push(
                        RuntimeEvent::Members(
                            Event::ReputationUpdated {
                                club_id,
                                account,
                                new_reputation: m2.reputation,
                            },
                        ),
                    )
                } else {
                    *final(self) == *old(self)
                }
            }),
            forall|c: ClubId|
                #[trigger] final(self).members.member_count_of(c) == old(
                    self,
                ).members.member_count_of(c),
            final(self).members.clubs_map() == old(self).members.clubs_map(),
            final(self).members.club_count_spec() == old(self).members.club_count_spec(),
            final(self).balances == old(self).balances,
            final(self).treasury == old(self).treasury,
            final(self).config == old(self).config,
            final(self).height == old(self).height,
            final(self).governance == old(self).governance,
            final(self).disputes == old(self).disputes,
            final(self).analytics == old(self).analytics,
            final(self).crosschain == old(self).crosschain,
    {
        let mk = ClubAccountKey { club: club_id, who: account };
        let updated = match self.members.members.get(mk) {
            None => {
                return Ok(());
            },
            Some(m) => MemberProfile {
                account: m.account,
                club_id: m.club_id,
                joined_at: m.joined_at,
                reputation: crate::arith::sat_add_u64(m.reputation, reputation_delta),
                contribution_weight: m.contribution_weight,
                voting_participation: m.voting_participation,
                proposal_success_rate: m.proposal_success_rate,
            },
        };
        let new_reputation = updated.reputation;
        self.members.members.insert(mk, updated);
        proof {
            let prior = old(self).members;
            assert forall|c: ClubId| #[trigger] self.members.clubs_map().contains_key(c) implies {
                let club2 = self.members.clubs_map()[c];
                &&& club2.id == c
                &&& c < self.members.club_count_spec()
            } by {
                assert(prior.clubs_map().contains_key(c));
            }
            assert forall|k2: ClubAccountKey| #[trigger]
                self.members.members_map().contains_key(k2) implies {
                let m = self.members.members_map()[k2];
                &&& m.account == k2.who
                &&& m.club_id == k2.club
            } by {
                if k2 != mk {
                    assert(prior.members_map().contains_key(k2));
                } else {
                    assert(prior.members_map().contains_key(mk));
                    assert(prior.members_map()[mk].account == mk.who);
                    assert(prior.members_map()[mk].club_id == mk.club);
                }
            }
            self.lemma_wf_tie_preserved(*old(self));
        }
        self.events.push(
            RuntimeEvent::Members(Event::ReputationUpdated { club_id, account, new_reputation }),
        );
        Ok(())
    }
}

} // verus!

verus! {

impl crate::state::Chain {
    /// The club `club_id`, if it exists.
    pub fn clubs(&self, club_id: ClubId) -> (r: Option<Club>)
        requires
            self.wf(),
        ensures
            ({
                let m = self.members.clubs_map();
                &&& (r is Some <==> m.contains_key(club_id))
                &&& (r is Some ==> {
                    let c = m[club_id];
                    let g = r->0;
                    &&& g.id == c.id
                    &&& g.name@ == c.name@
                    &&& g.description@ == c.description@
                    &&& g.creator == c.creator
                    &&& g.created_at == c.created_at
                    &&& g.is_active == c.is_active
                })
            }),
    {
        match self.members.clubs.get(club_id) {
            None => None,
            Some(c) => Some(
                Club {
                    id: c.id,
                    name: crate::store::copy_vec(&c.name),
                    description: crate::store::copy_vec(&c.description),
                    creator: c.creator,
                    created_at: c.created_at,
                    is_active: c.is_active,
                },
            ),
        }
    }

    /// How many club ids have been allocated.
    pub fn club_count(&self) -> (r: u64)
        ensures
            r == self.members.club_count_spec(),
    {
        self.members.club_count
    }

    /// The membership profile of `who` in `club_id`, if a member.
    pub fn members(&self, club_id: ClubId, who: u64) -> (r: Option<MemberProfile>)
        requires
            self.wf(),
        ensures
            ({
                let mk = ClubAccountKey { club: club_id, who };
                let m = self.members.members_map();
                &&& (r is Some <==> m.contains_key(mk))
                &&& (r is Some ==> r->0 == m[mk])
            }),
    {
        let mk = ClubAccountKey { club: club_id, who };
        match self.members.members.get(mk) {
            None => None,
            Some(p) => Some(*p),
        }
    }

    /// The recorded member count of `club_id`.
    pub fn member_count(&self, club_id: ClubId) -> (r: u32)
        requires
            self.wf(),
        ensures
            r == self.members.member_count_of(club_id),
    {
        self.members.member_count_get(club_id)
    }
}

} // verus!
