//! The analytics counters: pure bookkeeping of how often things happen,
//! per club and platform-wide.

use vstd::prelude::*;
use crate::ids::ClubId;
use crate::state::RuntimeEvent;
use crate::store::KeyedMap;

verus! {

/// Manually recorded performance figures of one club.
#[derive(Clone, Copy, PartialEq, Eq, Structural, Debug)]
pub struct PerformanceMetrics {
    /// Net return, in basis points; may be negative.
    pub total_return: i64,
    /// Risk score.
    pub risk_score: u8,
    /// Diversification score.
    pub diversification_score: u8,
}

/// The kinds of happenings that are counted.
#[derive(Clone, Copy, PartialEq, Eq, Structural, Debug)]
pub enum AnalyticsEvent {
    /// An account joined a club.
    NewMember,
    /// A club was created.
    NewClub,
    /// A contribution was pooled.
    Contribution,
    /// A proposal was created.
    ProposalCreated,
    /// A cross-chain operation ran.
    CrossChainCall,
    /// A dispute was opened.
    Dispute,
}

/// Running totals of the counted happenings.
#[derive(Clone, Copy, PartialEq, Eq, Structural, Debug)]
pub struct EventCounts {
    /// Accounts that joined.
    pub new_members: u64,
    /// Clubs created.
    pub new_clubs: u64,
    /// Contributions pooled.
    pub contributions: u64,
    /// Proposals created.
    pub proposals_created: u64,
    /// Cross-chain operations run.
    pub cross_chain_calls: u64,
    /// Disputes opened.
    pub disputes: u64,
}

impl EventCounts {
    /// All counters at zero.
    pub open spec fn spec_zero() -> EventCounts {
        EventCounts {
            new_members: 0,
            new_clubs: 0,
            contributions: 0,
            proposals_created: 0,
            cross_chain_calls: 0,
            disputes: 0,
        }
    }

    /// All counters at zero.
    pub fn zero() -> (r: EventCounts)
        ensures
            r == EventCounts::spec_zero(),
    {
        EventCounts {
            new_members: 0,
            new_clubs: 0,
            contributions: 0,
            proposals_created: 0,
            cross_chain_calls: 0,
            disputes: 0,
        }
    }
}

/// What the analytics engine announces on success.
#[derive(Clone, PartialEq, Eq, Debug)]
pub enum Event {
    /// A club's metrics were replaced.
    MetricsUpdated {
        /// The club concerned.
        club_id: ClubId,
    },
    /// A happening was counted.
    EventTracked {
        /// The club concerned.
        club_id: ClubId,
        /// What was counted.
        event_type: AnalyticsEvent,
    },
}

/// The analytics engine's persistent state.
pub struct Analytics {
    pub(crate) metrics: KeyedMap<ClubId, PerformanceMetrics>,
    pub(crate) event_counts: KeyedMap<ClubId, EventCounts>,
    pub(crate) global_event_counts: EventCounts,
}

impl Analytics {
    /// The recorded metrics of `club`, if any.
    pub closed spec fn metrics_map(self) -> Map<ClubId, PerformanceMetrics> {
        self.metrics@
    }

    /// The counters of `club`; all zero until something is counted.
    pub closed spec fn event_counts_of(self, club: ClubId) -> EventCounts {
        if self.event_counts@.contains_key(club) {
            self.event_counts@[club]
        } else {
            EventCounts::spec_zero()
        }
    }

    /// The platform-wide counters.
    pub closed spec fn global_counts(self) -> EventCounts {
        self.global_event_counts
    }

    /// The underlying stores are maps.
    pub closed spec fn wf(self) -> bool {
        &&& self.metrics.wf()
        &&& self.event_counts.wf()
    }

    /// An analytics engine that has never counted anything.
    pub fn new() -> (r: Analytics)
        ensures
            r.wf(),
            r.metrics_map() == Map::<ClubId, PerformanceMetrics>::empty(),
            forall|c: ClubId| #[trigger] r.event_counts_of(c) == EventCounts::spec_zero(),
            r.global_counts() == EventCounts::spec_zero(),
    {
        Analytics {
            metrics: KeyedMap::new(),
            event_counts: KeyedMap::new(),
            global_event_counts: EventCounts::zero(),
        }
    }
}

} // verus!

verus! {

/// `counts` with the counter of `ev` stepped once, saturating.
pub open spec fn spec_bump(counts: EventCounts, ev: AnalyticsEvent) -> EventCounts {
    match ev {
        AnalyticsEvent::NewMember => EventCounts {
            new_members: crate::arith::spec_sat_add_u64(counts.new_members, 1),
            ..counts
        },
        AnalyticsEvent::NewClub => EventCounts {
            new_clubs: crate::arith::spec_sat_add_u64(counts.new_clubs, 1),
            ..counts
        },
        AnalyticsEvent::Contribution => EventCounts {
            contributions: crate::arith::spec_sat_add_u64(counts.contributions, 1),
            ..counts
        },
        AnalyticsEvent::ProposalCreated => EventCounts {
            proposals_created: crate::arith::spec_sat_add_u64(counts.proposals_created, 1),
            ..counts
        },
        AnalyticsEvent::CrossChainCall => EventCounts {
            cross_chain_calls: crate::arith::spec_sat_add_u64(counts.cross_chain_calls, 1),
            ..counts
        },
        AnalyticsEvent::Dispute => EventCounts {
            disputes: crate::arith::spec_sat_add_u64(counts.disputes, 1),
            ..counts
        },
    }
}

/// `counts` with the counter of `ev` stepped once, saturating.
fn bump(counts: EventCounts, ev: AnalyticsEvent) -> (r: EventCounts)
    ensures
        r == spec_bump(counts, ev),
{
    match ev {
        AnalyticsEvent::NewMember => EventCounts {
            new_members: crate::arith::sat_add_u64(counts.new_members, 1),
            ..counts
        },
        AnalyticsEvent::NewClub => EventCounts {
            new_clubs: crate::arith::sat_add_u64(counts.new_clubs, 1),
            ..counts
        },
        AnalyticsEvent::Contribution => EventCounts {
            contributions: crate::arith::sat_add_u64(counts.contributions, 1),
            ..counts
        },
        AnalyticsEvent::ProposalCreated => EventCounts {
            proposals_created: crate::arith::sat_add_u64(counts.proposals_created, 1),
            ..counts
        },
        AnalyticsEvent::CrossChainCall => EventCounts {
            cross_chain_calls: crate::arith::sat_add_u64(counts.cross_chain_calls, 1),
            ..counts
        },
        AnalyticsEvent::Dispute => EventCounts {
            disputes: crate::arith::sat_add_u64(counts.disputes, 1),
            ..counts
        },
    }
}

impl crate::state::Chain {
    /// Replace the recorded performance metrics of `club_id`.
    pub fn update_metrics(&mut self, club_id: ClubId, metrics: PerformanceMetrics)
        requires
            old(self).wf(),
        ensures
            final(self).wf(),
            final(self).analytics.metrics_map() == old(self).analytics.metrics_map().insert(
                club_id,
                metrics,
            ),
            forall|c: ClubId|
                #[trigger] final(self).analytics.event_counts_of(c) == old(
                    self,
                ).analytics.event_counts_of(c),
            final(self).analytics.global_counts() == old(self).analytics.global_counts(),
            final(self).events@ == old(self).events@.push(
                RuntimeEvent::Analytics(Event::MetricsUpdated { club_id }),
            ),
            final(self).balances == old(self).balances,
            final(self).treasury == old(self).treasury,
            final(self).config == old(self).config,
            final(self).height == old(self).height,
            final(self).governance == old(self).governance,
            final(self).disputes == old(self).disputes,
            final(self).members == old(self).members,
            final(self).crosschain == old(self).crosschain,
    {
        self.analytics.metrics.insert(club_id, metrics);
        proof {
            self.lemma_wf_tie_preserved(*old(self));
        }
        self.events.push(RuntimeEvent::Analytics(Event::MetricsUpdated { club_id }));
    }

    /// Count one happening of kind `event_type`, in `club_id`'s counters
    /// and in the platform-wide ones.
    pub fn track_event(&mut self, club_id: ClubId, event_type: AnalyticsEvent)
        requires
            old(self).wf(),
        ensures
            final(self).wf(),
            final(self).analytics.event_counts_of(club_id) == spec_bump(
                old(self).analytics.event_counts_of(club_id),
                event_type,
            ),
            forall|c: ClubId|
                c != club_id ==> #[trigger] final(self).analytics.event_counts_of(c) == old(
                    self,
                ).analytics.event_counts_of(c),
            final(self).analytics.global_counts() == spec_bump(
                old(self).analytics.global_counts(),
                event_type,
            ),
            final(self).analytics.metrics_map() == old(self).analytics.metrics_map(),
            final(self).events == old(self).events,
            final(self).balances == old(self).balances,
            final(self).treasury == old(self).treasury,
            final(self).config == old(self).config,
            final(self).height == old(self).height,
            final(self).governance == old(self).governance,
            final(self).disputes == old(self).disputes,
            final(self).members == old(self).members,
            final(self).crosschain == old(self).crosschain,
    {
        let current = match self.analytics.event_counts.get(club_id) {
            Some(c) => *c,
            None => EventCounts::zero(),
        };
        self.analytics.event_counts.insert(club_id, bump(current, event_type));
        self.analytics.global_event_counts = bump(self.analytics.global_event_counts, event_type);
        proof {
            self.lemma_wf_tie_preserved(*old(self));
        }
    }
}

} // verus!

verus! {

impl crate::state::Chain {
    /// The recorded performance metrics of `club_id`, if any.
    pub fn metrics(&self, club_id: ClubId) -> (r: Option<PerformanceMetrics>)
        requires
            self.wf(),
        ensures
            ({
                let m = self.analytics.metrics_map();
                &&& (r is Some <==> m.contains_key(club_id))
                &&& (r is Some ==> r->0 == m[club_id])
            }),
    {
        match self.analytics.metrics.get(club_id) {
            None => None,
            Some(m) => Some(*m),
        }
    }

    /// The counters of `club_id`; all zero until something is counted.
    pub fn event_counts(&self, club_id: ClubId) -> (r: EventCounts)
        requires
            self.wf(),
        ensures
            r == self.analytics.event_counts_of(club_id),
    {
        match self.analytics.event_counts.get(club_id) {
            None => EventCounts::zero(),
            Some(c) => *c,
        }
    }

    /// The platform-wide counters.
    pub fn global_event_counts(&self) -> (r: EventCounts)
        ensures
            r == self.analytics.global_counts(),
    {
        self.analytics.global_event_counts
    }
}

} // verus!
