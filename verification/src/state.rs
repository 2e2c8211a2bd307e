//! The assembled platform: configuration, clock, currency, the six
//! engines, and the event log.

use vstd::prelude::*;
use crate::analytics::Analytics;
use crate::balances::Balances;
use crate::crosschain::Crosschain;
use crate::disputes::Disputes;
use crate::governance::Governance;
use crate::ids::AccountId;
use crate::ids::Balance;
use crate::ids::BlockNumber;
use crate::ids::ClubId;
use crate::members::Members;
use crate::treasury::Treasury;

verus! {

/// The platform's fixed configuration, chosen at construction.
#[derive(Clone, Copy, PartialEq, Eq, Structural, Debug)]
pub struct Config {
    /// Most signers a withdrawal can collect.
    pub max_signers: u32,
    /// Distinct signers needed to approve a withdrawal.
    pub min_signatures: u32,
    /// Default smallest acceptable contribution.
    pub min_contribution: u64,
    /// Default length of a contribution cycle, in blocks.
    pub default_contribution_period: u32,
    /// Most concurrently active proposals per club.
    pub max_proposals_per_club: u32,
    /// Longest allowed voting window, in blocks.
    pub max_voting_duration: u32,
    /// The deposit reserved from a proposer.
    pub min_proposal_deposit: u64,
    /// Most members per club.
    pub max_members_per_club: u32,
}

impl Config {
    /// A configuration the engines can run on: the signer bounds leave room
    /// for the requester's own seed signature.
    pub open spec fn wf(self) -> bool {
        &&& self.max_signers >= 1
        &&& self.min_signatures >= 1
    }
}

impl Default for Config {
    /// The platform's standard configuration.
    fn default() -> (r: Config)
        ensures
            r.wf(),
            r == (Config {
                max_signers: 10,
                min_signatures: 3,
                min_contribution: 1000,
                default_contribution_period: 10000,
                max_proposals_per_club: 100,
                max_voting_duration: 100000,
                min_proposal_deposit: 1000,
                max_members_per_club: 1000,
            }),
    {
        Config {
            max_signers: 10,
            min_signatures: 3,
            min_contribution: 1000,
            default_contribution_period: 10000,
            max_proposals_per_club: 100,
            max_voting_duration: 100000,
            min_proposal_deposit: 1000,
            max_members_per_club: 1000,
        }
    }
}

/// Longest accepted proposal title, in bytes.
pub const MAX_TITLE_LEN: usize = 256;

/// Longest accepted proposal description, in bytes.
pub const MAX_DESCRIPTION_LEN: usize = 4096;

/// Longest accepted dispute description, in bytes.
pub const MAX_DISPUTE_DESCRIPTION_LEN: usize = 1024;

/// Longest accepted evidence submission, in bytes.
pub const MAX_EVIDENCE_LEN: usize = 2048;

/// Longest accepted club name, in bytes.
pub const MAX_CLUB_NAME_LEN: usize = 256;

/// Longest accepted club description, in bytes.
pub const MAX_CLUB_DESCRIPTION_LEN: usize = 1024;

/// Everything any engine announces, in order of occurrence.
#[derive(Clone, PartialEq, Eq, Debug)]
pub enum RuntimeEvent {
    /// From the treasury engine.
    Treasury(crate::treasury::Event),
    /// From the governance engine.
    Governance(crate::governance::Event),
    /// From the dispute engine.
    Disputes(crate::disputes::Event),
    /// From the membership engine.
    Members(crate::members::Event),
    /// From the analytics engine.
    Analytics(crate::analytics::Event),
    /// From the cross-chain engine.
    Crosschain(crate::crosschain::Event),
}

/// The whole platform state.  Every operation is a method on this type:
/// a pure, deterministic step from one state to the next that either
/// applies all of its effects or, on a typed error, none.
pub struct Chain {
    /// The fixed configuration.
    pub config: Config,
    /// The current block height, as the clock collaborator reports it.
    pub height: BlockNumber,
    /// The currency collaborator's ledger.
    pub balances: Balances,
    /// The treasury engine.
    pub treasury: Treasury,
    /// The governance engine.
    pub governance: Governance,
    /// The dispute engine.
    pub disputes: Disputes,
    /// The membership engine.
    pub members: Members,
    /// The analytics counters.
    pub analytics: Analytics,
    /// The cross-chain stub.
    pub crosschain: Crosschain,
    /// Everything announced so far, oldest first.
    pub events: Vec<RuntimeEvent>,
}

impl Chain {
    /// Each club's recorded treasury balance is reconciled with its holding
    /// account: recorded = held + sent away cross-chain.
    pub open spec fn wf_tie(self) -> bool {
        forall|c: ClubId|
            #[trigger] self.treasury.balance_of(c) == self.balances.free_of(
                AccountId::ClubTreasury(c),
            ) + self.crosschain.sent_of(c)
    }

    /// The reconciliation only watches recorded balances, holding accounts
    /// and sent history: it survives any change that leaves them alone.
    pub proof fn lemma_wf_tie_preserved(self, prior: Chain)
        requires
            prior.wf_tie(),
            forall|c: ClubId|
                #[trigger] self.treasury.balance_of(c) == prior.treasury.balance_of(c),
            forall|c: ClubId|
                #[trigger] self.balances.free_of(AccountId::ClubTreasury(c))
                    == prior.balances.free_of(AccountId::ClubTreasury(c)),
            forall|c: ClubId| #[trigger] self.crosschain.sent_of(c) == prior.crosschain.sent_of(c),
        ensures
            self.wf_tie(),
    {
        assert forall|c: ClubId|
            #[trigger] self.treasury.balance_of(c) == self.balances.free_of(
                AccountId::ClubTreasury(c),
            ) + self.crosschain.sent_of(c) by {
            assert(prior.treasury.balance_of(c) == prior.balances.free_of(
                AccountId::ClubTreasury(c),
            ) + prior.crosschain.sent_of(c));
        }
    }

    /// The platform invariant: every engine's invariant, conservation of
    /// currency, and headroom so that no balance update can overflow.
    pub open spec fn wf(self) -> bool {
        &&& self.config.wf()
        &&& self.balances.wf()
        &&& self.treasury.wf(self.config)
        &&& self.governance.wf()
        &&& self.disputes.wf()
        &&& self.members.wf()
        &&& self.analytics.wf()
        &&& self.crosschain.wf()
        &&& self.wf_tie()
        &&& self.balances.issuance() + self.crosschain.total_sent_spec() <= Balance::MAX
    }

    /// A fresh platform: no accounts, no clubs, height zero.
    pub fn new(config: Config) -> (r: Chain)
        requires
            config.wf(),
        ensures
            r.wf(),
            r.config == config,
            r.height == 0,
            r.events@ == Seq::<RuntimeEvent>::empty(),
            r.balances.issuance() == 0,
            r.crosschain.total_sent_spec() == 0,
            forall|a: u64| #[trigger] r.balances.free_of(AccountId::User(a)) == 0,
            forall|c: ClubId| #[trigger] r.treasury.balance_of(c) == 0,
            forall|c: ClubId| #[trigger] r.treasury.withdrawal_count_of(c) == 0,
            forall|c: ClubId| #[trigger] r.treasury.cycle_count_of(c) == 0,
            forall|c: ClubId| #[trigger] r.treasury.active_cycle_of(c) is None,
            r.treasury.withdrawals_map() == Map::<crate::ids::ClubItemKey,
                crate::treasury::WithdrawalRequest>::empty(),
            r.treasury.cycles_map() == Map::<crate::ids::ClubItemKey,
                crate::treasury::ContributionCycle>::empty(),
            r.treasury.contributions_map() == Map::<crate::ids::ClubItemAccountKey,
                crate::treasury::Contribution>::empty(),
            forall|c: ClubId| #[trigger] r.governance.proposal_count_of(c) == 0,
            forall|c: ClubId| #[trigger] r.governance.active_list_of(c)
                == Seq::<crate::ids::ProposalId>::empty(),
            r.governance.proposals_map() == Map::<crate::ids::ClubItemKey,
                crate::governance::Proposal>::empty(),
            r.governance.votes_map() == Map::<crate::ids::ClubItemAccountKey,
                crate::governance::Vote>::empty(),
            forall|c: ClubId| #[trigger] r.disputes.dispute_count_of(c) == 0,
            r.disputes.disputes_map() == Map::<crate::ids::ClubItemKey,
                crate::disputes::Dispute>::empty(),
            r.disputes.evidence_map() == Map::<crate::ids::ClubItemAccountKey,
                crate::disputes::Evidence>::empty(),
            r.disputes.votes_map() == Map::<crate::ids::ClubItemAccountKey,
                crate::disputes::DisputeVote>::empty(),
            r.members.club_count_spec() == 0,
            forall|c: ClubId| #[trigger] r.members.member_count_of(c) == 0,
            r.members.clubs_map() == Map::<ClubId, crate::members::Club>::empty(),
            r.members.members_map() == Map::<crate::ids::ClubAccountKey,
                crate::members::MemberProfile>::empty(),
            forall|c: ClubId| #[trigger] r.analytics.event_counts_of(c)
                == crate::analytics::EventCounts::spec_zero(),
            r.analytics.global_counts() == crate::analytics::EventCounts::spec_zero(),
            r.analytics.metrics_map() == Map::<ClubId, crate::analytics::PerformanceMetrics>::empty(),
            forall|c: ClubId| #[trigger] r.crosschain.operation_count_of(c) == 0,
            forall|c: ClubId| #[trigger] r.crosschain.sent_of(c) == 0,
            r.crosschain.operations_map() == Map::<crate::ids::ClubItemKey,
                crate::crosschain::CrossChainOperation>::empty(),
    {
        Chain {
            config,
            height: 0,
            balances: Balances::new(),
            treasury: Treasury::new(),
            governance: Governance::new(),
            disputes: Disputes::new(),
            members: Members::new(),
            analytics: Analytics::new(),
            crosschain: Crosschain::new(),
            events: Vec::new(),
        }
    }

    /// Mint `amount` into `who`'s spendable balance; genesis endowment.
    pub fn endow(&mut self, who: u64, amount: Balance)
        requires
            old(self).wf(),
            old(self).balances.issuance() + old(self).crosschain.total_sent_spec() + amount
                <= Balance::MAX,
        ensures
            final(self).wf(),
            final(self).balances.free_of(AccountId::User(who)) == old(self).balances.free_of(
                AccountId::User(who),
            ) + amount,
            final(self).balances.issuance() == old(self).balances.issuance() + amount,
            forall|a: AccountId|
                a != AccountId::User(who) ==> final(self).balances.account(a) == old(
                    self,
                ).balances.account(a),
            final(self).config == old(self).config,
            final(self).height == old(self).height,
            final(self).treasury == old(self).treasury,
            final(self).governance == old(self).governance,
            final(self).disputes == old(self).disputes,
            final(self).members == old(self).members,
            final(self).analytics == old(self).analytics,
            final(self).crosschain == old(self).crosschain,
            final(self).events == old(self).events,
    {
        proof {
            self.balances.lemma_account_bounded(AccountId::User(who));
        }
        self.balances.endow(AccountId::User(who), amount);
    }

    /// Advance the clock.  The surrounding environment's height never goes
    /// backwards.
    pub fn set_height(&mut self, height: BlockNumber)
        requires
            height >= old(self).height,
        ensures
            *final(self) == (Chain { height, ..*old(self) }),
            old(self).wf() ==> final(self).wf(),
    {
        self.height = height;
    }

    /// The current block height.
    pub fn current_height(&self) -> (r: BlockNumber)
        ensures
            r == self.height,
    {
        self.height
    }

    /// The spendable balance of a user account.
    pub fn free_balance(&self, who: u64) -> (r: Balance)
        requires
            self.wf(),
        ensures
            r == self.balances.free_of(AccountId::User(who)),
    {
        self.balances.free_balance(AccountId::User(who))
    }
}

} // verus!

verus! {

impl Chain {
    /// The total currency in existence.
    pub fn total_issuance(&self) -> (r: Balance)
        ensures
            r == self.balances.issuance(),
    {
        self.balances.issuance_get()
    }
}

} // verus!
