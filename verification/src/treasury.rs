//! The treasury engine: multi-signature custody of club funds, time-locked
//! withdrawals and pooled contribution cycles with proportional payout.
//!
//! Every operation validates all of its preconditions against the current
//! state and only then mutates, so a failed call leaves the state untouched.
//! The recorded balance of each club obeys one conservation law, kept as an
//! invariant: it always equals cumulative deposits plus cumulative
//! contributions minus executed withdrawals minus claimed returns.

use vstd::prelude::*;
use crate::balances::ExistencePolicy;
use crate::ids::AccountId;
use crate::ids::Balance;
use crate::ids::BlockNumber;
use crate::ids::ClubId;
use crate::ids::ClubItemAccountKey;
use crate::ids::ClubItemKey;
use crate::ids::ContributionCycleId;
use crate::ids::WithdrawalId;
use crate::state::Config;
use crate::state::RuntimeEvent;
use crate::store::KeyedMap;

verus! {

/// The lifecycle of a withdrawal request.  Transitions are strictly
/// monotonic: `Pending` to `Approved` to `Executed`, or `Pending` to
/// `Cancelled`; never backwards.
#[derive(Clone, Copy, PartialEq, Eq, Structural, Debug)]
pub enum WithdrawalStatus {
    /// Collecting signatures.
    Pending,
    /// Quorum reached; waiting for the time lock.
    Approved,
    /// Funds paid out.
    Executed,
    /// Abandoned.
    Cancelled,
}

/// A request to pay club funds out to a recipient, guarded by a signer
/// quorum and a time lock.
#[derive(Clone, PartialEq, Eq, Debug)]
pub struct WithdrawalRequest {
    /// Identifier, unique within the club.
    pub id: WithdrawalId,
    /// The club whose funds are requested.
    pub club_id: ClubId,
    /// Who receives the funds on execution.
    pub recipient: u64,
    /// The amount to pay out.
    pub amount: Balance,
    /// Execution is refused before this height.
    pub unlock_at: BlockNumber,
    /// Lifecycle state.
    pub status: WithdrawalStatus,
    /// The distinct accounts that have signed; the requester is first.
    pub signatures: Vec<u64>,
    /// Height at which the request was made.
    pub created_at: BlockNumber,
}

/// The lifecycle of a contribution cycle.
#[derive(Clone, Copy, PartialEq, Eq, Structural, Debug)]
pub enum CycleStatus {
    /// Accepting contributions inside its window.
    Open,
    /// Window elapsed and closed; awaiting returns.
    Closed,
    /// Returns recorded; members may claim their share.
    Distributed,
}

/// A bounded window during which members pool funds, later paid back
/// proportionally.
#[derive(Clone, Copy, PartialEq, Eq, Structural, Debug)]
pub struct ContributionCycle {
    /// Identifier, unique within the club.
    pub id: ContributionCycleId,
    /// The owning club.
    pub club_id: ClubId,
    /// First height of the window.
    pub start_block: BlockNumber,
    /// Last height of the window.
    pub end_block: BlockNumber,
    /// Total pooled so far, over all contributors.
    pub total_contributions: Balance,
    /// The amount to share out, set when returns are distributed.
    pub returns: Balance,
    /// Lifecycle state.
    pub status: CycleStatus,
    /// Smallest acceptable single contribution.
    pub minimum_contribution: Balance,
}

/// One member's accumulated stake in a cycle.
#[derive(Clone, Copy, PartialEq, Eq, Structural, Debug)]
pub struct Contribution {
    /// The contributing account.
    pub contributor: u64,
    /// Accumulated amount over all of this member's contributions.
    pub amount: Balance,
    /// Height of the first contribution.
    pub contributed_at: BlockNumber,
}

/// How a treasury operation fails.  Every failure leaves the state
/// untouched.
#[derive(Clone, Copy, PartialEq, Eq, Structural, Debug)]
pub enum Error {
    /// The referenced withdrawal, cycle or contribution does not exist.
    NotFound,
    /// The operation is invalid for the entity's current lifecycle state.
    InvalidState,
    /// The approver has already signed this withdrawal.
    AlreadySigned,
    /// A bounded collection is full, an input is too large, or a
    /// contribution is below the cycle's minimum.
    LimitExceeded,
    /// A balance does not cover the requested amount.
    InsufficientFunds,
    /// The withdrawal's time lock has not expired yet.
    NotYetUnlocked,
    /// No returns: a zero distribution, or a share that rounds to nothing.
    NoReturnsToDistribute,
}

/// What the treasury engine announces on success.
#[derive(Clone, PartialEq, Eq, Debug)]
pub enum Event {
    /// Funds moved from a member into the club treasury.
    FundsDeposited {
        /// The receiving club.
        club_id: ClubId,
        /// The paying account.
        account: u64,
        /// The amount moved.
        amount: Balance,
    },
    /// A withdrawal request was created.
    WithdrawalRequested {
        /// The paying club.
        club_id: ClubId,
        /// The new request.
        withdrawal_id: WithdrawalId,
        /// Who will be paid.
        recipient: u64,
        /// The requested amount.
        amount: Balance,
    },
    /// A withdrawal gained a signature.
    WithdrawalApproved {
        /// The paying club.
        club_id: ClubId,
        /// The signed request.
        withdrawal_id: WithdrawalId,
        /// The new signer.
        approver: u64,
    },
    /// A withdrawal was paid out.
    WithdrawalExecuted {
        /// The paying club.
        club_id: ClubId,
        /// The executed request.
        withdrawal_id: WithdrawalId,
        /// Who was paid.
        recipient: u64,
        /// The amount paid.
        amount: Balance,
    },
    /// A contribution cycle opened.
    CycleOpened {
        /// The owning club.
        club_id: ClubId,
        /// The new cycle.
        cycle_id: ContributionCycleId,
        /// Last height of its window.
        end_block: BlockNumber,
    },
    /// A member pooled funds into the open cycle.
    ContributionMade {
        /// The owning club.
        club_id: ClubId,
        /// The open cycle.
        cycle_id: ContributionCycleId,
        /// The contributing account.
        contributor: u64,
        /// The amount pooled.
        amount: Balance,
    },
    /// A cycle's window elapsed and it was closed.
    CycleClosed {
        /// The owning club.
        club_id: ClubId,
        /// The closed cycle.
        cycle_id: ContributionCycleId,
        /// Its final pooled total.
        total_contributions: Balance,
    },
    /// Returns were recorded on a closed cycle.
    ReturnsDistributed {
        /// The owning club.
        club_id: ClubId,
        /// The distributed cycle.
        cycle_id: ContributionCycleId,
        /// The amount shared out.
        total_returns: Balance,
    },
}

/// The cumulative money flows of one club's treasury, kept as ghost history
/// so the conservation law can be stated exactly.
pub ghost struct Flows {
    /// Sum of all successful deposits.
    pub deposits: int,
    /// Sum of all successful contributions.
    pub contributions: int,
    /// Sum of all executed withdrawals.
    pub executed: int,
    /// Sum of all claimed returns.
    pub claimed: int,
}

impl Flows {
    /// A club that has seen no flow at all.
    pub open spec fn zero() -> Flows {
        Flows { deposits: 0, contributions: 0, executed: 0, claimed: 0 }
    }

    /// The net amount these flows leave in the treasury.
    pub open spec fn net(self) -> int {
        self.deposits + self.contributions - self.executed - self.claimed
    }

    /// All components are non-negative.
    pub open spec fn valid(self) -> bool {
        self.deposits >= 0 && self.contributions >= 0 && self.executed >= 0 && self.claimed >= 0
    }
}

/// No account occurs twice.
pub open spec fn distinct_seq(s: Seq<u64>) -> bool {
    forall|i: int, j: int| 0 <= i < j < s.len() ==> s[i] != s[j]
}

/// The treasury engine's persistent state.
pub struct Treasury {
    pub(crate) balances: KeyedMap<ClubId, Balance>,
    pub(crate) withdrawals: KeyedMap<ClubItemKey, WithdrawalRequest>,
    pub(crate) withdrawal_counts: KeyedMap<ClubId, u64>,
    pub(crate) cycles: KeyedMap<ClubItemKey, ContributionCycle>,
    pub(crate) active_cycles: KeyedMap<ClubId, ContributionCycleId>,
    pub(crate) cycle_counts: KeyedMap<ClubId, u64>,
    pub(crate) contributions: KeyedMap<ClubItemAccountKey, Contribution>,
    pub(crate) flows: Ghost<Map<ClubId, Flows>>,
}

impl Treasury {
    /// The recorded balance of `club`; zero when the club has never seen
    /// funds.
    pub closed spec fn balance_of(self, club: ClubId) -> int {
        if self.balances@.contains_key(club) {
            self.balances@[club] as int
        } else {
            0
        }
    }

    /// All withdrawal requests, by (club, id).
    pub closed spec fn withdrawals_map(self) -> Map<ClubItemKey, WithdrawalRequest> {
        self.withdrawals@
    }

    /// How many withdrawal ids `club` has allocated.
    pub closed spec fn withdrawal_count_of(self, club: ClubId) -> int {
        if self.withdrawal_counts@.contains_key(club) {
            self.withdrawal_counts@[club] as int
        } else {
            0
        }
    }

    /// All contribution cycles, by (club, id).
    pub closed spec fn cycles_map(self) -> Map<ClubItemKey, ContributionCycle> {
        self.cycles@
    }

    /// The open cycle of `club`, if one is open.
    pub closed spec fn active_cycle_of(self, club: ClubId) -> Option<ContributionCycleId> {
        if self.active_cycles@.contains_key(club) {
            Some(self.active_cycles@[club])
        } else {
            None
        }
    }

    /// How many cycle ids `club` has allocated.
    pub closed spec fn cycle_count_of(self, club: ClubId) -> int {
        if self.cycle_counts@.contains_key(club) {
            self.cycle_counts@[club] as int
        } else {
            0
        }
    }

    /// All per-member contribution records, by (club, cycle, account).
    pub closed spec fn contributions_map(self) -> Map<ClubItemAccountKey, Contribution> {
        self.contributions@
    }

    /// The cumulative flows of `club`.
    pub closed spec fn flows_of(self, club: ClubId) -> Flows {
        if self.flows@.contains_key(club) {
            self.flows@[club]
        } else {
            Flows::zero()
        }
    }

    /// Conservation: each club's recorded balance is exactly the net of its
    /// cumulative flows.
    pub open spec fn wf_conservation(self) -> bool {
        forall|c: ClubId|
            #[trigger] self.balance_of(c) == self.flows_of(c).net() && self.flows_of(c).valid()
    }

    /// Every stored withdrawal is coherent with its key, its id was
    /// allocated, its signer set is distinct and within bounds, and its
    /// status agrees with the quorum rule.
    pub open spec fn wf_withdrawals(self, cfg: Config) -> bool {
        forall|k: ClubItemKey| #[trigger]
            self.withdrawals_map().contains_key(k) ==> {
                let w = self.withdrawals_map()[k];
                &&& w.id == k.item
                &&& w.club_id == k.club
                &&& k.item < self.withdrawal_count_of(k.club)
                &&& distinct_seq(w.signatures@)
                &&& 1 <= w.signatures@.len() <= cfg.max_signers
                &&& w.status is Pending ==> (w.signatures@.len() == 1 || w.signatures@.len()
                    < cfg.min_signatures)
                &&& w.status is Approved ==> w.signatures@.len() >= cfg.min_signatures
            }
    }

    /// Every stored cycle is coherent with its key and its window.
    pub open spec fn wf_cycles(self) -> bool {
        forall|k: ClubItemKey| #[trigger]
            self.cycles_map().contains_key(k) ==> {
                let cy = self.cycles_map()[k];
                &&& cy.id == k.item
                &&& cy.club_id == k.club
                &&& k.item < self.cycle_count_of(k.club)
                &&& cy.start_block <= cy.end_block
            }
    }

    /// An active-cycle pointer always names an existing, open cycle.
    pub open spec fn wf_active(self) -> bool {
        forall|c: ClubId|
            #[trigger] self.active_cycle_of(c) is Some ==> {
                let k = ClubItemKey { club: c, item: self.active_cycle_of(c)->0 };
                &&& self.cycles_map().contains_key(k)
                &&& self.cycles_map()[k].status is Open
            }
    }

    /// Every contribution names its owner and never exceeds its cycle's
    /// pooled total.
    pub open spec fn wf_contributions(self) -> bool {
        forall|k: ClubItemAccountKey| #[trigger]
            self.contributions_map().contains_key(k) ==> {
                let con = self.contributions_map()[k];
                let ck = ClubItemKey { club: k.club, item: k.item };
                &&& con.contributor == k.who
                &&& self.cycles_map().contains_key(ck)
                &&& con.amount <= self.cycles_map()[ck].total_contributions
            }
    }

    /// The underlying stores are maps.
    pub closed spec fn wf_maps(self) -> bool {
        &&& self.balances.wf()
        &&& self.withdrawals.wf()
        &&& self.withdrawal_counts.wf()
        &&& self.cycles.wf()
        &&& self.active_cycles.wf()
        &&& self.cycle_counts.wf()
        &&& self.contributions.wf()
    }

    /// The whole treasury invariant.
    pub open spec fn wf(self, cfg: Config) -> bool {
        &&& self.wf_maps()
        &&& self.wf_conservation()
        &&& self.wf_withdrawals(cfg)
        &&& self.wf_cycles()
        &&& self.wf_active()
        &&& self.wf_contributions()
    }

    /// A treasury that has never seen an operation.
    pub fn new() -> (r: Treasury)
        ensures
            forall|cfg: Config| r.wf(cfg),
            forall|c: ClubId| #[trigger] r.balance_of(c) == 0,
            forall|c: ClubId| #[trigger] r.flows_of(c) == Flows::zero(),
            r.withdrawals_map() == Map::<ClubItemKey, WithdrawalRequest>::empty(),
            r.cycles_map() == Map::<ClubItemKey, ContributionCycle>::empty(),
            r.contributions_map() == Map::<ClubItemAccountKey, Contribution>::empty(),
            forall|c: ClubId| #[trigger] r.withdrawal_count_of(c) == 0,
            forall|c: ClubId| #[trigger] r.cycle_count_of(c) == 0,
            forall|c: ClubId| #[trigger] r.active_cycle_of(c) is None,
    {
        Treasury {
            balances: KeyedMap::new(),
            withdrawals: KeyedMap::new(),
            withdrawal_counts: KeyedMap::new(),
            cycles: KeyedMap::new(),
            active_cycles: KeyedMap::new(),
            cycle_counts: KeyedMap::new(),
            contributions: KeyedMap::new(),
            flows: Ghost(Map::empty()),
        }
    }
}

} // verus!

verus! {

/// The holding account under which `club`'s treasury keeps its funds.
pub fn treasury_account_id(club_id: ClubId) -> (r: AccountId)
    ensures
        r == AccountId::ClubTreasury(club_id),
{
    AccountId::ClubTreasury(club_id)
}

impl Treasury {
    /// The conservation law only watches recorded balances and flows: it
    /// survives any change that leaves them alone.
    proof fn lemma_wf_conservation_preserved(self, prior: Treasury)
        requires
            prior.wf_conservation(),
            self.balances == prior.balances,
            self.flows == prior.flows,
        ensures
            self.wf_conservation(),
    {
        assert forall|c: ClubId|
            #[trigger] self.balance_of(c) == self.flows_of(c).net() && self.flows_of(
                c,
            ).valid() by {
            let prior_balance = prior.balance_of(c);
            assert(prior.balance_of(c) == prior.flows_of(c).net() && prior.flows_of(c).valid());
        }
    }

    /// The withdrawal part of the invariant only watches the withdrawal
    /// stores: it survives any change that leaves them alone.
    proof fn lemma_wf_withdrawals_preserved(self, prior: Treasury, cfg: Config)
        requires
            prior.wf_withdrawals(cfg),
            self.withdrawals == prior.withdrawals,
            self.withdrawal_counts == prior.withdrawal_counts,
        ensures
            self.wf_withdrawals(cfg),
    {
        assert forall|k: ClubItemKey| #[trigger]
            self.withdrawals_map().contains_key(k) implies {
            let w = self.withdrawals_map()[k];
            &&& w.id == k.item
            &&& w.club_id == k.club
            &&& k.item < self.withdrawal_count_of(k.club)
            &&& distinct_seq(w.signatures@)
            &&& 1 <= w.signatures@.len() <= cfg.max_signers
            &&& w.status is Pending ==> (w.signatures@.len() == 1 || w.signatures@.len()
                < cfg.min_signatures)
            &&& w.status is Approved ==> w.signatures@.len() >= cfg.min_signatures
        } by {
            assert(prior.withdrawals_map().contains_key(k));
        }
    }

    /// The cycle part of the invariant only watches the cycle stores.
    proof fn lemma_wf_cycles_preserved(self, prior: Treasury)
        requires
            prior.wf_cycles(),
            self.cycles == prior.cycles,
            self.cycle_counts == prior.cycle_counts,
        ensures
            self.wf_cycles(),
    {
        assert forall|k: ClubItemKey| #[trigger] self.cycles_map().contains_key(k) implies {
            let cy = self.cycles_map()[k];
            &&& cy.id == k.item
            &&& cy.club_id == k.club
            &&& k.item < self.cycle_count_of(k.club)
            &&& cy.start_block <= cy.end_block
        } by {
            assert(prior.cycles_map().contains_key(k));
        }
    }

    /// The active-pointer part of the invariant only watches the pointer
    /// and cycle stores.
    proof fn lemma_wf_active_preserved(self, prior: Treasury)
        requires
            prior.wf_active(),
            self.active_cycles == prior.active_cycles,
            self.cycles == prior.cycles,
        ensures
            self.wf_active(),
    {
        assert forall|c: ClubId| #[trigger] self.active_cycle_of(c) is Some implies {
            let k = ClubItemKey { club: c, item: self.active_cycle_of(c)->0 };
            &&& self.cycles_map().contains_key(k)
            &&& self.cycles_map()[k].status is Open
        } by {
            assert(prior.active_cycle_of(c) is Some);
        }
    }

    /// The contribution part of the invariant only watches the
    /// contribution and cycle stores.
    proof fn lemma_wf_contributions_preserved(self, prior: Treasury)
        requires
            prior.wf_contributions(),
            self.contributions == prior.contributions,
            self.cycles == prior.cycles,
        ensures
            self.wf_contributions(),
    {
        assert forall|k: ClubItemAccountKey| #[trigger]
            self.contributions_map().contains_key(k) implies {
            let con = self.contributions_map()[k];
            let ck = ClubItemKey { club: k.club, item: k.item };
            &&& con.contributor == k.who
            &&& self.cycles_map().contains_key(ck)
            &&& con.amount <= self.cycles_map()[ck].total_contributions
        } by {
            assert(prior.contributions_map().contains_key(k));
        }
    }

    /// The recorded balance of `club`, read from the store.
    pub(crate) fn balance_get(&self, club_id: ClubId) -> (r: Balance)
        requires
            self.wf_maps(),
        ensures
            r == self.balance_of(club_id),
    {
        self.balances.get_or(club_id, 0)
    }

    /// The withdrawal counter of `club`, read from the store.
    fn withdrawal_count_get(&self, club_id: ClubId) -> (r: u64)
        requires
            self.wf_maps(),
        ensures
            r == self.withdrawal_count_of(club_id),
    {
        self.withdrawal_counts.get_or(club_id, 0)
    }

    /// The cycle counter of `club`, read from the store.
    fn cycle_count_get(&self, club_id: ClubId) -> (r: u64)
        requires
            self.wf_maps(),
        ensures
            r == self.cycle_count_of(club_id),
    {
        self.cycle_counts.get_or(club_id, 0)
    }

    /// The active-cycle pointer of `club`, read from the store.
    fn active_cycle_get(&self, club_id: ClubId) -> (r: Option<ContributionCycleId>)
        requires
            self.wf_maps(),
        ensures
            r == self.active_cycle_of(club_id),
    {
        match self.active_cycles.get(club_id) {
            Some(id) => Some(*id),
            None => None,
        }
    }
}

impl crate::state::Chain {
    /// Move `amount` from `who` into the treasury of `club_id` and record
    /// it.  Fails exactly when `who`'s free balance does not cover
    /// `amount`; a failure changes nothing.
    pub fn deposit(&mut self, club_id: ClubId, who: u64, amount: Balance) -> (r: Result<
        (),
        Error,
    >)
        requires
            old(self).wf(),
        ensures
            final(self).wf(),
            r is Ok <==> old(self).balances.free_of(AccountId::User(who)) >= amount,
            r is Err ==> *final(self) == *old(self) && r == Err::<(), Error>(
                Error::InsufficientFunds,
            ),
            r is Ok ==> {
                &&& final(self).treasury.balance_of(club_id) == old(self).treasury.balance_of(
                    club_id,
                ) + amount
                &&& final(self).balances.free_of(AccountId::User(who)) == old(
                    self,
                ).balances.free_of(AccountId::User(who)) - amount
                &&& final(self).treasury.flows_of(club_id) == (Flows {
                    deposits: old(self).treasury.flows_of(club_id).deposits + amount,
                    ..old(self).treasury.flows_of(club_id)
                })
                &&& forall|c: ClubId|
                    c != club_id ==> #[trigger] final(self).treasury.balance_of(c) == old(
                        self,
                    ).treasury.balance_of(c) && final(self).treasury.flows_of(c) == old(
                        self,
                    ).treasury.flows_of(c)
                &&& final(self).events@ == old(self).events@.push(
                    RuntimeEvent::Treasury(
                        Event::FundsDeposited { club_id, account: who, amount },
                    ),
                )
                &&& final(self).treasury.withdrawals_map() == old(self).treasury.withdrawals_map()
                &&& final(self).treasury.cycles_map() == old(self).treasury.cycles_map()
                &&& final(self).treasury.contributions_map() == old(
                    self,
                ).treasury.contributions_map()
                &&& final(self).balances.issuance() == old(self).balances.issuance()
            },
            forall|c: ClubId|
                #[trigger] final(self).treasury.withdrawal_count_of(c) == old(
                    self,
                ).treasury.withdrawal_count_of(c) && final(self).treasury.cycle_count_of(c) == old(
                    self,
                ).treasury.cycle_count_of(c) && final(self).treasury.active_cycle_of(c) == old(
                    self,
                ).treasury.active_cycle_of(c),
            final(self).config == old(self).config,
            final(self).height == old(self).height,
            final(self).governance == old(self).governance,
            final(self).disputes == old(self).disputes,
            final(self).members == old(self).members,
            final(self).analytics == old(self).analytics,
            final(self).crosschain == old(self).crosschain,
    {
        match self.balances.transfer(
            AccountId::User(who),
            AccountId::ClubTreasury(club_id),
            amount,
            ExistencePolicy::KeepAlive,
        ) {
            Err(_) => {
                return Err(Error::InsufficientFunds);
            },
            Ok(()) => {},
        }
        proof {
            self.balances.lemma_account_bounded(AccountId::ClubTreasury(club_id));
        }
        let bal = self.treasury.balance_get(club_id);
        self.treasury.balances.insert(club_id, bal + amount);
        proof {
            let f = old(self).treasury.flows_of(club_id);
            self.treasury.flows = Ghost(
                self.treasury.flows@.insert(
                    club_id,
                    Flows { deposits: f.deposits + amount, ..f },
                ),
            );
            assert forall|c: ClubId|
                #[trigger] self.treasury.balance_of(c) == self.treasury.flows_of(c).net()
                    && self.treasury.flows_of(c).valid() by {
                if c != club_id {
                    assert(old(self).treasury.balance_of(c) == old(self).treasury.flows_of(
                        c,
                    ).net());
                }
            }
            self.treasury.lemma_wf_withdrawals_preserved(old(self).treasury, self.config);
            self.treasury.lemma_wf_cycles_preserved(old(self).treasury);
            self.treasury.lemma_wf_active_preserved(old(self).treasury);
            self.treasury.lemma_wf_contributions_preserved(old(self).treasury);
            assert forall|c: ClubId|
                #[trigger] self.treasury.balance_of(c) == self.balances.free_of(
                    AccountId::ClubTreasury(c),
                ) + self.crosschain.sent_of(c) by {
                if c != club_id {
                    assert(self.balances.account(AccountId::ClubTreasury(c)) == old(
                        self,
                    ).balances.account(AccountId::ClubTreasury(c)));
                    assert(old(self).treasury.balance_of(c) == old(self).balances.free_of(
                        AccountId::ClubTreasury(c),
                    ) + old(self).crosschain.sent_of(c));
                }
            }
        }
        self.events.push(
            RuntimeEvent::Treasury(Event::FundsDeposited { club_id, account: who, amount }),
        );
        Ok(())
    }

    /// Ask to pay `amount` of `club_id`'s treasury out to `recipient`,
    /// executable no earlier than `unlock_delay` blocks from now.  The new
    /// request gets the club's next withdrawal id and starts `Pending`,
    /// with the requester's own signature as the first approval.
    ///
    /// Fails with `InsufficientFunds` when the recorded balance does not
    /// cover `amount`, and else with `LimitExceeded` when the club's
    /// withdrawal id space is exhausted; a failure changes nothing.
    pub fn request_withdrawal(
        &mut self,
        club_id: ClubId,
        requester: u64,
        recipient: u64,
        amount: Balance,
        unlock_delay: BlockNumber,
    ) -> (r: Result<(), Error>)
        requires
            old(self).wf(),
        ensures
            final(self).wf(),
            r is Ok <==> old(self).treasury.balance_of(club_id) >= amount && old(
                self,
            ).treasury.withdrawal_count_of(club_id) < u64::MAX,
            r is Err ==> *final(self) == *old(self),
            r == Err::<(), Error>(Error::InsufficientFunds) <==> old(self).treasury.balance_of(
                club_id,
            ) < amount,
            old(self).treasury.balance_of(club_id) >= amount && old(
                self,
            ).treasury.withdrawal_count_of(club_id) == u64::MAX ==> r == Err::<(), Error>(
                Error::LimitExceeded,
            ),
            r is Ok ==> ({
                let id = old(self).treasury.withdrawal_count_of(club_id) as u64;
                let k = ClubItemKey { club: club_id, item: id };
                &&& !old(self).treasury.withdrawals_map().contains_key(k)
                &&& final(self).treasury.withdrawals_map().contains_key(k)
                &&& final(self).treasury.withdrawals_map() == old(
                    self,
                ).treasury.withdrawals_map().insert(k, final(self).treasury.withdrawals_map()[k])
                &&& ({
                    let w = final(self).treasury.withdrawals_map()[k];
                    &&& w.id == id
                    &&& w.club_id == club_id
                    &&& w.recipient == recipient
                    &&& w.amount == amount
                    &&& w.unlock_at == crate::arith::spec_sat_add_u32(
                        old(self).height,
                        unlock_delay,
                    )
                    &&& w.status is Pending
                    &&& w.signatures@ == seq![requester]
                    &&& w.created_at == old(self).height
                })
                &&& final(self).treasury.withdrawal_count_of(club_id) == id + 1
                &&& forall|c: ClubId|
                    c != club_id ==> #[trigger] final(self).treasury.withdrawal_count_of(c) == old(
                        self,
                    ).treasury.withdrawal_count_of(c)
                &&& final(self).events@ == old(self).events@.push(
                    RuntimeEvent::Treasury(
                        Event::WithdrawalRequested { club_id, withdrawal_id: id, recipient, amount },
                    ),
                )
            }),
            forall|c: ClubId|
                #[trigger] final(self).treasury.balance_of(c) == old(self).treasury.balance_of(c)
                    && final(self).treasury.flows_of(c) == old(self).treasury.flows_of(c),
            final(self).treasury.cycles_map() == old(self).treasury.cycles_map(),
            final(self).treasury.contributions_map() == old(self).treasury.contributions_map(),
            forall|c: ClubId|
                #[trigger] final(self).treasury.cycle_count_of(c) == old(
                    self,
                ).treasury.cycle_count_of(c) && final(self).treasury.active_cycle_of(c) == old(
                    self,
                ).treasury.active_cycle_of(c),
            final(self).balances == old(self).balances,
            final(self).config == old(self).config,
            final(self).height == old(self).height,
            final(self).governance == old(self).governance,
            final(self).disputes == old(self).disputes,
            final(self).members == old(self).members,
            final(self).analytics == old(self).analytics,
            final(self).crosschain == old(self).crosschain,
    {
        let bal = self.treasury.balance_get(club_id);
        if bal < amount {
            return Err(Error::InsufficientFunds);
        }
        let count = self.treasury.withdrawal_count_get(club_id);
        if count == u64::MAX {
            return Err(Error::LimitExceeded);
        }
        let unlock_at = crate::arith::sat_add_u32(self.height, unlock_delay);
        let mut signatures: Vec<u64> = Vec::new();
        signatures.push(requester);
        let w = WithdrawalRequest {
            id: count,
            club_id,
            recipient,
            amount,
            unlock_at,
            status: WithdrawalStatus::Pending,
            signatures,
            created_at: self.height,
        };
        let k = ClubItemKey { club: club_id, item: count };
        proof {
            assert(w.signatures@ =~= seq![requester]);
            if old(self).treasury.withdrawals_map().contains_key(k) {
                assert(k.item < old(self).treasury.withdrawal_count_of(k.club));
            }
        }
        self.treasury.withdrawals.insert(k, w);
        self.treasury.withdrawal_counts.insert(club_id, count + 1);
        proof {
            self.treasury.lemma_wf_conservation_preserved(old(self).treasury);
            self.treasury.lemma_wf_cycles_preserved(old(self).treasury);
            self.treasury.lemma_wf_active_preserved(old(self).treasury);
            self.treasury.lemma_wf_contributions_preserved(old(self).treasury);
            assert forall|k2: ClubItemKey| #[trigger]
                self.treasury.withdrawals_map().contains_key(k2) implies {
                let w2 = self.treasury.withdrawals_map()[k2];
                &&& w2.id == k2.item
                &&& w2.club_id == k2.club
                &&& k2.item < self.treasury.withdrawal_count_of(k2.club)
                &&& distinct_seq(w2.signatures@)
                &&& 1 <= w2.signatures@.len() <= self.config.max_signers
                &&& w2.status is Pending ==> (w2.signatures@.len() == 1 || w2.signatures@.len()
                    < self.config.min_signatures)
                &&& w2.status is Approved ==> w2.signatures@.len() >= self.config.min_signatures
            } by {
                if k2 != k {
                    assert(old(self).treasury.withdrawals_map().contains_key(k2));
                    assert(k2.item < old(self).treasury.withdrawal_count_of(k2.club));
                }
            }
            assert forall|c: ClubId|
                #[trigger] self.treasury.balance_of(c) == old(self).treasury.balance_of(
                    c,
                ) by {}
            self.lemma_wf_tie_preserved(*old(self));
        }
        self.events.push(
            RuntimeEvent::Treasury(
                Event::WithdrawalRequested { club_id, withdrawal_id: count, recipient, amount },
            ),
        );
        Ok(())
    }

    /// Add `approver`'s signature to a pending withdrawal.  The moment the
    /// distinct-signer count reaches the configured quorum — checked once,
    /// right after this insertion — the request turns `Approved`, and never
    /// accepts another signature.
    ///
    /// Fails with `NotFound` for an unknown request, `InvalidState` when
    /// the request is not pending, `AlreadySigned` when `approver` has
    /// signed before, and `LimitExceeded` when the signer set is full; a
    /// failure changes nothing.
    pub fn approve_withdrawal(
        &mut self,
        club_id: ClubId,
        withdrawal_id: WithdrawalId,
        approver: u64,
    ) -> (r: Result<(), Error>)
        requires
            old(self).wf(),
        ensures
            final(self).wf(),
            r is Err ==> *final(self) == *old(self),
            ({
                let k = ClubItemKey { club: club_id, item: withdrawal_id };
                let m = old(self).treasury.withdrawals_map();
                &&& (r is Ok <==> m.contains_key(k) && m[k].status is Pending
                    && !m[k].signatures@.contains(approver) && m[k].signatures@.len() < old(
                    self,
                ).config.max_signers)
                &&& (!m.contains_key(k) ==> r == Err::<(), Error>(Error::NotFound))
                &&& (m.contains_key(k) ==> {
                    let w = m[k];
                    &&& (!(w.status is Pending) ==> r == Err::<(), Error>(Error::InvalidState))
                    &&& (w.status is Pending && w.signatures@.contains(approver) ==> r == Err::<
                        (),
                        Error,
                    >(Error::AlreadySigned))
                    &&& (w.status is Pending && !w.signatures@.contains(approver)
                        && w.signatures@.len() >= old(self).config.max_signers ==> r == Err::<
                        (),
                        Error,
                    >(Error::LimitExceeded))
                })
                &&& (r is Ok ==> {
                    let w = m[k];
                    let w2 = final(self).treasury.withdrawals_map()[k];
                    &&& final(self).treasury.withdrawals_map().contains_key(k)
                    &&& final(self).treasury.withdrawals_map() == m.insert(k, w2)
                    &&& w2.signatures@ == w.signatures@.push(approver)
                    &&& (w2.status is Approved <==> w.signatures@.len() + 1 >= old(
                        self,
                    ).config.min_signatures)
                    &&& (w2.status is Approved || w2.status is Pending)
                    &&& w2.id == w.id
                    &&& w2.club_id == w.club_id
                    &&& w2.recipient == w.recipient
                    &&& w2.amount == w.amount
                    &&& w2.unlock_at == w.unlock_at
                    &&& w2.created_at == w.created_at
                    &&& final(self).events@ == old(self).events@.push(
                        RuntimeEvent::Treasury(
                            Event::WithdrawalApproved { club_id, withdrawal_id, approver },
                        ),
                    )
                })
            }),
            forall|c: ClubId|
                #[trigger] final(self).treasury.balance_of(c) == old(self).treasury.balance_of(c)
                    && final(self).treasury.flows_of(c) == old(self).treasury.flows_of(c)
                    && final(self).treasury.withdrawal_count_of(c) == old(
                    self,
                ).treasury.withdrawal_count_of(c),
            final(self).treasury.cycles_map() == old(self).treasury.cycles_map(),
            final(self).treasury.contributions_map() == old(self).treasury.contributions_map(),
            forall|c: ClubId|
                #[trigger] final(self).treasury.cycle_count_of(c) == old(
                    self,
                ).treasury.cycle_count_of(c) && final(self).treasury.active_cycle_of(c) == old(
                    self,
                ).treasury.active_cycle_of(c),
            final(self).balances == old(self).balances,
            final(self).config == old(self).config,
            final(self).height == old(self).height,
            final(self).governance == old(self).governance,
            final(self).disputes == old(self).disputes,
            final(self).members == old(self).members,
            final(self).analytics == old(self).analytics,
            final(self).crosschain == old(self).crosschain,
    {
        let k = ClubItemKey { club: club_id, item: withdrawal_id };
        let w = match self.treasury.withdrawals.get(k) {
            None => {
                return Err(Error::NotFound);
            },
            Some(w) => w,
        };
        match w.status {
            WithdrawalStatus::Pending => {},
            _ => {
                return Err(Error::InvalidState);
            },
        }
        if contains_u64(&w.signatures, approver) {
            return Err(Error::AlreadySigned);
        }
        if w.signatures.len() >= self.config.max_signers as usize {
            return Err(Error::LimitExceeded);
        }
        let mut sigs = crate::store::copy_vec(&w.signatures);
        sigs.push(approver);
        let status = if sigs.len() >= self.config.min_signatures as usize {
            WithdrawalStatus::Approved
        } else {
            WithdrawalStatus::Pending
        };
        let w2 = WithdrawalRequest {
            id: w.id,
            club_id: w.club_id,
            recipient: w.recipient,
            amount: w.amount,
            unlock_at: w.unlock_at,
            status,
            signatures: sigs,
            created_at: w.created_at,
        };
        self.treasury.withdrawals.insert(k, w2);
        proof {
            self.treasury.lemma_wf_conservation_preserved(old(self).treasury);
            self.treasury.lemma_wf_cycles_preserved(old(self).treasury);
            self.treasury.lemma_wf_active_preserved(old(self).treasury);
            self.treasury.lemma_wf_contributions_preserved(old(self).treasury);
            let prior = old(self).treasury;
            assert forall|k2: ClubItemKey| #[trigger]
                self.treasury.withdrawals_map().contains_key(k2) implies {
                let w2b = self.treasury.withdrawals_map()[k2];
                &&& w2b.id == k2.item
                &&& w2b.club_id == k2.club
                &&& k2.item < self.treasury.withdrawal_count_of(k2.club)
                &&& distinct_seq(w2b.signatures@)
                &&& 1 <= w2b.signatures@.len() <= self.config.max_signers
                &&& w2b.status is Pending ==> (w2b.signatures@.len() == 1 || w2b.signatures@.len()
                    < self.config.min_signatures)
                &&& w2b.status is Approved ==> w2b.signatures@.len() >= self.config.min_signatures
            } by {
                assert(prior.withdrawals_map().contains_key(k2));
                if k2 == k {
                    let s0 = prior.withdrawals_map()[k].signatures@;
                    let s1 = self.treasury.withdrawals_map()[k].signatures@;
                    assert(s1 == s0.push(approver));
                    assert forall|i: int, j: int| 0 <= i < j < s1.len() implies s1[i] != s1[j] by {
                        if j < s0.len() {
                            assert(s0[i] != s0[j]);
                        } else {
                            assert(!s0.contains(approver));
                            assert(s1[i] == s0[i]);
                        }
                    }
                }
            }
            assert forall|c: ClubId|
                #[trigger] self.treasury.balance_of(c) == old(self).treasury.balance_of(
                    c,
                ) by {}
            self.lemma_wf_tie_preserved(*old(self));
        }
        self.events.push(
            RuntimeEvent::Treasury(Event::WithdrawalApproved { club_id, withdrawal_id, approver }),
        );
        Ok(())
    }

    /// Pay an approved withdrawal out to its recipient.  Quorum and time
    /// lock are independent gates: execution needs status `Approved`, a
    /// current height at or past `unlock_at`, and funds that still cover
    /// the amount — the recorded balance may have changed since approval.
    ///
    /// Fails with `NotFound` for an unknown request, `InvalidState` when
    /// the request is not approved, `NotYetUnlocked` before the unlock
    /// height whatever else holds, and `InsufficientFunds` when either the
    /// recorded balance or the holding account no longer covers the
    /// amount; a failure changes nothing.
    pub fn execute_withdrawal(&mut self, club_id: ClubId, withdrawal_id: WithdrawalId) -> (r:
        Result<(), Error>)
        requires
            old(self).wf(),
        ensures
            final(self).wf(),
            r is Err ==> *final(self) == *old(self),
            ({
                let k = ClubItemKey { club: club_id, item: withdrawal_id };
                let m = old(self).treasury.withdrawals_map();
                &&& (r is Ok <==> m.contains_key(k) && m[k].status is Approved && old(self).height
                    >= m[k].unlock_at && old(self).treasury.balance_of(club_id) >= m[k].amount
                    && old(self).balances.free_of(AccountId::ClubTreasury(club_id)) >= m[k].amount)
                &&& (!m.contains_key(k) ==> r == Err::<(), Error>(Error::NotFound))
                &&& (m.contains_key(k) ==> {
                    let w = m[k];
                    &&& (!(w.status is Approved) ==> r == Err::<(), Error>(Error::InvalidState))
                    &&& (w.status is Approved && old(self).height < w.unlock_at ==> r == Err::<
                        (),
                        Error,
                    >(Error::NotYetUnlocked))
                    &&& (w.status is Approved && old(self).height >= w.unlock_at && (old(
                        self,
                    ).treasury.balance_of(club_id) < w.amount || old(self).balances.free_of(
                        AccountId::ClubTreasury(club_id),
                    ) < w.amount) ==> r == Err::<(), Error>(Error::InsufficientFunds))
                })
                &&& (r is Ok ==> {
                    let w = m[k];
                    let w2 = final(self).treasury.withdrawals_map()[k];
                    &&& final(self).treasury.withdrawals_map().contains_key(k)
                    &&& final(self).treasury.withdrawals_map() == m.insert(k, w2)
                    &&& w2.status is Executed
                    &&& w2.signatures@ == w.signatures@
                    &&& w2.id == w.id
                    &&& w2.club_id == w.club_id
                    &&& w2.recipient == w.recipient
                    &&& w2.amount == w.amount
                    &&& w2.unlock_at == w.unlock_at
                    &&& w2.created_at == w.created_at
                    &&& final(self).treasury.balance_of(club_id) == old(
                        self,
                    ).treasury.balance_of(club_id) - w.amount
                    &&& final(self).treasury.flows_of(club_id) == (Flows {
                        executed: old(self).treasury.flows_of(club_id).executed + w.amount,
                        ..old(self).treasury.flows_of(club_id)
                    })
                    &&& forall|c: ClubId|
                        c != club_id ==> #[trigger] final(self).treasury.balance_of(c) == old(
                            self,
                        ).treasury.balance_of(c) && final(self).treasury.flows_of(c) == old(
                            self,
                        ).treasury.flows_of(c)
                    &&& final(self).balances.free_of(AccountId::User(w.recipient)) == old(
                        self,
                    ).balances.free_of(AccountId::User(w.recipient)) + w.amount
                    &&& final(self).balances.issuance() == old(self).balances.issuance()
                    &&& final(self).events@ == old(self).events@.push(
                        RuntimeEvent::Treasury(
                            Event::WithdrawalExecuted {
                                club_id,
                                withdrawal_id,
                                recipient: w.recipient,
                                amount: w.amount,
                            },
                        ),
                    )
                })
            }),
            final(self).treasury.cycles_map() == old(self).treasury.cycles_map(),
            final(self).treasury.contributions_map() == old(self).treasury.contributions_map(),
            forall|c: ClubId|
                #[trigger] final(self).treasury.withdrawal_count_of(c) == old(
                    self,
                ).treasury.withdrawal_count_of(c) && final(self).treasury.cycle_count_of(c) == old(
                    self,
                ).treasury.cycle_count_of(c) && final(self).treasury.active_cycle_of(c) == old(
                    self,
                ).treasury.active_cycle_of(c),
            final(self).config == old(self).config,
            final(self).height == old(self).height,
            final(self).governance == old(self).governance,
            final(self).disputes == old(self).disputes,
            final(self).members == old(self).members,
            final(self).analytics == old(self).analytics,
            final(self).crosschain == old(self).crosschain,
    {
        let k = ClubItemKey { club: club_id, item: withdrawal_id };
        let (recipient, amount) = match self.treasury.withdrawals.get(k) {
            None => {
                return Err(Error::NotFound);
            },
            Some(w) => {
                match w.status {
                    WithdrawalStatus::Approved => {},
                    _ => {
                        return Err(Error::InvalidState);
                    },
                }
                if self.height < w.unlock_at {
                    return Err(Error::NotYetUnlocked);
                }
                (w.recipient, w.amount)
            },
        };
        let bal = self.treasury.balance_get(club_id);
        if bal < amount {
            return Err(Error::InsufficientFunds);
        }
        match self.balances.transfer(
            AccountId::ClubTreasury(club_id),
            AccountId::User(recipient),
            amount,
            ExistencePolicy::AllowDeath,
        ) {
            Err(_) => {
                return Err(Error::InsufficientFunds);
            },
            Ok(()) => {},
        }
        self.treasury.balances.insert(club_id, bal - amount);
        let w2 = match self.treasury.withdrawals.get(k) {
            None => {
                return Err(Error::NotFound);
            },
            Some(w) => WithdrawalRequest {
                id: w.id,
                club_id: w.club_id,
                recipient: w.recipient,
                amount: w.amount,
                unlock_at: w.unlock_at,
                status: WithdrawalStatus::Executed,
                signatures: crate::store::copy_vec(&w.signatures),
                created_at: w.created_at,
            },
        };
        self.treasury.withdrawals.insert(k, w2);
        proof {
            let f = old(self).treasury.flows_of(club_id);
            self.treasury.flows = Ghost(
                self.treasury.flows@.insert(club_id, Flows { executed: f.executed + amount, ..f }),
            );
            assert forall|c: ClubId|
                #[trigger] self.treasury.balance_of(c) == self.treasury.flows_of(c).net()
                    && self.treasury.flows_of(c).valid() by {
                if c != club_id {
                    let prior_balance = old(self).treasury.balance_of(c);
                    assert(old(self).treasury.balance_of(c) == old(self).treasury.flows_of(
                        c,
                    ).net() && old(self).treasury.flows_of(c).valid());
                }
            }
            self.treasury.lemma_wf_cycles_preserved(old(self).treasury);
            self.treasury.lemma_wf_active_preserved(old(self).treasury);
            self.treasury.lemma_wf_contributions_preserved(old(self).treasury);
            let prior = old(self).treasury;
            assert forall|k2: ClubItemKey| #[trigger]
                self.treasury.withdrawals_map().contains_key(k2) implies {
                let wb = self.treasury.withdrawals_map()[k2];
                &&& wb.id == k2.item
                &&& wb.club_id == k2.club
                &&& k2.item < self.treasury.withdrawal_count_of(k2.club)
                &&& distinct_seq(wb.signatures@)
                &&& 1 <= wb.signatures@.len() <= self.config.max_signers
                &&& wb.status is Pending ==> (wb.signatures@.len() == 1 || wb.signatures@.len()
                    < self.config.min_signatures)
                &&& wb.status is Approved ==> wb.signatures@.len() >= self.config.min_signatures
            } by {
                assert(prior.withdrawals_map().contains_key(k2));
            }
            assert forall|c: ClubId|
                #[trigger] self.treasury.balance_of(c) == self.balances.free_of(
                    AccountId::ClubTreasury(c),
                ) + self.crosschain.sent_of(c) by {
                if c != club_id {
                    assert(self.balances.account(AccountId::ClubTreasury(c)) == old(
                        self,
                    ).balances.account(AccountId::ClubTreasury(c)));
                    assert(old(self).treasury.balance_of(c) == old(self).balances.free_of(
                        AccountId::ClubTreasury(c),
                    ) + old(self).crosschain.sent_of(c));
                }
            }
        }
        self.events.push(
            RuntimeEvent::Treasury(
                Event::WithdrawalExecuted { club_id, withdrawal_id, recipient, amount },
            ),
        );
        Ok(())
    }
}

impl crate::state::Chain {
    /// Open a new contribution cycle for `club_id`, with the given window
    /// length and minimum contribution, or the configured defaults.  The
    /// cycle gets the club's next cycle id and its window is
    /// `[now, now + period]`.
    ///
    /// Fails with `InvalidState` while another cycle is open, and else
    /// with `LimitExceeded` when the club's cycle id space is exhausted; a
    /// failure changes nothing.
    pub fn open_contribution_cycle(
        &mut self,
        club_id: ClubId,
        contribution_period: Option<BlockNumber>,
        minimum_contribution: Option<Balance>,
    ) -> (r: Result<(), Error>)
        requires
            old(self).wf(),
        ensures
            final(self).wf(),
            r is Ok <==> old(self).treasury.active_cycle_of(club_id) is None && old(
                self,
            ).treasury.cycle_count_of(club_id) < u64::MAX,
            r is Err ==> *final(self) == *old(self),
            old(self).treasury.active_cycle_of(club_id) is Some ==> r == Err::<(), Error>(
                Error::InvalidState,
            ),
            old(self).treasury.active_cycle_of(club_id) is None && old(
                self,
            ).treasury.cycle_count_of(club_id) == u64::MAX ==> r == Err::<(), Error>(
                Error::LimitExceeded,
            ),
            r is Ok ==> ({
                let id = old(self).treasury.cycle_count_of(club_id) as u64;
                let k = ClubItemKey { club: club_id, item: id };
                let period = if contribution_period is Some {
                    contribution_period->0
                } else {
                    old(self).config.default_contribution_period
                };
                let min = if minimum_contribution is Some {
                    minimum_contribution->0
                } else {
                    old(self).config.min_contribution
                };
                &&& !old(self).treasury.cycles_map().contains_key(k)
                &&& final(self).treasury.cycles_map().contains_key(k)
                &&& final(self).treasury.cycles_map() == old(self).treasury.cycles_map().insert(
                    k,
                    final(self).treasury.cycles_map()[k],
                )
                &&& final(self).treasury.cycles_map()[k] == (ContributionCycle {
                    id,
                    club_id,
                    start_block: old(self).height,
                    end_block: crate::arith::spec_sat_add_u32(old(self).height, period),
                    total_contributions: 0,
                    returns: 0,
                    status: CycleStatus::Open,
                    minimum_contribution: min,
                })
                &&& final(self).treasury.active_cycle_of(club_id) == Some(id)
                &&& forall|c: ClubId|
                    c != club_id ==> #[trigger] final(self).treasury.active_cycle_of(c) == old(
                        self,
                    ).treasury.active_cycle_of(c)
                &&& final(self).treasury.cycle_count_of(club_id) == id + 1
                &&& forall|c: ClubId|
                    c != club_id ==> #[trigger] final(self).treasury.cycle_count_of(c) == old(
                        self,
                    ).treasury.cycle_count_of(c)
                &&& final(self).events@ == old(self).events@.push(
                    RuntimeEvent::Treasury(
                        Event::CycleOpened {
                            club_id,
                            cycle_id: id,
                            end_block: crate::arith::spec_sat_add_u32(old(self).height, period),
                        },
                    ),
                )
            }),
            forall|c: ClubId|
                #[trigger] final(self).treasury.balance_of(c) == old(self).treasury.balance_of(c)
                    && final(self).treasury.flows_of(c) == old(self).treasury.flows_of(c),
            final(self).treasury.withdrawals_map() == old(self).treasury.withdrawals_map(),
            final(self).treasury.contributions_map() == old(self).treasury.contributions_map(),
            forall|c: ClubId|
                #[trigger] final(self).treasury.withdrawal_count_of(c) == old(
                    self,
                ).treasury.withdrawal_count_of(c),
            final(self).balances == old(self).balances,
            final(self).config == old(self).config,
            final(self).height == old(self).height,
            final(self).governance == old(self).governance,
            final(self).disputes == old(self).disputes,
            final(self).members == old(self).members,
            final(self).analytics == old(self).analytics,
            final(self).crosschain == old(self).crosschain,
    {
        match self.treasury.active_cycle_get(club_id) {
            Some(_) => {
                return Err(Error::InvalidState);
            },
            None => {},
        }
        let count = self.treasury.cycle_count_get(club_id);
        if count == u64::MAX {
            return Err(Error::LimitExceeded);
        }
        let period = match contribution_period {
            Some(p) => p,
            None => self.config.default_contribution_period,
        };
        let min = match minimum_contribution {
            Some(m) => m,
            None => self.config.min_contribution,
        };
        let end_block = crate::arith::sat_add_u32(self.height, period);
        let cycle = ContributionCycle {
            id: count,
            club_id,
            start_block: self.height,
            end_block,
            total_contributions: 0,
            returns: 0,
            status: CycleStatus::Open,
            minimum_contribution: min,
        };
        let k = ClubItemKey { club: club_id, item: count };
        proof {
            if old(self).treasury.cycles_map().contains_key(k) {
                assert(k.item < old(self).treasury.cycle_count_of(k.club));
            }
        }
        self.treasury.cycles.insert(k, cycle);
        self.treasury.cycle_counts.insert(club_id, count + 1);
        self.treasury.active_cycles.insert(club_id, count);
        proof {
            self.treasury.lemma_wf_conservation_preserved(old(self).treasury);
            self.treasury.lemma_wf_withdrawals_preserved(old(self).treasury, self.config);
            let prior = old(self).treasury;
            assert forall|k2: ClubItemKey| #[trigger]
                self.treasury.cycles_map().contains_key(k2) implies {
                let cy = self.treasury.cycles_map()[k2];
                &&& cy.id == k2.item
                &&& cy.club_id == k2.club
                &&& k2.item < self.treasury.cycle_count_of(k2.club)
                &&& cy.start_block <= cy.end_block
            } by {
                if k2 != k {
                    assert(prior.cycles_map().contains_key(k2));
                    assert(k2.item < prior.cycle_count_of(k2.club));
                }
            }
            assert forall|c: ClubId| #[trigger] self.treasury.active_cycle_of(c) is Some implies {
                let k2 = ClubItemKey { club: c, item: self.treasury.active_cycle_of(c)->0 };
                &&& self.treasury.cycles_map().contains_key(k2)
                &&& self.treasury.cycles_map()[k2].status is Open
            } by {
                if c != club_id {
                    assert(prior.active_cycle_of(c) is Some);
                    let k2 = ClubItemKey { club: c, item: prior.active_cycle_of(c)->0 };
                    assert(prior.cycles_map().contains_key(k2));
                    assert(k2 != k);
                }
            }
            assert forall|k2: ClubItemAccountKey| #[trigger]
                self.treasury.contributions_map().contains_key(k2) implies {
                let con = self.treasury.contributions_map()[k2];
                let ck = ClubItemKey { club: k2.club, item: k2.item };
                &&& con.contributor == k2.who
                &&& self.treasury.cycles_map().contains_key(ck)
                &&& con.amount <= self.treasury.cycles_map()[ck].total_contributions
            } by {
                assert(prior.contributions_map().contains_key(k2));
                let ck = ClubItemKey { club: k2.club, item: k2.item };
                assert(prior.cycles_map().contains_key(ck));
                assert(ck != k);
            }
            assert forall|c: ClubId|
                #[trigger] self.treasury.balance_of(c) == old(self).treasury.balance_of(
                    c,
                ) by {}
            self.lemma_wf_tie_preserved(*old(self));
        }
        self.events.push(
            RuntimeEvent::Treasury(Event::CycleOpened { club_id, cycle_id: count, end_block }),
        );
        Ok(())
    }

    /// Close `club_id`'s open cycle once its window has elapsed, freeing
    /// the club to open the next one.
    ///
    /// Fails with `NotFound` when no cycle is open, and with
    /// `InvalidState` while the window still runs; a failure changes
    /// nothing.
    pub fn close_cycle(&mut self, club_id: ClubId) -> (r: Result<(), Error>)
        requires
            old(self).wf(),
        ensures
            final(self).wf(),
            r is Err ==> *final(self) == *old(self),
            ({
                let a = old(self).treasury.active_cycle_of(club_id);
                &&& (r is Ok <==> a is Some && old(self).height > old(self).treasury.cycles_map()[
                    (ClubItemKey { club: club_id, item: a->0 })
                ].end_block)
                &&& (a is None ==> r == Err::<(), Error>(Error::NotFound))
                &&& (a is Some && old(self).height <= old(self).treasury.cycles_map()[
                    (ClubItemKey { club: club_id, item: a->0 })
                ].end_block ==> r == Err::<(), Error>(Error::InvalidState))
                &&& (r is Ok ==> {
                    let k = ClubItemKey { club: club_id, item: a->0 };
                    let cy = old(self).treasury.cycles_map()[k];
                    &&& final(self).treasury.active_cycle_of(club_id) is None
                    &&& forall|c: ClubId|
                        c != club_id ==> #[trigger] final(self).treasury.active_cycle_of(c) == old(
                            self,
                        ).treasury.active_cycle_of(c)
                    &&& final(self).treasury.cycles_map() == old(self).treasury.cycles_map().insert(
                        k,
                        ContributionCycle { status: CycleStatus::Closed, ..cy },
                    )
                    &&& final(self).events@ == old(self).events@.push(
                        RuntimeEvent::Treasury(
                            Event::CycleClosed {
                                club_id,
                                cycle_id: a->0,
                                total_contributions: cy.total_contributions,
                            },
                        ),
                    )
                })
            }),
            forall|c: ClubId|
                #[trigger] final(self).treasury.balance_of(c) == old(self).treasury.balance_of(c)
                    && final(self).treasury.flows_of(c) == old(self).treasury.flows_of(c)
                    && final(self).treasury.cycle_count_of(c) == old(self).treasury.cycle_count_of(
                    c,
                ),
            final(self).treasury.withdrawals_map() == old(self).treasury.withdrawals_map(),
            final(self).treasury.contributions_map() == old(self).treasury.contributions_map(),
            forall|c: ClubId|
                #[trigger] final(self).treasury.withdrawal_count_of(c) == old(
                    self,
                ).treasury.withdrawal_count_of(c),
            final(self).balances == old(self).balances,
            final(self).config == old(self).config,
            final(self).height == old(self).height,
            final(self).governance == old(self).governance,
            final(self).disputes == old(self).disputes,
            final(self).members == old(self).members,
            final(self).analytics == old(self).analytics,
            final(self).crosschain == old(self).crosschain,
    {
        let cycle_id = match self.treasury.active_cycle_get(club_id) {
            None => {
                return Err(Error::NotFound);
            },
            Some(id) => id,
        };
        let k = ClubItemKey { club: club_id, item: cycle_id };
        let cycle = match self.treasury.cycles.get(k) {
            None => {
                return Err(Error::NotFound);
            },
            Some(cy) => *cy,
        };
        match cycle.status {
            CycleStatus::Open => {},
            _ => {
                return Err(Error::InvalidState);
            },
        }
        if self.height <= cycle.end_block {
            return Err(Error::InvalidState);
        }
        let closed = ContributionCycle { status: CycleStatus::Closed, ..cycle };
        self.treasury.cycles.insert(k, closed);
        self.treasury.active_cycles.remove(club_id);
        proof {
            self.treasury.lemma_wf_conservation_preserved(old(self).treasury);
            self.treasury.lemma_wf_withdrawals_preserved(old(self).treasury, self.config);
            let prior = old(self).treasury;
            assert forall|k2: ClubItemKey| #[trigger]
                self.treasury.cycles_map().contains_key(k2) implies {
                let cy = self.treasury.cycles_map()[k2];
                &&& cy.id == k2.item
                &&& cy.club_id == k2.club
                &&& k2.item < self.treasury.cycle_count_of(k2.club)
                &&& cy.start_block <= cy.end_block
            } by {
                assert(prior.cycles_map().contains_key(k2));
            }
            assert forall|c: ClubId| #[trigger] self.treasury.active_cycle_of(c) is Some implies {
                let k2 = ClubItemKey { club: c, item: self.treasury.active_cycle_of(c)->0 };
                &&& self.treasury.cycles_map().contains_key(k2)
                &&& self.treasury.cycles_map()[k2].status is Open
            } by {
                assert(c != club_id);
                assert(prior.active_cycle_of(c) is Some);
                let k2 = ClubItemKey { club: c, item: prior.active_cycle_of(c)->0 };
                assert(prior.cycles_map().contains_key(k2));
                assert(k2 != k);
            }
            assert forall|k2: ClubItemAccountKey| #[trigger]
                self.treasury.contributions_map().contains_key(k2) implies {
                let con = self.treasury.contributions_map()[k2];
                let ck = ClubItemKey { club: k2.club, item: k2.item };
                &&& con.contributor == k2.who
                &&& self.treasury.cycles_map().contains_key(ck)
                &&& con.amount <= self.treasury.cycles_map()[ck].total_contributions
            } by {
                assert(prior.contributions_map().contains_key(k2));
            }
            assert forall|c: ClubId|
                #[trigger] self.treasury.balance_of(c) == old(self).treasury.balance_of(
                    c,
                ) by {}
            self.lemma_wf_tie_preserved(*old(self));
        }
        self.events.push(
            RuntimeEvent::Treasury(
                Event::CycleClosed {
                    club_id,
                    cycle_id,
                    total_contributions: cycle.total_contributions,
                },
            ),
        );
        Ok(())
    }

    /// Record `returns` on a closed cycle and mark it distributed.  No
    /// funds move and no contributor is visited — members pull their
    /// shares individually with `claim_returns`, which keeps this call's
    /// cost independent of the contributor count.
    ///
    /// Fails with `NotFound` for an unknown cycle, `InvalidState` when the
    /// cycle is not closed, and `NoReturnsToDistribute` for zero returns;
    /// a failure changes nothing.
    pub fn distribute_returns(
        &mut self,
        club_id: ClubId,
        cycle_id: ContributionCycleId,
        total_returns: Balance,
    ) -> (r: Result<(), Error>)
        requires
            old(self).wf(),
        ensures
            final(self).wf(),
            r is Err ==> *final(self) == *old(self),
            ({
                let k = ClubItemKey { club: club_id, item: cycle_id };
                let m = old(self).treasury.cycles_map();
                &&& (r is Ok <==> m.contains_key(k) && m[k].status is Closed && total_returns > 0)
                &&& (!m.contains_key(k) ==> r == Err::<(), Error>(Error::NotFound))
                &&& (m.contains_key(k) && !(m[k].status is Closed) ==> r == Err::<(), Error>(
                    Error::InvalidState,
                ))
                &&& (m.contains_key(k) && m[k].status is Closed && total_returns == 0 ==> r == Err::<
                    (),
                    Error,
                >(Error::NoReturnsToDistribute))
                &&& (r is Ok ==> {
                    let cy = m[k];
                    &&& final(self).treasury.cycles_map() == m.insert(
                        k,
                        ContributionCycle {
                            returns: total_returns,
                            status: CycleStatus::Distributed,
                            ..cy
                        },
                    )
                    &&& final(self).events@ == old(self).events@.push(
                        RuntimeEvent::Treasury(
                            Event::ReturnsDistributed { club_id, cycle_id, total_returns },
                        ),
                    )
                })
            }),
            forall|c: ClubId|
                #[trigger] final(self).treasury.balance_of(c) == old(self).treasury.balance_of(c)
                    && final(self).treasury.flows_of(c) == old(self).treasury.flows_of(c)
                    && final(self).treasury.cycle_count_of(c) == old(self).treasury.cycle_count_of(
                    c,
                ) && final(self).treasury.active_cycle_of(c) == old(self).treasury.active_cycle_of(
                    c,
                ),
            final(self).treasury.withdrawals_map() == old(self).treasury.withdrawals_map(),
            final(self).treasury.contributions_map() == old(self).treasury.contributions_map(),
            forall|c: ClubId|
                #[trigger] final(self).treasury.withdrawal_count_of(c) == old(
                    self,
                ).treasury.withdrawal_count_of(c),
            final(self).balances == old(self).balances,
            final(self).config == old(self).config,
            final(self).height == old(self).height,
            final(self).governance == old(self).governance,
            final(self).disputes == old(self).disputes,
            final(self).members == old(self).members,
            final(self).analytics == old(self).analytics,
            final(self).crosschain == old(self).crosschain,
    {
        let k = ClubItemKey { club: club_id, item: cycle_id };
        let cycle = match self.treasury.cycles.get(k) {
            None => {
                return Err(Error::NotFound);
            },
            Some(cy) => *cy,
        };
        match cycle.status {
            CycleStatus::Closed => {},
            _ => {
                return Err(Error::InvalidState);
            },
        }
        if total_returns == 0 {
            return Err(Error::NoReturnsToDistribute);
        }
        let distributed = ContributionCycle {
            returns: total_returns,
            status: CycleStatus::Distributed,
            ..cycle
        };
        self.treasury.cycles.insert(k, distributed);
        proof {
            self.treasury.lemma_wf_conservation_preserved(old(self).treasury);
            self.treasury.lemma_wf_withdrawals_preserved(old(self).treasury, self.config);
            let prior = old(self).treasury;
            assert forall|k2: ClubItemKey| #[trigger]
                self.treasury.cycles_map().contains_key(k2) implies {
                let cy = self.treasury.cycles_map()[k2];
                &&& cy.id == k2.item
                &&& cy.club_id == k2.club
                &&& k2.item < self.treasury.cycle_count_of(k2.club)
                &&& cy.start_block <= cy.end_block
            } by {
                assert(prior.cycles_map().contains_key(k2));
            }
            assert forall|c: ClubId| #[trigger] self.treasury.active_cycle_of(c) is Some implies {
                let k2 = ClubItemKey { club: c, item: self.treasury.active_cycle_of(c)->0 };
                &&& self.treasury.cycles_map().contains_key(k2)
                &&& self.treasury.cycles_map()[k2].status is Open
            } by {
                assert(prior.active_cycle_of(c) is Some);
                let k2 = ClubItemKey { club: c, item: prior.active_cycle_of(c)->0 };
                assert(prior.cycles_map().contains_key(k2));
                assert(prior.cycles_map()[k2].status is Open);
                assert(k2 != k);
            }
            assert forall|k2: ClubItemAccountKey| #[trigger]
                self.treasury.contributions_map().contains_key(k2) implies {
                let con = self.treasury.contributions_map()[k2];
                let ck = ClubItemKey { club: k2.club, item: k2.item };
                &&& con.contributor == k2.who
                &&& self.treasury.cycles_map().contains_key(ck)
                &&& con.amount <= self.treasury.cycles_map()[ck].total_contributions
            } by {
                assert(prior.contributions_map().contains_key(k2));
                let ck = ClubItemKey { club: k2.club, item: k2.item };
                assert(prior.cycles_map().contains_key(ck));
            }
            assert forall|c: ClubId|
                #[trigger] self.treasury.balance_of(c) == old(self).treasury.balance_of(
                    c,
                ) by {}
            self.lemma_wf_tie_preserved(*old(self));
        }
        self.events.push(
            RuntimeEvent::Treasury(
                Event::ReturnsDistributed { club_id, cycle_id, total_returns },
            ),
        );
        Ok(())
    }
}

/// The proportional payout of one member: `floor(contribution * returns
/// / total)`, or nothing when the cycle pooled nothing.
pub open spec fn claim_share(contribution: int, total_returns: int, total_contributions: int) -> int {
    if total_contributions > 0 {
        contribution * total_returns / total_contributions
    } else {
        0
    }
}

/// A member's share never exceeds the distributed returns, because no
/// contribution exceeds the pooled total.
proof fn lemma_share_bounded(c: int, r: int, t: int)
    requires
        0 <= c <= t,
        0 <= r,
        0 < t,
    ensures
        0 <= c * r / t <= r,
{
    vstd::arithmetic::mul::lemma_mul_inequality(c, t, r);
    vstd::arithmetic::div_mod::lemma_div_is_ordered(c * r, t * r, t);
    vstd::arithmetic::div_mod::lemma_div_by_multiple(r, t);
    vstd::arithmetic::mul::lemma_mul_is_commutative(t, r);
    vstd::arithmetic::div_mod::lemma_div_pos_is_pos(c * r, t);
    vstd::arithmetic::mul::lemma_mul_nonnegative(c, r);
}

impl crate::state::Chain {
    /// Pool `amount` from `contributor` into `club_id`'s open cycle.  The
    /// member's accumulated stake, the cycle's pooled total and the
    /// recorded treasury balance all grow by `amount`; a repeat
    /// contribution accumulates and keeps the height of the first.
    ///
    /// Fails with `NotFound` when no cycle is open, `InvalidState` once
    /// the window has elapsed, `LimitExceeded` below the cycle's minimum,
    /// and `InsufficientFunds` when the contributor cannot pay; a failure
    /// changes nothing.
    #[verifier::rlimit(100)]
    #[verifier::spinoff_prover]
    pub fn contribute(&mut self, club_id: ClubId, contributor: u64, amount: Balance) -> (r: Result<
        (),
        Error,
    >)
        requires
            old(self).wf(),
        ensures
            final(self).wf(),
            r is Err ==> *final(self) == *old(self),
            ({
                let a = old(self).treasury.active_cycle_of(club_id);
                let k = ClubItemKey { club: club_id, item: a->0 };
                let cy = old(self).treasury.cycles_map()[k];
                &&& (r is Ok <==> a is Some && old(self).height <= cy.end_block && amount
                    >= cy.minimum_contribution && old(self).balances.free_of(
                    AccountId::User(contributor),
                ) >= amount)
                &&& (a is None ==> r == Err::<(), Error>(Error::NotFound))
                &&& (a is Some && old(self).height > cy.end_block ==> r == Err::<(), Error>(
                    Error::InvalidState,
                ))
                &&& (a is Some && old(self).height <= cy.end_block && amount
                    < cy.minimum_contribution ==> r == Err::<(), Error>(Error::LimitExceeded))
                &&& (a is Some && old(self).height <= cy.end_block && amount
                    >= cy.minimum_contribution && old(self).balances.free_of(
                    AccountId::User(contributor),
                ) < amount ==> r == Err::<(), Error>(Error::InsufficientFunds))
                &&& (r is Ok ==> {
                    let ck = ClubItemAccountKey { club: club_id, item: a->0, who: contributor };
                    let had = old(self).treasury.contributions_map().contains_key(ck);
                    let con = final(self).treasury.contributions_map()[ck];
                    &&& final(self).treasury.contributions_map().contains_key(ck)
                    &&& final(self).treasury.contributions_map() == old(
                        self,
                    ).treasury.contributions_map().insert(ck, con)
                    &&& con.contributor == contributor
                    &&& con.amount == (if had {
                        crate::arith::spec_sat_add_u64(
                            old(self).treasury.contributions_map()[ck].amount,
                            amount,
                        )
                    } else {
                        amount
                    })
                    &&& con.contributed_at == (if had {
                        old(self).treasury.contributions_map()[ck].contributed_at
                    } else {
                        old(self).height
                    })
                    &&& final(self).treasury.cycles_map() == old(self).treasury.cycles_map().insert(
                        k,
                        ContributionCycle {
                            total_contributions: crate::arith::spec_sat_add_u64(
                                cy.total_contributions,
                                amount,
                            ),
                            ..cy
                        },
                    )
                    &&& final(self).treasury.balance_of(club_id) == old(
                        self,
                    ).treasury.balance_of(club_id) + amount
                    &&& final(self).treasury.flows_of(club_id) == (Flows {
                        contributions: old(self).treasury.flows_of(club_id).contributions + amount,
                        ..old(self).treasury.flows_of(club_id)
                    })
                    &&& forall|c: ClubId|
                        c != club_id ==> #[trigger] final(self).treasury.balance_of(c) == old(
                            self,
                        ).treasury.balance_of(c) && final(self).treasury.flows_of(c) == old(
                            self,
                        ).treasury.flows_of(c)
                    &&& final(self).balances.free_of(AccountId::User(contributor)) == old(
                        self,
                    ).balances.free_of(AccountId::User(contributor)) - amount
                    &&& final(self).balances.issuance() == old(self).balances.issuance()
                    &&& final(self).events@ == old(self).events@.push(
                        RuntimeEvent::Treasury(
                            Event::ContributionMade {
                                club_id,
                                cycle_id: a->0,
                                contributor,
                                amount,
                            },
                        ),
                    )
                })
            }),
            forall|c: ClubId|
                #[trigger] final(self).treasury.active_cycle_of(c) == old(
                    self,
                ).treasury.active_cycle_of(c) && final(self).treasury.cycle_count_of(c) == old(
                    self,
                ).treasury.cycle_count_of(c) && final(self).treasury.withdrawal_count_of(c) == old(
                    self,
                ).treasury.withdrawal_count_of(c),
            final(self).treasury.withdrawals_map() == old(self).treasury.withdrawals_map(),
            final(self).config == old(self).config,
            final(self).height == old(self).height,
            final(self).governance == old(self).governance,
            final(self).disputes == old(self).disputes,
            final(self).members == old(self).members,
            final(self).analytics == old(self).analytics,
            final(self).crosschain == old(self).crosschain,
    {
        let cycle_id = match self.treasury.active_cycle_get(club_id) {
            None => {
                return Err(Error::NotFound);
            },
            Some(id) => id,
        };
        let k = ClubItemKey { club: club_id, item: cycle_id };
        let cycle = match self.treasury.cycles.get(k) {
            None => {
                return Err(Error::NotFound);
            },
            Some(cy) => *cy,
        };
        match cycle.status {
            CycleStatus::Open => {},
            _ => {
                return Err(Error::InvalidState);
            },
        }
        if self.height > cycle.end_block {
            return Err(Error::InvalidState);
        }
        if amount < cycle.minimum_contribution {
            return Err(Error::LimitExceeded);
        }
        match self.balances.transfer(
            AccountId::User(contributor),
            AccountId::ClubTreasury(club_id),
            amount,
            ExistencePolicy::KeepAlive,
        ) {
            Err(_) => {
                return Err(Error::InsufficientFunds);
            },
            Ok(()) => {},
        }
        proof {
            self.balances.lemma_account_bounded(AccountId::ClubTreasury(club_id));
        }
        let bal = self.treasury.balance_get(club_id);
        self.treasury.balances.insert(club_id, bal + amount);
        let ck = ClubItemAccountKey { club: club_id, item: cycle_id, who: contributor };
        let record = match self.treasury.contributions.get(ck) {
            Some(con) => Contribution {
                contributor,
                amount: crate::arith::sat_add_u64(con.amount, amount),
                contributed_at: con.contributed_at,
            },
            None => Contribution { contributor, amount, contributed_at: self.height },
        };
        self.treasury.contributions.insert(ck, record);
        let updated = ContributionCycle {
            total_contributions: crate::arith::sat_add_u64(cycle.total_contributions, amount),
            ..cycle
        };
        self.treasury.cycles.insert(k, updated);
        proof {
            let f = old(self).treasury.flows_of(club_id);
            self.treasury.flows = Ghost(
                self.treasury.flows@.insert(
                    club_id,
                    Flows { contributions: f.contributions + amount, ..f },
                ),
            );
            assert forall|c: ClubId|
                #[trigger] self.treasury.balance_of(c) == self.treasury.flows_of(c).net()
                    && self.treasury.flows_of(c).valid() by {
                if c != club_id {
                    let prior_balance = old(self).treasury.balance_of(c);
                    assert(old(self).treasury.balance_of(c) == old(self).treasury.flows_of(
                        c,
                    ).net() && old(self).treasury.flows_of(c).valid());
                }
            }
            self.treasury.lemma_wf_withdrawals_preserved(old(self).treasury, self.config);
            let prior = old(self).treasury;
            assert forall|k2: ClubItemKey| #[trigger]
                self.treasury.cycles_map().contains_key(k2) implies {
                let cy2 = self.treasury.cycles_map()[k2];
                &&& cy2.id == k2.item
                &&& cy2.club_id == k2.club
                &&& k2.item < self.treasury.cycle_count_of(k2.club)
                &&& cy2.start_block <= cy2.end_block
            } by {
                assert(prior.cycles_map().contains_key(k2));
            }
            assert forall|c: ClubId| #[trigger] self.treasury.active_cycle_of(c) is Some implies {
                let k2 = ClubItemKey { club: c, item: self.treasury.active_cycle_of(c)->0 };
                &&& self.treasury.cycles_map().contains_key(k2)
                &&& self.treasury.cycles_map()[k2].status is Open
            } by {
                assert(prior.active_cycle_of(c) is Some);
                let k2 = ClubItemKey { club: c, item: prior.active_cycle_of(c)->0 };
                assert(prior.cycles_map().contains_key(k2));
                assert(prior.cycles_map()[k2].status is Open);
            }
            assert forall|k2: ClubItemAccountKey| #[trigger]
                self.treasury.contributions_map().contains_key(k2) implies {
                let con = self.treasury.contributions_map()[k2];
                let ck2 = ClubItemKey { club: k2.club, item: k2.item };
                &&& con.contributor == k2.who
                &&& self.treasury.cycles_map().contains_key(ck2)
                &&& con.amount <= self.treasury.cycles_map()[ck2].total_contributions
            } by {
                if k2 != ck {
                    assert(prior.contributions_map().contains_key(k2));
                    let ck2 = ClubItemKey { club: k2.club, item: k2.item };
                    assert(prior.cycles_map().contains_key(ck2));
                    assert(prior.contributions_map()[k2].amount <= prior.cycles_map()[ck2].total_contributions);
                } else {
                    if prior.contributions_map().contains_key(ck) {
                        assert(prior.contributions_map()[ck].amount <= prior.cycles_map()[k].total_contributions);
                    }
                }
            }
            assert forall|c: ClubId|
                #[trigger] self.treasury.balance_of(c) == self.balances.free_of(
                    AccountId::ClubTreasury(c),
                ) + self.crosschain.sent_of(c) by {
                if c != club_id {
                    assert(self.balances.account(AccountId::ClubTreasury(c)) == old(
                        self,
                    ).balances.account(AccountId::ClubTreasury(c)));
                    assert(old(self).treasury.balance_of(c) == old(self).balances.free_of(
                        AccountId::ClubTreasury(c),
                    ) + old(self).crosschain.sent_of(c));
                }
            }
        }
        self.events.push(
            RuntimeEvent::Treasury(
                Event::ContributionMade { club_id, cycle_id, contributor, amount },
            ),
        );
        Ok(())
    }

    /// Pay `claimant`'s proportional share of a distributed cycle out of
    /// the treasury: `floor(contribution * returns / total)`.  Nothing
    /// marks a share as claimed — the minimal pull-based design records no
    /// flag, so a second call pays again; see the cycle documentation.
    ///
    /// Fails with `NotFound` for an unknown cycle or a claimant without a
    /// contribution, `InvalidState` when the cycle is not distributed,
    /// `NoReturnsToDistribute` when the share rounds to nothing, and
    /// `InsufficientFunds` when the holding account cannot pay; a failure
    /// changes nothing.
    pub fn claim_returns(&mut self, club_id: ClubId, cycle_id: ContributionCycleId, claimant: u64)
        -> (r: Result<(), Error>)
        requires
            old(self).wf(),
        ensures
            final(self).wf(),
            r is Err ==> *final(self) == *old(self),
            ({
                let k = ClubItemKey { club: club_id, item: cycle_id };
                let ck = ClubItemAccountKey { club: club_id, item: cycle_id, who: claimant };
                let m = old(self).treasury.cycles_map();
                let cm = old(self).treasury.contributions_map();
                let share = claim_share(
                    cm[ck].amount as int,
                    m[k].returns as int,
                    m[k].total_contributions as int,
                );
                &&& (r is Ok <==> m.contains_key(k) && m[k].status is Distributed
                    && cm.contains_key(ck) && share > 0 && old(self).balances.free_of(
                    AccountId::ClubTreasury(club_id),
                ) >= share)
                &&& (!m.contains_key(k) ==> r == Err::<(), Error>(Error::NotFound))
                &&& (m.contains_key(k) && !(m[k].status is Distributed) ==> r == Err::<(), Error>(
                    Error::InvalidState,
                ))
                &&& (m.contains_key(k) && m[k].status is Distributed && !cm.contains_key(ck) ==> r
                    == Err::<(), Error>(Error::NotFound))
                &&& (m.contains_key(k) && m[k].status is Distributed && cm.contains_key(ck)
                    && share == 0 ==> r == Err::<(), Error>(Error::NoReturnsToDistribute))
                &&& (m.contains_key(k) && m[k].status is Distributed && cm.contains_key(ck)
                    && share > 0 && old(self).balances.free_of(AccountId::ClubTreasury(club_id))
                    < share ==> r == Err::<(), Error>(Error::InsufficientFunds))
                &&& (r is Ok ==> {
                    &&& final(self).treasury.balance_of(club_id) == old(
                        self,
                    ).treasury.balance_of(club_id) - share
                    &&& final(self).treasury.flows_of(club_id) == (Flows {
                        claimed: old(self).treasury.flows_of(club_id).claimed + share,
                        ..old(self).treasury.flows_of(club_id)
                    })
                    &&& forall|c: ClubId|
                        c != club_id ==> #[trigger] final(self).treasury.balance_of(c) == old(
                            self,
                        ).treasury.balance_of(c) && final(self).treasury.flows_of(c) == old(
                            self,
                        ).treasury.flows_of(c)
                    &&& final(self).balances.free_of(AccountId::User(claimant)) == old(
                        self,
                    ).balances.free_of(AccountId::User(claimant)) + share
                    &&& final(self).balances.issuance() == old(self).balances.issuance()
                })
            }),
            final(self).treasury.withdrawals_map() == old(self).treasury.withdrawals_map(),
            final(self).treasury.cycles_map() == old(self).treasury.cycles_map(),
            final(self).treasury.contributions_map() == old(self).treasury.contributions_map(),
            forall|c: ClubId|
                #[trigger] final(self).treasury.active_cycle_of(c) == old(
                    self,
                ).treasury.active_cycle_of(c) && final(self).treasury.withdrawal_count_of(c) == old(
                    self,
                ).treasury.withdrawal_count_of(c) && final(self).treasury.cycle_count_of(c) == old(
                    self,
                ).treasury.cycle_count_of(c),
            final(self).events == old(self).events,
            final(self).config == old(self).config,
            final(self).height == old(self).height,
            final(self).governance == old(self).governance,
            final(self).disputes == old(self).disputes,
            final(self).members == old(self).members,
            final(self).analytics == old(self).analytics,
            final(self).crosschain == old(self).crosschain,
    {
        let k = ClubItemKey { club: club_id, item: cycle_id };
        let cycle = match self.treasury.cycles.get(k) {
            None => {
                return Err(Error::NotFound);
            },
            Some(cy) => *cy,
        };
        match cycle.status {
            CycleStatus::Distributed => {},
            _ => {
                return Err(Error::InvalidState);
            },
        }
        let ck = ClubItemAccountKey { club: club_id, item: cycle_id, who: claimant };
        let contribution = match self.treasury.contributions.get(ck) {
            None => {
                return Err(Error::NotFound);
            },
            Some(con) => *con,
        };
        proof {
            assert(contribution.amount <= cycle.total_contributions) by {
                assert(old(self).treasury.contributions_map().contains_key(ck));
            }
        }
        let share: Balance = if cycle.total_contributions > 0 {
            proof {
                vstd::arithmetic::mul::lemma_mul_upper_bound(
                    contribution.amount as int,
                    u64::MAX as int,
                    cycle.returns as int,
                    u64::MAX as int,
                );
                assert((u64::MAX as int) * (u64::MAX as int) <= u128::MAX as int)
                    by (nonlinear_arith);
            }
            let wide: u128 = (contribution.amount as u128) * (cycle.returns as u128);
            let q: u128 = wide / (cycle.total_contributions as u128);
            proof {
                lemma_share_bounded(
                    contribution.amount as int,
                    cycle.returns as int,
                    cycle.total_contributions as int,
                );
            }
            q as u64
        } else {
            0
        };
        if share == 0 {
            return Err(Error::NoReturnsToDistribute);
        }
        match self.balances.transfer(
            AccountId::ClubTreasury(club_id),
            AccountId::User(claimant),
            share,
            ExistencePolicy::AllowDeath,
        ) {
            Err(_) => {
                return Err(Error::InsufficientFunds);
            },
            Ok(()) => {},
        }
        let bal = self.treasury.balance_get(club_id);
        proof {
            assert(old(self).treasury.balance_of(club_id) == old(self).balances.free_of(
                AccountId::ClubTreasury(club_id),
            ) + old(self).crosschain.sent_of(club_id));
        }
        self.treasury.balances.insert(club_id, bal - share);
        proof {
            let f = old(self).treasury.flows_of(club_id);
            self.treasury.flows = Ghost(
                self.treasury.flows@.insert(club_id, Flows { claimed: f.claimed + share, ..f }),
            );
            assert forall|c: ClubId|
                #[trigger] self.treasury.balance_of(c) == self.treasury.flows_of(c).net()
                    && self.treasury.flows_of(c).valid() by {
                if c != club_id {
                    let prior_balance = old(self).treasury.balance_of(c);
                    assert(old(self).treasury.balance_of(c) == old(self).treasury.flows_of(
                        c,
                    ).net() && old(self).treasury.flows_of(c).valid());
                }
            }
            self.treasury.lemma_wf_withdrawals_preserved(old(self).treasury, self.config);
            self.treasury.lemma_wf_cycles_preserved(old(self).treasury);
            self.treasury.lemma_wf_active_preserved(old(self).treasury);
            self.treasury.lemma_wf_contributions_preserved(old(self).treasury);
            assert forall|c: ClubId|
                #[trigger] self.treasury.balance_of(c) == self.balances.free_of(
                    AccountId::ClubTreasury(c),
                ) + self.crosschain.sent_of(c) by {
                if c != club_id {
                    assert(self.balances.account(AccountId::ClubTreasury(c)) == old(
                        self,
                    ).balances.account(AccountId::ClubTreasury(c)));
                    assert(old(self).treasury.balance_of(c) == old(self).balances.free_of(
                        AccountId::ClubTreasury(c),
                    ) + old(self).crosschain.sent_of(c));
                }
            }
        }
        Ok(())
    }
}

/// Whether `x` occurs in `v`.
fn contains_u64(v: &Vec<u64>, x: u64) -> (r: bool)
    ensures
        r == v@.contains(x),
{
    let n = v.len();
    let mut i: usize = 0;
    while i < n
        invariant
            n == v@.len(),
            0 <= i <= n,
            forall|j: int| 0 <= j < i ==> v@[j] != x,
        decreases n - i,
    {
        if v[i] == x {
            return true;
        }
        i += 1;
    }
    false
}

} // verus!

verus! {

impl crate::state::Chain {
    /// The recorded treasury balance of `club_id`; zero for an untouched
    /// club.
    pub fn treasury_balance(&self, club_id: ClubId) -> (r: Balance)
        requires
            self.wf(),
        ensures
            r == self.treasury.balance_of(club_id),
    {
        self.treasury.balance_get(club_id)
    }

    /// The withdrawal request `withdrawal_id` of `club_id`, if any.
    pub fn withdrawal_requests(&self, club_id: ClubId, withdrawal_id: WithdrawalId) -> (r: Option<
        WithdrawalRequest,
    >)
        requires
            self.wf(),
        ensures
            ({
                let k = ClubItemKey { club: club_id, item: withdrawal_id };
                let m = self.treasury.withdrawals_map();
                &&& (r is Some <==> m.contains_key(k))
                &&& (r is Some ==> {
                    let w = m[k];
                    let g = r->0;
                    &&& g.id == w.id
                    &&& g.club_id == w.club_id
                    &&& g.recipient == w.recipient
                    &&& g.amount == w.amount
                    &&& g.unlock_at == w.unlock_at
                    &&& g.status == w.status
                    &&& g.signatures@ == w.signatures@
                    &&& g.created_at == w.created_at
                })
            }),
    {
        let k = ClubItemKey { club: club_id, item: withdrawal_id };
        match self.treasury.withdrawals.get(k) {
            None => None,
            Some(w) => Some(
                WithdrawalRequest {
                    id: w.id,
                    club_id: w.club_id,
                    recipient: w.recipient,
                    amount: w.amount,
                    unlock_at: w.unlock_at,
                    status: w.status,
                    signatures: crate::store::copy_vec(&w.signatures),
                    created_at: w.created_at,
                },
            ),
        }
    }

    /// How many withdrawal ids `club_id` has allocated.
    pub fn withdrawal_count(&self, club_id: ClubId) -> (r: u64)
        requires
            self.wf(),
        ensures
            r == self.treasury.withdrawal_count_of(club_id),
    {
        self.treasury.withdrawal_count_get(club_id)
    }

    /// The contribution cycle `cycle_id` of `club_id`, if any.
    pub fn contribution_cycles(&self, club_id: ClubId, cycle_id: ContributionCycleId) -> (r: Option<
        ContributionCycle,
    >)
        requires
            self.wf(),
        ensures
            ({
                let k = ClubItemKey { club: club_id, item: cycle_id };
                let m = self.treasury.cycles_map();
                &&& (r is Some <==> m.contains_key(k))
                &&& (r is Some ==> r->0 == m[k])
            }),
    {
        let k = ClubItemKey { club: club_id, item: cycle_id };
        match self.treasury.cycles.get(k) {
            None => None,
            Some(cy) => Some(*cy),
        }
    }

    /// The open cycle of `club_id`, if one is open.
    pub fn active_cycle(&self, club_id: ClubId) -> (r: Option<ContributionCycleId>)
        requires
            self.wf(),
        ensures
            r == self.treasury.active_cycle_of(club_id),
    {
        self.treasury.active_cycle_get(club_id)
    }

    /// How many cycle ids `club_id` has allocated.
    pub fn cycle_count(&self, club_id: ClubId) -> (r: u64)
        requires
            self.wf(),
        ensures
            r == self.treasury.cycle_count_of(club_id),
    {
        self.treasury.cycle_count_get(club_id)
    }

    /// The accumulated contribution of `who` to a cycle, if any.
    pub fn contributions(&self, club_id: ClubId, cycle_id: ContributionCycleId, who: u64) -> (r:
        Option<Contribution>)
        requires
            self.wf(),
        ensures
            ({
                let ck = ClubItemAccountKey { club: club_id, item: cycle_id, who };
                let m = self.treasury.contributions_map();
                &&& (r is Some <==> m.contains_key(ck))
                &&& (r is Some ==> r->0 == m[ck])
            }),
    {
        let ck = ClubItemAccountKey { club: club_id, item: cycle_id, who };
        match self.treasury.contributions.get(ck) {
            None => None,
            Some(con) => Some(*con),
        }
    }
}

} // verus!
