//! The cross-chain stub: simulated transfers of club funds to another
//! chain, and simulated remote investment calls.
//!
//! No message is really sent; an operation is recorded as completed at
//! once.  A fund transfer does move real money: it burns the amount out of
//! the club's treasury holding account, which is exactly what makes the
//! recorded treasury balance and the holding account diverge.  The ghost
//! `sent` history keeps the two reconciled in the platform invariant.

use vstd::prelude::*;
use crate::ids::AccountId;
use crate::ids::Balance;
use crate::ids::BlockNumber;
use crate::ids::ClubId;
use crate::ids::ClubItemKey;
use crate::ids::CrossChainOperationId;
use crate::state::RuntimeEvent;
use crate::store::KeyedMap;

verus! {

/// The lifecycle of a cross-chain operation.
#[derive(Clone, Copy, PartialEq, Eq, Structural, Debug)]
pub enum OperationStatus {
    /// Recorded, not started.
    Pending,
    /// Underway.
    InProgress,
    /// Finished; the simulation completes every operation at once.
    Completed,
    /// Failed.
    Failed,
}

/// What a cross-chain operation does.
#[derive(Clone, Copy, PartialEq, Eq, Structural, Debug)]
pub enum OperationType {
    /// Send club funds to another chain.
    TransferFunds,
    /// Execute an investment call on another chain.
    ExecuteInvestment,
}

/// One recorded cross-chain operation.
#[derive(Clone, Copy, PartialEq, Eq, Structural, Debug)]
pub struct CrossChainOperation {
    /// Identifier, unique within the club.
    pub id: CrossChainOperationId,
    /// The owning club.
    pub club_id: ClubId,
    /// The destination chain.
    pub destination_parachain_id: u32,
    /// What the operation does.
    pub operation_type: OperationType,
    /// Lifecycle state.
    pub status: OperationStatus,
    /// The amount sent, for fund transfers.
    pub amount: Option<Balance>,
    /// Height at which the operation was recorded.
    pub created_at: BlockNumber,
    /// Height at which it completed.
    pub completed_at: Option<BlockNumber>,
}

/// How a cross-chain operation fails.  Every failure leaves the state
/// untouched.
#[derive(Clone, Copy, PartialEq, Eq, Structural, Debug)]
pub enum Error {
    /// The destination chain id is zero.
    InvalidParachainId,
    /// The club's holding account does not cover the amount.
    InsufficientFunds,
    /// The operation id space is exhausted.
    LimitExceeded,
}

/// What the cross-chain engine announces on success.
#[derive(Clone, PartialEq, Eq, Debug)]
pub enum Event {
    /// An operation was recorded.
    CrossChainOperationInitiated {
        /// The owning club.
        club_id: ClubId,
        /// The new operation.
        operation_id: CrossChainOperationId,
        /// The destination chain.
        destination_parachain_id: u32,
        /// What the operation does.
        operation_type: OperationType,
    },
    /// An operation completed.
    CrossChainOperationCompleted {
        /// The owning club.
        club_id: ClubId,
        /// The completed operation.
        operation_id: CrossChainOperationId,
    },
    /// An operation failed.
    CrossChainOperationFailed {
        /// The owning club.
        club_id: ClubId,
        /// The failed operation.
        operation_id: CrossChainOperationId,
    },
    /// Funds left for another chain.
    FundsSentToParachain {
        /// The paying club.
        club_id: ClubId,
        /// The destination chain.
        destination_parachain_id: u32,
        /// The amount sent.
        amount: Balance,
    },
    /// A remote investment call ran.
    RemoteInvestmentExecuted {
        /// The owning club.
        club_id: ClubId,
        /// The destination chain.
        destination_parachain_id: u32,
    },
}

/// The cross-chain engine's persistent state.
pub struct Crosschain {
    pub(crate) operations: KeyedMap<ClubItemKey, CrossChainOperation>,
    pub(crate) operation_counts: KeyedMap<ClubId, u64>,
    pub(crate) sent: Ghost<Map<ClubId, int>>,
    pub(crate) total_sent: Balance,
}

impl Crosschain {
    /// All operations, by (club, id).
    pub closed spec fn operations_map(self) -> Map<ClubItemKey, CrossChainOperation> {
        self.operations@
    }

    /// How many operation ids `club` has allocated.
    pub closed spec fn operation_count_of(self, club: ClubId) -> int {
        if self.operation_counts@.contains_key(club) {
            self.operation_counts@[club] as int
        } else {
            0
        }
    }

    /// The total ever sent away from `club`'s treasury holding account.
    pub closed spec fn sent_of(self, club: ClubId) -> int {
        if self.sent@.contains_key(club) {
            self.sent@[club]
        } else {
            0
        }
    }

    /// The total ever sent away, over all clubs.
    pub closed spec fn total_sent_spec(self) -> int {
        self.total_sent as int
    }

    /// The underlying stores are maps.
    pub closed spec fn wf_maps(self) -> bool {
        &&& self.operations.wf()
        &&& self.operation_counts.wf()
    }

    /// Every stored operation is coherent with its key and its id was
    /// allocated; every club's sent history is non-negative and bounded by
    /// the platform total.
    pub open spec fn wf(self) -> bool {
        &&& self.wf_maps()
        &&& forall|k: ClubItemKey| #[trigger]
            self.operations_map().contains_key(k) ==> {
                let op = self.operations_map()[k];
                &&& op.id == k.item
                &&& op.club_id == k.club
                &&& k.item < self.operation_count_of(k.club)
            }
        &&& self.total_sent_spec() >= 0
        &&& forall|c: ClubId| 0 <= #[trigger] self.sent_of(c) <= self.total_sent_spec()
    }

    /// A cross-chain engine that has never seen an operation.
    pub fn new() -> (r: Crosschain)
        ensures
            r.wf(),
            r.operations_map() == Map::<ClubItemKey, CrossChainOperation>::empty(),
            forall|c: ClubId| #[trigger] r.operation_count_of(c) == 0,
            forall|c: ClubId| #[trigger] r.sent_of(c) == 0,
            r.total_sent_spec() == 0,
    {
        Crosschain {
            operations: KeyedMap::new(),
            operation_counts: KeyedMap::new(),
            sent: Ghost(Map::empty()),
            total_sent: 0,
        }
    }
}

} // verus!

verus! {

impl Crosschain {
    /// The operation counter of `club`, read from the store.
    fn operation_count_get(&self, club_id: ClubId) -> (r: u64)
        requires
            self.wf_maps(),
        ensures
            r == self.operation_count_of(club_id),
    {
        self.operation_counts.get_or(club_id, 0)
    }
}

impl crate::state::Chain {
    /// Send `amount` of `club_id`'s held treasury funds to another chain.
    /// The message itself is simulated: the operation is recorded as
    /// completed at once, and the amount is withdrawn from the club's
    /// holding account — the recorded treasury balance stays as it is, and
    /// the sent history reconciles the two.  `beneficiary` is the opaque
    /// account bytes on the destination chain, carried for the message
    /// only.
    ///
    /// Fails with `InvalidParachainId` for destination zero,
    /// `InsufficientFunds` when the holding account does not cover the
    /// amount, and `LimitExceeded` when the club's operation id space is
    /// exhausted; a failure changes nothing.
    pub fn send_funds_to_parachain(
        &mut self,
        club_id: ClubId,
        dest_para_id: u32,
        amount: Balance,
        beneficiary: Vec<u8>,
    ) -> (r: Result<(), Error>)
        requires
            old(self).wf(),
        ensures
            final(self).wf(),
            r is Err ==> *final(self) == *old(self),
            r is Ok <==> dest_para_id > 0 && old(self).balances.free_of(
                AccountId::ClubTreasury(club_id),
            ) >= amount && old(self).crosschain.operation_count_of(club_id) < u64::MAX,
            dest_para_id == 0 ==> r == Err::<(), Error>(Error::InvalidParachainId),
            dest_para_id > 0 && old(self).balances.free_of(AccountId::ClubTreasury(club_id))
                < amount ==> r == Err::<(), Error>(Error::InsufficientFunds),
            dest_para_id > 0 && old(self).balances.free_of(AccountId::ClubTreasury(club_id))
                >= amount && r is Err ==> r == Err::<(), Error>(Error::LimitExceeded),
            r is Ok ==> ({
                let id = old(self).crosschain.operation_count_of(club_id) as u64;
                let k = ClubItemKey { club: club_id, item: id };
                &&& !old(self).crosschain.operations_map().contains_key(k)
                &&& final(self).crosschain.operations_map() == old(
                    self,
                ).crosschain.operations_map().insert(
                    k,
                    (CrossChainOperation {
                        id,
                        club_id,
                        destination_parachain_id: dest_para_id,
                        operation_type: OperationType::TransferFunds,
                        status: OperationStatus::Completed,
                        amount: Some(amount),
                        created_at: old(self).height,
                        completed_at: Some(old(self).height),
                    }),
                )
                &&& final(self).crosschain.operation_count_of(club_id) == id + 1
                &&& forall|c: ClubId|
                    c != club_id ==> #[trigger] final(self).crosschain.operation_count_of(c) == old(
                        self,
                    ).crosschain.operation_count_of(c)
                &&& final(self).crosschain.sent_of(club_id) == old(self).crosschain.sent_of(
                    club_id,
                ) + amount
                &&& forall|c: ClubId|
                    c != club_id ==> #[trigger] final(self).crosschain.sent_of(c) == old(
                        self,
                    ).crosschain.sent_of(c)
                &&& final(self).balances.free_of(AccountId::ClubTreasury(club_id)) == old(
                    self,
                ).balances.free_of(AccountId::ClubTreasury(club_id)) - amount
                &&& final(self).balances.issuance() == old(self).balances.issuance() - amount
                &&& forall|a: AccountId|
                    a != AccountId::ClubTreasury(club_id) ==> final(self).balances.account(a)
                        == old(self).balances.account(a)
                &&& forall|c: ClubId|
                    #[trigger] final(self).treasury.balance_of(c) == old(
                        self,
                    ).treasury.balance_of(c)
                &&& final(self).events@ == old(self).events@.push(
                    RuntimeEvent::Crosschain(
                        Event::CrossChainOperationInitiated {
                            club_id,
                            operation_id: id,
                            destination_parachain_id: dest_para_id,
                            operation_type: OperationType::TransferFunds,
                        },
                    ),
                ).push(
                    RuntimeEvent::Crosschain(
                        Event::FundsSentToParachain {
                            club_id,
                            destination_parachain_id: dest_para_id,
                            amount,
                        },
                    ),
                ).push(
                    RuntimeEvent::Crosschain(
                        Event::CrossChainOperationCompleted { club_id, operation_id: id },
                    ),
                )
            }),
            final(self).treasury == old(self).treasury,
            final(self).config == old(self).config,
            final(self).height == old(self).height,
            final(self).governance == old(self).governance,
            final(self).disputes == old(self).disputes,
            final(self).members == old(self).members,
            final(self).analytics == old(self).analytics,
    {
        let _ = beneficiary;
        if dest_para_id == 0 {
            return Err(Error::InvalidParachainId);
        }
        let held = self.balances.free_balance(AccountId::ClubTreasury(club_id));
        if held < amount {
            return Err(Error::InsufficientFunds);
        }
        let count = self.crosschain.operation_count_get(club_id);
        if count == u64::MAX {
            return Err(Error::LimitExceeded);
        }
        let operation = CrossChainOperation {
            id: count,
            club_id,
            destination_parachain_id: dest_para_id,
            operation_type: OperationType::TransferFunds,
            status: OperationStatus::Completed,
            amount: Some(amount),
            created_at: self.height,
            completed_at: Some(self.height),
        };
        let k = ClubItemKey { club: club_id, item: count };
        proof {
            if old(self).crosschain.operations_map().contains_key(k) {
                assert(k.item < old(self).crosschain.operation_count_of(k.club));
            }
        }
        self.crosschain.operations.insert(k, operation);
        self.crosschain.operation_counts.insert(club_id, count + 1);
        proof {
            self.balances.lemma_account_bounded(AccountId::ClubTreasury(club_id));
        }
        match self.balances.withdraw(AccountId::ClubTreasury(club_id), amount) {
            Err(_) => {
                return Err(Error::InsufficientFunds);
            },
            Ok(()) => {},
        }
        self.crosschain.total_sent = self.crosschain.total_sent + amount;
        proof {
            self.crosschain.sent = Ghost(
                self.crosschain.sent@.insert(
                    club_id,
                    old(self).crosschain.sent_of(club_id) + amount,
                ),
            );
            let prior = old(self).crosschain;
            assert forall|k2: ClubItemKey| #[trigger]
                self.crosschain.operations_map().contains_key(k2) implies {
                let op = self.crosschain.operations_map()[k2];
                &&& op.id == k2.item
                &&& op.club_id == k2.club
                &&& k2.item < self.crosschain.operation_count_of(k2.club)
            } by {
                if k2 != k {
                    assert(prior.operations_map().contains_key(k2));
                    assert(k2.item < prior.operation_count_of(k2.club));
                }
            }
            assert forall|c: ClubId|
                0 <= #[trigger] self.crosschain.sent_of(c) <= self.crosschain.total_sent_spec() by {
                assert(0 <= prior.sent_of(c) <= prior.total_sent_spec());
            }
            assert forall|c: ClubId|
                #[trigger] self.treasury.balance_of(c) == self.balances.free_of(
                    AccountId::ClubTreasury(c),
                ) + self.crosschain.sent_of(c) by {
                assert(old(self).treasury.balance_of(c) == old(self).balances.free_of(
                    AccountId::ClubTreasury(c),
                ) + old(self).crosschain.sent_of(c));
                if c != club_id {
                    assert(self.balances.account(AccountId::ClubTreasury(c)) == old(
                        self,
                    ).balances.account(AccountId::ClubTreasury(c)));
                }
            }
        }
        self.events.push(
            RuntimeEvent::Crosschain(
                Event::CrossChainOperationInitiated {
                    club_id,
                    operation_id: count,
                    destination_parachain_id: dest_para_id,
                    operation_type: OperationType::TransferFunds,
                },
            ),
        );
        self.events.push(
            RuntimeEvent::Crosschain(
                Event::FundsSentToParachain {
                    club_id,
                    destination_parachain_id: dest_para_id,
                    amount,
                },
            ),
        );
        self.events.push(
            RuntimeEvent::Crosschain(
                Event::CrossChainOperationCompleted { club_id, operation_id: count },
            ),
        );
        Ok(())
    }

    /// Record a simulated remote investment call on another chain.  No
    /// funds move; the operation is recorded as completed at once.
    /// `call_data` is the opaque encoded call for the destination chain,
    /// carried for the message only.
    ///
    /// Fails with `InvalidParachainId` for destination zero, and with
    /// `LimitExceeded` when the club's operation id space is exhausted; a
    /// failure changes nothing.
    pub fn execute_remote_investment(
        &mut self,
        club_id: ClubId,
        dest_para_id: u32,
        call_data: Vec<u8>,
    ) -> (r: Result<(), Error>)
        requires
            old(self).wf(),
        ensures
            final(self).wf(),
            r is Err ==> *final(self) == *old(self),
            r is Ok <==> dest_para_id > 0 && old(self).crosschain.operation_count_of(club_id)
                < u64::MAX,
            dest_para_id == 0 ==> r == Err::<(), Error>(Error::InvalidParachainId),
            dest_para_id > 0 && r is Err ==> r == Err::<(), Error>(Error::LimitExceeded),
            r is Ok ==> ({
                let id = old(self).crosschain.operation_count_of(club_id) as u64;
                let k = ClubItemKey { club: club_id, item: id };
                &&& !old(self).crosschain.operations_map().contains_key(k)
                &&& final(self).crosschain.operations_map() == old(
                    self,
                ).crosschain.operations_map().insert(
                    k,
                    (CrossChainOperation {
                        id,
                        club_id,
                        destination_parachain_id: dest_para_id,
                        operation_type: OperationType::ExecuteInvestment,
                        status: OperationStatus::Completed,
                        amount: None,
                        created_at: old(self).height,
                        completed_at: Some(old(self).height),
                    }),
                )
                &&& final(self).crosschain.operation_count_of(club_id) == id + 1
                &&& forall|c: ClubId|
                    c != club_id ==> #[trigger] final(self).crosschain.operation_count_of(c) == old(
                        self,
                    ).crosschain.operation_count_of(c)
                &&& forall|c: ClubId|
                    #[trigger] final(self).crosschain.sent_of(c) == old(self).crosschain.sent_of(c)
                &&& final(self).events@ == old(self).events@.push(
                    RuntimeEvent::Crosschain(
                        Event::CrossChainOperationInitiated {
                            club_id,
                            operation_id: id,
                            destination_parachain_id: dest_para_id,
                            operation_type: OperationType::ExecuteInvestment,
                        },
                    ),
                ).push(
                    RuntimeEvent::Crosschain(
                        Event::RemoteInvestmentExecuted {
                            club_id,
                            destination_parachain_id: dest_para_id,
                        },
                    ),
                ).push(
                    RuntimeEvent::Crosschain(
                        Event::CrossChainOperationCompleted { club_id, operation_id: id },
                    ),
                )
            }),
            final(self).balances == old(self).balances,
            final(self).treasury == old(self).treasury,
            final(self).config == old(self).config,
            final(self).height == old(self).height,
            final(self).governance == old(self).governance,
            final(self).disputes == old(self).disputes,
            final(self).members == old(self).members,
            final(self).analytics == old(self).analytics,
    {
        let _ = call_data;
        if dest_para_id == 0 {
            return Err(Error::InvalidParachainId);
        }
        let count = self.crosschain.operation_count_get(club_id);
        if count == u64::MAX {
            return Err(Error::LimitExceeded);
        }
        let operation = CrossChainOperation {
            id: count,
            club_id,
            destination_parachain_id: dest_para_id,
            operation_type: OperationType::ExecuteInvestment,
            status: OperationStatus::Completed,
            amount: None,
            created_at: self.height,
            completed_at: Some(self.height),
        };
        let k = ClubItemKey { club: club_id, item: count };
        proof {
            if old(self).crosschain.operations_map().contains_key(k) {
                assert(k.item < old(self).crosschain.operation_count_of(k.club));
            }
        }
        self.crosschain.operations.insert(k, operation);
        self.crosschain.operation_counts.insert(club_id, count + 1);
        proof {
            let prior = old(self).crosschain;
            assert forall|k2: ClubItemKey| #[trigger]
                self.crosschain.operations_map().contains_key(k2) implies {
                let op = self.crosschain.operations_map()[k2];
                &&& op.id == k2.item
                &&& op.club_id == k2.club
                &&& k2.item < self.crosschain.operation_count_of(k2.club)
            } by {
                if k2 != k {
                    assert(prior.operations_map().contains_key(k2));
                    assert(k2.item < prior.operation_count_of(k2.club));
                }
            }
            assert forall|c: ClubId|
                0 <= #[trigger] self.crosschain.sent_of(c) <= self.crosschain.total_sent_spec() by {
                assert(0 <= prior.sent_of(c) <= prior.total_sent_spec());
            }
            assert forall|c: ClubId|
                #[trigger] self.treasury.balance_of(c) == self.balances.free_of(
                    AccountId::ClubTreasury(c),
                ) + self.crosschain.sent_of(c) by {
                assert(old(self).treasury.balance_of(c) == old(self).balances.free_of(
                    AccountId::ClubTreasury(c),
                ) + old(self).crosschain.sent_of(c));
            }
        }
        self.events.push(
            RuntimeEvent::Crosschain(
                Event::CrossChainOperationInitiated {
                    club_id,
                    operation_id: count,
                    destination_parachain_id: dest_para_id,
                    operation_type: OperationType::ExecuteInvestment,
                },
            ),
        );
        self.events.push(
            RuntimeEvent::Crosschain(
                Event::RemoteInvestmentExecuted { club_id, destination_parachain_id: dest_para_id },
            ),
        );
        self.events.push(
            RuntimeEvent::Crosschain(
                Event::CrossChainOperationCompleted { club_id, operation_id: count },
            ),
        );
        Ok(())
    }
}

} // verus!

verus! {

impl crate::state::Chain {
    /// The cross-chain operation `operation_id` of `club_id`, if any.
    pub fn operations(&self, club_id: ClubId, operation_id: CrossChainOperationId) -> (r: Option<
        CrossChainOperation,
    >)
        requires
            self.wf(),
        ensures
            ({
                let k = ClubItemKey { club: club_id, item: operation_id };
                let m = self.crosschain.operations_map();
                &&& (r is Some <==> m.contains_key(k))
                &&& (r is Some ==> r->0 == m[k])
            }),
    {
        let k = ClubItemKey { club: club_id, item: operation_id };
        match self.crosschain.operations.get(k) {
            None => None,
            Some(op) => Some(*op),
        }
    }

    /// The total ever sent to other chains; together with the issuance it
    /// bounds what genesis endowment is still possible.
    pub fn total_sent(&self) -> (r: Balance)
        ensures
            r == self.crosschain.total_sent_spec(),
    {
        self.crosschain.total_sent
    }

    /// How many operation ids `club_id` has allocated.
    pub fn operation_count(&self, club_id: ClubId) -> (r: u64)
        requires
            self.wf(),
        ensures
            r == self.crosschain.operation_count_of(club_id),
    {
        self.crosschain.operation_count_get(club_id)
    }
}

} // verus!
