//! Identifiers shared by all engines.
//!
//! The surrounding execution environment authenticates callers before a call
//! reaches this core, so an account is just its id here.  Each club's
//! treasury holds its funds under a dedicated holding account, kept apart
//! from user accounts by construction.

use vstd::prelude::*;
use crate::store::StoreKey;

verus! {

/// A tenant club.
pub type ClubId = u64;

/// A withdrawal request, unique per club.
pub type WithdrawalId = u64;

/// A contribution cycle, unique per club.
pub type ContributionCycleId = u64;

/// A governance proposal, unique per club.
pub type ProposalId = u64;

/// A dispute, unique per club.
pub type DisputeId = u64;

/// A cross-chain operation, unique per club.
pub type CrossChainOperationId = u64;

/// An amount of currency.
pub type Balance = u64;

/// The height of the replicated chain of operations; the clock of the core.
pub type BlockNumber = u32;

/// A member's reputation score.
pub type ReputationScore = u64;

/// An account: an authenticated user, or the holding account of a club's
/// treasury.
#[derive(Clone, Copy, PartialEq, Eq, Structural, Debug)]
pub enum AccountId {
    /// An external, authenticated caller.
    User(u64),
    /// The treasury holding account of the club.
    ClubTreasury(ClubId),
}

impl StoreKey for AccountId {
    fn same(&self, other: &Self) -> (r: bool)
        ensures
            r <==> *self == *other,
    {
        match (self, other) {
            (AccountId::User(a), AccountId::User(b)) => *a == *b,
            (AccountId::ClubTreasury(a), AccountId::ClubTreasury(b)) => *a == *b,
            _ => false,
        }
    }
}

/// A (club, item) composite key of the keyed store.
#[derive(Clone, Copy, PartialEq, Eq, Structural, Debug)]
pub struct ClubItemKey {
    pub club: ClubId,
    pub item: u64,
}

impl StoreKey for ClubItemKey {
    fn same(&self, other: &Self) -> (r: bool)
        ensures
            r <==> *self == *other,
    {
        self.club == other.club && self.item == other.item
    }
}

/// A (club, item, account) composite key of the keyed store.
#[derive(Clone, Copy, PartialEq, Eq, Structural, Debug)]
pub struct ClubItemAccountKey {
    pub club: ClubId,
    pub item: u64,
    pub who: u64,
}

impl StoreKey for ClubItemAccountKey {
    fn same(&self, other: &Self) -> (r: bool)
        ensures
            r <==> *self == *other,
    {
        self.club == other.club && self.item == other.item && self.who == other.who
    }
}

/// A (club, account) composite key of the keyed store.
#[derive(Clone, Copy, PartialEq, Eq, Structural, Debug)]
pub struct ClubAccountKey {
    pub club: ClubId,
    pub who: u64,
}

impl StoreKey for ClubAccountKey {
    fn same(&self, other: &Self) -> (r: bool)
        ensures
            r <==> *self == *other,
    {
        self.club == other.club && self.who == other.who
    }
}

} // verus!
