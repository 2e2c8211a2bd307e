//! The platform's cross-cutting laws, stated and proved once over the
//! engines' invariants and contracts.
//!
//! Each law here is a public proof function: its `requires` holds only the
//! platform invariant (and, where noted, the premises the law itself
//! states), and its `ensures` is the law, phrased over the same spec
//! functions the operations' contracts use.

use vstd::prelude::*;
use vstd::arithmetic::div_mod::lemma_div_by_multiple;
use vstd::arithmetic::div_mod::lemma_div_is_ordered;
use vstd::arithmetic::div_mod::lemma_div_multiples_vanish;
use vstd::arithmetic::div_mod::lemma_fundamental_div_mod;
use vstd::arithmetic::div_mod::lemma_mod_bound;
use vstd::arithmetic::mul::lemma_mul_inequality;
use vstd::arithmetic::mul::lemma_mul_is_distributive_add;
use vstd::arithmetic::mul::lemma_mul_nonnegative;
use crate::ids::ClubId;
use crate::ids::ClubItemKey;
use crate::ids::ProposalId;
use crate::ids::WithdrawalId;
use crate::state::Chain;
use crate::treasury::claim_share;
use crate::treasury::distinct_seq;

verus! {

/// Law: every club's recorded treasury balance is non-negative and equals
/// its cumulative deposits plus cumulative contributions, minus executed
/// withdrawals and claimed returns.  The flows are the ghost history that
/// each treasury operation's contract extends by exactly its amount.
pub proof fn lemma_treasury_conservation(chain: Chain, club: ClubId)
    requires
        chain.wf(),
    ensures
        chain.treasury.balance_of(club) >= 0,
        chain.treasury.balance_of(club) == chain.treasury.flows_of(club).deposits
            + chain.treasury.flows_of(club).contributions - chain.treasury.flows_of(club).executed
            - chain.treasury.flows_of(club).claimed,
{
    let b = chain.treasury.balance_of(club);
    assert(chain.treasury.balance_of(club) == chain.treasury.flows_of(club).net());
}

/// Law: a withdrawal's signer set never holds the same account twice, a
/// pending request under a quorum of at least two always holds fewer
/// signatures than the quorum, and a request is approved only once the
/// quorum is reached.  Together with `approve_withdrawal`'s contract —
/// which turns a pending request `Approved` exactly when the new signer
/// count first reaches the quorum — this pins the whole approval gate.
/// A quorum of one is degenerate: the requester's own seed signature does
/// not approve, so such a request turns `Approved` at its second signer.
pub proof fn lemma_quorum_gate(chain: Chain, club_id: ClubId, withdrawal_id: WithdrawalId)
    requires
        chain.wf(),
        chain.treasury.withdrawals_map().contains_key(
            ClubItemKey { club: club_id, item: withdrawal_id },
        ),
    ensures
        ({
            let w = chain.treasury.withdrawals_map()[
                (ClubItemKey { club: club_id, item: withdrawal_id })
            ];
            &&& distinct_seq(w.signatures@)
            &&& 1 <= w.signatures@.len() <= chain.config.max_signers
            &&& (w.status is Approved ==> w.signatures@.len() >= chain.config.min_signatures)
            &&& (w.status is Pending && chain.config.min_signatures >= 2 ==> w.signatures@.len()
                < chain.config.min_signatures)
        }),
{
    let k = ClubItemKey { club: club_id, item: withdrawal_id };
    assert(chain.treasury.withdrawals_map().contains_key(k));
}

/// A proposal still takes votes: the success condition of `vote`, as its
/// contract states it (besides the voter not having voted yet).
pub open spec fn accepts_votes(chain: Chain, club_id: ClubId, proposal_id: ProposalId) -> bool {
    let k = ClubItemKey { club: club_id, item: proposal_id };
    let m = chain.governance.proposals_map();
    &&& m.contains_key(k)
    &&& m[k].status is Active
    &&& chain.height <= m[k].voting_end
}

/// A proposal is ripe for finalization: the success condition of
/// `finalize_proposal`, as its contract states it.
pub open spec fn accepts_finalization(chain: Chain, club_id: ClubId, proposal_id: ProposalId) -> bool {
    let k = ClubItemKey { club: club_id, item: proposal_id };
    let m = chain.governance.proposals_map();
    &&& m.contains_key(k)
    &&& m[k].status is Active
    &&& chain.height > m[k].voting_end
}

/// Law: a proposal cannot be voted on after its window — `vote` then fails
/// with `VotingPeriodEnded` — and cannot be finalized before the window
/// has passed; at any one height at most one of the two is possible.
pub proof fn lemma_voting_window_exclusive(chain: Chain, club_id: ClubId, proposal_id: ProposalId)
    ensures
        !(accepts_votes(chain, club_id, proposal_id) && accepts_finalization(
            chain,
            club_id,
            proposal_id,
        )),
{
}

/// The sum of a sequence of amounts.
pub open spec fn sum_seq(s: Seq<int>) -> int
    decreases s.len(),
{
    if s.len() == 0 {
        0
    } else {
        sum_seq(s.drop_last()) + s.last()
    }
}

/// The sum of the members' payouts, each computed as `claim_returns`
/// computes its share.
pub open spec fn sum_shares(amounts: Seq<int>, total_returns: int, total_contributions: int) -> int
    decreases amounts.len(),
{
    if amounts.len() == 0 {
        0
    } else {
        sum_shares(amounts.drop_last(), total_returns, total_contributions) + claim_share(
            amounts.last(),
            total_returns,
            total_contributions,
        )
    }
}

/// Floor division distributes superadditively over addition.
proof fn lemma_div_superadd(a: int, b: int, t: int)
    requires
        0 <= a,
        0 <= b,
        0 < t,
    ensures
        a / t + b / t <= (a + b) / t,
{
    lemma_fundamental_div_mod(a, t);
    lemma_fundamental_div_mod(b, t);
    lemma_mod_bound(a, t);
    lemma_mod_bound(b, t);
    lemma_mul_is_distributive_add(t, a / t, b / t);
    assert(t * (a / t + b / t) <= a + b);
    lemma_div_is_ordered(t * (a / t + b / t), a + b, t);
    lemma_div_multiples_vanish(a / t + b / t, t);
}

proof fn lemma_sum_shares_le(amounts: Seq<int>, total_returns: int, total_contributions: int)
    requires
        0 < total_contributions,
        0 <= total_returns,
        forall|i: int| 0 <= i < amounts.len() ==> 0 <= #[trigger] amounts[i],
    ensures
        0 <= sum_seq(amounts),
        sum_shares(amounts, total_returns, total_contributions) <= sum_seq(amounts) * total_returns
            / total_contributions,
        0 <= sum_shares(amounts, total_returns, total_contributions),
    decreases amounts.len(),
{
    let r = total_returns;
    let t = total_contributions;
    if amounts.len() == 0 {
    } else {
        let s0 = amounts.drop_last();
        let last = amounts.last();
        assert(forall|i: int| 0 <= i < s0.len() ==> 0 <= #[trigger] s0[i]);
        lemma_sum_shares_le(s0, r, t);
        lemma_mul_nonnegative(last, r);
        lemma_mul_nonnegative(sum_seq(s0), r);
        vstd::arithmetic::div_mod::lemma_div_pos_is_pos(last * r, t);
        lemma_div_superadd(sum_seq(s0) * r, last * r, t);
        lemma_mul_is_distributive_add(r, sum_seq(s0), last);
        assert(sum_seq(s0) * r + last * r == (sum_seq(s0) + last) * r) by {
            vstd::arithmetic::mul::lemma_mul_is_commutative(r, sum_seq(s0));
            vstd::arithmetic::mul::lemma_mul_is_commutative(r, last);
            vstd::arithmetic::mul::lemma_mul_is_commutative(r, sum_seq(s0) + last);
        }
    }
}

/// Law: however a fully distributed cycle is claimed, the payouts cannot
/// exceed the recorded returns.  Each member's payout is
/// `claim_share(amount, returns, total)` — exactly what `claim_returns`
/// pays — the stored amounts sum to at most the cycle's pooled total, and
/// floor division only ever loses to rounding.
pub proof fn lemma_claims_never_exceed_returns(
    amounts: Seq<int>,
    total_returns: int,
    total_contributions: int,
)
    requires
        0 < total_contributions,
        0 <= total_returns,
        forall|i: int| 0 <= i < amounts.len() ==> 0 <= #[trigger] amounts[i],
        sum_seq(amounts) <= total_contributions,
    ensures
        0 <= sum_shares(amounts, total_returns, total_contributions) <= total_returns,
{
    let r = total_returns;
    let t = total_contributions;
    lemma_sum_shares_le(amounts, r, t);
    lemma_mul_inequality(sum_seq(amounts), t, r);
    lemma_div_is_ordered(sum_seq(amounts) * r, t * r, t);
    vstd::arithmetic::mul::lemma_mul_is_commutative(t, r);
    lemma_div_by_multiple(r, t);
}

/// Law: the identifiers of withdrawals, cycles, proposals, disputes and
/// cross-chain operations are allocated from per-club counters that only
/// grow, so every stored item's id lies strictly below its club's counter
/// and a fresh id can never collide with a stored one.
pub proof fn lemma_ids_never_reused(chain: Chain, k: ClubItemKey)
    requires
        chain.wf(),
    ensures
        chain.treasury.withdrawals_map().contains_key(k) ==> k.item
            < chain.treasury.withdrawal_count_of(k.club),
        chain.treasury.cycles_map().contains_key(k) ==> k.item < chain.treasury.cycle_count_of(
            k.club,
        ),
        chain.governance.proposals_map().contains_key(k) ==> k.item
            < chain.governance.proposal_count_of(k.club),
        chain.disputes.disputes_map().contains_key(k) ==> k.item < chain.disputes.dispute_count_of(
            k.club,
        ),
        chain.crosschain.operations_map().contains_key(k) ==> k.item
            < chain.crosschain.operation_count_of(k.club),
{
}

} // verus!
