//! Business-logic core of a multi-tenant investment-club platform.
//!
//! Every node of the surrounding replicated execution environment re-applies
//! the same calls in the same order and must reach the same state, so the
//! whole core is a deterministic, pure state machine: one [`state::Chain`]
//! value, a fixed set of operations on it, and typed errors.  The modules
//! mirror the engines of the platform: a multi-signature treasury with
//! time-locked withdrawals and pooled contribution cycles, weighted
//! governance voting, dispute resolution by simple majority, membership
//! rolls, analytics counters and a simulated cross-chain transfer stub.
//!
//! Money and voting power are conserved quantities audited by adversarial
//! observers, so the crate carries its guarantees as contracts: every
//! operation states exactly when it succeeds, which error each rejected
//! input earns, and every field of the state it touches — and that it
//! touches nothing else.  One platform invariant ([`state::Chain::wf`])
//! holds throughout: currency sums to its issuance, each club's recorded
//! treasury balance equals the net of its cumulative flows and is backed
//! by its holding account, signer sets stay distinct and bounded, and
//! identifiers are never reused.  The cross-cutting laws are stated and
//! proved once in [`laws`].

pub mod analytics;
pub mod arith;
pub mod balances;
pub mod crosschain;
pub mod disputes;
pub mod governance;
pub mod ids;
pub mod laws;
pub mod members;
pub mod node;
pub mod state;
pub mod store;
pub mod treasury;
