use ikubchain::state::Chain;
use ikubchain::state::Config;
use ikubchain::state::RuntimeEvent;
use ikubchain::treasury::CycleStatus;
use ikubchain::treasury::Error;
use ikubchain::treasury::Event;
use ikubchain::treasury::WithdrawalStatus;

const A: u64 = 1;
const B: u64 = 2;
const C: u64 = 3;
const R: u64 = 9;
const X: u64 = 11;
const Y: u64 = 12;
const CLUB: u64 = 1;

fn new_chain() -> Chain {
    let mut chain = Chain::new(Config::default());
    chain.endow(A, 10_000);
    chain.endow(B, 10_000);
    chain.endow(C, 10_000);
    chain.endow(X, 10_000);
    chain.endow(Y, 10_000);
    chain
}

#[test]
fn deposit_credits_the_treasury() {
    let mut chain = new_chain();
    assert_eq!(chain.deposit(CLUB, A, 1000), Ok(()));
    assert_eq!(chain.treasury_balance(CLUB), 1000);
    assert_eq!(chain.free_balance(A), 9_000);
    assert_eq!(
        chain.events.last(),
        Some(&RuntimeEvent::Treasury(Event::FundsDeposited { club_id: CLUB, account: A, amount: 1000 }))
    );
}

#[test]
fn deposit_needs_funds() {
    let mut chain = new_chain();
    assert_eq!(chain.deposit(CLUB, A, 10_001), Err(Error::InsufficientFunds));
    assert_eq!(chain.treasury_balance(CLUB), 0);
    assert_eq!(chain.free_balance(A), 10_000);
}

#[test]
fn withdrawal_quorum_and_time_lock() {
    let mut chain = new_chain();
    assert_eq!(chain.deposit(CLUB, A, 1000), Ok(()));
    chain.set_height(5);
    assert_eq!(chain.request_withdrawal(CLUB, A, R, 500, 10), Ok(()));
    let w = chain.withdrawal_requests(CLUB, 0).unwrap();
    assert_eq!(w.status, WithdrawalStatus::Pending);
    assert_eq!(w.signatures, vec![A]);
    assert_eq!(w.unlock_at, 15);

    // quorum is 3: B's signature keeps it pending, C's approves it
    assert_eq!(chain.approve_withdrawal(CLUB, 0, B), Ok(()));
    assert_eq!(
        chain.withdrawal_requests(CLUB, 0).unwrap().status,
        WithdrawalStatus::Pending
    );
    assert_eq!(chain.approve_withdrawal(CLUB, 0, C), Ok(()));
    let w = chain.withdrawal_requests(CLUB, 0).unwrap();
    assert_eq!(w.status, WithdrawalStatus::Approved);
    assert_eq!(w.signatures, vec![A, B, C]);

    // the time lock is an independent gate
    chain.set_height(12);
    assert_eq!(chain.execute_withdrawal(CLUB, 0), Err(Error::NotYetUnlocked));
    chain.set_height(15);
    assert_eq!(chain.execute_withdrawal(CLUB, 0), Ok(()));
    assert_eq!(chain.treasury_balance(CLUB), 500);
    assert_eq!(chain.free_balance(R), 500);
    assert_eq!(
        chain.withdrawal_requests(CLUB, 0).unwrap().status,
        WithdrawalStatus::Executed
    );
}

#[test]
fn request_withdrawal_needs_balance() {
    let mut chain = new_chain();
    assert_eq!(chain.deposit(CLUB, A, 100), Ok(()));
    assert_eq!(
        chain.request_withdrawal(CLUB, A, R, 500, 10),
        Err(Error::InsufficientFunds)
    );
}

#[test]
fn approve_rejects_duplicates_and_strangers() {
    let mut chain = new_chain();
    assert_eq!(chain.deposit(CLUB, A, 1000), Ok(()));
    assert_eq!(chain.request_withdrawal(CLUB, A, R, 500, 0), Ok(()));
    assert_eq!(chain.approve_withdrawal(CLUB, 7, B), Err(Error::NotFound));
    assert_eq!(chain.approve_withdrawal(CLUB, 0, A), Err(Error::AlreadySigned));
    assert_eq!(chain.approve_withdrawal(CLUB, 0, B), Ok(()));
    assert_eq!(chain.approve_withdrawal(CLUB, 0, B), Err(Error::AlreadySigned));
    assert_eq!(chain.approve_withdrawal(CLUB, 0, C), Ok(()));
    // once approved, further approvals are invalid
    assert_eq!(chain.approve_withdrawal(CLUB, 0, X), Err(Error::InvalidState));
}

#[test]
fn signer_set_is_capped() {
    let mut config = Config::default();
    config.max_signers = 2;
    config.min_signatures = 3;
    let mut chain = Chain::new(config);
    chain.endow(A, 1000);
    assert_eq!(chain.deposit(CLUB, A, 1000), Ok(()));
    assert_eq!(chain.request_withdrawal(CLUB, A, R, 500, 0), Ok(()));
    assert_eq!(chain.approve_withdrawal(CLUB, 0, B), Ok(()));
    // still pending (2 < 3), but the signer set is full
    assert_eq!(chain.approve_withdrawal(CLUB, 0, C), Err(Error::LimitExceeded));
}

#[test]
fn execute_needs_approval_first() {
    let mut chain = new_chain();
    assert_eq!(chain.deposit(CLUB, A, 1000), Ok(()));
    assert_eq!(chain.request_withdrawal(CLUB, A, R, 500, 0), Ok(()));
    assert_eq!(chain.execute_withdrawal(CLUB, 0), Err(Error::InvalidState));
    assert_eq!(chain.execute_withdrawal(CLUB, 3), Err(Error::NotFound));
}

#[test]
fn contribution_cycle_proportional_payout() {
    let mut chain = new_chain();
    assert_eq!(chain.open_contribution_cycle(CLUB, Some(100), Some(10)), Ok(()));
    assert_eq!(chain.active_cycle(CLUB), Some(0));
    assert_eq!(chain.contribute(CLUB, X, 40), Ok(()));
    assert_eq!(chain.contribute(CLUB, Y, 60), Ok(()));
    let cycle = chain.contribution_cycles(CLUB, 0).unwrap();
    assert_eq!(cycle.total_contributions, 100);
    assert_eq!(chain.treasury_balance(CLUB), 100);

    // the window runs to height 100; closing early is refused
    assert_eq!(chain.close_cycle(CLUB), Err(Error::InvalidState));
    chain.set_height(101);
    assert_eq!(chain.close_cycle(CLUB), Ok(()));
    assert_eq!(
        chain.contribution_cycles(CLUB, 0).unwrap().status,
        CycleStatus::Closed
    );
    assert_eq!(chain.active_cycle(CLUB), None);

    assert_eq!(chain.distribute_returns(CLUB, 0, 10), Ok(()));
    let cycle = chain.contribution_cycles(CLUB, 0).unwrap();
    assert_eq!(cycle.status, CycleStatus::Distributed);
    assert_eq!(cycle.returns, 10);

    // share = floor(contribution * returns / total)
    assert_eq!(chain.claim_returns(CLUB, 0, X), Ok(()));
    assert_eq!(chain.free_balance(X), 10_000 - 40 + 4);
    assert_eq!(chain.claim_returns(CLUB, 0, Y), Ok(()));
    assert_eq!(chain.free_balance(Y), 10_000 - 60 + 6);
    // the claims together never exceed the returns
    assert_eq!(chain.treasury_balance(CLUB), 100 - 4 - 6);
}

#[test]
fn only_one_cycle_at_a_time() {
    let mut chain = new_chain();
    assert_eq!(chain.open_contribution_cycle(CLUB, None, None), Ok(()));
    assert_eq!(
        chain.open_contribution_cycle(CLUB, None, None),
        Err(Error::InvalidState)
    );
}

#[test]
fn contribution_below_minimum_is_refused() {
    let mut chain = new_chain();
    assert_eq!(chain.open_contribution_cycle(CLUB, Some(100), Some(10)), Ok(()));
    assert_eq!(chain.contribute(CLUB, X, 9), Err(Error::LimitExceeded));
    assert_eq!(chain.contribute(CLUB, X, 10), Ok(()));
}

#[test]
fn contribution_window_is_enforced() {
    let mut chain = new_chain();
    assert_eq!(chain.open_contribution_cycle(CLUB, Some(100), Some(10)), Ok(()));
    chain.set_height(101);
    assert_eq!(chain.contribute(CLUB, X, 40), Err(Error::InvalidState));
    assert_eq!(chain.contribute(2, X, 40), Err(Error::NotFound));
}

#[test]
fn repeat_contributions_accumulate() {
    let mut chain = new_chain();
    assert_eq!(chain.open_contribution_cycle(CLUB, Some(100), Some(10)), Ok(()));
    assert_eq!(chain.contribute(CLUB, X, 40), Ok(()));
    chain.set_height(3);
    assert_eq!(chain.contribute(CLUB, X, 25), Ok(()));
    let con = chain.contributions(CLUB, 0, X).unwrap();
    assert_eq!(con.amount, 65);
    assert_eq!(con.contributed_at, 0);
}

#[test]
fn zero_returns_cannot_be_distributed() {
    let mut chain = new_chain();
    assert_eq!(chain.open_contribution_cycle(CLUB, Some(10), Some(10)), Ok(()));
    assert_eq!(chain.contribute(CLUB, X, 40), Ok(()));
    chain.set_height(11);
    assert_eq!(chain.close_cycle(CLUB), Ok(()));
    assert_eq!(chain.distribute_returns(CLUB, 0, 0), Err(Error::NoReturnsToDistribute));
    assert_eq!(chain.distribute_returns(CLUB, 7, 5), Err(Error::NotFound));
}

#[test]
fn vanishing_share_is_refused() {
    let mut chain = new_chain();
    assert_eq!(chain.open_contribution_cycle(CLUB, Some(10), Some(1)), Ok(()));
    assert_eq!(chain.contribute(CLUB, X, 1), Ok(()));
    assert_eq!(chain.contribute(CLUB, Y, 999), Ok(()));
    chain.set_height(11);
    assert_eq!(chain.close_cycle(CLUB), Ok(()));
    assert_eq!(chain.distribute_returns(CLUB, 0, 10), Ok(()));
    // floor(1 * 10 / 1000) == 0
    assert_eq!(chain.claim_returns(CLUB, 0, X), Err(Error::NoReturnsToDistribute));
    // a non-contributor has no record at all
    assert_eq!(chain.claim_returns(CLUB, 0, B), Err(Error::NotFound));
}

#[test]
fn nothing_marks_a_share_claimed() {
    // The minimal pull-based design records no claimed flag, so a second
    // claim pays again; kept as the design has it.
    let mut chain = new_chain();
    assert_eq!(chain.open_contribution_cycle(CLUB, Some(10), Some(10)), Ok(()));
    assert_eq!(chain.contribute(CLUB, X, 100), Ok(()));
    chain.set_height(11);
    assert_eq!(chain.close_cycle(CLUB), Ok(()));
    assert_eq!(chain.distribute_returns(CLUB, 0, 10), Ok(()));
    assert_eq!(chain.claim_returns(CLUB, 0, X), Ok(()));
    assert_eq!(chain.claim_returns(CLUB, 0, X), Ok(()));
    assert_eq!(chain.free_balance(X), 10_000 - 100 + 20);
}

#[test]
fn conservation_across_a_history() {
    // deposits + contributions - executed withdrawals - claimed returns
    let mut chain = new_chain();
    assert_eq!(chain.deposit(CLUB, A, 1000), Ok(()));
    assert_eq!(chain.open_contribution_cycle(CLUB, Some(10), Some(10)), Ok(()));
    assert_eq!(chain.contribute(CLUB, X, 200), Ok(()));
    assert_eq!(chain.request_withdrawal(CLUB, A, R, 300, 0), Ok(()));
    assert_eq!(chain.approve_withdrawal(CLUB, 0, B), Ok(()));
    assert_eq!(chain.approve_withdrawal(CLUB, 0, C), Ok(()));
    assert_eq!(chain.execute_withdrawal(CLUB, 0), Ok(()));
    chain.set_height(11);
    assert_eq!(chain.close_cycle(CLUB), Ok(()));
    assert_eq!(chain.distribute_returns(CLUB, 0, 100), Ok(()));
    assert_eq!(chain.claim_returns(CLUB, 0, X), Ok(()));
    // 1000 + 200 - 300 - 100 == 800; clubs never go negative
    assert_eq!(chain.treasury_balance(CLUB), 800);
    assert_eq!(chain.treasury_balance(2), 0);
}
