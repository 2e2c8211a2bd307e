use ikubchain::analytics::AnalyticsEvent;
use ikubchain::analytics::PerformanceMetrics;
use ikubchain::crosschain::Error;
use ikubchain::crosschain::OperationStatus;
use ikubchain::crosschain::OperationType;
use ikubchain::state::Chain;
use ikubchain::state::Config;

const A: u64 = 1;
const CLUB: u64 = 1;

fn funded_chain() -> Chain {
    let mut chain = Chain::new(Config::default());
    chain.endow(A, 10_000);
    assert_eq!(chain.deposit(CLUB, A, 1000), Ok(()));
    chain
}

#[test]
fn send_funds_simulates_a_completed_transfer() {
    let mut chain = funded_chain();
    assert_eq!(
        chain.send_funds_to_parachain(CLUB, 2000, 300, b"remote-account".to_vec()),
        Ok(())
    );
    let op = chain.operations(CLUB, 0).unwrap();
    assert_eq!(op.status, OperationStatus::Completed);
    assert_eq!(op.operation_type, OperationType::TransferFunds);
    assert_eq!(op.amount, Some(300));
    assert_eq!(op.destination_parachain_id, 2000);
    assert_eq!(chain.operation_count(CLUB), 1);
    // the holding account paid, but the recorded balance is untouched
    assert_eq!(chain.treasury_balance(CLUB), 1000);
}

#[test]
fn send_funds_validates_destination_and_funds() {
    let mut chain = funded_chain();
    assert_eq!(
        chain.send_funds_to_parachain(CLUB, 0, 300, b"x".to_vec()),
        Err(Error::InvalidParachainId)
    );
    assert_eq!(
        chain.send_funds_to_parachain(CLUB, 2000, 1001, b"x".to_vec()),
        Err(Error::InsufficientFunds)
    );
}

#[test]
fn sent_funds_are_gone_for_good() {
    // After a cross-chain send the recorded balance still shows the funds,
    // but the holding account no longer covers them: a full withdrawal now
    // fails at the transfer.
    let mut chain = funded_chain();
    assert_eq!(
        chain.send_funds_to_parachain(CLUB, 2000, 300, b"x".to_vec()),
        Ok(())
    );
    assert_eq!(chain.request_withdrawal(CLUB, A, 9, 1000, 0), Ok(()));
    assert_eq!(chain.approve_withdrawal(CLUB, 0, 2), Ok(()));
    assert_eq!(chain.approve_withdrawal(CLUB, 0, 3), Ok(()));
    assert_eq!(
        chain.execute_withdrawal(CLUB, 0),
        Err(ikubchain::treasury::Error::InsufficientFunds)
    );
}

#[test]
fn remote_investment_is_recorded() {
    let mut chain = Chain::new(Config::default());
    assert_eq!(
        chain.execute_remote_investment(CLUB, 0, b"call".to_vec()),
        Err(Error::InvalidParachainId)
    );
    assert_eq!(
        chain.execute_remote_investment(CLUB, 2000, b"call".to_vec()),
        Ok(())
    );
    let op = chain.operations(CLUB, 0).unwrap();
    assert_eq!(op.operation_type, OperationType::ExecuteInvestment);
    assert_eq!(op.status, OperationStatus::Completed);
    assert_eq!(op.amount, None);
}

#[test]
fn metrics_are_replaced_wholesale() {
    let mut chain = Chain::new(Config::default());
    assert!(chain.metrics(CLUB).is_none());
    let m = PerformanceMetrics { total_return: -250, risk_score: 7, diversification_score: 4 };
    chain.update_metrics(CLUB, m);
    assert_eq!(chain.metrics(CLUB), Some(m));
    let m2 = PerformanceMetrics { total_return: 120, risk_score: 3, diversification_score: 9 };
    chain.update_metrics(CLUB, m2);
    assert_eq!(chain.metrics(CLUB), Some(m2));
}

#[test]
fn events_are_counted_per_club_and_globally() {
    let mut chain = Chain::new(Config::default());
    chain.track_event(CLUB, AnalyticsEvent::NewMember);
    chain.track_event(CLUB, AnalyticsEvent::NewMember);
    chain.track_event(CLUB, AnalyticsEvent::Dispute);
    chain.track_event(2, AnalyticsEvent::Contribution);
    let club1 = chain.event_counts(CLUB);
    assert_eq!(club1.new_members, 2);
    assert_eq!(club1.disputes, 1);
    assert_eq!(club1.contributions, 0);
    let global = chain.global_event_counts();
    assert_eq!(global.new_members, 2);
    assert_eq!(global.contributions, 1);
}
