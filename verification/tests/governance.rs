use ikubchain::governance::Error;
use ikubchain::governance::ProposalStatus;
use ikubchain::governance::ProposalType;
use ikubchain::governance::VoteChoice;
use ikubchain::governance::VotingMechanism;
use ikubchain::state::Chain;
use ikubchain::state::Config;

const P: u64 = 1;
const V1: u64 = 2;
const V2: u64 = 3;
const CLUB: u64 = 1;

fn new_chain() -> Chain {
    let mut chain = Chain::new(Config::default());
    chain.endow(P, 5_000);
    chain.endow(V1, 100);
    chain.endow(V2, 40);
    chain
}

fn propose(chain: &mut Chain, duration: u32, threshold: u8) -> Result<(), Error> {
    chain.create_proposal(
        CLUB,
        P,
        ProposalType::Investment,
        VotingMechanism::SimpleMajority,
        b"expand the portfolio".to_vec(),
        b"buy into the index".to_vec(),
        duration,
        threshold,
    )
}

#[test]
fn proposal_validation() {
    let mut chain = new_chain();
    // the configured maximum voting duration is 100000
    assert_eq!(propose(&mut chain, 100_001, 50), Err(Error::InvalidVotingDuration));
    assert_eq!(propose(&mut chain, 100, 0), Err(Error::InvalidApprovalThreshold));
    assert_eq!(propose(&mut chain, 100, 101), Err(Error::InvalidApprovalThreshold));
    assert_eq!(propose(&mut chain, 100, 50), Ok(()));
    let p = chain.proposals(CLUB, 0).unwrap();
    assert_eq!(p.status, ProposalStatus::Active);
    assert_eq!(p.voting_end, 100);
    assert_eq!(p.deposit, 1000);
    // the deposit is reserved, not spent
    assert_eq!(chain.free_balance(P), 4_000);
}

#[test]
fn proposal_deposit_must_be_coverable() {
    let mut chain = Chain::new(Config::default());
    chain.endow(P, 999);
    assert_eq!(propose(&mut chain, 100, 50), Err(Error::InsufficientFunds));
}

#[test]
fn active_proposals_are_capped() {
    let mut config = Config::default();
    config.max_proposals_per_club = 1;
    let mut chain = Chain::new(config);
    chain.endow(P, 5_000);
    assert_eq!(propose(&mut chain, 100, 50), Ok(()));
    assert_eq!(propose(&mut chain, 100, 50), Err(Error::LimitExceeded));
    assert_eq!(chain.active_proposals(CLUB), vec![0]);
}

#[test]
fn weighted_vote_decides_the_outcome() {
    let mut chain = new_chain();
    assert_eq!(propose(&mut chain, 100, 50), Ok(()));
    // weight is the voter's spendable balance at the moment of the call
    assert_eq!(chain.vote(CLUB, 0, V1, VoteChoice::Aye), Ok(()));
    assert_eq!(chain.vote(CLUB, 0, V2, VoteChoice::Nay), Ok(()));
    let p = chain.proposals(CLUB, 0).unwrap();
    assert_eq!(p.aye_votes, 100);
    assert_eq!(p.nay_votes, 40);

    // cannot be finalized before the window ends
    assert_eq!(chain.finalize_proposal(CLUB, 0), Err(Error::VotingPeriodEnded));
    chain.set_height(101);
    assert_eq!(chain.finalize_proposal(CLUB, 0), Ok(()));
    assert_eq!(chain.proposals(CLUB, 0).unwrap().status, ProposalStatus::Passed);
    assert_eq!(chain.active_proposals(CLUB), Vec::<u64>::new());
}

#[test]
fn zero_votes_expire() {
    let mut chain = new_chain();
    assert_eq!(propose(&mut chain, 100, 50), Ok(()));
    chain.set_height(101);
    assert_eq!(chain.finalize_proposal(CLUB, 0), Ok(()));
    assert_eq!(chain.proposals(CLUB, 0).unwrap().status, ProposalStatus::Expired);
}

#[test]
fn a_tie_rejects() {
    let mut chain = new_chain();
    chain.endow(V2, 60);  // V2 now holds 100 as well
    assert_eq!(propose(&mut chain, 100, 50), Ok(()));
    assert_eq!(chain.vote(CLUB, 0, V1, VoteChoice::Aye), Ok(()));
    assert_eq!(chain.vote(CLUB, 0, V2, VoteChoice::Nay), Ok(()));
    chain.set_height(101);
    assert_eq!(chain.finalize_proposal(CLUB, 0), Ok(()));
    assert_eq!(chain.proposals(CLUB, 0).unwrap().status, ProposalStatus::Rejected);
}

#[test]
fn abstain_weight_counts_for_turnout_only() {
    let mut chain = new_chain();
    assert_eq!(propose(&mut chain, 100, 50), Ok(()));
    assert_eq!(chain.vote(CLUB, 0, V1, VoteChoice::Abstain), Ok(()));
    chain.set_height(101);
    // abstain-only turnout is not expiry, but ayes do not exceed nays
    assert_eq!(chain.finalize_proposal(CLUB, 0), Ok(()));
    assert_eq!(chain.proposals(CLUB, 0).unwrap().status, ProposalStatus::Rejected);
}

#[test]
fn no_account_votes_twice() {
    let mut chain = new_chain();
    assert_eq!(propose(&mut chain, 100, 50), Ok(()));
    assert_eq!(chain.vote(CLUB, 0, V1, VoteChoice::Aye), Ok(()));
    assert_eq!(chain.vote(CLUB, 0, V1, VoteChoice::Nay), Err(Error::AlreadyVoted));
    let v = chain.votes(CLUB, 0, V1).unwrap();
    assert_eq!(v.choice, VoteChoice::Aye);
    assert_eq!(v.power, 100);
}

#[test]
fn voting_closes_with_the_window() {
    let mut chain = new_chain();
    assert_eq!(propose(&mut chain, 100, 50), Ok(()));
    chain.set_height(100);
    assert_eq!(chain.vote(CLUB, 0, V1, VoteChoice::Aye), Ok(()));
    chain.set_height(101);
    assert_eq!(chain.vote(CLUB, 0, V2, VoteChoice::Aye), Err(Error::VotingPeriodEnded));
}

#[test]
fn finalized_proposals_take_no_votes() {
    let mut chain = new_chain();
    assert_eq!(propose(&mut chain, 100, 50), Ok(()));
    chain.set_height(101);
    assert_eq!(chain.finalize_proposal(CLUB, 0), Ok(()));
    assert_eq!(chain.vote(CLUB, 0, V1, VoteChoice::Aye), Err(Error::InvalidState));
    assert_eq!(chain.finalize_proposal(CLUB, 0), Err(Error::InvalidState));
    assert_eq!(chain.vote(CLUB, 9, V1, VoteChoice::Aye), Err(Error::NotFound));
    assert_eq!(chain.finalize_proposal(CLUB, 9), Err(Error::NotFound));
}
