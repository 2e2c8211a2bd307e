use ikubchain::disputes::DisputeStatus;
use ikubchain::disputes::Error;
use ikubchain::disputes::Event;
use ikubchain::disputes::VoteChoice;
use ikubchain::state::Chain;
use ikubchain::state::Config;
use ikubchain::state::RuntimeEvent;

const INITIATOR: u64 = 1;
const SUBJECT: u64 = 2;
const V1: u64 = 3;
const V2: u64 = 4;
const V3: u64 = 5;
const CLUB: u64 = 1;

fn open(chain: &mut Chain) {
    assert_eq!(
        chain.open_dispute(CLUB, INITIATOR, SUBJECT, b"late settlement".to_vec()),
        Ok(())
    );
}

#[test]
fn open_dispute_records_everything() {
    let mut chain = Chain::new(Config::default());
    open(&mut chain);
    let d = chain.disputes(CLUB, 0).unwrap();
    assert_eq!(d.status, DisputeStatus::Open);
    assert_eq!(d.initiator, INITIATOR);
    assert_eq!(d.subject, SUBJECT);
    assert_eq!(d.favor_initiator_votes, 0);
    assert_eq!(chain.dispute_count(CLUB), 1);
}

#[test]
fn overlong_description_is_refused() {
    let mut chain = Chain::new(Config::default());
    assert_eq!(
        chain.open_dispute(CLUB, INITIATOR, SUBJECT, vec![0u8; 1025]),
        Err(Error::LimitExceeded)
    );
}

#[test]
fn one_evidence_submission_each() {
    let mut chain = Chain::new(Config::default());
    open(&mut chain);
    assert_eq!(chain.submit_evidence(CLUB, 0, V1, b"ledger extract".to_vec()), Ok(()));
    assert_eq!(
        chain.submit_evidence(CLUB, 0, V1, b"more of it".to_vec()),
        Err(Error::AlreadyDone)
    );
    assert_eq!(
        chain.submit_evidence(CLUB, 0, V2, vec![0u8; 2049]),
        Err(Error::LimitExceeded)
    );
    assert_eq!(
        chain.submit_evidence(CLUB, 9, V2, b"lost".to_vec()),
        Err(Error::NotFound)
    );
    let e = chain.evidence(CLUB, 0, V1).unwrap();
    assert_eq!(e.submitter, V1);
    assert_eq!(e.description, b"ledger extract".to_vec());
}

#[test]
fn one_vote_each_and_majority_wins() {
    let mut chain = Chain::new(Config::default());
    open(&mut chain);
    assert_eq!(chain.vote_on_dispute(CLUB, 0, V1, VoteChoice::FavorInitiator), Ok(()));
    assert_eq!(
        chain.vote_on_dispute(CLUB, 0, V1, VoteChoice::FavorSubject),
        Err(Error::AlreadyVoted)
    );
    assert_eq!(chain.vote_on_dispute(CLUB, 0, V2, VoteChoice::FavorInitiator), Ok(()));
    assert_eq!(chain.vote_on_dispute(CLUB, 0, V3, VoteChoice::FavorSubject), Ok(()));
    chain.set_height(4);
    assert_eq!(chain.resolve_dispute(CLUB, 0), Ok(()));
    let d = chain.disputes(CLUB, 0).unwrap();
    assert_eq!(d.status, DisputeStatus::Resolved);
    assert_eq!(d.resolved_at, Some(4));
    assert_eq!(d.favor_initiator_votes, 2);
    assert_eq!(d.favor_subject_votes, 1);
    // the majority favored the initiator
    assert_eq!(
        chain.events.last(),
        Some(&RuntimeEvent::Disputes(Event::DisputeResolved {
            club_id: CLUB,
            dispute_id: 0,
            winner: INITIATOR,
        }))
    );
}

#[test]
fn a_tie_favors_the_subject() {
    let mut chain = Chain::new(Config::default());
    open(&mut chain);
    assert_eq!(chain.vote_on_dispute(CLUB, 0, V1, VoteChoice::FavorInitiator), Ok(()));
    assert_eq!(chain.vote_on_dispute(CLUB, 0, V2, VoteChoice::FavorSubject), Ok(()));
    assert_eq!(chain.resolve_dispute(CLUB, 0), Ok(()));
    assert_eq!(
        chain.events.last(),
        Some(&RuntimeEvent::Disputes(Event::DisputeResolved {
            club_id: CLUB,
            dispute_id: 0,
            winner: SUBJECT,
        }))
    );
}

#[test]
fn resolution_needs_votes() {
    let mut chain = Chain::new(Config::default());
    open(&mut chain);
    assert_eq!(chain.resolve_dispute(CLUB, 0), Err(Error::NoVotes));
    assert_eq!(chain.resolve_dispute(CLUB, 9), Err(Error::NotFound));
    assert_eq!(chain.vote_on_dispute(CLUB, 0, V1, VoteChoice::Abstain), Ok(()));
    assert_eq!(chain.resolve_dispute(CLUB, 0), Ok(()));
    // a resolved dispute takes no more votes, evidence or resolutions
    assert_eq!(
        chain.vote_on_dispute(CLUB, 0, V2, VoteChoice::FavorSubject),
        Err(Error::InvalidState)
    );
    assert_eq!(
        chain.submit_evidence(CLUB, 0, V2, b"late".to_vec()),
        Err(Error::InvalidState)
    );
    assert_eq!(chain.resolve_dispute(CLUB, 0), Err(Error::InvalidState));
    assert_eq!(chain.vote_on_dispute(CLUB, 9, V1, VoteChoice::Abstain), Err(Error::NotFound));
}
