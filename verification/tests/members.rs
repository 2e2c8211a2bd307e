use ikubchain::members::Error;
use ikubchain::state::Chain;
use ikubchain::state::Config;

const CREATOR: u64 = 1;
const JOINER: u64 = 2;
const OTHER: u64 = 3;

fn create(chain: &mut Chain) {
    assert_eq!(
        chain.create_club(CREATOR, b"pioneers".to_vec(), b"an investment club".to_vec()),
        Ok(())
    );
}

#[test]
fn create_club_seeds_the_creator() {
    let mut chain = Chain::new(Config::default());
    create(&mut chain);
    let club = chain.clubs(0).unwrap();
    assert_eq!(club.id, 0);
    assert_eq!(club.creator, CREATOR);
    assert!(club.is_active);
    assert_eq!(club.name, b"pioneers".to_vec());
    assert_eq!(chain.club_count(), 1);
    assert_eq!(chain.member_count(0), 1);
    assert!(chain.members(0, CREATOR).is_some());
}

#[test]
fn club_names_are_validated() {
    let mut chain = Chain::new(Config::default());
    assert_eq!(
        chain.create_club(CREATOR, Vec::new(), b"x".to_vec()),
        Err(Error::InvalidClubName)
    );
    assert_eq!(
        chain.create_club(CREATOR, vec![0u8; 257], b"x".to_vec()),
        Err(Error::InvalidClubName)
    );
    assert_eq!(
        chain.create_club(CREATOR, b"fine".to_vec(), vec![0u8; 1025]),
        Err(Error::InvalidClubDescription)
    );
}

#[test]
fn join_and_leave() {
    let mut chain = Chain::new(Config::default());
    create(&mut chain);
    assert_eq!(chain.join_club(9, JOINER), Err(Error::NotFound));
    assert_eq!(chain.join_club(0, JOINER), Ok(()));
    assert_eq!(chain.join_club(0, JOINER), Err(Error::AlreadyMember));
    assert_eq!(chain.member_count(0), 2);
    assert_eq!(chain.leave_club(0, JOINER), Ok(()));
    assert_eq!(chain.member_count(0), 1);
    assert_eq!(chain.leave_club(0, JOINER), Err(Error::NotMember));
    // leaving does not bar rejoining
    assert_eq!(chain.join_club(0, JOINER), Ok(()));
}

#[test]
fn clubs_are_capped() {
    let mut config = Config::default();
    config.max_members_per_club = 2;
    let mut chain = Chain::new(config);
    create(&mut chain);
    assert_eq!(chain.join_club(0, JOINER), Ok(()));
    assert_eq!(chain.join_club(0, OTHER), Err(Error::LimitExceeded));
}

#[test]
fn reputation_accumulates_for_members_only() {
    let mut chain = Chain::new(Config::default());
    create(&mut chain);
    assert_eq!(chain.update_reputation(0, CREATOR, 7), Ok(()));
    assert_eq!(chain.update_reputation(0, CREATOR, 5), Ok(()));
    assert_eq!(chain.members(0, CREATOR).unwrap().reputation, 12);
    // a non-member is silently ignored, as callers fire this opportunistically
    let before = chain.events.len();
    assert_eq!(chain.update_reputation(0, OTHER, 7), Ok(()));
    assert_eq!(chain.events.len(), before);
    assert!(chain.members(0, OTHER).is_none());
}
