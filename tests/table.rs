use intraprocess::table::{AllocError, ChannelTable};

#[test]
fn first_claim_creates_the_slot() {
    let mut t = ChannelTable::<u8>::new(3);
    assert_eq!(t.len(), 0);
    let (ps, pl) = t.claim(1, 0, 4).unwrap();
    assert_eq!(t.len(), 1);
    assert_eq!(ps.len(), 3);
    assert_eq!(pl.location().dest, 1);
    assert!(t.claim(0, 0, 4).is_ok());
    assert_eq!(t.len(), 1);
}

#[test]
fn second_take_of_a_share_fails() {
    let mut t = ChannelTable::<u8>::new(2);
    assert!(t.claim(0, 0, 0).is_ok());
    assert_eq!(t.take(0, 0, 0).err(), Some(AllocError::AlreadyTaken));
    assert_eq!(t.claim(0, 0, 0).err(), Some(AllocError::AlreadyTaken));
    assert!(t.take(0, 1, 0).is_ok());
    assert_eq!(t.take(0, 1, 0).err(), Some(AllocError::AlreadyTaken));
}

#[test]
fn claim_errors() {
    let mut t = ChannelTable::<u8>::new(2);
    assert_eq!(t.claim(2, 0, 0).err(), Some(AllocError::NotAPeer));
    assert_eq!(t.claim(0, 1, 0).err(), Some(AllocError::OutOfSequence));
    assert_eq!(t.len(), 0);
    assert!(t.claim(0, 0, 5).is_ok());
    assert_eq!(t.claim(1, 0, 6).err(), Some(AllocError::KindMismatch));
    assert_eq!(t.take(1, 1, 5).err(), Some(AllocError::OutOfSequence));
    assert_eq!(t.take(0, 9, 5).err(), Some(AllocError::NotAPeer));
    assert!(t.take(0, 1, 5).is_ok());
}

#[test]
fn slots_carry_their_own_queues() {
    let mut t = ChannelTable::<u8>::new(1);
    let (mut ps0, mut pl0) = t.claim(0, 0, 1).unwrap();
    let (mut ps1, mut pl1) = t.claim(0, 1, 2).unwrap();
    assert_eq!(t.len(), 2);
    assert_eq!(ps1[0].location().slot, 1);
    ps0[0].push(&mut Some(1)).unwrap();
    assert_eq!(*pl1.pull(), None);
    assert_eq!(*pl0.pull(), Some(1));
    ps1[0].push(&mut Some(2)).unwrap();
    assert_eq!(*pl0.pull(), None);
    assert_eq!(*pl1.pull(), Some(2));
}
