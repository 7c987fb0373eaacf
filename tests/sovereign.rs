use praborrow::{
    DistributedBorrow, Epoch, Jurisdiction, LeaseError, LeaseId, LeaseIdGenerator, ReclaimError,
    Sovereign, SovereigntyError,
};

#[test]
fn test_domestic_access() {
    let sov = Sovereign::new(42);
    assert_eq!(*sov.read(0).unwrap(), 42);
}

#[test]
fn test_lease_grant() {
    let mut sov = Sovereign::new(100);
    let lease = sov.try_hire(1, 10_000, 0);
    assert!(lease.is_ok());
    let result = sov.read(5);
    assert!(result.is_err(), "Access should be denied when leased");
}

#[test]
fn test_reclaim_after_expiry() {
    let mut sov = Sovereign::new(200);
    let _ = sov.grant_lease(2, 1, 0);
    let result = sov.read(10);
    assert!(result.is_err(), "Access denied until reclaim");
    assert_eq!(sov.reclaim(10), Ok(()));
    assert_eq!(*sov.read(10).unwrap(), 200);
}

#[test]
fn new_guard_reads_its_value() {
    let sov = Sovereign::new(String::from("grain"));
    assert_eq!(sov.read(u64::MAX).unwrap().as_str(), "grain");
    assert!(sov.is_domestic());
    assert!(!sov.is_exiled());
    assert_eq!(sov.jurisdiction(), Jurisdiction::Domestic);
    assert_eq!(sov.current_epoch(), Epoch(0));
}

#[test]
fn leased_guard_refuses_until_reclaimed() {
    let mut sov = Sovereign::new(7u32);
    assert_eq!(sov.grant_lease(9, 100, 50), Ok((LeaseId(0), Epoch(1))));
    assert_eq!(
        sov.read(50).err(),
        Some(SovereigntyError::SovereigntyViolation { holder: 9, expires_at: 150 })
    );
    assert_eq!(
        sov.read(149).err(),
        Some(SovereigntyError::SovereigntyViolation { holder: 9, expires_at: 150 })
    );
    assert_eq!(sov.write(149).err(), Some(SovereigntyError::SovereigntyViolation { holder: 9, expires_at: 150 }));
    assert_eq!(sov.read(150).err(), Some(SovereigntyError::LeaseExpiredUnreclaimed { holder: 9 }));
    assert_eq!(sov.write(1000).err(), Some(SovereigntyError::LeaseExpiredUnreclaimed { holder: 9 }));
    assert!(sov.is_exiled());
    assert_eq!(
        sov.jurisdiction(),
        Jurisdiction::Foreign { holder: 9, lease_id: LeaseId(0), epoch: Epoch(1), expires_at: 150 }
    );
}

#[test]
fn reclaim_before_expiry_fails_and_after_succeeds() {
    let mut sov = Sovereign::new(vec![1u8, 2]);
    sov.grant_lease(3, 20, 10).unwrap();
    let before = sov.snapshot();
    assert_eq!(sov.reclaim(29), Err(ReclaimError::NotYetExpired));
    assert_eq!(sov.snapshot(), before);
    assert_eq!(sov.reclaim(30), Ok(()));
    assert!(sov.is_domestic());
    assert_eq!(sov.read(30).unwrap(), &vec![1u8, 2]);
    sov.write(31).unwrap().push(3);
    assert_eq!(sov.read(32).unwrap(), &vec![1u8, 2, 3]);
}

#[test]
fn second_grant_is_refused_and_changes_nothing() {
    let mut sov = Sovereign::new(0i64);
    sov.grant_lease(1, 10, 0).unwrap();
    let before = sov.snapshot();
    assert_eq!(sov.grant_lease(2, 10, 5), Err(LeaseError::AlreadyLeased));
    assert_eq!(sov.grant_lease(2, 10, 500), Err(LeaseError::AlreadyLeased));
    assert_eq!(sov.snapshot(), before);
    assert!(matches!(sov.try_hire(2, 10, 5), Err(LeaseError::AlreadyLeased)));
}

#[test]
fn epochs_and_lease_ids_advance_by_one() {
    let mut sov = Sovereign::new(());
    let (id1, e1) = sov.grant_lease(1, 5, 0).unwrap();
    assert_eq!(sov.reclaim(3), Err(ReclaimError::NotYetExpired));
    assert_eq!(sov.reclaim(5), Ok(()));
    let (id2, e2) = sov.grant_lease(2, 5, 6).unwrap();
    assert_eq!(e1, Epoch(1));
    assert_eq!(e2, Epoch(e1.0 + 1));
    assert_eq!(id1, LeaseId(0));
    assert_eq!(id2, LeaseId(1));
    assert_eq!(sov.current_epoch(), Epoch(2));
}

#[test]
fn reclaim_on_domestic_guard_is_noop_twice() {
    let mut sov = Sovereign::new(5u8);
    let before = sov.snapshot();
    assert_eq!(sov.reclaim(0), Ok(()));
    assert_eq!(sov.snapshot(), before);
    assert_eq!(sov.reclaim(0), Ok(()));
    assert_eq!(sov.snapshot(), before);
    assert_eq!(*sov.read(0).unwrap(), 5);
}

#[test]
fn expiry_saturates_at_the_end_of_time() {
    let mut sov = Sovereign::new(1u8);
    sov.grant_lease(4, u64::MAX, 10).unwrap();
    assert_eq!(
        sov.read(u64::MAX - 1).err(),
        Some(SovereigntyError::SovereigntyViolation { holder: 4, expires_at: u64::MAX })
    );
    assert_eq!(sov.reclaim(u64::MAX - 1), Err(ReclaimError::NotYetExpired));
}

#[test]
fn exhausted_lease_ids_fail_the_grant() {
    let mut sov = Sovereign::with_lease_ids(1u8, LeaseIdGenerator::starting_at(u128::MAX));
    assert_eq!(sov.grant_lease(1, 1, 0), Err(LeaseError::SystemFailure));
    assert!(sov.is_domestic());
}

#[test]
fn injected_lease_ids_are_used_in_order() {
    let mut sov = Sovereign::with_lease_ids(1u8, LeaseIdGenerator::starting_at(40));
    let lease = sov.try_hire(11, 30, 0).unwrap();
    assert_eq!(lease.lease_id, 40);
    assert_eq!(lease.holder, 11);
    assert_eq!(lease.duration_ms, 30);
    sov.reclaim(30).unwrap();
    assert_eq!(sov.grant_lease(12, 30, 31), Ok((LeaseId(41), Epoch(2))));
}

#[test]
fn id_generator_counts_up_and_stops() {
    let mut ids = LeaseIdGenerator::new();
    assert_eq!(ids.next_id(), Some(LeaseId(0)));
    assert_eq!(ids.next_id(), Some(LeaseId(1)));
    let mut last = LeaseIdGenerator::starting_at(u128::MAX);
    assert_eq!(last.next_id(), None);
    assert_eq!(last.next, u128::MAX);
}
