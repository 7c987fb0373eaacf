use praborrow::{LeaseError, ReclaimError, SovereignString};

#[test]
fn domestic_string_reads_its_value() {
    let s = SovereignString::new("treasury".to_string());
    assert_eq!(s.get_value(), "treasury");
    assert!(s.is_domestic());
    assert!(!s.is_exiled());
}

#[test]
fn leased_string_reads_as_exiled() {
    let mut s = SovereignString::new("treasury".to_string());
    assert!(s.grant_lease(3, 10, 0).is_ok());
    assert_eq!(s.get_value(), "<Exiled>");
    assert!(s.is_exiled());
    assert_eq!(s.grant_lease(4, 10, 1), Err(LeaseError::AlreadyLeased));
    assert_eq!(s.reclaim(9), Err(ReclaimError::NotYetExpired));
    assert_eq!(s.reclaim(10), Ok(()));
    assert_eq!(s.get_value(), "treasury");
}
