use coordinator_server::credential_attributes::{
    allowed_for_read_access, CredentialAccess, CredentialAttributes, CredentialClass,
};

#[test]
fn unknown_columns_fail_closed() {
    let parsed = CredentialAttributes::from_columns("bogus", "bogus");
    assert_eq!(parsed.class, CredentialClass::Interactive);
    assert_eq!(parsed.access, CredentialAccess::Read);
}

#[test]
fn read_access_allows_only_own_session_management() {
    assert!(allowed_for_read_access("POST /api/v1/sessions"));
    assert!(allowed_for_read_access("POST /api/v1/sessions/s1/close"));
    assert!(allowed_for_read_access("POST /api/v1/sessions/s1/instruction-acknowledgments"));
    assert!(!allowed_for_read_access("POST /api/v1/projects/p/tasks"));
    assert!(!allowed_for_read_access("POST /api/v1/sessions/s1/other"));
}

#[test]
fn known_columns_round_trip() {
    let parsed = CredentialAttributes::from_columns("supervised", "write");
    assert_eq!(parsed.class, CredentialClass::Supervised);
    assert_eq!(parsed.access, CredentialAccess::Write);
    assert_eq!(parsed.class.as_str(), "supervised");
    assert_eq!(parsed.access.as_str(), "write");
}
