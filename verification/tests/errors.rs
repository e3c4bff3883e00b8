use item_store::result::Error;

#[test]
fn a_failed_request_is_transient() {
    let error = Error::ReqwestError("operation timed out".to_string());

    assert!(error.is_transient());
    assert!(!error.is_persistence());
    assert_eq!(error.message(), "operation timed out");
}

#[test]
fn a_query_failure_has_a_fixed_message() {
    let error = Error::GraphqlError("no such field".to_string());

    assert!(!error.is_transient());
    assert!(!error.is_persistence());
    assert_eq!(error.message(), "query error");
}

#[test]
fn a_storage_failure_has_a_fixed_message() {
    let error = Error::DatabaseError("database is locked".to_string());

    assert!(!error.is_transient());
    assert!(error.is_persistence());
    assert_eq!(error.message(), "database error");
}
