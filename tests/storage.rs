use bucket_sync::storage::{delete_failure, StorageError};

#[test]
fn delete_failure_maps_not_found_status() {
    assert!(matches!(delete_failure(Some(404), String::from("gone")), StorageError::PathNotFound));
    match delete_failure(Some(500), String::from("boom")) {
        StorageError::UnknownError { message } => assert_eq!(message, "boom"),
        other => panic!("unexpected {:?}", other),
    }
    assert!(matches!(delete_failure(None, String::from("io")), StorageError::UnknownError { .. }));
}
