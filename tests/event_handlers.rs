use bucket_sync::context::HandlerContext;
use bucket_sync::event_handlers::{
    CreatedEvent, EventHandler, PathEventHandler, RemovedEvent, SyncError, UpdatedEvent,
};
use bucket_sync::file_system::{FileSystem, LocalReadError};
use bucket_sync::storage::{Storage, StorageError};
use std::cell::RefCell;

struct MockStorage {
    upload_called: RefCell<bool>,
    delete_called: RefCell<bool>,
    list_folder_blobs_called: RefCell<bool>,
    return_path_not_found_error: RefCell<bool>,
}

impl MockStorage {
    fn new() -> MockStorage {
        MockStorage {
            upload_called: RefCell::new(false),
            delete_called: RefCell::new(false),
            list_folder_blobs_called: RefCell::new(false),
            return_path_not_found_error: RefCell::new(false),
        }
    }

    fn set_return_path_not_found_error(&self, f: bool) {
        *self.return_path_not_found_error.borrow_mut() = f;
    }
}

impl Storage for MockStorage {
    fn upload(&self, _blob_name: &str, _data: Vec<u8>, _checksum: Vec<u8>) -> Result<(), StorageError> {
        *self.upload_called.borrow_mut() = true;
        Ok(())
    }

    fn delete(&self, _blob_name: &str) -> Result<(), StorageError> {
        *self.delete_called.borrow_mut() = true;
        if *self.return_path_not_found_error.borrow() {
            return Err(StorageError::PathNotFound);
        }
        Ok(())
    }

    fn list_folder_blobs(&self, _prefix: &str) -> Result<Vec<String>, StorageError> {
        *self.list_folder_blobs_called.borrow_mut() = true;
        Ok(Vec::new())
    }
}

struct MockPathEventHandler {
    called: RefCell<bool>,
}

impl MockPathEventHandler {
    fn new() -> MockPathEventHandler {
        MockPathEventHandler { called: RefCell::new(false) }
    }
}

impl<S: Storage, F: FileSystem> PathEventHandler<S, F> for MockPathEventHandler {
    fn handle(&self, _path: &str, _ctx: &mut HandlerContext<S, F>) -> Result<(), SyncError> {
        *self.called.borrow_mut() = true;
        Ok(())
    }
}

struct MockFileSystem {
    get_file_contents_called: RefCell<bool>,
}

impl MockFileSystem {
    fn new() -> MockFileSystem {
        MockFileSystem { get_file_contents_called: RefCell::new(false) }
    }
}

impl FileSystem for MockFileSystem {
    fn is_dir(&self, p: &str) -> bool {
        std::path::Path::new(p).is_dir()
    }

    fn get_file_contents(&self, _p: &str) -> Result<Vec<u8>, LocalReadError> {
        *self.get_file_contents_called.borrow_mut() = true;
        Ok(Vec::new())
    }
}

#[test]
fn test_handler_added_to_list() {
    let mock_file_system = MockFileSystem::new();
    let mock_storage = MockStorage::new();
    let mock_event_handler = MockPathEventHandler::new();
    let mut e = EventHandler::new(mock_storage, mock_file_system, "");

    e.add("mock", mock_event_handler);

    assert!(e.get("mock").is_some());
}

#[test]
fn test_handler_is_called() {
    let mock_file_system = MockFileSystem::new();
    let mock_storage = MockStorage::new();
    let mock_event_handler = MockPathEventHandler::new();
    let mut e = EventHandler::new(mock_storage, mock_file_system, "");

    e.add("mock", mock_event_handler);
    let _ = e.call("mock", "");

    assert!(*e.get("mock").unwrap().called.borrow());
}

#[test]
fn test_create_event_calls_storage_upload() {
    let mock_file_system = MockFileSystem::new();
    let mock_storage = MockStorage::new();
    let mut e = EventHandler::new(mock_storage, mock_file_system, "");

    e.add("create", CreatedEvent {});
    let _ = e.call("create", "");

    assert!(*e.storage().upload_called.borrow());
}

#[test]
fn test_create_handler_is_not_called_for_directories() {
    let mock_file_system = MockFileSystem::new();
    let mock_storage = MockStorage::new();
    let mut e = EventHandler::new(mock_storage, mock_file_system, "");

    e.add("create", CreatedEvent {});
    let _ = e.call("create", "/");

    assert_eq!(*e.storage().upload_called.borrow(), false);
}

#[test]
fn test_remove_event_calls_storage_delete() {
    let mock_file_system = MockFileSystem::new();
    let mock_storage = MockStorage::new();
    let mut e = EventHandler::new(mock_storage, mock_file_system, "");

    e.add("remove", RemovedEvent {});
    let _ = e.call("remove", "");

    assert!(*e.storage().delete_called.borrow());
}

#[test]
fn test_remove_non_existing_file_calls_list_folder_blobs() {
    let mock_file_system = MockFileSystem::new();
    let mock_storage = MockStorage::new();
    mock_storage.set_return_path_not_found_error(true);
    let mut e = EventHandler::new(mock_storage, mock_file_system, "");

    e.add("remove", RemovedEvent {});
    let _ = e.call("remove", "");

    assert!(*e.storage().list_folder_blobs_called.borrow());
}

#[test]
fn update_event_reads_and_uploads_file() {
    let mut e = EventHandler::new(MockStorage::new(), MockFileSystem::new(), "");

    e.add("update", UpdatedEvent {});
    let r = e.call("update", "");

    assert!(r.is_ok());
    assert!(*e.storage().upload_called.borrow());
    assert!(*e.file_system().get_file_contents_called.borrow());
}

#[test]
fn later_registration_replaces_earlier_one() {
    let mut e = EventHandler::new(MockStorage::new(), MockFileSystem::new(), "");
    e.add("mock", MockPathEventHandler::new());
    e.add("mock", MockPathEventHandler::new());
    e.add("other", MockPathEventHandler::new());

    let _ = e.call("mock", "");

    assert!(*e.get("mock").unwrap().called.borrow());
    assert!(!*e.get("other").unwrap().called.borrow());
    assert!(e.get("missing").is_none());
}
