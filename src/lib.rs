//! Mirrors a local folder into a remote blob container: each change that
//! the watcher reports is routed by name to a handler, which derives the
//! object's key from the path and uploads, deletes, or sweeps a folder.
pub mod bucket;
pub mod codec;
pub mod context;
pub mod event_handlers;
pub mod file_system;
pub mod storage;
