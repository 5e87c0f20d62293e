//! Sessions: conversations kept in files, one record on each line.
pub mod dir;
pub mod manager;
pub mod record;
pub mod store;
