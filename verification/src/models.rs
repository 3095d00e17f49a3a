//! The records that the service reads and writes.
pub mod book;
pub mod users;
