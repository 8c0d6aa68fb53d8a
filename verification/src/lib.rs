//! The decision logic of a small file-upload service.
//!
//! The service stores each uploaded file under a freshly drawn token and
//! serves or deletes it by that token. Everything here is free of I/O: the
//! caller performs the file and network operations that the functions ask
//! for and reports back what happened.

pub mod directory;
pub mod error;
pub mod handlers;
pub mod response;
pub mod store;
pub mod token;
pub mod upload;
