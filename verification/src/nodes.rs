//! The rules of a directory node: which users and peers it knows.

pub mod consensus;
pub mod server;
