//! Plain data that the session layer's callers exchange.

pub mod group;
pub mod message;
pub mod user;
