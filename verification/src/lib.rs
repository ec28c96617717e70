//! A small HTTP facade over a remote key-value store: the decisions behind its
//! three endpoints and behind its start-up, stated and proved.
//!
//! The remote store and the HTTP server are reached by the program around this
//! library. The library says what to answer for each result of a read or a
//! write, what a store is expected to return, which endpoints there are, and
//! when to retry the connection.

pub mod store;
pub mod memory;
pub mod proxy;
pub mod connector;
pub mod endpoint;
