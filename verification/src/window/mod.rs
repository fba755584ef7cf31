//! The server around the bridge: the git smart-HTTP protocol, the shelve
//! status of pushed branches, its configuration and its events.

pub mod auth;
pub mod cgi;
pub mod config;
pub mod cycle;
pub mod events;
pub mod git;
pub mod push;
pub mod queries;
pub mod shelves;
