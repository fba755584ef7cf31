//! What the bridge remembers between runs: its clients, repositories,
//! shelve settings, user e-mails and Perforce tickets.

pub mod config;
pub mod tables;
pub mod tickets;
