//! Shelving a pushed git branch as a Perforce changelist: which files go
//! in, with which file types, on which changelist.

pub mod client;
pub mod pool;
pub mod shelver;
