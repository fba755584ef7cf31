//! Mirroring submitted Perforce changes into git commits.

pub mod changes;
pub mod data;
pub mod notes;
pub mod plan;
