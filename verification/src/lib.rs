//! Verified core of a bidirectional Perforce/Git bridge: the decisions,
//! encodings and bookkeeping that sit between git's wire protocol and the
//! `p4` command line.

pub mod cabinet;
pub mod hook;
pub mod mirror;
pub mod perforce;
pub mod setup;
pub mod shelf;
pub mod sync_engine;
pub mod text;
pub mod util;
pub mod window;
