//! Small data structures the rest of the library builds on.

pub mod paths;
pub mod strmap;
