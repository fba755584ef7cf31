//! The model of the `p4` command line: file types, change states, command
//! arguments and the classification of failed runs.

pub mod types;
pub mod p4;
