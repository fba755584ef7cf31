//! The states a git repository and its Perforce client can be in with
//! respect to each other.

use vstd::prelude::*;

verus! {

/// Why a sync step failed.
#[derive(Debug)]
pub enum SyncError {
    IoError(String),
    InvalidState(String),
}

impl SyncError {
    /// What the error says.
    pub fn message(&self) -> (r: String)
        ensures
            match self {
                SyncError::IoError(m) => r@ == "IO error: "@ + m@,
                SyncError::InvalidState(m) => r@ == "Invalid state: "@ + m@,
            },
    {
        match self {
            SyncError::IoError(m) => {
                let mut r = "IO error: ".to_owned();
                r.append(m.as_str());
                r
            },
            SyncError::InvalidState(m) => {
                let mut r = "Invalid state: ".to_owned();
                r.append(m.as_str());
                r
            },
        }
    }
}

/// Every submitted change has its commit.
#[derive(Debug)]
pub struct Sync;

/// Some submitted change may lack its commit.
#[derive(Debug)]
pub struct Dirty;

} // verus!
