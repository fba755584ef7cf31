//! A mirrored client's Perforce and git settings.

use vstd::prelude::*;
use crate::perforce::p4::{P4, P4View};

verus! {

/// How to reach a client on the Perforce server.
pub struct P4Config {
    pub client_name: String,
    pub p4_path: String,
    pub p4port: String,
    pub p4user: String,
}

/// Where a client is mirrored to in git.
pub struct GitConfig {
    pub repo_path: String,
    pub synced_branch: String,
}

impl P4Config {
    /// A connection with all four settings.
    pub fn p4(&self) -> (r: P4)
        ensures
            r@ == (P4View {
                p4_path: self.p4_path@,
                port: Some(self.p4port@),
                user: Some(self.p4user@),
                password: None,
                client: Some(self.client_name@),
                retries: None,
            }),
    {
        P4::new()
            .p4_path(self.p4_path.as_str())
            .port(self.p4port.as_str())
            .p4_user(self.p4user.as_str())
            .client_name(self.client_name.as_str())
    }

    /// A connection with these settings that leaves the user to `p4`'s own
    /// defaults (`P4USER`, the login name) when none is configured.
    pub fn p4_default_user(&self) -> (r: P4)
        ensures
            r@ == (P4View {
                p4_path: self.p4_path@,
                port: Some(self.p4port@),
                user: if self.p4user@.len() == 0 {
                    None
                } else {
                    Some(self.p4user@)
                },
                password: None,
                client: Some(self.client_name@),
                retries: None,
            }),
    {
        let p4 = P4::new()
            .p4_path(self.p4_path.as_str())
            .port(self.p4port.as_str())
            .client_name(self.client_name.as_str());
        let empty = String::new();
        if self.p4user == empty {
            assert(self.p4user@ =~= Seq::<char>::empty());
            p4
        } else {
            assert(self.p4user@.len() != 0) by {
                if self.p4user@.len() == 0 {
                    assert(self.p4user@ =~= empty@);
                }
            }
            p4.p4_user(self.p4user.as_str())
        }
    }
}

} // verus!
