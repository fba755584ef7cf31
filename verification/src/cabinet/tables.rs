//! The rows the bridge stores, and the tables that hold them.

use vstd::prelude::*;
use crate::mirror::data::IntegrateStrategy;

verus! {

/// A row type with the table that holds it.
pub trait Table {
    /// The statement that creates the table.
    fn schema() -> &'static str;
}

/// A Perforce client the bridge mirrors.
pub struct PrgitClientInfo {
    pub id: u64,
    pub client_name: String,
    pub p4_path: String,
    pub p4port: String,
    pub p4user: String,
}

/// The statement that creates the `prgit_clients` table.
pub const PRGIT_CLIENTS_SCHEMA: &'static str = "
        CREATE TABLE IF NOT EXISTS prgit_clients (
            id INTEGER PRIMARY KEY AUTOINCREMENT,
            client_name TEXT NOT NULL UNIQUE,
            p4_path TEXT NOT NULL,
            p4port TEXT NOT NULL,
            p4user TEXT NOT NULL
        );
    ";

impl Table for PrgitClientInfo {
    fn schema() -> (r: &'static str)
        ensures
            r@ == PRGIT_CLIENTS_SCHEMA@,
    {
        PRGIT_CLIENTS_SCHEMA
    }
}

/// The git repository a client is mirrored into, and how far.
pub struct PrgitRepo {
    pub id: u64,
    pub prgit_client_id: u64,
    pub repo_path: String,
    pub synced_branch: String,
    pub last_sync_change: usize,
    pub integrate_strategy: IntegrateStrategy,
    pub max_changes_query: Option<usize>,
}

/// The statement that creates the `prgit_repos` table.
pub const PRGIT_REPOS_SCHEMA: &'static str = "
        CREATE TABLE IF NOT EXISTS prgit_repos (
            id INTEGER PRIMARY KEY AUTOINCREMENT,
            prgit_client_id INTEGER NOT NULL REFERENCES prgit_clients(id),
            repo_path TEXT NOT NULL,
            synced_branch TEXT NOT NULL DEFAULT 'master',
            last_sync_change INTEGER NOT NULL DEFAULT 0,
            integrate_strategy INTEGER NOT NULL,
            max_changes_query INTEGER
        );
    ";

impl Table for PrgitRepo {
    fn schema() -> (r: &'static str)
        ensures
            r@ == PRGIT_REPOS_SCHEMA@,
    {
        PRGIT_REPOS_SCHEMA
    }
}

/// Where a client's shelve workspaces live.
pub struct ShelveConfig {
    pub prgit_client_id: u64,
    pub clients_root: String,
}

/// The statement that creates the `shelve_config` table.
pub const SHELVE_CONFIG_SCHEMA: &'static str = "
        CREATE TABLE IF NOT EXISTS shelve_config (
            prgit_client_id INTEGER PRIMARY KEY REFERENCES prgit_clients(id),
            clients_root TEXT NOT NULL
        );
    ";

impl Table for ShelveConfig {
    fn schema() -> (r: &'static str)
        ensures
            r@ == SHELVE_CONFIG_SCHEMA@,
    {
        SHELVE_CONFIG_SCHEMA
    }
}

/// A Perforce user's e-mail address.
pub struct UserMapping {
    pub user: String,
    pub email: String,
}

/// The statement that creates the `user_mapping` table.
pub const USER_MAPPING_SCHEMA: &'static str = "
        CREATE TABLE IF NOT EXISTS user_mapping (
            user TEXT PRIMARY KEY,
            email TEXT NOT NULL
        );
    ";

impl Table for UserMapping {
    fn schema() -> (r: &'static str)
        ensures
            r@ == USER_MAPPING_SCHEMA@,
    {
        USER_MAPPING_SCHEMA
    }
}

/// When a stored Perforce ticket expires (seconds since the Unix epoch).
pub struct TicketMetadata {
    pub p4port: String,
    pub p4user: String,
    pub expires_at: i64,
    pub stored_at: i64,
}

/// The statement that creates the `ticket_metadata` table.
pub const TICKET_METADATA_SCHEMA: &'static str = "
        CREATE TABLE IF NOT EXISTS ticket_metadata (
            p4port TEXT NOT NULL,
            p4user TEXT NOT NULL,
            expires_at INTEGER NOT NULL,
            stored_at INTEGER NOT NULL,
            PRIMARY KEY (p4port, p4user)
        );
    ";

impl Table for TicketMetadata {
    fn schema() -> (r: &'static str)
        ensures
            r@ == TICKET_METADATA_SCHEMA@,
    {
        TICKET_METADATA_SCHEMA
    }
}

} // verus!
