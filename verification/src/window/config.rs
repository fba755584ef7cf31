//! The server's configuration: where it listens and keeps its data, and
//! the repositories it serves.

use vstd::prelude::*;
use crate::shelf::client::ShelveDescriptionMode;
use crate::util::paths::{join, join_spec};


verus! {

/// The server's configuration.
pub struct ServerConfig {
    pub listen: String,
    pub data_dir: String,
    pub repos: Vec<RepoConfig>,
    pub observability: ObservabilityConfig,
}

impl ServerConfig {
    /// The database, `<data_dir>/prgit.db`.
    pub fn db_path(&self) -> (r: String)
        ensures
            r@ == join_spec(self.data_dir@, "prgit.db"@),
    {
        join(self.data_dir.as_str(), "prgit.db")
    }

    /// The root of the shelve workspaces, `<data_dir>/shelve_clients`.
    pub fn shelve_clients_root(&self) -> (r: String)
        ensures
            r@ == join_spec(self.data_dir@, "shelve_clients"@),
    {
        join(self.data_dir.as_str(), "shelve_clients")
    }
}

/// How many events wait for the collector, and how long they are kept.
pub struct ObservabilityConfig {
    pub channel_capacity: usize,
    pub retention_days: u32,
}

impl ObservabilityConfig {
    /// The channel capacity when the configuration names none: 4096.
    pub fn default_channel_capacity() -> (r: usize)
        ensures
            r == 4096,
    {
        4096
    }

    /// The retention when the configuration names none: 30 days.
    pub fn default_retention_days() -> (r: u32)
        ensures
            r == 30,
    {
        30
    }
}

impl Default for ObservabilityConfig {
    fn default() -> (r: Self)
        ensures
            r.channel_capacity == 4096,
            r.retention_days == 30,
    {
        ObservabilityConfig {
            channel_capacity: Self::default_channel_capacity(),
            retention_days: Self::default_retention_days(),
        }
    }
}

/// How pushed branches of a repository are shelved.
pub struct ShelveSettings {
    /// Shelve in the background and answer the push at once.
    pub is_async: bool,
    pub description: ShelveDescriptionMode,
}

impl Default for ShelveSettings {
    fn default() -> (r: Self)
        ensures
            !r.is_async,
            r.description == ShelveDescriptionMode::Update,
    {
        ShelveSettings { is_async: false, description: ShelveDescriptionMode::Update }
    }
}

/// One repository the server serves, mirrored from a Perforce client.
pub struct RepoConfig {
    pub group: String,
    pub name: String,
    pub p4port: String,
    pub p4client: String,
    pub synced_branch: String,
    pub mirror_interval_secs: u64,
    pub max_changes: usize,
    pub shelve: Option<ShelveSettings>,
}

/// `group/name`.
pub open spec fn url_path_spec(group: Seq<char>, name: Seq<char>) -> Seq<char> {
    group + seq!['/'] + name
}

/// `<data_dir>/repos/<group>/<name>.git`.
pub open spec fn bare_repo_path_spec(data_dir: Seq<char>, group: Seq<char>, name: Seq<char>) -> Seq<
    char,
> {
    join_spec(
        join_spec(join_spec(data_dir, seq!['r', 'e', 'p', 'o', 's']), group),
        name + seq!['.', 'g', 'i', 't'],
    )
}

impl RepoConfig {
    /// Whether pushed branches are shelved in the background: only when
    /// the repository's shelve settings say so.
    pub fn shelve_async(&self) -> (r: bool)
        ensures
            r == match self.shelve {
                Some(s) => s.is_async,
                None => false,
            },
    {
        match &self.shelve {
            Some(s) => s.is_async,
            None => false,
        }
    }

    /// The description mode of reshelves; `Update` unless the shelve
    /// settings name another.
    pub fn shelve_description_mode(&self) -> (r: ShelveDescriptionMode)
        ensures
            r == match self.shelve {
                Some(s) => s.description,
                None => ShelveDescriptionMode::Update,
            },
    {
        match &self.shelve {
            Some(s) => s.description,
            None => ShelveDescriptionMode::Update,
        }
    }

    /// The repository's path in URLs: `group/name`.
    pub fn url_path(&self) -> (r: String)
        ensures
            r@ == url_path_spec(self.group@, self.name@),
    {
        let mut r = self.group.clone();
        r.append("/");
        r.append(self.name.as_str());
        proof {
            reveal_strlit("/");
            assert(r@ =~= url_path_spec(self.group@, self.name@));
        }
        r
    }

    /// Where the repository's bare git repository lives under `data_dir`.
    pub fn bare_repo_path(&self, data_dir: &str) -> (r: String)
        ensures
            r@ == bare_repo_path_spec(data_dir@, self.group@, self.name@),
    {
        let repos = join(data_dir, "repos");
        let group_dir = join(repos.as_str(), self.group.as_str());
        let mut file = self.name.clone();
        file.append(".git");
        proof {
            reveal_strlit("repos");
            reveal_strlit(".git");
            assert("repos"@ =~= seq!['r', 'e', 'p', 'o', 's']);
            assert(file@ =~= self.name@ + seq!['.', 'g', 'i', 't']);
        }
        join(group_dir.as_str(), file.as_str())
    }
}

} // verus!
