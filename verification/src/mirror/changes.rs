//! Which submitted changes a mirror run asks for, and what it reports of
//! each change it mirrored.

use vstd::prelude::*;
use crate::perforce::p4::{ChangesCommand, P4};
use crate::text::{append_decimal, decimal};

verus! {

/// What a mirror run reports of one mirrored change.
#[derive(Debug)]
pub struct MirrorChangeInfo {
    pub p4_change: usize,
    pub commit_hash: String,
    pub user: String,
    pub file_count: usize,
    pub duration_ms: u64,
    pub merge_parent: Option<String>,
    pub merge_strategy: Option<String>,
    pub skipped_files: Vec<String>,
}

/// The mathematical form of a [`MirrorChangeInfo`].
pub struct ChangeInfoView {
    pub p4_change: usize,
    pub commit_hash: Seq<char>,
    pub user: Seq<char>,
    pub file_count: usize,
    pub duration_ms: u64,
    pub merge_parent: Option<Seq<char>>,
    pub merge_strategy: Option<Seq<char>>,
    pub skipped_files: Seq<Seq<char>>,
}

/// The view of an optional string.
pub open spec fn opt_string_view(s: Option<String>) -> Option<Seq<char>> {
    match s {
        Some(t) => Some(t@),
        None => None,
    }
}

impl View for MirrorChangeInfo {
    type V = ChangeInfoView;

    open spec fn view(&self) -> ChangeInfoView {
        ChangeInfoView {
            p4_change: self.p4_change,
            commit_hash: self.commit_hash@,
            user: self.user@,
            file_count: self.file_count,
            duration_ms: self.duration_ms,
            merge_parent: opt_string_view(self.merge_parent),
            merge_strategy: opt_string_view(self.merge_strategy),
            skipped_files: self.skipped_files@.map_values(|f: String| f@),
        }
    }
}

/// `//<client>/...`, every file of a client.
pub fn client_files(client: &str) -> (r: String)
    ensures
        r@ == "//"@ + client@ + "/..."@,
{
    let mut r = "//".to_owned();
    r.append(client);
    r.append("/...");
    r
}

/// `//<client>/...@=<change>`, the files of a client as `change` left them.
pub fn change_files(client: &str, change: usize) -> (r: String)
    ensures
        r@ == "//"@ + client@ + "/...@="@ + decimal(change as nat),
{
    let mut r = "//".to_owned();
    r.append(client);
    r.append("/...@=");
    append_decimal(&mut r, change);
    r
}

/// The change whose branch a change merges: the change it was renumbered
/// from, when it was, else the change itself.
pub fn related_change(change: usize, old_change: Option<usize>) -> (r: usize)
    ensures
        r == match old_change {
            Some(o) => o,
            None => change,
        },
{
    match old_change {
        Some(o) => o,
        None => change,
    }
}

/// The query for the next batch of changes to mirror: the client's
/// changes after `last_sync`, oldest first, with full descriptions, at
/// most `max_changes` of them when that is set.
pub fn next_changes_command<'p>(
    p4: &'p P4,
    client_path: &'p str,
    last_sync: usize,
    max_changes: Option<usize>,
) -> (r: ChangesCommand<'p>)
    requires
        last_sync < usize::MAX,
    ensures
        r.p4 == p4,
        r.files@.len() == 1,
        r.files@[0]@ == client_path@,
        r.long,
        r.reverse,
        !r.include_integrated,
        r.since_changelist == Some((last_sync + 1) as usize),
        r.max_changes == max_changes,
        r.status is None,
        r.user is None,
{
    let files: [&str; 1] = [client_path];
    let base = p4.changes(&files);
    assert(files@.len() == 1);
    assert(files@.map_values(|f: &str| f@)[0] == client_path@);
    assert(base.files@.map_values(|f: String| f@).len() == 1);
    assert(base.files@.map_values(|f: String| f@)[0] == base.files@[0]@);
    let cmd = base.long().since_changelist(last_sync + 1).reverse();
    match max_changes {
        Some(m) => cmd.max_changes(m),
        None => cmd,
    }
}

/// The report of a mirrored change. A change that merges a branch names
/// the branch and the `merge_ours` strategy; any other names neither.
pub fn change_info(
    p4_change: usize,
    commit_hash: String,
    user: String,
    file_count: usize,
    duration_ms: u64,
    related_branch: Option<String>,
    skipped_files: Vec<String>,
) -> (r: MirrorChangeInfo)
    ensures
        r.p4_change == p4_change,
        r.commit_hash == commit_hash,
        r.user == user,
        r.file_count == file_count,
        r.duration_ms == duration_ms,
        r.merge_parent == related_branch,
        match related_branch {
            Some(_) => r.merge_strategy matches Some(s) && s@ == "merge_ours"@,
            None => r.merge_strategy is None,
        },
        r.skipped_files == skipped_files,
{
    let merge_strategy = match &related_branch {
        Some(_) => Some("merge_ours".to_owned()),
        None => None,
    };
    MirrorChangeInfo {
        p4_change,
        commit_hash,
        user,
        file_count,
        duration_ms,
        merge_parent: related_branch,
        merge_strategy,
        skipped_files,
    }
}

/// How many changes a run mirrored: the advance of the last synced change,
/// never below zero.
pub fn changes_synced(before: usize, after: usize) -> (r: usize)
    ensures
        r == if after >= before {
            (after - before) as usize
        } else {
            0
        },
{
    after.saturating_sub(before)
}

} // verus!
