//! Setting up a mirror repository by hand: where its database, shelve
//! workspaces and hook go, and what a polling run reports.

use vstd::prelude::*;
use crate::text::{append_decimal, decimal};
use crate::util::paths::{join, join_spec};

verus! {

/// The database of a mirror repository, `<repo>/mirror.db`.
pub fn mirror_db_path(repo_path: &str) -> (r: String)
    ensures
        r@ == join_spec(repo_path@, "mirror.db"@),
{
    join(repo_path, "mirror.db")
}

/// The root of the shelve workspaces: the one configured, or
/// `<repo>/shelve_clients`.
pub fn shelve_root(repo_path: &str, configured: Option<&str>) -> (r: String)
    ensures
        match configured {
            Some(c) => r@ == c@,
            None => r@ == join_spec(repo_path@, "shelve_clients"@),
        },
{
    match configured {
        Some(c) => c.to_owned(),
        None => join(repo_path, "shelve_clients"),
    }
}

/// Where the `post-receive` hook of a bare repository goes.
pub fn hook_path(repo_path: &str) -> (r: String)
    ensures
        r@ == join_spec(join_spec(repo_path@, "hooks"@), "post-receive"@),
{
    let hooks = join(repo_path, "hooks");
    join(hooks.as_str(), "post-receive")
}

/// What a polling run reports: the range of changes it synced, or that
/// there were none.
pub fn poll_report(before: usize, after: usize) -> (r: String)
    ensures
        after > before ==> r@ == "[serve] Synced changes "@ + decimal((before + 1) as nat) + "-"@
            + decimal(after as nat),
        after <= before ==> r@ == "[serve] No new changes."@,
{
    if after > before {
        let mut r = "[serve] Synced changes ".to_owned();
        append_decimal(&mut r, before + 1);
        r.append("-");
        append_decimal(&mut r, after);
        r
    } else {
        "[serve] No new changes.".to_owned()
    }
}

/// Whether an initial mirror found nothing to mirror, which is worth a
/// warning.
pub fn nothing_mirrored(last_change: usize) -> (r: bool)
    ensures
        r == (last_change == 0),
{
    last_change == 0
}

} // verus!
