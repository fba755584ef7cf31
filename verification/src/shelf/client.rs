//! The decisions a shelve client makes while it turns a branch's file
//! changes into a shelved changelist.

use vstd::prelude::*;
use crate::perforce::types::FileType;

verus! {

/// What a reshelve does with the changelist's description.
#[derive(Debug, Clone, Copy, PartialEq, Eq, Structural)]
pub enum ShelveDescriptionMode {
    /// Always take the description from the branch's tip commit.
    Update,
    /// Keep the description from the first shelve.
    KeepOriginal,
}

impl Default for ShelveDescriptionMode {
    fn default() -> (r: Self)
        ensures
            r == ShelveDescriptionMode::Update,
    {
        ShelveDescriptionMode::Update
    }
}

/// What happens to one file in a shelved changelist.
#[derive(Debug, Clone, Copy, PartialEq, Eq, Structural)]
pub enum FileAction {
    Add,
    Edit,
    Delete,
}

/// One file of a shelved changelist, by its path in the client.
pub struct FileChange<'a> {
    pub path: &'a str,
    pub action: FileAction,
}

/// The depot's file type with the two things git can say about a file put
/// onto it: a file that changed its base type takes git's type whole; one
/// that kept it keeps the depot's modifiers and takes git's executable bit.
pub open spec fn git_type_on_depot(depot: FileType, git: FileType) -> FileType {
    if depot.base != git.base {
        git
    } else {
        FileType { executable: git.executable, ..depot }
    }
}

/// The file type an edited file is shelved with: `depot_type` with the
/// attributes git represents (base type, executable bit) taken from
/// `git_type`.
pub fn apply_git_type_to_depot(depot_type: &FileType, git_type: &FileType) -> (r: FileType)
    ensures
        r == git_type_on_depot(*depot_type, *git_type),
{
    if depot_type.base != git_type.base {
        return *git_type;
    }
    let mut result = *depot_type;
    result.executable = git_type.executable;
    result
}

/// Putting git's attributes on a depot type gives git's base type and
/// executable bit; when the base type stays, every other modifier is the
/// depot's; and doing it twice changes nothing more.
pub proof fn lemma_git_type_on_depot(depot: FileType, git: FileType)
    ensures
        git_type_on_depot(depot, git).base == git.base,
        git_type_on_depot(depot, git).executable == git.executable,
        depot.base == git.base ==> {
            let r = git_type_on_depot(depot, git);
            &&& r.writable == depot.writable
            &&& r.keyword_expansion == depot.keyword_expansion
            &&& r.exclusive_lock == depot.exclusive_lock
            &&& r.full_revisions == depot.full_revisions
            &&& r.compressed == depot.compressed
            &&& r.rcs_deltas == depot.rcs_deltas
        },
        git_type_on_depot(git_type_on_depot(depot, git), git) == git_type_on_depot(depot, git),
        git_type_on_depot(depot, depot) == depot,
{
}

/// Whether an edited file must be reopened with another type: only when
/// git's attributes change the depot's type.
pub fn needs_reopen(depot_type: &FileType, git_type: &FileType) -> (r: bool)
    ensures
        r == (git_type_on_depot(*depot_type, *git_type) != *depot_type),
{
    let effective = apply_git_type_to_depot(depot_type, git_type);
    effective != *depot_type
}

/// How the changelist for a shelve is had.
#[derive(Debug, Clone, Copy, PartialEq, Eq, Structural)]
pub enum ChangelistPlan {
    /// Reuse the changelist of an earlier shelve of the branch, and rewrite
    /// its description when `update_description` is set.
    Reuse { changelist: usize, update_description: bool },
    /// Create a new, empty changelist.
    Create,
}

/// The changelist a shelve goes to: the branch's earlier one, if any, whose
/// description is rewritten only in `Update` mode; else a new one.
pub fn changelist_plan(original_change: Option<usize>, mode: ShelveDescriptionMode) -> (r:
    ChangelistPlan)
    ensures
        r == match original_change {
            Some(cl) => ChangelistPlan::Reuse {
                changelist: cl,
                update_description: mode == ShelveDescriptionMode::Update,
            },
            None => ChangelistPlan::Create,
        },
{
    match original_change {
        Some(cl) => ChangelistPlan::Reuse {
            changelist: cl,
            update_description: mode == ShelveDescriptionMode::Update,
        },
        None => ChangelistPlan::Create,
    }
}

} // verus!
