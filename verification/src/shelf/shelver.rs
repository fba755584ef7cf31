//! Turning a branch's diff against the synced branch into the file changes
//! of a shelve: which files, with which action, and which new files a
//! `.prgitignore` keeps out.

use vstd::prelude::*;
use ignore::gitignore::{Gitignore, GitignoreBuilder};
use crate::shelf::client::{FileAction, FileChange};
use crate::text::{
    append_decimal, chars_of, decimal, is_ws, line_bounds, lines_from, seq_ends_with, seq_starts_with,
    string_of, utf8_decode,
};
use vstd::utf8::{decode_utf8, valid_utf8};

verus! {

/// What a shelve did.
#[derive(Debug)]
pub struct ShelveResult {
    pub changelist: usize,
    pub client_name: String,
    pub is_reshelve: bool,
    pub file_count: usize,
    pub commits_in_branch: usize,
}

/// Why a branch could not be shelved.
#[derive(Debug)]
pub enum ShelverError {
    NoShelveConfig,
    NoBaseCommit,
    NoChanges,
    InvalidPrgitignore(String),
    Git(String),
    P4(String),
    Io(String),
    ShelveClient(String),
}

impl ShelverError {
    /// What the error says.
    pub fn message(&self) -> (r: String)
        ensures
            match self {
                ShelverError::NoShelveConfig => r@ == "No shelve config found"@,
                ShelverError::NoBaseCommit => r@ == "No base commit found that maps to a P4 change"@,
                ShelverError::NoChanges => r@ == "No changes to shelve"@,
                ShelverError::InvalidPrgitignore(m) => r@ == "Invalid .prgitignore: "@ + m@,
                ShelverError::Git(m) => r@ == "Git error: "@ + m@,
                ShelverError::P4(m) => r@ == "P4 error: "@ + m@,
                ShelverError::Io(m) => r@ == "IO error: "@ + m@,
                ShelverError::ShelveClient(m) => r@ == "Shelve client error: "@ + m@,
            },
    {
        match self {
            ShelverError::NoShelveConfig => "No shelve config found".to_owned(),
            ShelverError::NoBaseCommit => "No base commit found that maps to a P4 change".to_owned(),
            ShelverError::NoChanges => "No changes to shelve".to_owned(),
            ShelverError::InvalidPrgitignore(m) => {
                let mut r = "Invalid .prgitignore: ".to_owned();
                r.append(m.as_str());
                r
            },
            ShelverError::Git(m) => {
                let mut r = "Git error: ".to_owned();
                r.append(m.as_str());
                r
            },
            ShelverError::P4(m) => {
                let mut r = "P4 error: ".to_owned();
                r.append(m.as_str());
                r
            },
            ShelverError::Io(m) => {
                let mut r = "IO error: ".to_owned();
                r.append(m.as_str());
                r
            },
            ShelverError::ShelveClient(m) => {
                let mut r = "Shelve client error: ".to_owned();
                r.append(m.as_str());
                r
            },
        }
    }
}

/// How a file differs between two git trees.
#[derive(Debug, Clone, Copy, PartialEq, Eq, Structural)]
pub enum DeltaStatus {
    Unmodified,
    Added,
    Deleted,
    Modified,
    Renamed,
    Copied,
    Ignored,
    Untracked,
    Typechange,
    Unreadable,
    Conflicted,
}

/// The shelve action for a file that differs so: added files are added,
/// deleted ones deleted, modified, renamed, copied and retyped ones
/// edited; no other difference is shelved.
pub open spec fn action_for_delta_spec(d: DeltaStatus) -> Option<FileAction> {
    match d {
        DeltaStatus::Added => Some(FileAction::Add),
        DeltaStatus::Deleted => Some(FileAction::Delete),
        DeltaStatus::Modified | DeltaStatus::Renamed | DeltaStatus::Copied
        | DeltaStatus::Typechange => Some(FileAction::Edit),
        _ => None,
    }
}

/// Which differences a shelve carries, and how: a file that stays in the
/// tree with other content, name or type (modified, renamed, copied,
/// retyped) is opened for edit; an added file is added; a deleted file is
/// deleted; a difference that brings no change of the branch (unmodified,
/// ignored, untracked, unreadable, conflicted) is left out.
pub proof fn lemma_delta_actions(d: DeltaStatus)
    ensures
        action_for_delta_spec(d) == Some(FileAction::Edit) <==> (d == DeltaStatus::Modified || d
            == DeltaStatus::Renamed || d == DeltaStatus::Copied || d == DeltaStatus::Typechange),
        action_for_delta_spec(d) == Some(FileAction::Add) <==> d == DeltaStatus::Added,
        action_for_delta_spec(d) == Some(FileAction::Delete) <==> d == DeltaStatus::Deleted,
        action_for_delta_spec(d) is None <==> (d == DeltaStatus::Unmodified || d
            == DeltaStatus::Ignored || d == DeltaStatus::Untracked || d == DeltaStatus::Unreadable
            || d == DeltaStatus::Conflicted),
{
}

/// The shelve action for a file that differs so.
pub fn action_for_delta(d: DeltaStatus) -> (r: Option<FileAction>)
    ensures
        r == action_for_delta_spec(d),
{
    match d {
        DeltaStatus::Added => Some(FileAction::Add),
        DeltaStatus::Deleted => Some(FileAction::Delete),
        DeltaStatus::Modified | DeltaStatus::Renamed | DeltaStatus::Copied
        | DeltaStatus::Typechange => Some(FileAction::Edit),
        _ => None,
    }
}

/// One file a shelve changes.
#[derive(Debug)]
pub struct ChangedFile {
    pub path: String,
    pub action: FileAction,
}

/// The file a diff entry shelves: its action, at its new path, or its old
/// one when it has no new one; none when the difference is not shelved or
/// the entry names no path.
pub fn changed_file(status: DeltaStatus, new_path: Option<String>, old_path: Option<String>) -> (r:
    Option<ChangedFile>)
    ensures
        match (action_for_delta_spec(status), new_path, old_path) {
            (None, _, _) => r is None,
            (Some(a), Some(p), _) => r matches Some(c) && c.action == a && c.path == p,
            (Some(a), None, Some(p)) => r matches Some(c) && c.action == a && c.path == p,
            (Some(_), None, None) => r is None,
        },
{
    let action = match action_for_delta(status) {
        Some(a) => a,
        None => return None,
    };
    let path = match new_path {
        Some(p) => p,
        None => match old_path {
            Some(p) => p,
            None => return None,
        },
    };
    Some(ChangedFile { path, action })
}

/// The shelve client's view of the changed files, in order.
pub fn file_changes(changes: &[ChangedFile]) -> (r: Vec<FileChange<'_>>)
    ensures
        r@.len() == changes@.len(),
        forall|i: int|
            0 <= i < changes@.len() ==> (#[trigger] r@[i]).path@ == changes@[i].path@ && r@[i].action
                == changes@[i].action,
{
    let mut r: Vec<FileChange> = Vec::new();
    let mut k: usize = 0;
    while k < changes.len()
        invariant
            k <= changes@.len(),
            r@.len() == k,
            forall|i: int|
                0 <= i < k ==> (#[trigger] r@[i]).path@ == changes@[i].path@ && r@[i].action
                    == changes@[i].action,
        decreases changes.len() - k,
    {
        r.push(FileChange { path: changes[k].path.as_str(), action: changes[k].action });
        k = k + 1;
    }
    r
}

/// Whether a changed file's content is written out for the shelve: all
/// but deleted ones.
pub fn needs_content(action: FileAction) -> (r: bool)
    ensures
        r == (action != FileAction::Delete),
{
    action != FileAction::Delete
}

/// The git file mode of an executable blob, `0o100755`.
pub open spec fn blob_executable_mode() -> i32 {
    0o100755
}

/// Whether a git tree entry's mode marks an executable file.
pub fn is_executable_mode(mode: i32) -> (r: bool)
    ensures
        r == (mode == blob_executable_mode()),
{
    mode == 0o100755
}

/// The description a shelved changelist gets: the tip commit's message,
/// or `Shelved from git` when it has none.
pub fn shelve_description(message: Option<&str>) -> (r: String)
    ensures
        match message {
            Some(m) => r@ == m@,
            None => r@ == "Shelved from git"@,
        },
{
    match message {
        Some(m) => m.to_owned(),
        None => "Shelved from git".to_owned(),
    }
}

/// What a shelve of `file_count` files of `commits_in_branch` commits, on
/// `changelist` of the shelve client `client_name`, reports: a reshelve when
/// the branch had a shelved changelist before.
pub fn shelve_result(
    changelist: usize,
    client_name: String,
    existing_shelve: Option<usize>,
    file_count: usize,
    commits_in_branch: usize,
) -> (r: ShelveResult)
    ensures
        r.changelist == changelist,
        r.client_name == client_name,
        r.is_reshelve == existing_shelve is Some,
        r.file_count == file_count,
        r.commits_in_branch == commits_in_branch,
{
    ShelveResult {
        changelist,
        client_name,
        is_reshelve: existing_shelve.is_some(),
        file_count,
        commits_in_branch,
    }
}

// ---------------------------------------------------------- .prgitignore

#[verifier::external_type_specification]
#[verifier::external_body]
pub struct ExGitignore(Gitignore);

#[verifier::external_type_specification]
#[verifier::external_body]
pub struct ExGitignoreBuilder(GitignoreBuilder);

#[verifier::external_type_specification]
#[verifier::external_body]
pub struct ExIgnoreError(ignore::Error);

/// The globs a gitignore builder holds, in the order they were added: for
/// each, the text of its line as the glob keeps it (`Glob::original`).
pub uninterp spec fn builder_globs(b: GitignoreBuilder) -> Seq<Seq<char>>;

/// What a gitignore builder was made with: its root, whether it matches
/// case-insensitively, and whether it allows unclosed character classes.
pub uninterp spec fn builder_options(b: GitignoreBuilder) -> (Seq<char>, bool, bool);

/// The globs a gitignore matcher holds, in order (`Glob::original`).
pub uninterp spec fn matcher_globs(g: Gitignore) -> Seq<Seq<char>>;

/// What a gitignore matcher that holds globs was built with, as
/// `builder_options` reads them.
pub uninterp spec fn matcher_options(g: Gitignore) -> (Seq<char>, bool, bool);

/// Whether `GitignoreBuilder::add_line` accepts `line` on a builder made
/// with `options`.
pub uninterp spec fn gitignore_line_ok(options: (Seq<char>, bool, bool), line: Seq<char>) -> bool;

/// Whether `GitignoreBuilder::build` succeeds on a builder made with
/// `options` that holds `globs`.
pub uninterp spec fn gitignore_builds(options: (Seq<char>, bool, bool), globs: Seq<Seq<char>>) -> bool;

/// Whether a matcher built with `options` from `globs` ignores the file at
/// `path` or a directory above it
/// (`Gitignore::matched_path_or_any_parents(path, false).is_ignore()`).
pub uninterp spec fn gitignore_ignores(
    options: (Seq<char>, bool, bool),
    globs: Seq<Seq<char>>,
    path: Seq<char>,
) -> bool;

/// The options of `GitignoreBuilder::new("")`: root `""`, case-sensitive,
/// unclosed classes allowed.
pub open spec fn fresh_options() -> (Seq<char>, bool, bool) {
    (Seq::empty(), false, true)
}

/// `s` without its trailing whitespace (`str::trim_end`).
pub open spec fn trim_end_spec(s: Seq<char>) -> Seq<char>
    decreases s.len(),
{
    if s.len() > 0 && is_ws(s.last()) {
        trim_end_spec(s.drop_last())
    } else {
        s
    }
}

/// The glob a gitignore line adds, as at most one text: none for a
/// comment (`#...`), nor for a line that is empty once its trailing
/// whitespace is dropped; that whitespace stays when the line ends in an
/// escaped space (`\ `).
pub open spec fn line_glob(line: Seq<char>) -> Seq<Seq<char>> {
    if line.len() > 0 && line[0] == '#' {
        Seq::empty()
    } else {
        let t = if seq_ends_with(line, "\\ "@) {
            line
        } else {
            trim_end_spec(line)
        };
        if t.len() == 0 {
            Seq::empty()
        } else {
            seq![t]
        }
    }
}

/// Whether the matcher would take `path` outside its root `""`: after a
/// leading `./` and one leading `/` it would still start with `/`.
pub open spec fn escapes_root(path: Seq<char>) -> bool {
    let q = if seq_starts_with(path, "./"@) {
        path.subrange(2, path.len() as int)
    } else {
        path
    };
    q.len() >= 2 && q[0] == '/' && q[1] == '/'
}

/// Whether `g` can be asked about `path`: an empty matcher answers
/// anything; one with globs, rooted at `""`, any path it keeps under
/// its root.
pub open spec fn matcher_accepts(g: Gitignore, path: Seq<char>) -> bool {
    matcher_globs(g).len() == 0 || (matcher_options(g).0 == Seq::<char>::empty() && !escapes_root(
        path,
    ))
}

/// A gitignore builder whose patterns are relative to the repository's
/// top (`GitignoreBuilder::new("")`): it holds no glob yet, and has the
/// default options.
#[verifier::external_body]
fn ignore_builder() -> (r: GitignoreBuilder)
    ensures
        builder_globs(r) == Seq::<Seq<char>>::empty(),
        builder_options(r) == fresh_options(),
{
    GitignoreBuilder::new("")
}

/// Adds one line of a gitignore file (`GitignoreBuilder::add_line`). A
/// comment or blank line is accepted and adds nothing; any other line adds
/// the glob `line_glob` gives when the builder accepts it, and nothing when
/// it refuses it. The options stay.
#[verifier::external_body]
fn add_ignore_line(builder: &mut GitignoreBuilder, line: &str) -> (r: Result<(), ignore::Error>)
    ensures
        r is Ok <==> gitignore_line_ok(builder_options(*old(builder)), line@),
        line_glob(line@).len() == 0 ==> r is Ok,
        builder_options(*final(builder)) == builder_options(*old(builder)),
        r is Ok ==> builder_globs(*final(builder)) == builder_globs(*old(builder)) + line_glob(
            line@,
        ),
        r is Err ==> builder_globs(*final(builder)) == builder_globs(*old(builder)),
{
    builder.add_line(None, line).map(|_| ())
}

/// The matcher of the globs added (`GitignoreBuilder::build`): it holds
/// the builder's globs, and, when there are any, the builder's options. A
/// builder with no glob always builds.
#[verifier::external_body]
fn build_ignore(builder: &GitignoreBuilder) -> (r: Result<Gitignore, ignore::Error>)
    ensures
        r is Ok <==> gitignore_builds(builder_options(*builder), builder_globs(*builder)),
        builder_globs(*builder).len() == 0 ==> r is Ok,
        r matches Ok(g) ==> matcher_globs(g) == builder_globs(*builder),
        r matches Ok(g) ==> (builder_globs(*builder).len() > 0 ==> matcher_options(g)
            == builder_options(*builder)),
{
    builder.build()
}

/// What an `ignore` error says (its `Display`).
#[verifier::external_body]
fn ignore_error_text(e: &ignore::Error) -> String {
    e.to_string()
}

/// Whether the file at `path`, or a directory above it, is ignored
/// (`Gitignore::matched_path_or_any_parents(path, false).is_ignore()`). A
/// matcher with no glob ignores nothing. One with globs first drops a
/// leading `./` and, for its root `""`, one leading `/`, and panics on a
/// path that still starts with `/`; the `requires` leaves that out.
#[verifier::external_body]
fn ignores_path(gi: &Gitignore, path: &str) -> (r: bool)
    requires
        matcher_accepts(*gi, path@),
    ensures
        r == gitignore_ignores(matcher_options(*gi), matcher_globs(*gi), path@),
        matcher_globs(*gi).len() == 0 ==> !r,
{
    gi.matched_path_or_any_parents(std::path::Path::new(path), false).is_ignore()
}

/// `.prgitignore`
pub open spec fn prgitignore_path() -> Seq<char> {
    ".prgitignore"@
}

/// The message of an unreadable `.prgitignore` line: its number (from 1)
/// and what the matcher said.
pub fn bad_line_message(line_index: usize, error: &str) -> (r: String)
    requires
        line_index < usize::MAX,
    ensures
        r@ == "line "@ + decimal((line_index + 1) as nat) + ": "@ + error@,
{
    let mut r = "line ".to_owned();
    append_decimal(&mut r, line_index + 1);
    r.append(": ");
    r.append(error);
    r
}

/// The lines of a `.prgitignore` whose content is `content`.
pub open spec fn prgitignore_lines(content: Seq<u8>) -> Seq<Seq<char>> {
    lines_from(decode_utf8(content), 0)
}

/// The globs that `lines` add to a builder, in order.
pub open spec fn prgitignore_globs(lines: Seq<Seq<char>>) -> Seq<Seq<char>>
    decreases lines.len(),
{
    if lines.len() == 0 {
        Seq::empty()
    } else {
        prgitignore_globs(lines.drop_last()) + line_glob(lines.last())
    }
}

/// Whether a fresh builder accepts each of the first `n` of `lines`.
pub open spec fn lines_accepted(lines: Seq<Seq<char>>, n: int) -> bool {
    forall|j: int| 0 <= j < n ==> gitignore_line_ok(fresh_options(), #[trigger] lines[j])
}

/// Whether `k` is the first of `lines` that a builder refuses.
pub open spec fn first_refused_line(lines: Seq<Seq<char>>, k: int) -> bool {
    &&& 0 <= k < lines.len()
    &&& !gitignore_line_ok(fresh_options(), lines[k])
    &&& lines_accepted(lines, k)
}

/// The matcher a branch's `.prgitignore` gives, from the file's content:
/// none without the file. Otherwise the content must be UTF-8; its lines
/// go, in order, into a builder rooted at `""`, and the first line the
/// builder refuses is an error that names it; then the builder must
/// build, and the matcher holds the globs of the lines.
pub fn load_prgitignore(content: Option<&[u8]>) -> (r: Result<Option<Gitignore>, ShelverError>)
    ensures
        content is None ==> r matches Ok(None),
        content matches Some(c) && !valid_utf8(c@) ==> r matches Err(
            ShelverError::InvalidPrgitignore(_),
        ),
        content matches Some(c) ==> (valid_utf8(c@) ==> {
            let lines = prgitignore_lines(c@);
            &&& (forall|k: int|
                #[trigger] first_refused_line(lines, k) ==> (r matches Err(
                    ShelverError::InvalidPrgitignore(m),
                ) && seq_starts_with(m@, "line "@ + decimal((k + 1) as nat) + ": "@)))
            &&& (lines_accepted(lines, lines.len() as int) && !gitignore_builds(
                fresh_options(),
                prgitignore_globs(lines),
            ) ==> r matches Err(ShelverError::InvalidPrgitignore(_)))
            &&& (lines_accepted(lines, lines.len() as int) && gitignore_builds(
                fresh_options(),
                prgitignore_globs(lines),
            ) ==> (r matches Ok(Some(g)) && matcher_globs(g) == prgitignore_globs(lines) && (
            prgitignore_globs(lines).len() > 0 ==> matcher_options(g) == fresh_options())))
        }),
        r matches Err(e) ==> e matches ShelverError::InvalidPrgitignore(_),
{
    let bytes = match content {
        None => return Ok(None),
        Some(b) => b,
    };
    let text = match utf8_decode(bytes) {
        Ok(t) => t,
        Err(m) => return Err(ShelverError::InvalidPrgitignore(m)),
    };
    let cs = chars_of(text);
    let bounds = line_bounds(&cs);
    let ghost lines = lines_from(cs@, 0);
    assert(lines == prgitignore_lines(bytes@));
    let mut builder = ignore_builder();
    let mut k: usize = 0;
    while k < bounds.len()
        invariant
            content == Some(bytes),
            valid_utf8(bytes@),
            lines == prgitignore_lines(bytes@),
            lines == lines_from(cs@, 0),
            k <= bounds@.len(),
            bounds@.len() == lines.len(),
            forall|j: int|
                0 <= j < bounds@.len() ==> {
                    &&& #[trigger] bounds@[j].0 <= bounds@[j].1 <= cs@.len()
                    &&& cs@.subrange(bounds@[j].0 as int, bounds@[j].1 as int) == lines[j]
                },
            builder_options(builder) == fresh_options(),
            builder_globs(builder) == prgitignore_globs(lines.take(k as int)),
            lines_accepted(lines, k as int),
        decreases bounds.len() - k,
    {
        let (a, b) = bounds[k];
        assert(bounds@[k as int].0 <= bounds@[k as int].1);
        let line = string_of(&cs, a, b);
        assert(line@ == lines[k as int]);
        let ghost before = builder_globs(builder);
        match add_ignore_line(&mut builder, line.as_str()) {
            Ok(()) => {},
            Err(e) => {
                let t = ignore_error_text(&e);
                let m = bad_line_message(k, t.as_str());
                proof {
                    assert(first_refused_line(lines, k as int));
                    assert forall|k2: int| #[trigger] first_refused_line(lines, k2) implies k2 == k by {
                        if k2 < k {
                            assert(gitignore_line_ok(fresh_options(), lines[k2]));
                        } else if k2 > k {
                            assert(gitignore_line_ok(fresh_options(), lines[k as int]));
                        }
                    }
                    assert(m@ == "line "@ + decimal((k + 1) as nat) + ": "@ + t@);
                    let pre = "line "@ + decimal((k + 1) as nat) + ": "@;
                    assert(m@.subrange(0, pre.len() as int) =~= pre);
                }
                return Err(ShelverError::InvalidPrgitignore(m));
            },
        }
        proof {
            assert(lines.take(k + 1).drop_last() =~= lines.take(k as int));
            assert(lines.take(k + 1).last() == lines[k as int]);
            assert(gitignore_line_ok(fresh_options(), lines[k as int]));
        }
        k = k + 1;
    }
    proof {
        assert(lines.take(lines.len() as int) =~= lines);
        assert forall|k2: int| !#[trigger] first_refused_line(lines, k2) by {
            if 0 <= k2 < lines.len() {
                assert(gitignore_line_ok(fresh_options(), lines[k2]));
            }
        }
    }
    match build_ignore(&builder) {
        Ok(gi) => Ok(Some(gi)),
        Err(e) => Err(ShelverError::InvalidPrgitignore(ignore_error_text(&e))),
    }
}

/// Whether a file is a new one that the `.prgitignore` keeps out, given
/// whether the matcher ignores its path: only added files are, and never
/// the `.prgitignore` itself.
pub fn ignored_add_decision(action: FileAction, path: &str, matched: bool) -> (r: bool)
    ensures
        r == (action == FileAction::Add && path@ != prgitignore_path() && matched),
{
    if action != FileAction::Add {
        return false;
    }
    if path.to_owned() == ".prgitignore".to_owned() {
        return false;
    }
    matched
}

/// Whether `c` is a file the matcher is asked about: a new file other than
/// the `.prgitignore` itself.
pub open spec fn ignore_candidate(c: ChangedFile) -> bool {
    c.action == FileAction::Add && c.path@ != prgitignore_path()
}

/// Whether the `.prgitignore` keeps `c` out of the shelve, given whether
/// the matcher ignores its path.
pub open spec fn ignored_add_spec(c: ChangedFile, matched: bool) -> bool {
    ignore_candidate(c) && matched
}

/// What the matcher `gi` answers for the path of each of `changes`.
pub open spec fn matcher_answers(gi: Gitignore, changes: Seq<ChangedFile>) -> Seq<bool> {
    changes.map_values(
        |c: ChangedFile| gitignore_ignores(matcher_options(gi), matcher_globs(gi), c.path@),
    )
}

/// The files of `changes` that stay, in order, when the matcher's answer
/// for the `i`-th is `matched[i]`.
pub open spec fn kept_changes(changes: Seq<ChangedFile>, matched: Seq<bool>) -> Seq<ChangedFile>
    decreases changes.len(),
{
    if changes.len() == 0 {
        Seq::empty()
    } else {
        let prev = kept_changes(changes.drop_last(), matched);
        if ignored_add_spec(changes.last(), matched[changes.len() - 1]) {
            prev
        } else {
            prev.push(changes.last())
        }
    }
}

/// Whether the `.prgitignore` keeps this changed file out of the shelve:
/// a new file other than the `.prgitignore` itself whose path the matcher
/// ignores.
pub fn is_ignored_add(gi: &Gitignore, change: &ChangedFile) -> (r: bool)
    requires
        ignore_candidate(*change) ==> matcher_accepts(*gi, change.path@),
    ensures
        r == ignored_add_spec(
            *change,
            gitignore_ignores(matcher_options(*gi), matcher_globs(*gi), change.path@),
        ),
{
    let candidate = change.action == FileAction::Add && change.path != ".prgitignore".to_owned();
    let matched = if candidate {
        ignores_path(gi, change.path.as_str())
    } else {
        false
    };
    ignored_add_decision(change.action, change.path.as_str(), matched)
}

/// The changed files the `.prgitignore` does not keep out, in order: every
/// file but the new ones, other than the `.prgitignore` itself, whose path
/// the matcher ignores.
pub fn retain_not_ignored(gi: &Gitignore, changes: Vec<ChangedFile>) -> (r: Vec<ChangedFile>)
    requires
        forall|i: int|
            0 <= i < changes@.len() && ignore_candidate(#[trigger] changes@[i]) ==> matcher_accepts(
                *gi,
                changes@[i].path@,
            ),
    ensures
        r@ == kept_changes(changes@, matcher_answers(*gi, changes@)),
{
    let mut r: Vec<ChangedFile> = Vec::new();
    let mut rest = changes;
    let ghost all = rest@;
    let ghost answers = matcher_answers(*gi, all);
    let mut k: usize = 0;
    let n = rest.len();
    while rest.len() > 0
        invariant
            all.len() == n,
            k + rest@.len() == n,
            rest@ == all.subrange(k as int, n as int),
            answers == matcher_answers(*gi, all),
            forall|i: int|
                0 <= i < all.len() && ignore_candidate(#[trigger] all[i]) ==> matcher_accepts(
                    *gi,
                    all[i].path@,
                ),
            r@ == kept_changes(all.take(k as int), answers),
        decreases rest@.len(),
    {
        let c = rest.remove(0);
        assert(c == all[k as int]);
        let ignored = is_ignored_add(gi, &c);
        proof {
            assert(all.take(k + 1).drop_last() =~= all.take(k as int));
            assert(all.take(k + 1).last() == c);
            assert(answers[k as int] == gitignore_ignores(
                matcher_options(*gi),
                matcher_globs(*gi),
                c.path@,
            ));
        }
        if !ignored {
            r.push(c);
        }
        k = k + 1;
    }
    proof {
        assert(all.take(n as int) =~= all);
    }
    r
}

} // verus!
