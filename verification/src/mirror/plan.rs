//! What the mirror decides for one submitted change: where each depot file
//! lands in the repository (through the client view), which files are
//! written, removed or skipped, and the note that ties the commit back to
//! its change.

use vstd::prelude::*;
use crate::perforce::types::{BaseFileType, FileType};
use crate::text::{append_chars, occurs_at, chars_of, ends_with, matches_at, seq_ends_with, seq_starts_with, starts_with, string_from, string_of};

verus! {

/// One line of `p4 where` output for a client view.
pub struct WhereResult {
    pub depot_file: String,
    pub client_file: String,
}

/// A line of a client view, normalised: the trailing `...` is stripped
/// from the depot side, and the client side is made relative to the
/// client root.
pub struct ViewMapping {
    pub depot_prefix: String,
    pub client_subdir: String,
}

impl View for ViewMapping {
    type V = (Seq<char>, Seq<char>);

    open spec fn view(&self) -> (Seq<char>, Seq<char>) {
        (self.depot_prefix@, self.client_subdir@)
    }
}

/// `...`
pub open spec fn dots() -> Seq<char> {
    seq!['.', '.', '.']
}

/// `//<client>/`, the root of a client's paths.
pub open spec fn client_root(client: Seq<char>) -> Seq<char> {
    seq!['/', '/'] + client + seq!['/']
}

/// The mapping that one `p4 where` line gives, if any: not an exclusion
/// (`-//...`), both sides end in `...`, and the client side lies under the
/// client root.
pub open spec fn view_mapping_of(depot: Seq<char>, client_file: Seq<char>, client: Seq<char>) -> Option<
    (Seq<char>, Seq<char>),
> {
    if depot.len() > 0 && depot[0] == '-' {
        None
    } else if !seq_ends_with(depot, dots()) || !seq_ends_with(client_file, dots()) {
        None
    } else {
        let cp = client_file.subrange(0, client_file.len() - 3);
        if seq_starts_with(cp, client_root(client)) {
            Some(
                (
                    depot.subrange(0, depot.len() - 3),
                    cp.subrange(client_root(client).len() as int, cp.len() as int),
                ),
            )
        } else {
            None
        }
    }
}

/// The mappings of a sequence of `p4 where` lines, in order.
pub open spec fn view_mappings_of(ws: Seq<(Seq<char>, Seq<char>)>, client: Seq<char>) -> Seq<
    (Seq<char>, Seq<char>),
>
    decreases ws.len(),
{
    if ws.len() == 0 {
        Seq::empty()
    } else {
        let rest = view_mappings_of(ws.drop_last(), client);
        match view_mapping_of(ws.last().0, ws.last().1, client) {
            Some(m) => rest.push(m),
            None => rest,
        }
    }
}

/// Turns the `p4 where` lines for a client into view mappings, dropping
/// exclusions and lines that are not of the form `<prefix>...`.
pub fn parse_view_mappings(where_results: &[WhereResult], client_name: &str) -> (r: Vec<ViewMapping>)
    ensures
        r@.map_values(|m: ViewMapping| m@) == view_mappings_of(
            where_results@.map_values(|w: WhereResult| (w.depot_file@, w.client_file@)),
            client_name@,
        ),
{
    let ghost ws = where_results@.map_values(|w: WhereResult| (w.depot_file@, w.client_file@));
    let client: Vec<char> = chars_of(client_name);
    let mut root: Vec<char> = Vec::new();
    root.push('/');
    root.push('/');
    let mut k: usize = 0;
    while k < client.len()
        invariant
            k <= client@.len(),
            root@ == seq!['/', '/'] + client@.subrange(0, k as int),
        decreases client.len() - k,
    {
        root.push(client[k]);
        k = k + 1;
        assert(root@ =~= seq!['/', '/'] + client@.subrange(0, k as int));
    }
    root.push('/');
    assert(root@ =~= client_root(client_name@));
    let dots_v: Vec<char> = vec!['.', '.', '.'];
    assert(dots_v@ =~= dots());
    let mut out: Vec<ViewMapping> = Vec::new();
    let mut i: usize = 0;
    while i < where_results.len()
        invariant
            i <= where_results@.len(),
            ws == where_results@.map_values(|w: WhereResult| (w.depot_file@, w.client_file@)),
            root@ == client_root(client_name@),
            dots_v@ == dots(),
            out@.map_values(|m: ViewMapping| m@) == view_mappings_of(ws.take(i as int), client_name@),
        decreases where_results.len() - i,
    {
        let w = &where_results[i];
        let depot: Vec<char> = chars_of(w.depot_file.as_str());
        let cf: Vec<char> = chars_of(w.client_file.as_str());
        assert(ws.take(i + 1).drop_last() =~= ws.take(i as int));
        assert(ws.take(i + 1).last() == (depot@, cf@));
        let ghost before = out@.map_values(|m: ViewMapping| m@);
        if depot.len() > 0 && depot[0] == '-' {
        } else if !ends_with(&depot, &dots_v) || !ends_with(&cf, &dots_v) {
        } else {
            let cp_len = cf.len() - 3;
            assert(cf@.subrange(0, cp_len as int).len() == cp_len);
            let cp_starts = matches_at(&cf, &root, 0) && root.len() <= cp_len;
            proof {
                let cp = cf@.subrange(0, cp_len as int);
                if root@.len() <= cp_len {
                    assert(cp.subrange(0, root@.len() as int) =~= cf@.subrange(0, root@.len() as int));
                }
            }
            if cp_starts {
                let m = ViewMapping {
                    depot_prefix: string_of(&depot, 0, depot.len() - 3),
                    client_subdir: string_of(&cf, root.len(), cp_len),
                };
                proof {
                    let cp = cf@.subrange(0, cp_len as int);
                    assert(cp.subrange(root@.len() as int, cp.len() as int) =~= cf@.subrange(
                        root@.len() as int,
                        cp_len as int,
                    ));
                }
                out.push(m);
            }
        }
        assert(out@.map_values(|m: ViewMapping| m@) =~= view_mappings_of(ws.take(i + 1), client_name@));
        i = i + 1;
    }
    assert(ws.take(where_results@.len() as int) =~= ws);
    out
}

/// The mapping that `p4` applies to `depot_file`: among those whose depot
/// prefix begins `depot_file`, one with the longest prefix, the last such
/// one on ties.
pub open spec fn best_mapping(ms: Seq<(Seq<char>, Seq<char>)>, depot_file: Seq<char>) -> Option<int>
    decreases ms.len(),
{
    if ms.len() == 0 {
        None
    } else {
        let rest = best_mapping(ms.drop_last(), depot_file);
        let k = ms.len() - 1;
        if seq_starts_with(depot_file, ms[k].0) && (match rest {
            Some(j) => ms[j].0.len() <= ms[k].0.len(),
            None => true,
        }) {
            Some(k)
        } else {
            rest
        }
    }
}

/// Where `depot_file` lands in the repository: the chosen mapping's client
/// subdirectory followed by what remains of the depot path after its
/// prefix.
pub open spec fn resolve_spec(ms: Seq<(Seq<char>, Seq<char>)>, depot_file: Seq<char>) -> Option<
    Seq<char>,
> {
    match best_mapping(ms, depot_file) {
        Some(k) => Some(ms[k].1 + depot_file.subrange(ms[k].0.len() as int, depot_file.len() as int)),
        None => None,
    }
}

/// The longest-prefix rule: the chosen mapping matches, no matching mapping
/// has a longer prefix, and no later matching mapping has one as long; and
/// there is no choice exactly when no mapping matches.
pub proof fn lemma_best_mapping_longest(ms: Seq<(Seq<char>, Seq<char>)>, depot_file: Seq<char>)
    ensures
        match best_mapping(ms, depot_file) {
            Some(k) => {
                &&& 0 <= k < ms.len()
                &&& seq_starts_with(depot_file, ms[k].0)
                &&& forall|j: int|
                    0 <= j < ms.len() && seq_starts_with(depot_file, #[trigger] ms[j].0) ==> ms[j].0.len()
                        <= ms[k].0.len()
                &&& forall|j: int|
                    k < j < ms.len() && seq_starts_with(depot_file, #[trigger] ms[j].0) ==> ms[j].0.len()
                        < ms[k].0.len()
            },
            None => forall|j: int| 0 <= j < ms.len() ==> !seq_starts_with(depot_file, #[trigger] ms[j].0),
        },
    decreases ms.len(),
{
    if ms.len() > 0 {
        let ms2 = ms.drop_last();
        let k = ms.len() - 1;
        lemma_best_mapping_longest(ms2, depot_file);
        assert forall|j: int| 0 <= j < ms2.len() implies #[trigger] ms2[j] == ms[j] by {}
        let rest = best_mapping(ms2, depot_file);
        if seq_starts_with(depot_file, ms[k].0) && (match rest {
            Some(j) => ms[j].0.len() <= ms[k].0.len(),
            None => true,
        }) {
            assert forall|j: int|
                0 <= j < ms.len() && seq_starts_with(depot_file, #[trigger] ms[j].0) implies ms[j].0.len()
                <= ms[k].0.len() by {
                if j < k {
                    assert(ms2[j] == ms[j]);
                }
            }
        } else {
            match rest {
                Some(j0) => {
                    assert(ms2[j0] == ms[j0]);
                    assert forall|j: int|
                        0 <= j < ms.len() && seq_starts_with(depot_file, #[trigger] ms[j].0) implies ms[j].0.len()
                        <= ms[j0].0.len() by {
                        if j < k {
                            assert(ms2[j] == ms[j]);
                        }
                    }
                    assert forall|j: int|
                        j0 < j < ms.len() && seq_starts_with(depot_file, #[trigger] ms[j].0) implies ms[j].0.len()
                        < ms[j0].0.len() by {
                        if j < k {
                            assert(ms2[j] == ms[j]);
                        }
                    }
                },
                None => {
                    assert forall|j: int| 0 <= j < ms.len() implies !seq_starts_with(
                        depot_file,
                        #[trigger] ms[j].0,
                    ) by {
                        if j < k {
                            assert(ms2[j] == ms[j]);
                        }
                    }
                },
            }
        }
    }
}

/// Where `depot_file` lands in the repository under the view `mappings`,
/// or `None` when no mapping covers it.
pub fn resolve_path_in_repo(mappings: &[ViewMapping], depot_file: &str) -> (r: Option<String>)
    ensures
        match r {
            Some(p) => resolve_spec(mappings@.map_values(|m: ViewMapping| m@), depot_file@) == Some(p@),
            None => resolve_spec(mappings@.map_values(|m: ViewMapping| m@), depot_file@).is_none(),
        },
{
    let ghost ms = mappings@.map_values(|m: ViewMapping| m@);
    let d: Vec<char> = chars_of(depot_file);
    let mut best: Option<usize> = None;
    let mut best_prefix: Vec<char> = Vec::new();
    let mut best_subdir: Vec<char> = Vec::new();
    let mut i: usize = 0;
    while i < mappings.len()
        invariant
            i <= mappings@.len(),
            ms == mappings@.map_values(|m: ViewMapping| m@),
            d@ == depot_file@,
            best_mapping(ms.take(i as int), d@) == (match best {
                Some(k) => Some(k as int),
                None => None::<int>,
            }),
            match best {
                Some(k) => k < i && best_prefix@ == ms[k as int].0 && best_subdir@ == ms[k as int].1,
                None => true,
            },
        decreases mappings.len() - i,
    {
        let p: Vec<char> = chars_of(mappings[i].depot_prefix.as_str());
        proof {
            let t = ms.take(i + 1);
            assert(t.drop_last() =~= ms.take(i as int));
            assert(t[i as int] == ms[i as int]);
            match best {
                Some(k) => {
                    assert(t[k as int] == ms[k as int]);
                },
                None => {},
            }
        }
        if starts_with(&d, &p) && (match best {
            Some(_) => best_prefix.len() <= p.len(),
            None => true,
        }) {
            best = Some(i);
            best_prefix = p;
            best_subdir = chars_of(mappings[i].client_subdir.as_str());
        }
        i = i + 1;
    }
    assert(ms.take(mappings@.len() as int) =~= ms);
    proof {
        lemma_best_mapping_longest(ms, d@);
    }
    match best {
        Some(_) => {
            let mut out = string_from(&best_subdir);
            append_chars(&mut out, &d, best_prefix.len(), d.len());
            Some(out)
        },
        None => None,
    }
}


/// `.git`
pub open spec fn git_dir_name() -> Seq<char> {
    seq!['.', 'g', 'i', 't']
}

/// Some `/`-separated component of `path` is exactly `.git`.
pub open spec fn has_git_component_spec(path: Seq<char>) -> bool {
    exists|i: int|
        #![trigger occurs_at(path, git_dir_name(), i)]
        occurs_at(path, git_dir_name(), i) && (i == 0 || path[i - 1] == '/') && (i + 4 == path.len()
            || path[i + 4] == '/')
}

/// Whether one of the components of `path` is `.git` (such files are never
/// written into a repository).
pub fn has_git_component(path: &str) -> (r: bool)
    ensures
        r == has_git_component_spec(path@),
{
    let p: Vec<char> = chars_of(path);
    let g: Vec<char> = vec!['.', 'g', 'i', 't'];
    assert(g@ =~= git_dir_name());
    let mut i: usize = 0;
    while i < p.len()
        invariant
            p@ == path@,
            g@ == git_dir_name(),
            i <= p@.len(),
            forall|j: int|
                0 <= j < i ==> !(occurs_at(path@, git_dir_name(), j) && (j == 0 || path@[j - 1] == '/')
                    && (j + 4 == path@.len() || path@[j + 4] == '/')),
        decreases p.len() - i,
    {
        if matches_at(&p, &g, i) && (i == 0 || p[i - 1] == '/') && (i + 4 == p.len() || p[i + 4]
            == '/') {
            return true;
        }
        i = i + 1;
    }
    proof {
        assert forall|j: int|
            !(#[trigger] occurs_at(path@, git_dir_name(), j) && (j == 0 || path@[j - 1] == '/') && (j
                + 4 == path@.len() || path@[j + 4] == '/')) by {
            if j >= p@.len() {
            }
        }
    }
    false
}

/// The git mode a file is committed with.
#[derive(Debug, Clone, Copy, PartialEq, Eq, Structural)]
pub enum FileMode {
    Blob,
    BlobExecutable,
    Link,
}

/// Symlinks become links, executable text becomes an executable blob, and
/// everything else a plain blob.
pub open spec fn file_mode_spec(t: FileType) -> FileMode {
    match t.base {
        Some(BaseFileType::Symlink) => FileMode::Link,
        Some(BaseFileType::Text) => if t.executable {
            FileMode::BlobExecutable
        } else {
            FileMode::Blob
        },
        _ => FileMode::Blob,
    }
}

/// The git mode depends on the base type and the `+x` modifier alone: a
/// file is committed executable exactly when it is text with `+x`, as a
/// link exactly when it is a symlink, and as a plain blob otherwise; no
/// other modifier (`+w`, `+k`, `+l`, `+F`, `+C`, `+D`) changes it.
pub proof fn lemma_file_mode_by_type(t: FileType, u: FileType)
    ensures
        file_mode_spec(t) == FileMode::BlobExecutable <==> (t.base == Some(BaseFileType::Text)
            && t.executable),
        file_mode_spec(t) == FileMode::Link <==> t.base == Some(BaseFileType::Symlink),
        file_mode_spec(t) == FileMode::Blob <==> (t.base != Some(BaseFileType::Symlink) && !(t.base
            == Some(BaseFileType::Text) && t.executable)),
        t.base == u.base && t.executable == u.executable ==> file_mode_spec(t) == file_mode_spec(u),
{
}

/// The git mode for a Perforce file type.
pub fn file_mode(file_type: &FileType) -> (m: FileMode)
    ensures
        m == file_mode_spec(*file_type),
{
    match file_type.base {
        Some(BaseFileType::Symlink) => FileMode::Link,
        Some(BaseFileType::Text) if file_type.executable => FileMode::BlobExecutable,
        _ => FileMode::Blob,
    }
}

/// What a change did to a file, as `p4 print` reports it.
#[derive(Debug, Clone, Copy, PartialEq, Eq, Structural)]
pub enum P4FileAction {
    Add,
    Edit,
    Delete,
    MoveAdd,
    MoveDelete,
    Branch,
    Integrate,
}

/// One file of a change, as printed into a scratch directory.
pub struct PrintFileInfo {
    pub depot_file: String,
    pub action: P4FileAction,
    pub file_type: FileType,
}

/// What happens to one file of a change in the commit that mirrors it.
pub enum FileOp {
    /// Write the printed file at `path` with `mode`.
    Upsert { path: String, mode: FileMode },
    /// Remove `path` from the tree.
    Remove { path: String },
    /// Leave the file out: its path has a `.git` component.
    Skip { depot_file: String },
}

/// The mathematical form of a [`FileOp`].
pub enum FileOpSpec {
    Upsert(Seq<char>, FileMode),
    Remove(Seq<char>),
    Skip(Seq<char>),
}

impl View for FileOp {
    type V = FileOpSpec;

    open spec fn view(&self) -> FileOpSpec {
        match self {
            FileOp::Upsert { path, mode } => FileOpSpec::Upsert(path@, *mode),
            FileOp::Remove { path } => FileOpSpec::Remove(path@),
            FileOp::Skip { depot_file } => FileOpSpec::Skip(depot_file@),
        }
    }
}

/// The operation for one file, or `None` when the view does not map it.
pub open spec fn file_op_spec(
    ms: Seq<(Seq<char>, Seq<char>)>,
    depot_file: Seq<char>,
    action: P4FileAction,
    file_type: FileType,
) -> Option<FileOpSpec> {
    match resolve_spec(ms, depot_file) {
        None => None,
        Some(path) => if has_git_component_spec(path) {
            Some(FileOpSpec::Skip(depot_file))
        } else {
            match action {
                P4FileAction::Delete | P4FileAction::MoveDelete => Some(FileOpSpec::Remove(path)),
                _ => Some(FileOpSpec::Upsert(path, file_mode_spec(file_type))),
            }
        },
    }
}

/// The operations for all files of a change, in order; or the depot path
/// of the first file that the view does not map.
pub open spec fn commit_plan_spec(
    ms: Seq<(Seq<char>, Seq<char>)>,
    files: Seq<(Seq<char>, P4FileAction, FileType)>,
) -> Result<Seq<FileOpSpec>, Seq<char>>
    decreases files.len(),
{
    if files.len() == 0 {
        Ok(Seq::empty())
    } else {
        match commit_plan_spec(ms, files.drop_last()) {
            Err(e) => Err(e),
            Ok(ops) => match file_op_spec(ms, files.last().0, files.last().1, files.last().2) {
                None => Err(files.last().0),
                Some(op) => Ok(ops.push(op)),
            },
        }
    }
}

/// Decides, for each file of a change, whether the mirror commit writes,
/// removes or skips it, and where in the repository it goes. Fails with the
/// depot path of the first file outside the client view.
pub fn plan_commit(mappings: &[ViewMapping], files: &[PrintFileInfo]) -> (r: Result<Vec<FileOp>, String>)
    ensures
        match r {
            Ok(ops) => commit_plan_spec(
                mappings@.map_values(|m: ViewMapping| m@),
                files@.map_values(|f: PrintFileInfo| (f.depot_file@, f.action, f.file_type)),
            ) == Ok::<Seq<FileOpSpec>, Seq<char>>(ops@.map_values(|o: FileOp| o@)),
            Err(d) => commit_plan_spec(
                mappings@.map_values(|m: ViewMapping| m@),
                files@.map_values(|f: PrintFileInfo| (f.depot_file@, f.action, f.file_type)),
            ) == Err::<Seq<FileOpSpec>, Seq<char>>(d@),
        },
{
    let ghost ms = mappings@.map_values(|m: ViewMapping| m@);
    let ghost fs = files@.map_values(|f: PrintFileInfo| (f.depot_file@, f.action, f.file_type));
    let mut ops: Vec<FileOp> = Vec::new();
    assert(fs.take(0).len() == 0);
    assert(ops@.map_values(|o: FileOp| o@) =~= Seq::<FileOpSpec>::empty());
    let mut i: usize = 0;
    while i < files.len()
        invariant
            i <= files@.len(),
            ms == mappings@.map_values(|m: ViewMapping| m@),
            fs == files@.map_values(|f: PrintFileInfo| (f.depot_file@, f.action, f.file_type)),
            commit_plan_spec(ms, fs.take(i as int)) == Ok::<Seq<FileOpSpec>, Seq<char>>(
                ops@.map_values(|o: FileOp| o@),
            ),
        decreases files.len() - i,
    {
        let f = &files[i];
        assert(fs.take(i + 1).drop_last() =~= fs.take(i as int));
        assert(fs.take(i + 1).last() == fs[i as int]);
        let ghost before = ops@.map_values(|o: FileOp| o@);
        match resolve_path_in_repo(mappings, f.depot_file.as_str()) {
            None => {
                proof {
                    lemma_plan_err_prefix(ms, fs, (i + 1) as int);
                }
                return Err(f.depot_file.clone());
            },
            Some(path) => {
                let op = if has_git_component(path.as_str()) {
                    FileOp::Skip { depot_file: f.depot_file.clone() }
                } else {
                    match f.action {
                        P4FileAction::Delete | P4FileAction::MoveDelete => FileOp::Remove { path },
                        _ => FileOp::Upsert { path, mode: file_mode(&f.file_type) },
                    }
                };
                ops.push(op);
                assert(ops@.map_values(|o: FileOp| o@) =~= before.push(op@));
            },
        }
        i = i + 1;
    }
    assert(fs.take(files@.len() as int) =~= fs);
    Ok(ops)
}

/// Once a prefix of the files fails to plan, the whole change fails with
/// the same path.
proof fn lemma_plan_err_prefix(
    ms: Seq<(Seq<char>, Seq<char>)>,
    fs: Seq<(Seq<char>, P4FileAction, FileType)>,
    n: int,
)
    requires
        0 <= n <= fs.len(),
        commit_plan_spec(ms, fs.take(n)) is Err,
    ensures
        commit_plan_spec(ms, fs) == commit_plan_spec(ms, fs.take(n)),
    decreases fs.len() - n,
{
    if n < fs.len() {
        assert(fs.take(n + 1).drop_last() =~= fs.take(n));
        lemma_plan_err_prefix(ms, fs, n + 1);
    } else {
        assert(fs.take(n) =~= fs);
    }
}

} // verus!
