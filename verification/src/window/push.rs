//! What the server decides about a git request: which repository it is
//! for, whether it pushes, which pushed branches are shelved, and what the
//! pusher is told.

use vstd::prelude::*;
use crate::text::{
    append_decimal, chars_of, decimal, find_str, first_occurrence, seq_contains_seq, string_of,
    strip_prefix, strip_prefix_spec, contains_str, occurs_at, seq_starts_with,
};
use crate::shelf::shelver::ShelveResult;
use crate::window::cycle::{shelve_done_event, shelve_done_view};
use crate::window::events::{EventView, ObservabilityEvent};
use crate::window::git::RefUpdate;
use crate::window::shelves::{ActiveShelves, ShelveState};

verus! {

// ------------------------------------------------------------- routing

/// Where a git request goes: the repository's key (`group/name`) and the
/// path of the git endpoint in it (starting with `/`).
#[derive(Debug)]
pub struct GitRoute {
    pub repo_key: String,
    pub git_path: String,
}

/// The route of a request path that names a repository by `<key>.git/`:
/// the key is what lies between the leading `/` and the first `.git/`.
pub open spec fn route_at(path: Seq<char>, i: int) -> (Seq<char>, Seq<char>) {
    (
        if i >= 1 {
            path.subrange(1, i)
        } else {
            "git"@
        },
        path.subrange(i + 4, path.len() as int),
    )
}

/// The route of a request path; none when the path names no `.git/`.
pub fn route_git_path(path: &str) -> (r: Option<GitRoute>)
    requires
        path@.len() == 0 || (path@[0] as u32) < 0x80,
    ensures
        r is None <==> !seq_contains_seq(path@, ".git/"@),
        r matches Some(g) ==> exists|i: int|
            first_occurrence(path@, ".git/"@, i) && (g.repo_key@, g.git_path@) == route_at(path@, i),
{
    let cs = chars_of(path);
    let n = cs.len();
    match find_str(path, ".git/") {
        None => None,
        Some(i) => {
            proof {
                reveal_strlit(".git/");
                assert(".git/"@.len() == 5);
                assert(cs@ == path@);
                assert(occurs_at(path@, ".git/"@, i as int));
                assert(i + 5 <= cs@.len());
            }
            let repo_key = if i >= 1 {
                string_of(&cs, 1, i)
            } else {
                "git".to_owned()
            };
            let git_path = string_of(&cs, i + 4, n);
            let r = GitRoute { repo_key, git_path };
            assert((r.repo_key@, r.git_path@) == route_at(path@, i as int));
            Some(r)
        },
    }
}

/// Whether a request to `git_path` is a push: it names `git-receive-pack`.
pub fn is_receive_pack(git_path: &str) -> (r: bool)
    ensures
        r == seq_contains_seq(git_path@, "git-receive-pack"@),
{
    contains_str(git_path, "git-receive-pack")
}

/// The git service a request uses.
pub fn git_service(receive_pack: bool) -> (r: &'static str)
    ensures
        r@ == if receive_pack {
            "receive-pack"@
        } else {
            "upload-pack"@
        },
{
    if receive_pack {
        "receive-pack"
    } else {
        "upload-pack"
    }
}

/// What the server does with a git request it routes: the repository and
/// git endpoint, whether it is a push, and whether the pusher must
/// authenticate.
#[derive(Debug)]
pub struct GitRequestPlan {
    pub repo_key: String,
    pub git_path: String,
    pub receive_pack: bool,
    pub needs_auth: bool,
}

/// The plan of a request to `path`: none when it names no repository;
/// else a push exactly when the endpoint is `git-receive-pack`, and only a
/// push asks for credentials (clone and fetch are anonymous).
pub fn plan_git_request(path: &str) -> (r: Option<GitRequestPlan>)
    requires
        path@.len() == 0 || (path@[0] as u32) < 0x80,
    ensures
        r is None <==> !seq_contains_seq(path@, ".git/"@),
        r matches Some(p) ==> (exists|i: int|
            first_occurrence(path@, ".git/"@, i) && (p.repo_key@, p.git_path@) == route_at(path@, i))
            && p.receive_pack == seq_contains_seq(p.git_path@, "git-receive-pack"@) && p.needs_auth
            == p.receive_pack,
{
    match route_git_path(path) {
        None => None,
        Some(route) => {
            let receive_pack = is_receive_pack(route.git_path.as_str());
            Some(
                GitRequestPlan {
                    repo_key: route.repo_key,
                    git_path: route.git_path,
                    receive_pack,
                    needs_auth: receive_pack,
                },
            )
        },
    }
}

/// The `PATH_INFO` git-http-backend is run with: the bare repository's
/// directory name and the git endpoint's path.
pub fn path_info(repo_dir_name: &str, git_path: &str) -> (r: String)
    ensures
        r@ == "/"@ + repo_dir_name@ + git_path@,
{
    let mut r = "/".to_owned();
    r.append(repo_dir_name);
    r.append(git_path);
    r
}

// -------------------------------------------------------- ref updates

/// The id git announces for a ref that does not exist.
pub open spec fn zero_sha() -> Seq<char> {
    "0000000000000000000000000000000000000000"@
}

/// `refs/heads/`
pub open spec fn heads_prefix() -> Seq<char> {
    "refs/heads/"@
}

/// The full ref name of a branch.
pub fn branch_ref(branch: &str) -> (r: String)
    ensures
        r@ == heads_prefix() + branch@,
{
    let mut r = "refs/heads/".to_owned();
    r.append(branch);
    r
}

/// What a ref update does to its branch.
#[derive(Debug, Clone, Copy, PartialEq, Eq, Structural)]
pub enum RefChange {
    Created,
    Deleted,
    Updated,
}

/// A ref update from the zero id creates the branch, one to the zero id
/// deletes it; any other updates it.
pub open spec fn ref_change_of(old_sha: Seq<char>, new_sha: Seq<char>) -> RefChange {
    if old_sha == zero_sha() {
        RefChange::Created
    } else if new_sha == zero_sha() {
        RefChange::Deleted
    } else {
        RefChange::Updated
    }
}

/// The branch a ref names: the ref without `refs/heads/`, or the ref
/// itself when it is not a branch.
pub open spec fn branch_of(refname: Seq<char>) -> Seq<char> {
    match strip_prefix_spec(refname, heads_prefix()) {
        Some(b) => b,
        None => refname,
    }
}

/// What a ref update does to its branch.
pub fn classify_ref_update(u: &RefUpdate) -> (r: RefChange)
    ensures
        r == ref_change_of(u.old_sha@, u.new_sha@),
{
    let zero = "0000000000000000000000000000000000000000";
    if u.old_sha == zero.to_owned() {
        RefChange::Created
    } else if u.new_sha == zero.to_owned() {
        RefChange::Deleted
    } else {
        RefChange::Updated
    }
}

/// The branch a ref names.
pub fn ref_branch(refname: &str) -> (r: String)
    ensures
        r@ == branch_of(refname@),
{
    match strip_prefix(refname, "refs/heads/") {
        Some(b) => b,
        None => refname.to_owned(),
    }
}

/// Whether `e` is the event for a branch change `c` of `branch`, pushed by
/// `user` to `repo` at `now`.
pub open spec fn is_branch_event(
    e: ObservabilityEvent,
    c: RefChange,
    now: i64,
    user: Seq<char>,
    repo: Seq<char>,
    branch: Seq<char>,
) -> bool {
    match e {
        ObservabilityEvent::PushBranchCreated { timestamp, user: u, repo: rp, branch: b } => c
            == RefChange::Created && timestamp == now && u@ == user && rp@ == repo && b@ == branch,
        ObservabilityEvent::PushBranchDeleted { timestamp, user: u, repo: rp, branch: b } => c
            == RefChange::Deleted && timestamp == now && u@ == user && rp@ == repo && b@ == branch,
        ObservabilityEvent::PushBranchUpdated { timestamp, user: u, repo: rp, branch: b } => c
            == RefChange::Updated && timestamp == now && u@ == user && rp@ == repo && b@ == branch,
        _ => false,
    }
}

/// The events a push records: one per ref update, in order, saying
/// whether the branch was created, deleted or updated.
pub fn push_branch_events(user: &str, repo: &str, refs: &[RefUpdate], now: i64) -> (r: Vec<
    ObservabilityEvent,
>)
    ensures
        r@.len() == refs@.len(),
        forall|i: int|
            0 <= i < refs@.len() ==> is_branch_event(
                #[trigger] r@[i],
                ref_change_of(refs@[i].old_sha@, refs@[i].new_sha@),
                now,
                user@,
                repo@,
                branch_of(refs@[i].refname@),
            ),
{
    let mut r: Vec<ObservabilityEvent> = Vec::new();
    let mut k: usize = 0;
    while k < refs.len()
        invariant
            k <= refs@.len(),
            r@.len() == k,
            forall|i: int|
                0 <= i < k ==> is_branch_event(
                    #[trigger] r@[i],
                    ref_change_of(refs@[i].old_sha@, refs@[i].new_sha@),
                    now,
                    user@,
                    repo@,
                    branch_of(refs@[i].refname@),
                ),
        decreases refs.len() - k,
    {
        let u = &refs[k];
        let branch = ref_branch(u.refname.as_str());
        let e = match classify_ref_update(u) {
            RefChange::Created => ObservabilityEvent::PushBranchCreated {
                timestamp: now,
                user: user.to_owned(),
                repo: repo.to_owned(),
                branch,
            },
            RefChange::Deleted => ObservabilityEvent::PushBranchDeleted {
                timestamp: now,
                user: user.to_owned(),
                repo: repo.to_owned(),
                branch,
            },
            RefChange::Updated => ObservabilityEvent::PushBranchUpdated {
                timestamp: now,
                user: user.to_owned(),
                repo: repo.to_owned(),
                branch,
            },
        };
        r.push(e);
        k = k + 1;
    }
    r
}

/// Whether any of `refs` updates the ref `refname`.
pub fn updates_ref(refs: &[RefUpdate], refname: &str) -> (r: bool)
    ensures
        r == exists|i: int| 0 <= i < refs@.len() && #[trigger] refs@[i].refname@ == refname@,
{
    let target = refname.to_owned();
    let mut k: usize = 0;
    while k < refs.len()
        invariant
            k <= refs@.len(),
            target@ == refname@,
            forall|i: int| 0 <= i < k ==> #[trigger] refs@[i].refname@ != refname@,
        decreases refs.len() - k,
    {
        if refs[k].refname == target {
            return true;
        }
        k = k + 1;
    }
    false
}

/// What a push to the synced branch is answered.
pub fn synced_branch_rejection(branch: &str) -> (r: String)
    ensures
        r@ == "Push to synced branch '"@ + branch@ + "' is not allowed"@,
{
    let mut r = "Push to synced branch '".to_owned();
    r.append(branch);
    r.append("' is not allowed");
    r
}

/// The branches a push shelves, in the order of its ref updates: every
/// branch (`refs/heads/...`) that the push does not delete, but the synced
/// branch.
pub open spec fn branches_to_shelve_spec(
    refs: Seq<(Seq<char>, Seq<char>, Seq<char>)>,
    synced_branch: Seq<char>,
) -> Seq<Seq<char>>
    decreases refs.len(),
{
    if refs.len() == 0 {
        Seq::empty()
    } else {
        let prev = branches_to_shelve_spec(refs.drop_last(), synced_branch);
        let (old_sha, new_sha, refname) = refs.last();
        if new_sha != zero_sha() && refname != heads_prefix() + synced_branch && strip_prefix_spec(
            refname,
            heads_prefix(),
        ) is Some {
            prev.push(strip_prefix_spec(refname, heads_prefix()).unwrap())
        } else {
            prev
        }
    }
}

/// A push never shelves the synced branch, nor a branch it deletes: each
/// branch it shelves is one it updates to a commit, under `refs/heads/`.
pub proof fn lemma_shelved_branches_sound(
    refs: Seq<(Seq<char>, Seq<char>, Seq<char>)>,
    synced_branch: Seq<char>,
)
    ensures
        forall|k: int|
            0 <= k < branches_to_shelve_spec(refs, synced_branch).len() ==> {
                let b = #[trigger] branches_to_shelve_spec(refs, synced_branch)[k];
                &&& b != synced_branch
                &&& exists|i: int|
                    0 <= i < refs.len() && #[trigger] refs[i].2 == heads_prefix() + b && refs[i].1
                        != zero_sha()
            },
    decreases refs.len(),
{
    if refs.len() > 0 {
        let prev = refs.drop_last();
        lemma_shelved_branches_sound(prev, synced_branch);
        let out = branches_to_shelve_spec(refs, synced_branch);
        let pout = branches_to_shelve_spec(prev, synced_branch);
        assert forall|k: int| 0 <= k < out.len() implies {
            let b = #[trigger] out[k];
            &&& b != synced_branch
            &&& exists|i: int|
                0 <= i < refs.len() && #[trigger] refs[i].2 == heads_prefix() + b && refs[i].1
                    != zero_sha()
        } by {
            if k < pout.len() {
                assert(out[k] == pout[k]);
                let b = pout[k];
                let i = choose|i: int|
                    0 <= i < prev.len() && #[trigger] prev[i].2 == heads_prefix() + b && prev[i].1
                        != zero_sha();
                assert(refs[i] == prev[i]);
            } else {
                let (o, nw, r) = refs.last();
                let b = strip_prefix_spec(r, heads_prefix()).unwrap();
                assert(out[k] == b);
                assert(r =~= heads_prefix() + b);
                assert(refs[refs.len() - 1].2 == heads_prefix() + b);
                if b == synced_branch {
                    assert(r == heads_prefix() + synced_branch);
                }
            }
        }
    }
}

/// A push shelves every branch it updates to a commit under
/// `refs/heads/`, whatever its name (slashes included), but the synced
/// branch.
pub proof fn lemma_shelved_branches_complete(
    refs: Seq<(Seq<char>, Seq<char>, Seq<char>)>,
    synced_branch: Seq<char>,
)
    ensures
        forall|i: int, b: Seq<char>|
            0 <= i < refs.len() && #[trigger] refs[i].2 == heads_prefix() + b && refs[i].1
                != zero_sha() && b != synced_branch ==> #[trigger] branches_to_shelve_spec(
                refs,
                synced_branch,
            ).contains(b),
    decreases refs.len(),
{
    if refs.len() > 0 {
        let prev = refs.drop_last();
        lemma_shelved_branches_complete(prev, synced_branch);
        let out = branches_to_shelve_spec(refs, synced_branch);
        let pout = branches_to_shelve_spec(prev, synced_branch);
        assert forall|i: int, b: Seq<char>|
            0 <= i < refs.len() && #[trigger] refs[i].2 == heads_prefix() + b && refs[i].1
                != zero_sha() && b != synced_branch implies #[trigger] out.contains(b) by {
            let n = refs.len() - 1;
            if i < n {
                assert(prev[i] == refs[i]);
                assert(pout.contains(b));
                let j = choose|j: int| 0 <= j < pout.len() && pout[j] == b;
                assert(out.len() >= pout.len());
                assert(out[j] == pout[j]);
            } else {
                let r = refs[i].2;
                let hp = heads_prefix();
                assert(r.subrange(0, hp.len() as int) =~= hp);
                assert(r.subrange(hp.len() as int, r.len() as int) =~= b);
                assert(strip_prefix_spec(r, hp) == Some(b));
                if r == hp + synced_branch {
                    assert(b =~= (hp + synced_branch).subrange(hp.len() as int, r.len() as int));
                    assert(b =~= synced_branch);
                }
                assert(out == pout.push(b));
                assert(out[out.len() - 1] == b);
            }
        }
    }
}

/// Whether a push shelves the branch of the ref update `u` (old id, new
/// id, ref name): it names a branch under `refs/heads/`, other than the
/// synced branch, and does not delete it.
pub open spec fn shelves_update(u: (Seq<char>, Seq<char>, Seq<char>), synced_branch: Seq<char>) -> bool {
    &&& u.1 != zero_sha()
    &&& seq_starts_with(u.2, heads_prefix())
    &&& u.2 != heads_prefix() + synced_branch
}

/// The branches a push shelves are exactly the branch names of the
/// updates it shelves, one per such update, in the order of the updates.
pub proof fn lemma_shelved_branches_exact(
    refs: Seq<(Seq<char>, Seq<char>, Seq<char>)>,
    synced_branch: Seq<char>,
)
    ensures
        branches_to_shelve_spec(refs, synced_branch) == refs.filter(
            |u: (Seq<char>, Seq<char>, Seq<char>)| shelves_update(u, synced_branch),
        ).map_values(
            |u: (Seq<char>, Seq<char>, Seq<char>)| u.2.subrange(heads_prefix().len() as int, u.2.len() as int),
        ),
    decreases refs.len(),
{
    reveal(Seq::filter);
    let pred = |u: (Seq<char>, Seq<char>, Seq<char>)| shelves_update(u, synced_branch);
    let f = |u: (Seq<char>, Seq<char>, Seq<char>)| u.2.subrange(heads_prefix().len() as int, u.2.len() as int);
    if refs.len() == 0 {
        assert(refs.filter(pred).map_values(f) =~= Seq::<Seq<char>>::empty());
    } else {
        lemma_shelved_branches_exact(refs.drop_last(), synced_branch);
        let prevf = refs.drop_last().filter(pred);
        if pred(refs.last()) {
            assert(refs.filter(pred) == prevf.push(refs.last()));
            assert(prevf.push(refs.last()).map_values(f) =~= prevf.map_values(f).push(f(refs.last())));
        } else {
            assert(refs.filter(pred) == prevf);
        }
    }
}

/// The branches a push shelves.
pub fn branches_to_shelve(refs: &[RefUpdate], synced_branch: &str) -> (r: Vec<String>)
    ensures
        r@.map_values(|s: String| s@) == branches_to_shelve_spec(
            refs@.map_values(|u: RefUpdate| u@),
            synced_branch@,
        ),
{
    let zero = "0000000000000000000000000000000000000000".to_owned();
    let synced_ref = branch_ref(synced_branch);
    let ghost all = refs@.map_values(|u: RefUpdate| u@);
    let mut r: Vec<String> = Vec::new();
    let mut k: usize = 0;
    while k < refs.len()
        invariant
            k <= refs@.len(),
            all == refs@.map_values(|u: RefUpdate| u@),
            zero@ == zero_sha(),
            synced_ref@ == heads_prefix() + synced_branch@,
            r@.map_values(|s: String| s@) == branches_to_shelve_spec(all.take(k as int), synced_branch@),
        decreases refs.len() - k,
    {
        let u = &refs[k];
        let ghost before = r@.map_values(|s: String| s@);
        proof {
            assert(all.take(k + 1).drop_last() =~= all.take(k as int));
            assert(all.take(k + 1).last() == all[k as int]);
        }
        if u.new_sha != zero && u.refname != synced_ref {
            match strip_prefix(u.refname.as_str(), "refs/heads/") {
                Some(b) => {
                    r.push(b);
                    assert(r@.map_values(|s: String| s@) =~= before.push(
                        strip_prefix_spec(all[k as int].2, heads_prefix()).unwrap(),
                    ));
                },
                None => {},
            }
        }
        k = k + 1;
    }
    assert(all.take(refs@.len() as int) =~= all);
    r
}

// ------------------------------------------------------------ shelving

/// `group/name/branch`, the key a branch's shelving is tracked under.
pub fn tracker_key(group: &str, name: &str, branch: &str) -> (r: String)
    ensures
        r@ == group@ + "/"@ + name@ + "/"@ + branch@,
{
    let mut r = group.to_owned();
    r.append("/");
    r.append(name);
    r.append("/");
    r.append(branch);
    r
}

/// What the pusher is told of a branch queued for background shelving.
pub fn queued_message(branch: &str) -> (r: String)
    ensures
        r@ == "Shelving branch '"@ + branch@ + "' in background"@,
{
    let mut r = "Shelving branch '".to_owned();
    r.append(branch);
    r.append("' in background");
    r
}

/// What the pusher is told of a branch queued for background shelving.
pub open spec fn queued_text(branch: Seq<char>) -> Seq<char> {
    "Shelving branch '"@ + branch + "' in background"@
}

/// Queues `branches` of `group/name` for background shelving: the key of
/// each is queued, every other key keeps its state, and the pusher is told
/// of each branch, in order.
#[verifier::spinoff_prover]
pub fn queue_branches(
    active: &mut ActiveShelves,
    group: &str,
    name: &str,
    branches: &[String],
) -> (r: Vec<String>)
    ensures
        r@.map_values(|m: String| m@) == branches@.map_values(|b: String| queued_text(b@)),
        forall|i: int|
            0 <= i < branches@.len() ==> {
                let key = key_of(group@, name@, (#[trigger] branches@[i])@);
                &&& final(active)@.dom().contains(key)
                &&& final(active)@[key] == ShelveState::Queued
            },
        forall|key: Seq<char>|
            !is_key_among(group@, name@, branches@, branches@.len() as int, key) ==> (#[trigger] final(active)@.dom().contains(key)
                == old(active)@.dom().contains(key) && (old(active)@.dom().contains(key)
                ==> final(active)@[key] == old(active)@[key])),
{
    let ghost want = branches@.map_values(|b: String| queued_text(b@));
    let mut r: Vec<String> = Vec::new();
    let mut k: usize = 0;
    while k < branches.len()
        invariant
            k <= branches@.len(),
            want == branches@.map_values(|b: String| queued_text(b@)),
            r@.map_values(|m: String| m@) == want.take(k as int),
            forall|i: int|
                0 <= i < k ==> {
                    let key = key_of(group@, name@, (#[trigger] branches@[i])@);
                    &&& active@.dom().contains(key)
                    &&& active@[key] == ShelveState::Queued
                },
            forall|key: Seq<char>|
                !is_key_among(group@, name@, branches@, k as int, key) ==> (#[trigger] active@.dom().contains(key)
                    == old(active)@.dom().contains(key) && (old(active)@.dom().contains(key)
                    ==> active@[key] == old(active)@[key])),
        decreases branches.len() - k,
    {
        let key = tracker_key(group, name, branches[k].as_str());
        active.set_queued(key.as_str());
        let ghost before = r@.map_values(|m: String| m@);
        r.push(queued_message(branches[k].as_str()));
        proof {
            assert(key@ == key_of(group@, name@, branches@[k as int]@));
            assert(r@.map_values(|m: String| m@) =~= before.push(queued_text(branches@[k as int]@)));
            assert(want.take(k + 1) =~= want.take(k as int).push(want[k as int]));
            assert forall|key2: Seq<char>|
                !is_key_among(group@, name@, branches@, k + 1, key2) implies (#[trigger] active@.dom().contains(key2)
                    == old(active)@.dom().contains(key2) && (old(active)@.dom().contains(key2)
                    ==> active@[key2] == old(active)@[key2])) by {
                if key2 == key@ {
                    assert(is_key_among(group@, name@, branches@, k + 1, key2));
                }
                if is_key_among(group@, name@, branches@, k as int, key2) {
                    let i = choose|i: int| 0 <= i < k && key2 == key_of(group@, name@, #[trigger] branches@[i]@);
                    assert(is_key_among(group@, name@, branches@, k + 1, key2));
                }
            }
        }
        k = k + 1;
    }
    assert(want.take(branches@.len() as int) =~= want);
    assert(k == branches@.len());
    assert forall|key: Seq<char>|
        !is_key_among(group@, name@, branches@, branches@.len() as int, key) implies (#[trigger] active@.dom().contains(key)
            == old(active)@.dom().contains(key) && (old(active)@.dom().contains(key)
            ==> active@[key] == old(active)@[key])) by {
        assert(!is_key_among(group@, name@, branches@, k as int, key));
    }
    r
}

/// The state a branch's background shelving ends in: done with the
/// changelist and client of its shelve, or failed with the error.
pub open spec fn outcome_state(outcome: Result<ShelveResult, String>) -> ShelveState {
    match outcome {
        Ok(res) => ShelveState::Done { changelist: res.changelist, client: res.client_name },
        Err(e) => ShelveState::Failed { error: e },
    }
}

/// The tracker after a background run over the branch keys `keys`, from
/// `m`: each key in turn is marked shelving (`set_shelving`) and then given
/// the outcome of its shelve (`finish_background_shelve`).
pub open spec fn background_run(
    m: Map<Seq<char>, ShelveState>,
    keys: Seq<Seq<char>>,
    outcomes: Seq<Result<ShelveResult, String>>,
) -> Map<Seq<char>, ShelveState>
    decreases keys.len(),
{
    if keys.len() == 0 {
        m
    } else {
        background_run(m, keys.drop_last(), outcomes).insert(keys.last(), ShelveState::Shelving).insert(
            keys.last(),
            outcome_state(outcomes[keys.len() - 1]),
        )
    }
}

/// A background run leaves every branch it shelved done or failed, never
/// queued or shelving; a branch whose key comes once holds the outcome of
/// its own shelve; and every other key keeps its state.
pub proof fn lemma_background_run_settles(
    m: Map<Seq<char>, ShelveState>,
    keys: Seq<Seq<char>>,
    outcomes: Seq<Result<ShelveResult, String>>,
)
    requires
        outcomes.len() == keys.len(),
    ensures
        forall|i: int|
            0 <= i < keys.len() ==> {
                let after = background_run(m, keys, outcomes);
                &&& after.dom().contains(#[trigger] keys[i])
                &&& (after[keys[i]] is Done || after[keys[i]] is Failed)
            },
        forall|i: int|
            0 <= i < keys.len() && (forall|j: int| 0 <= j < keys.len() && j != i ==> keys[j] != keys[i])
                ==> background_run(m, keys, outcomes)[#[trigger] keys[i]] == outcome_state(outcomes[i]),
        forall|k: Seq<char>|
            !keys.contains(k) ==> (#[trigger] background_run(m, keys, outcomes).dom().contains(k)
                == m.dom().contains(k) && (m.dom().contains(k) ==> background_run(m, keys, outcomes)[k]
                == m[k])),
    decreases keys.len(),
{
    if keys.len() > 0 {
        let n = keys.len() - 1;
        let pk = keys.drop_last();
        let po = outcomes.drop_last();
        lemma_background_run_settles(m, pk, po);
        lemma_background_run_prefix(m, pk, outcomes, po);
        let prev = background_run(m, pk, outcomes);
        let after = background_run(m, keys, outcomes);
        assert(after == prev.insert(keys[n], ShelveState::Shelving).insert(keys[n], outcome_state(outcomes[n])));
        assert forall|i: int| 0 <= i < keys.len() implies {
            &&& after.dom().contains(#[trigger] keys[i])
            &&& (after[keys[i]] is Done || after[keys[i]] is Failed)
        } by {
            if keys[i] != keys[n] {
                assert(pk[i] == keys[i]);
            }
        }
        assert forall|i: int|
            0 <= i < keys.len() && (forall|j: int| 0 <= j < keys.len() && j != i ==> keys[j] != keys[i])
                implies after[#[trigger] keys[i]] == outcome_state(outcomes[i]) by {
            if i < n {
                assert(keys[n] != keys[i]);
                assert(pk[i] == keys[i]);
                assert forall|j: int| 0 <= j < pk.len() && j != i implies pk[j] != pk[i] by {
                    assert(pk[j] == keys[j]);
                }
                assert(po[i] == outcomes[i]);
            }
        }
        assert forall|k: Seq<char>| !keys.contains(k) implies (#[trigger] after.dom().contains(k)
            == m.dom().contains(k) && (m.dom().contains(k) ==> after[k] == m[k])) by {
            assert(k != keys[n]);
            if pk.contains(k) {
                let j = choose|j: int| 0 <= j < pk.len() && pk[j] == k;
                assert(keys[j] == k);
            }
        }
    }
}

/// A run over the first keys reads only their outcomes.
proof fn lemma_background_run_prefix(
    m: Map<Seq<char>, ShelveState>,
    keys: Seq<Seq<char>>,
    o1: Seq<Result<ShelveResult, String>>,
    o2: Seq<Result<ShelveResult, String>>,
)
    requires
        keys.len() <= o1.len(),
        keys.len() <= o2.len(),
        forall|i: int| 0 <= i < keys.len() ==> o1[i] == o2[i],
    ensures
        background_run(m, keys, o1) == background_run(m, keys, o2),
    decreases keys.len(),
{
    if keys.len() > 0 {
        lemma_background_run_prefix(m, keys.drop_last(), o1, o2);
    }
}

/// Records how the background shelving of the branch `branch` under `key`
/// ended, and gives its one event: done with its changelist and client,
/// and a completed or reshelved event, when it went through; failed with
/// the error, and a failed event, when it did not. Every other key keeps
/// its state.
pub fn finish_background_shelve(
    active: &mut ActiveShelves,
    key: &str,
    now: i64,
    user: &str,
    repo: &str,
    branch: &str,
    outcome: Result<ShelveResult, String>,
    duration_ms: u64,
) -> (r: ObservabilityEvent)
    ensures
        final(active)@ == old(active)@.insert(key@, outcome_state(outcome)),
        match outcome {
            Ok(res) => r@ == shelve_done_view(now, user@, repo@, branch@, res, duration_ms, true),
            Err(e) => r@ == (EventView::ShelveFailed {
                timestamp: now,
                user: user@,
                repo: repo@,
                branch: branch@,
                error: e@,
                duration_ms,
                is_async: true,
            }),
        },
{
    match outcome {
        Ok(res) => {
            active.set_done(key, res.changelist, res.client_name.clone());
            shelve_done_event(now, user, repo, branch, &res, duration_ms, true)
        },
        Err(e) => {
            active.set_failed(key, e.clone());
            ObservabilityEvent::ShelveFailed {
                timestamp: now,
                user: user.to_owned(),
                repo: repo.to_owned(),
                branch: branch.to_owned(),
                error: e,
                duration_ms,
                is_async: true,
            }
        },
    }
}

/// What the pusher is told of a branch shelved as `changelist` on the
/// shelve client `client`.
pub fn shelved_message(branch: &str, changelist: usize, client: &str) -> (r: String)
    ensures
        r@ == "Shelved branch '"@ + branch@ + "' as CL "@ + decimal(changelist as nat)
            + " on client '"@ + client@ + "'"@,
{
    let mut r = "Shelved branch '".to_owned();
    r.append(branch);
    r.append("' as CL ");
    append_decimal(&mut r, changelist);
    r.append(" on client '");
    r.append(client);
    r.append("'");
    r
}

/// What the pusher is told of a branch whose shelving failed.
pub fn shelve_failed_message(branch: &str, error: &str) -> (r: String)
    ensures
        r@ == "Failed to shelve branch '"@ + branch@ + "': "@ + error@,
{
    let mut r = "Failed to shelve branch '".to_owned();
    r.append(branch);
    r.append("': ");
    r.append(error);
    r
}

/// `parts` joined with `sep` between each two.
pub open spec fn join_spec(parts: Seq<Seq<char>>, sep: Seq<char>) -> Seq<char>
    decreases parts.len(),
{
    if parts.len() == 0 {
        Seq::empty()
    } else if parts.len() == 1 {
        parts[0]
    } else {
        join_spec(parts.drop_last(), sep) + sep + parts.last()
    }
}

/// `parts` joined with `sep` between each two.
pub fn join(parts: &[String], sep: &str) -> (r: String)
    ensures
        r@ == join_spec(parts@.map_values(|s: String| s@), sep@),
{
    let ghost all = parts@.map_values(|s: String| s@);
    let mut r = String::new();
    let mut k: usize = 0;
    while k < parts.len()
        invariant
            k <= parts@.len(),
            all == parts@.map_values(|s: String| s@),
            r@ == join_spec(all.take(k as int), sep@),
        decreases parts.len() - k,
    {
        proof {
            assert(all.take(k + 1).drop_last() =~= all.take(k as int));
        }
        if k > 0 {
            r.append(sep);
        }
        r.append(parts[k].as_str());
        proof {
            if k == 0 {
                assert(all.take(1)[0] == all[0]);
                assert(r@ =~= join_spec(all.take(k + 1), sep@));
            }
        }
        k = k + 1;
    }
    assert(all.take(parts@.len() as int) =~= all);
    r
}

/// How the server answers a push once git has taken it.
#[derive(Debug)]
pub enum PushReply {
    /// A git error carrying this message: some branch failed to shelve.
    ShelveFailed(String),
    /// git's own answer, with these progress lines put in.
    WithMessages(String),
    /// git's own answer, as it is.
    AsIs,
}

/// The answer to a push after its branches were shelved: an error when
/// any failed, naming each failure on a line of its own; else git's answer,
/// with what shelving said put in as progress lines when it said anything.
pub fn push_reply(errors: &[String], messages: &[String]) -> (r: PushReply)
    ensures
        errors@.len() > 0 ==> (r matches PushReply::ShelveFailed(m) && m@
            == "Push succeeded but shelving failed:\n"@ + join_spec(
            errors@.map_values(|s: String| s@),
            "\n"@,
        )),
        errors@.len() == 0 && messages@.len() > 0 ==> (r matches PushReply::WithMessages(m) && m@
            == join_spec(messages@.map_values(|s: String| s@), "\n"@)),
        errors@.len() == 0 && messages@.len() == 0 ==> r is AsIs,
{
    if errors.len() > 0 {
        let mut m = "Push succeeded but shelving failed:\n".to_owned();
        let joined = join(errors, "\n");
        m.append(joined.as_str());
        PushReply::ShelveFailed(m)
    } else if messages.len() > 0 {
        PushReply::WithMessages(join(messages, "\n"))
    } else {
        PushReply::AsIs
    }
}

/// Whether a request's branches are shelved once git-http-backend has
/// answered with `status`: only for an authenticated push that git took.
pub fn shelves_after_backend(receive_pack: bool, status: u16, authenticated: bool) -> (r: bool)
    ensures
        r == (receive_pack && 200 <= status < 300 && authenticated),
{
    receive_pack && 200 <= status && status < 300 && authenticated
}

/// The tracker key of the `i`-th of `branches`.
pub open spec fn key_of(group: Seq<char>, name: Seq<char>, branch: Seq<char>) -> Seq<char> {
    group + "/"@ + name + "/"@ + branch
}

/// Whether `key` is the tracker key of one of the first `n` of `branches`.
pub open spec fn is_key_among(
    group: Seq<char>,
    name: Seq<char>,
    branches: Seq<String>,
    n: int,
    key: Seq<char>,
) -> bool {
    exists|i: int| 0 <= i < n && key == key_of(group, name, #[trigger] branches[i]@)
}

/// Records `error` for every branch of `group/name` in `branches`, as the
/// background shelver does when it cannot start at all; every other key
/// keeps its state.
pub fn fail_all(
    active: &mut ActiveShelves,
    group: &str,
    name: &str,
    branches: &[String],
    error: &str,
)
    ensures
        forall|i: int|
            0 <= i < branches@.len() ==> {
                let key = key_of(group@, name@, (#[trigger] branches@[i])@);
                &&& final(active)@.dom().contains(key)
                &&& final(active)@[key] matches ShelveState::Failed { error: e } && e@ == error@
            },
        forall|key: Seq<char>|
            !is_key_among(group@, name@, branches@, branches@.len() as int, key) ==> (#[trigger] final(active)@.dom().contains(key)
                == old(active)@.dom().contains(key) && (old(active)@.dom().contains(key)
                ==> final(active)@[key] == old(active)@[key])),
{
    let mut k: usize = 0;
    while k < branches.len()
        invariant
            k <= branches@.len(),
            forall|i: int|
                0 <= i < k ==> {
                    let key = key_of(group@, name@, (#[trigger] branches@[i])@);
                    &&& active@.dom().contains(key)
                    &&& active@[key] matches ShelveState::Failed { error: e } && e@ == error@
                },
            forall|key: Seq<char>|
                !is_key_among(group@, name@, branches@, k as int, key) ==> (#[trigger] active@.dom().contains(key)
                    == old(active)@.dom().contains(key) && (old(active)@.dom().contains(key)
                    ==> active@[key] == old(active)@[key])),
        decreases branches.len() - k,
    {
        let key = tracker_key(group, name, branches[k].as_str());
        let ghost before = active@;
        active.set_failed(key.as_str(), error.to_owned());
        proof {
            assert(key@ == key_of(group@, name@, branches@[k as int]@));
            assert forall|key2: Seq<char>|
                !is_key_among(group@, name@, branches@, k + 1, key2) implies (#[trigger] active@.dom().contains(key2)
                    == old(active)@.dom().contains(key2) && (old(active)@.dom().contains(key2)
                    ==> active@[key2] == old(active)@[key2])) by {
                if key2 == key@ {
                    assert(is_key_among(group@, name@, branches@, k + 1, key2));
                }
                if is_key_among(group@, name@, branches@, k as int, key2) {
                    let i = choose|i: int| 0 <= i < k && key2 == key_of(group@, name@, #[trigger] branches@[i]@);
                    assert(is_key_among(group@, name@, branches@, k + 1, key2));
                }
            }
        }
        k = k + 1;
    }
}

/// The state of a branch's shelving as the database remembers it, for a
/// branch no longer tracked: done, as the changelist stored for it, by its
/// shelver (empty when unknown); none when no changelist is stored.
pub fn stored_shelve_state(changelist: Option<usize>, shelver: Option<String>) -> (r: Option<
    ShelveState,
>)
    ensures
        match changelist {
            None => r is None,
            Some(cl) => r matches Some(ShelveState::Done { changelist: c, client }) && c == cl
                && client@ == match shelver {
                Some(s) => s@,
                None => Seq::<char>::empty(),
            },
        },
{
    match changelist {
        None => None,
        Some(cl) => {
            let client = match shelver {
                Some(s) => s,
                None => String::new(),
            };
            Some(ShelveState::Done { changelist: cl, client })
        },
    }
}

/// The state the status endpoint reports for a branch: the tracker's,
/// when the tracker holds the branch; else what the database remembers
/// (`stored`, which is only read when the tracker holds nothing); none,
/// answered with 404, when neither knows the branch.
pub fn shelve_status_answer(in_tracker: Option<ShelveState>, stored: Option<ShelveState>) -> (r:
    Option<ShelveState>)
    ensures
        r == match in_tracker {
            Some(s) => Some(s),
            None => stored,
        },
{
    match in_tracker {
        Some(s) => Some(s),
        None => stored,
    }
}

// ------------------------------------------------------------ aliases

/// Whether `username` may alias the shelved changelist `shelved_cl`, whose
/// shelver is `shelver` (none when the changelist is unknown).
pub fn check_alias(shelver: Option<&str>, username: &str, shelved_cl: usize) -> (r: Result<
    (),
    String,
>)
    ensures
        shelver is None ==> (r matches Err(m) && m@ == "Shelved CL "@ + decimal(
            shelved_cl as nat,
        ) + " not found"@),
        shelver matches Some(s) ==> (s@ != username@ ==> (r matches Err(m) && m@
            == "Only the shelver ("@ + s@ + ") can create aliases for CL "@ + decimal(
            shelved_cl as nat,
        ))) && (s@ == username@ ==> r is Ok),
{
    match shelver {
        None => {
            let mut m = "Shelved CL ".to_owned();
            append_decimal(&mut m, shelved_cl);
            m.append(" not found");
            Err(m)
        },
        Some(s) => {
            if s.to_owned() != username.to_owned() {
                let mut m = "Only the shelver (".to_owned();
                m.append(s);
                m.append(") can create aliases for CL ");
                append_decimal(&mut m, shelved_cl);
                Err(m)
            } else {
                Ok(())
            }
        },
    }
}

/// The HTTP status an alias request that failed with `error` is answered
/// with: 404 for what was not found, 403 for a user who is not the
/// shelver, 500 for anything else.
pub fn alias_error_status(error: &str) -> (r: u16)
    ensures
        seq_contains_seq(error@, "not found"@) ==> r == 404,
        !seq_contains_seq(error@, "not found"@) && seq_contains_seq(error@, "Only the shelver"@)
            ==> r == 403,
        !seq_contains_seq(error@, "not found"@) && !seq_contains_seq(error@, "Only the shelver"@)
            ==> r == 500,
{
    if contains_str(error, "not found") {
        404
    } else if contains_str(error, "Only the shelver") {
        403
    } else {
        500
    }
}

} // verus!
