//! The git `post-receive` hook of a bare mirror repository: which pushed
//! branches it shelves, and the script that runs it.

use vstd::prelude::*;
use crate::text::{chars_of, split_words, strip_prefix, strip_prefix_spec, words_from};

verus! {

/// Every character of `s` is `0`: the id git gives a deleted ref.
pub open spec fn all_zero(s: Seq<char>) -> bool {
    forall|i: int| 0 <= i < s.len() ==> s[i] == '0'
}

/// The branch a hook input line `<old> <new> <ref>` shelves: none for a
/// line of another shape, a deletion, a ref that is no branch, or the
/// synced branch.
pub open spec fn hook_branch_spec(line: Seq<char>, synced_branch: Seq<char>) -> Option<Seq<char>> {
    let ws = words_from(line, 0);
    if ws.len() != 3 || all_zero(ws[1]) {
        None
    } else {
        match strip_prefix_spec(ws[2], "refs/heads/"@) {
            None => None,
            Some(b) => if b == synced_branch {
                None
            } else {
                Some(b)
            },
        }
    }
}

/// Whether every character of `s` is `0`.
pub fn is_all_zero(s: &str) -> (r: bool)
    ensures
        r == all_zero(s@),
{
    let cs = chars_of(s);
    let mut i: usize = 0;
    while i < cs.len()
        invariant
            cs@ == s@,
            i <= cs@.len(),
            forall|j: int| 0 <= j < i ==> cs@[j] == '0',
        decreases cs.len() - i,
    {
        if cs[i] != '0' {
            return false;
        }
        i = i + 1;
    }
    true
}

/// The branch a hook input line shelves.
pub fn hook_branch(line: &str, synced_branch: &str) -> (r: Option<String>)
    ensures
        match r {
            Some(b) => hook_branch_spec(line@, synced_branch@) == Some(b@),
            None => hook_branch_spec(line@, synced_branch@) is None,
        },
{
    let parts = split_words(line);
    let ghost ws = words_from(line@, 0);
    assert(parts@.len() == ws.len());
    if parts.len() != 3 {
        return None;
    }
    assert(parts@[1]@ == ws[1]);
    assert(parts@[2]@ == ws[2]);
    if is_all_zero(parts[1].as_str()) {
        return None;
    }
    match strip_prefix(parts[2].as_str(), "refs/heads/") {
        None => None,
        Some(b) => {
            if b == synced_branch.to_owned() {
                None
            } else {
                Some(b)
            }
        },
    }
}

/// The `post-receive` hook script: a bash script that runs `binary hook`
/// on the repository at `repo_path` for `client`.
pub fn hook_script(binary: &str, repo_path: &str, client: &str) -> (r: String)
    ensures
        r@ == "#!/bin/bash\n\""@ + binary@ + "\" hook --repo-path \""@ + repo_path@
            + "\" --client \""@ + client@ + "\"\n"@,
{
    let mut r = "#!/bin/bash\n\"".to_owned();
    r.append(binary);
    r.append("\" hook --repo-path \"");
    r.append(repo_path);
    r.append("\" --client \"");
    r.append(client);
    r.append("\"\n");
    r
}

} // verus!
