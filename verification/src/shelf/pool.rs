//! The per-user shelve workspaces: their names, where they live, and the
//! client view each one copies from the mirrored client.

use vstd::prelude::*;
use crate::text::{
    append_decimal, chars_of, contains_str, decimal, matches_at, seq_contains_seq,
    seq_starts_with,
};
use crate::util::paths::{join, join_spec};

verus! {

/// Why a shelve workspace cannot be had.
#[derive(Debug)]
pub enum ShelveClientError {
    NoShelveConfig,
    ClientBusy,
    P4(String),
    Io(String),
    InvalidPath,
}

impl ShelveClientError {
    /// What the error says.
    pub fn message(&self) -> (r: String)
        ensures
            match self {
                ShelveClientError::NoShelveConfig => r@ == "No shelve config found"@,
                ShelveClientError::ClientBusy => r@ == "Client is busy (locked by another operation)"@,
                ShelveClientError::P4(m) => r@ == "P4 error: "@ + m@,
                ShelveClientError::Io(m) => r@ == "IO error: "@ + m@,
                ShelveClientError::InvalidPath => r@ == "Invalid path"@,
            },
    {
        match self {
            ShelveClientError::NoShelveConfig => "No shelve config found".to_owned(),
            ShelveClientError::ClientBusy => "Client is busy (locked by another operation)".to_owned(),
            ShelveClientError::P4(m) => {
                let mut r = "P4 error: ".to_owned();
                r.append(m.as_str());
                r
            },
            ShelveClientError::Io(m) => {
                let mut r = "IO error: ".to_owned();
                r.append(m.as_str());
                r
            },
            ShelveClientError::InvalidPath => "Invalid path".to_owned(),
        }
    }
}

/// The shelve workspace of `user_id` for the mirrored client `base`:
/// `<base>-<user>-shelve`.
pub fn shelve_client_name(base: &str, user_id: &str) -> (r: String)
    ensures
        r@ == base@ + "-"@ + user_id@ + "-shelve"@,
{
    let mut r = base.to_owned();
    r.append("-");
    r.append(user_id);
    r.append("-shelve");
    r
}

/// Where a shelve workspace lives: under the configured root, by name.
pub fn shelve_client_root(clients_root: &str, client_name: &str) -> (r: String)
    ensures
        r@ == join_spec(clients_root@, client_name@),
{
    join(clients_root, client_name)
}

/// `.prgit.lock`, the file that holds a workspace for one shelve at a time.
pub open spec fn lock_file_name() -> Seq<char> {
    ".prgit.lock"@
}

/// The lock file of the workspace at `client_root`.
pub fn lock_path(client_root: &str) -> (r: String)
    ensures
        r@ == join_spec(client_root@, lock_file_name()),
{
    join(client_root, ".prgit.lock")
}

/// Whether a workspace entry is the lock file, which clearing the
/// workspace keeps.
pub fn is_lock_file(name: &str) -> (r: bool)
    ensures
        r == (name@ == lock_file_name()),
{
    name.to_owned() == ".prgit.lock".to_owned()
}

/// One line of a client view: a depot path and where it lands in the
/// client.
#[derive(Debug)]
pub struct ClientMapping {
    pub depot: String,
    pub client: String,
}

/// `t` before, between and after the characters of `s`: what replacing
/// the empty string by `t` gives.
pub open spec fn interleave_spec(s: Seq<char>, t: Seq<char>) -> Seq<char>
    decreases s.len(),
{
    if s.len() == 0 {
        t
    } else {
        t + seq![s[0]] + interleave_spec(s.subrange(1, s.len() as int), t)
    }
}

/// `s` with each occurrence of `p`, from left to right and not
/// overlapping, replaced by `t` (what `str::replace` does); an empty `p`
/// occurs before each character and at the end.
pub open spec fn replace_spec(s: Seq<char>, p: Seq<char>, t: Seq<char>) -> Seq<char>
    decreases s.len(),
{
    if p.len() == 0 {
        interleave_spec(s, t)
    } else if s.len() < p.len() {
        s
    } else if seq_starts_with(s, p) {
        t + replace_spec(s.subrange(p.len() as int, s.len() as int), p, t)
    } else {
        seq![s[0]] + replace_spec(s.subrange(1, s.len() as int), p, t)
    }
}

/// `s` with each occurrence of `p` replaced by `t`.
pub fn replace(s: &str, p: &str, t: &str) -> (r: String)
    ensures
        r@ == replace_spec(s@, p@, t@),
{
    let cs = chars_of(s);
    let ps = chars_of(p);
    let mut r = String::new();
    let mut i: usize = 0;
    if ps.len() == 0 {
        assert(cs@.subrange(0, cs@.len() as int) =~= s@);
        assert(r@ + interleave_spec(s@, t@) =~= interleave_spec(s@, t@));
        while i < cs.len()
            invariant
                cs@ == s@,
                i <= cs@.len(),
                r@ + interleave_spec(cs@.subrange(i as int, cs@.len() as int), t@) == interleave_spec(
                    s@,
                    t@,
                ),
            decreases cs.len() - i,
        {
            let ghost rest = cs@.subrange(i as int, cs@.len() as int);
            let ghost before = r@;
            assert(rest.subrange(1, rest.len() as int) =~= cs@.subrange(i + 1, cs@.len() as int));
            r.append(t);
            crate::text::push_char(&mut r, cs[i]);
            assert(r@ =~= before + t@ + seq![rest[0]]);
            assert(before + interleave_spec(rest, t@) =~= r@ + interleave_spec(
                cs@.subrange(i + 1, cs@.len() as int),
                t@,
            ));
            i = i + 1;
        }
        assert(cs@.subrange(cs@.len() as int, cs@.len() as int) =~= Seq::<char>::empty());
        r.append(t);
        return r;
    }
    assert(cs@.subrange(0, cs@.len() as int) =~= s@);
    assert(r@ + replace_spec(s@, p@, t@) =~= replace_spec(s@, p@, t@));
    while i < cs.len()
        invariant
            cs@ == s@,
            ps@ == p@,
            ps@.len() > 0,
            i <= cs@.len(),
            r@ + replace_spec(cs@.subrange(i as int, cs@.len() as int), p@, t@) == replace_spec(
                s@,
                p@,
                t@,
            ),
        decreases cs.len() - i,
    {
        let ghost rest = cs@.subrange(i as int, cs@.len() as int);
        if matches_at(&cs, &ps, i) {
            assert(rest.subrange(0, ps@.len() as int) =~= cs@.subrange(i as int, i + ps@.len()));
            assert(rest.subrange(ps@.len() as int, rest.len() as int) =~= cs@.subrange(
                i + ps@.len(),
                cs@.len() as int,
            ));
            r.append(t);
            i = i + ps.len();
        } else {
            assert(!seq_starts_with(rest, p@)) by {
                if rest.len() >= ps@.len() {
                    assert(rest.subrange(0, ps@.len() as int) =~= cs@.subrange(
                        i as int,
                        i + ps@.len(),
                    ));
                }
            }
            if cs.len() - i < ps.len() {
                crate::text::append_chars(&mut r, &cs, i, cs.len());
                assert(rest =~= cs@.subrange(i as int, cs@.len() as int));
                assert(replace_spec(cs@.subrange(cs@.len() as int, cs@.len() as int), p@, t@)
                    =~= Seq::<char>::empty());
                assert(r@ =~= r@ + Seq::<char>::empty());
                i = cs.len();
            } else {
                crate::text::push_char(&mut r, cs[i]);
                assert(rest.subrange(1, rest.len() as int) =~= cs@.subrange(i + 1, cs@.len() as int));
                i = i + 1;
            }
        }
    }
    assert(cs@.subrange(cs@.len() as int, cs@.len() as int) =~= Seq::<char>::empty());
    r
}

/// The view of a shelve workspace: the mirrored client's view, each
/// client path moved from `//<base>/` to `//<client>/`.
pub fn shelve_client_view(view: &[ClientMapping], base: &str, client: &str) -> (r: Vec<
    ClientMapping,
>)
    ensures
        r@.len() == view@.len(),
        forall|i: int|
            0 <= i < view@.len() ==> (#[trigger] r@[i]).depot@ == view@[i].depot@ && r@[i].client@
                == replace_spec(view@[i].client@, "//"@ + base@ + "/"@, "//"@ + client@ + "/"@),
{
    let mut from = "//".to_owned();
    from.append(base);
    from.append("/");
    let mut to = "//".to_owned();
    to.append(client);
    to.append("/");
    proof {
        reveal_strlit("//");
    }
    let mut r: Vec<ClientMapping> = Vec::new();
    let mut k: usize = 0;
    while k < view.len()
        invariant
            k <= view@.len(),
            r@.len() == k,
            from@ == "//"@ + base@ + "/"@,
            to@ == "//"@ + client@ + "/"@,
            from@.len() > 0,
            forall|i: int|
                0 <= i < k ==> (#[trigger] r@[i]).depot@ == view@[i].depot@ && r@[i].client@
                    == replace_spec(view@[i].client@, from@, to@),
        decreases view.len() - k,
    {
        let m = &view[k];
        r.push(
            ClientMapping {
                depot: m.depot.clone(),
                client: replace(m.client.as_str(), from.as_str(), to.as_str()),
            },
        );
        k = k + 1;
    }
    r
}

/// `//<client>/<file>@<base_change>`, a file of a workspace as the base
/// change left it.
pub fn file_at_change(client: &str, file: &str, base_change: usize) -> (r: String)
    ensures
        r@ == "//"@ + client@ + "/"@ + file@ + "@"@ + decimal(base_change as nat),
{
    let mut r = "//".to_owned();
    r.append(client);
    r.append("/");
    r.append(file);
    r.append("@");
    append_decimal(&mut r, base_change);
    r
}

/// Whether a failed sync only found its files up to date, which is no
/// failure: one of its errors says `file(s) up-to-date`.
pub fn only_up_to_date(errors: &[String]) -> (r: bool)
    ensures
        r == exists|i: int|
            0 <= i < errors@.len() && seq_contains_seq(
                #[trigger] errors@[i]@,
                "file(s) up-to-date"@,
            ),
{
    let mut k: usize = 0;
    while k < errors.len()
        invariant
            k <= errors@.len(),
            forall|i: int|
                0 <= i < k ==> !seq_contains_seq(#[trigger] errors@[i]@, "file(s) up-to-date"@),
        decreases errors.len() - k,
    {
        if contains_str(errors[k].as_str(), "file(s) up-to-date") {
            return true;
        }
        k = k + 1;
    }
    false
}

} // verus!
