//! Paths held as text, joined the way a Unix `Path::join` joins them.

use vstd::prelude::*;
use crate::text::{chars_of, push_char, seq_ends_with, seq_starts_with};

verus! {

/// `base` joined with `comp`: an absolute `comp` replaces `base`; else
/// `comp` follows `base`, after a `/` unless `base` is empty or already
/// ends with one.
pub open spec fn join_spec(base: Seq<char>, comp: Seq<char>) -> Seq<char> {
    if seq_starts_with(comp, seq!['/']) {
        comp
    } else if base.len() == 0 || seq_ends_with(base, seq!['/']) {
        base + comp
    } else {
        base + seq!['/'] + comp
    }
}

/// `base` joined with `comp`.
pub fn join(base: &str, comp: &str) -> (r: String)
    ensures
        r@ == join_spec(base@, comp@),
{
    let b = chars_of(base);
    let c = chars_of(comp);
    let mut r = String::new();
    if c.len() > 0 && c[0] == '/' {
        r.append(comp);
        assert(comp@.subrange(0, 1) =~= seq!['/']);
        assert(r@ =~= join_spec(base@, comp@));
        return r;
    }
    assert(!seq_starts_with(comp@, seq!['/'])) by {
        if c@.len() > 0 {
            assert(comp@.subrange(0, 1)[0] == c@[0]);
        }
    }
    r.append(base);
    if b.len() > 0 && b[b.len() - 1] != '/' {
        assert(!seq_ends_with(base@, seq!['/'])) by {
            assert(base@.subrange(base@.len() - 1, base@.len() as int)[0] == b@[b@.len() - 1]);
        }
        push_char(&mut r, '/');
        r.append(comp);
        assert(r@ =~= join_spec(base@, comp@));
    } else {
        if b.len() > 0 {
            assert(base@.subrange(base@.len() - 1, base@.len() as int) =~= seq!['/']);
        }
        r.append(comp);
        assert(r@ =~= join_spec(base@, comp@));
    }
    r
}

} // verus!
