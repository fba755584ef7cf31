//! The git note that records which Perforce change a mirrored commit came
//! from, and reading the change numbers back out of such notes.

use vstd::prelude::*;
use crate::text::{
    chars_of, decimal, decimal_string, lemma_line_end_bounds, lemma_parse_decimal,
    lemma_trimmed_bounds_unique, line_bounds, line_end, line_text, lines_from, matches_at,
    parse_usize, parse_usize_spec, seq_starts_with, trim_bounds, trim_spec, trimmed_bounds,
};

verus! {

/// The Perforce side of a mirrored commit.
pub struct CommitMetadata {
    pub change: usize,
    pub old_change: Option<usize>,
    pub client: String,
}

/// `P4-Change: `
pub open spec fn change_key() -> Seq<char> {
    Seq::empty().push('P').push('4').push('-').push('C').push('h').push('a').push('n').push('g').push('e').push(':').push(' ')
}

/// `P4-Client: `
pub open spec fn client_key() -> Seq<char> {
    Seq::empty().push('P').push('4').push('-').push('C').push('l').push('i').push('e').push('n').push('t').push(':').push(' ')
}

/// `P4-OldChange: `
pub open spec fn old_change_key() -> Seq<char> {
    Seq::empty().push('P').push('4').push('-').push('O').push('l').push('d').push('C').push('h').push('a').push('n').push('g').push('e').push(':').push(' ')
}

/// The note for a commit: `P4-Change: <n>`, `P4-Client: <client>` and,
/// for a renumbered change, `P4-OldChange: <old>`, one per line.
pub open spec fn note_text(change: nat, client: Seq<char>, old_change: Option<nat>) -> Seq<char> {
    change_key() + decimal(change) + seq!['\n'] + client_key() + client + match old_change {
        Some(o) => seq!['\n'] + old_change_key() + decimal(o),
        None => Seq::empty(),
    }
}

/// The note that ties a mirrored commit to its change.
pub fn format_note(metadata: &CommitMetadata) -> (note: String)
    ensures
        note@ == note_text(
            metadata.change as nat,
            metadata.client@,
            match metadata.old_change {
                Some(o) => Some(o as nat),
                None => None,
            },
        ),
{
    let mut note = String::new();
    proof {
        reveal_strlit("P4-Change: ");
        reveal_strlit("\nP4-Client: ");
        reveal_strlit("\nP4-OldChange: ");
    }
    note.append("P4-Change: ");
    let c = decimal_string(metadata.change);
    note.append(c.as_str());
    note.append("\nP4-Client: ");
    note.append(metadata.client.as_str());
    let ghost head = note@;
    if let Some(old) = metadata.old_change {
        note.append("\nP4-OldChange: ");
        let o = decimal_string(old);
        note.append(o.as_str());
    }
    assert(note@ =~= note_text(
        metadata.change as nat,
        metadata.client@,
        match metadata.old_change {
            Some(o) => Some(o as nat),
            None => None,
        },
    ));
    note
}

/// The change number a note line names, if it is a `P4-Change:` line
/// whose value (surrounding whitespace ignored) is a number.
pub open spec fn change_of_line(l: Seq<char>) -> Option<usize> {
    if seq_starts_with(l, change_key()) {
        parse_usize_spec(trim_spec(l.subrange(11, l.len() as int)))
    } else {
        None
    }
}

/// The change numbers named by a sequence of lines, in order.
pub open spec fn changes_of_lines(ls: Seq<Seq<char>>) -> Seq<usize>
    decreases ls.len(),
{
    if ls.len() == 0 {
        Seq::empty()
    } else {
        let rest = changes_of_lines(ls.drop_last());
        match change_of_line(ls.last()) {
            Some(c) => rest.push(c),
            None => rest,
        }
    }
}

/// The change numbers named by the `P4-Change:` lines of a note.
pub open spec fn note_changes_spec(note: Seq<char>) -> Seq<usize> {
    changes_of_lines(lines_from(note, 0))
}

/// Reads the change numbers out of a note's `P4-Change:` lines.
pub fn note_changes(note: &str) -> (r: Vec<usize>)
    ensures
        r@ == note_changes_spec(note@),
{
    let s: Vec<char> = chars_of(note);
    let bounds = line_bounds(&s);
    let key: Vec<char> = vec!['P', '4', '-', 'C', 'h', 'a', 'n', 'g', 'e', ':', ' '];
    assert(key@ =~= change_key());
    let ghost ls = lines_from(s@, 0);
    let mut r: Vec<usize> = Vec::new();
    let mut k: usize = 0;
    while k < bounds.len()
        invariant
            s@ == note@,
            ls == lines_from(s@, 0),
            key@ == change_key(),
            bounds@.len() == ls.len(),
            forall|j: int|
                0 <= j < bounds@.len() ==> {
                    &&& #[trigger] bounds@[j].0 <= bounds@[j].1 <= s@.len()
                    &&& s@.subrange(bounds@[j].0 as int, bounds@[j].1 as int) == ls[j]
                },
            k <= bounds@.len(),
            r@ == changes_of_lines(ls.take(k as int)),
        decreases bounds.len() - k,
    {
        let (a, b) = bounds[k];
        let ghost l = s@.subrange(a as int, b as int);
        assert(bounds@[k as int].0 <= bounds@[k as int].1);
        assert(ls.take(k + 1).drop_last() =~= ls.take(k as int));
        assert(ls.take(k + 1).last() == l);
        let is_change = b - a >= 11 && matches_at(&s, &key, a);
        proof {
            if b - a >= 11 {
                assert(l.subrange(0, 11) =~= s@.subrange(a as int, a + 11));
            }
        }
        if is_change {
            let (x, y) = trim_bounds(&s, a + 11, b);
            assert(l.subrange(11, l.len() as int) =~= s@.subrange(a + 11, b as int));
            match parse_usize(&s, x, y) {
                Some(c) => {
                    r.push(c);
                },
                None => {},
            }
        }
        k = k + 1;
    }
    assert(ls.take(bounds@.len() as int) =~= ls);
    r
}

// ------------------------------------------------------------- round trip

proof fn lemma_line_end_shift(p: Seq<char>, b: Seq<char>, j: int)
    requires
        0 <= j,
    ensures
        line_end(p + b, p.len() + j) == p.len() + line_end(b, j),
    decreases b.len() - j,
{
    if j < b.len() {
        assert((p + b)[p.len() + j] == b[j]);
        if b[j] != '\n' {
            lemma_line_end_shift(p, b, j + 1);
        }
    }
}

proof fn lemma_lines_shift(p: Seq<char>, b: Seq<char>, j: int)
    requires
        0 <= j,
    ensures
        lines_from(p + b, p.len() + j) == lines_from(b, j),
    decreases b.len() - j,
{
    if j < b.len() {
        let s = p + b;
        lemma_line_end_shift(p, b, j);
        lemma_line_end_bounds(b, j);
        let e = line_end(b, j);
        assert(s.subrange(p.len() + j, p.len() + e) =~= b.subrange(j, e));
        assert(line_text(s, p.len() + j, p.len() + e) == line_text(b, j, e));
        if e < b.len() {
            lemma_lines_shift(p, b, e + 1);
        }
    }
}

proof fn lemma_line_end_no_newline(a: Seq<char>, s: Seq<char>, i: int)
    requires
        0 <= i <= a.len(),
        a.len() <= s.len(),
        s.subrange(0, a.len() as int) == a,
        forall|k: int| 0 <= k < a.len() ==> a[k] != '\n',
    ensures
        line_end(s, i) == line_end(s, a.len() as int),
    decreases a.len() - i,
{
    if i < a.len() {
        assert(s[i] == a[i]);
        lemma_line_end_no_newline(a, s, i + 1);
    }
}

/// The lines of `a \n b`, where `a` has no newline.
proof fn lemma_lines_first(a: Seq<char>, b: Seq<char>)
    requires
        forall|k: int| 0 <= k < a.len() ==> a[k] != '\n',
    ensures
        lines_from(a + seq!['\n'] + b, 0) == seq![
            if a.len() > 0 && a.last() == '\r' { a.drop_last() } else { a },
        ] + lines_from(b, 0),
{
    let s = a + seq!['\n'] + b;
    assert(s.subrange(0, a.len() as int) =~= a);
    lemma_line_end_no_newline(a, s, 0);
    assert(s[a.len() as int] == '\n');
    assert(line_end(s, a.len() as int) == a.len());
    assert(s.subrange(0, a.len() as int) =~= a);
    lemma_lines_shift(a + seq!['\n'], b, 0);
    assert(a + seq!['\n'] + b =~= s);
}

/// The lines of a final line `a` with no newline.
proof fn lemma_lines_last(a: Seq<char>)
    requires
        a.len() > 0,
        forall|k: int| 0 <= k < a.len() ==> a[k] != '\n',
    ensures
        lines_from(a, 0) == seq![a],
{
    lemma_line_end_no_newline(a, a, 0);
    assert(a.subrange(0, a.len() as int) =~= a);
    assert(line_end(a, a.len() as int) == a.len());
}

proof fn lemma_decimal_shape(n: nat)
    ensures
        decimal(n).len() > 0,
        forall|k: int| 0 <= k < decimal(n).len() ==> '0' <= #[trigger] decimal(n)[k] <= '9',
    decreases n,
{
    if n >= 10 {
        lemma_decimal_shape(n / 10);
        assert forall|k: int| 0 <= k < decimal(n).len() implies '0' <= #[trigger] decimal(n)[k]
            <= '9' by {
            if k < decimal(n / 10).len() {
                assert(decimal(n)[k] == decimal(n / 10)[k]);
            }
        }
    }
}

proof fn lemma_change_line(n: usize)
    ensures
        change_of_line(change_key() + decimal(n as nat)) == Some(n),
        forall|k: int|
            0 <= k < (change_key() + decimal(n as nat)).len() ==> #[trigger] (change_key() + decimal(
                n as nat,
            ))[k] != '\n',
        (change_key() + decimal(n as nat)).last() != '\r',
{
    let d = decimal(n as nat);
    let l = change_key() + d;
    lemma_decimal_shape(n as nat);
    assert(l.subrange(0, 11) =~= change_key());
    assert(l.subrange(11, l.len() as int) =~= d);
    assert(trimmed_bounds(d, 0, d.len() as int));
    let (lo, hi) = choose|lo: int, hi: int| #[trigger] trimmed_bounds(d, lo, hi);
    lemma_trimmed_bounds_unique(d, 0, d.len() as int, lo, hi);
    assert(d.subrange(0, d.len() as int) =~= d);
    lemma_parse_decimal(n);
    assert forall|k: int| 0 <= k < l.len() implies #[trigger] l[k] != '\n' by {
        if k >= 11 {
            assert(l[k] == d[k - 11]);
        }
    }
    assert(l.last() == d[d.len() - 1]);
}

/// Reading back the note of a commit gives exactly its change number,
/// provided the client name holds no newline.
pub proof fn lemma_note_round_trip(change: usize, client: Seq<char>, old_change: Option<usize>)
    requires
        forall|k: int| 0 <= k < client.len() ==> client[k] != '\n',
    ensures
        note_changes_spec(
            note_text(
                change as nat,
                client,
                match old_change {
                    Some(o) => Some(o as nat),
                    None => None,
                },
            ),
        ) == Seq::<usize>::empty().push(change),
{
    let l1 = change_key() + decimal(change as nat);
    let l2 = client_key() + client;
    lemma_change_line(change);
    assert forall|k: int| 0 <= k < l2.len() implies #[trigger] l2[k] != '\n' by {
        if k >= 11 {
            assert(l2[k] == client[k - 11]);
        }
    }
    let t2 = if l2.len() > 0 && l2.last() == '\r' { l2.drop_last() } else { l2 };
    assert(l2[4] == client_key()[4]);
    assert(l2.len() >= 11);
    if l2.len() > 0 && l2.last() == '\r' {
        assert(l2.drop_last()[4] == l2[4]);
    }
    assert(t2[4] == 'l');
    assert(change_of_line(t2) is None) by {
        if seq_starts_with(t2, change_key()) {
            assert(t2.subrange(0, 11)[4] == change_key()[4]);
        }
    }
    assert(change_of_line(l2) is None) by {
        if seq_starts_with(l2, change_key()) {
            assert(l2.subrange(0, 11)[4] == change_key()[4]);
        }
    }
    match old_change {
        None => {
            let note = note_text(change as nat, client, None);
            assert(note =~= l1 + seq!['\n'] + l2);
            lemma_lines_first(l1, l2);
            lemma_lines_last(l2);
            let ls = seq![l1] + seq![l2];
            assert(lines_from(note, 0) =~= ls);
            assert(ls.drop_last() =~= seq![l1]);
            assert(ls.last() == l2);
            assert(seq![l1].drop_last() =~= Seq::<Seq<char>>::empty());
            assert(changes_of_lines(Seq::<Seq<char>>::empty()) == Seq::<usize>::empty());
            assert(seq![l1].last() == l1);
            assert(changes_of_lines(seq![l1]) =~= seq![change]);
            assert(changes_of_lines(ls) == changes_of_lines(seq![l1]));
            assert(note_changes_spec(note) == changes_of_lines(ls));
            assert(note_changes_spec(note) =~= Seq::<usize>::empty().push(change));
        },
        Some(o) => {
            let l3 = old_change_key() + decimal(o as nat);
            lemma_decimal_shape(o as nat);
            assert forall|k: int| 0 <= k < l3.len() implies #[trigger] l3[k] != '\n' by {
                if k >= 14 {
                    assert(l3[k] == decimal(o as nat)[k - 14]);
                }
            }
            assert(change_of_line(l3) is None) by {
                if seq_starts_with(l3, change_key()) {
                    assert(l3.subrange(0, 11)[3] == change_key()[3]);
                }
            }
            let note = note_text(change as nat, client, Some(o as nat));
            assert(note =~= l1 + seq!['\n'] + (l2 + seq!['\n'] + l3));
            lemma_lines_first(l1, l2 + seq!['\n'] + l3);
            lemma_lines_first(l2, l3);
            lemma_lines_last(l3);
            let ls = seq![l1] + (seq![t2] + seq![l3]);
            assert(lines_from(note, 0) =~= ls);
            assert(ls.drop_last() =~= seq![l1, t2]);
            assert(seq![l1, t2].drop_last() =~= seq![l1]);
            assert(seq![l1].drop_last() =~= Seq::<Seq<char>>::empty());
            assert(ls.last() == l3);
            assert(seq![l1, t2].last() == t2);
            assert(changes_of_lines(Seq::<Seq<char>>::empty()) == Seq::<usize>::empty());
            assert(seq![l1].last() == l1);
            assert(changes_of_lines(seq![l1]) =~= Seq::<usize>::empty().push(change));
            assert(changes_of_lines(seq![l1, t2]) == changes_of_lines(seq![l1]));
            assert(changes_of_lines(ls) == changes_of_lines(seq![l1, t2]));
            assert(note_changes_spec(note) == changes_of_lines(ls));
        },
    }
}

} // verus!
