//! Perforce file types (`text+x`, `binary+C`, ...) and change states.

use vstd::prelude::*;
use crate::text::{chars_of, push_char, string_of};
use vstd::string::StrSliceExecFns;

verus! {

/// The base of a Perforce file type.
#[derive(Debug, Clone, Copy, PartialEq, Eq, Structural)]
pub enum BaseFileType {
    Text,
    Binary,
    Symlink,
    Apple,
    Resource,
    Unicode,
    Utf8,
    Utf16,
}

/// The name `p4` uses for a base type.
pub open spec fn base_name(b: BaseFileType) -> Seq<char> {
    match b {
        BaseFileType::Text => seq!['t', 'e', 'x', 't'],
        BaseFileType::Binary => seq!['b', 'i', 'n', 'a', 'r', 'y'],
        BaseFileType::Symlink => seq!['s', 'y', 'm', 'l', 'i', 'n', 'k'],
        BaseFileType::Apple => seq!['a', 'p', 'p', 'l', 'e'],
        BaseFileType::Resource => seq!['r', 'e', 's', 'o', 'u', 'r', 'c', 'e'],
        BaseFileType::Unicode => seq!['u', 'n', 'i', 'c', 'o', 'd', 'e'],
        BaseFileType::Utf8 => seq!['u', 't', 'f', '8'],
        BaseFileType::Utf16 => seq!['u', 't', 'f', '1', '6'],
    }
}

impl BaseFileType {
    /// The name `p4` uses for this base type.
    pub fn name(&self) -> (r: &'static str)
        ensures
            r@ == base_name(*self),
    {
        match self {
            BaseFileType::Text => {
                proof { reveal_strlit("text"); }
                "text"
            },
            BaseFileType::Binary => {
                proof { reveal_strlit("binary"); }
                "binary"
            },
            BaseFileType::Symlink => {
                proof { reveal_strlit("symlink"); }
                "symlink"
            },
            BaseFileType::Apple => {
                proof { reveal_strlit("apple"); }
                "apple"
            },
            BaseFileType::Resource => {
                proof { reveal_strlit("resource"); }
                "resource"
            },
            BaseFileType::Unicode => {
                proof { reveal_strlit("unicode"); }
                "unicode"
            },
            BaseFileType::Utf8 => {
                proof { reveal_strlit("utf8"); }
                "utf8"
            },
            BaseFileType::Utf16 => {
                proof { reveal_strlit("utf16"); }
                "utf16"
            },
        }
    }
}

/// A Perforce file type: an optional base and its modifiers.
#[derive(Debug, Clone, Copy, PartialEq, Eq, Structural)]
pub struct FileType {
    pub base: Option<BaseFileType>,
    pub writable: bool,
    pub executable: bool,
    pub keyword_expansion: bool,
    pub exclusive_lock: bool,
    pub full_revisions: bool,
    pub compressed: bool,
    pub rcs_deltas: bool,
}

/// The file type with no base and no modifiers.
pub open spec fn plain_file_type() -> FileType {
    FileType {
        base: None,
        writable: false,
        executable: false,
        keyword_expansion: false,
        exclusive_lock: false,
        full_revisions: false,
        compressed: false,
        rcs_deltas: false,
    }
}

/// `seq!['+', m]` when `on`, else nothing.
pub open spec fn modifier(on: bool, m: char) -> Seq<char> {
    if on {
        seq!['+', m]
    } else {
        Seq::empty()
    }
}

/// How `p4` writes a file type: the base name, then `+w`, `+x`, `+k`,
/// `+l`, `+F`, `+C`, `+D` for the modifiers that are set, in that order.
pub open spec fn file_type_text(t: FileType) -> Seq<char> {
    (match t.base {
        Some(b) => base_name(b),
        None => Seq::empty(),
    }) + modifier(t.writable, 'w') + modifier(t.executable, 'x') + modifier(
        t.keyword_expansion,
        'k',
    ) + modifier(t.exclusive_lock, 'l') + modifier(t.full_revisions, 'F') + modifier(
        t.compressed,
        'C',
    ) + modifier(t.rcs_deltas, 'D')
}

impl Default for FileType {
    fn default() -> (r: Self)
        ensures
            r == plain_file_type(),
    {
        FileType {
            base: None,
            writable: false,
            executable: false,
            keyword_expansion: false,
            exclusive_lock: false,
            full_revisions: false,
            compressed: false,
            rcs_deltas: false,
        }
    }
}

fn push_modifier(s: &mut String, on: bool, m: char)
    ensures
        final(s)@ == old(s)@ + modifier(on, m),
{
    if on {
        push_char(s, '+');
        push_char(s, m);
        assert(final(s)@ =~= old(s)@ + modifier(on, m));
    } else {
        assert(old(s)@ + modifier(on, m) =~= old(s)@);
    }
}

impl FileType {
    /// The given base with no modifiers.
    pub fn new(base: BaseFileType) -> (r: Self)
        ensures
            r == (FileType { base: Some(base), ..plain_file_type() }),
    {
        FileType {
            base: Some(base),
            writable: false,
            executable: false,
            keyword_expansion: false,
            exclusive_lock: false,
            full_revisions: false,
            compressed: false,
            rcs_deltas: false,
        }
    }

    /// `text`.
    pub fn text() -> (r: Self)
        ensures
            r == (FileType { base: Some(BaseFileType::Text), ..plain_file_type() }),
    {
        Self::new(BaseFileType::Text)
    }

    /// `binary`.
    pub fn binary() -> (r: Self)
        ensures
            r == (FileType { base: Some(BaseFileType::Binary), ..plain_file_type() }),
    {
        Self::new(BaseFileType::Binary)
    }

    /// `symlink`.
    pub fn symlink() -> (r: Self)
        ensures
            r == (FileType { base: Some(BaseFileType::Symlink), ..plain_file_type() }),
    {
        Self::new(BaseFileType::Symlink)
    }

    /// `unicode`.
    pub fn unicode() -> (r: Self)
        ensures
            r == (FileType { base: Some(BaseFileType::Unicode), ..plain_file_type() }),
    {
        Self::new(BaseFileType::Unicode)
    }

    /// `utf8`.
    pub fn utf8() -> (r: Self)
        ensures
            r == (FileType { base: Some(BaseFileType::Utf8), ..plain_file_type() }),
    {
        Self::new(BaseFileType::Utf8)
    }

    /// `utf16`.
    pub fn utf16() -> (r: Self)
        ensures
            r == (FileType { base: Some(BaseFileType::Utf16), ..plain_file_type() }),
    {
        Self::new(BaseFileType::Utf16)
    }

    /// Adds `+w`.
    pub fn writable(self) -> (r: Self)
        ensures
            r == (FileType { writable: true, ..self }),
    {
        FileType { writable: true, ..self }
    }

    /// Adds `+x`.
    pub fn executable(self) -> (r: Self)
        ensures
            r == (FileType { executable: true, ..self }),
    {
        FileType { executable: true, ..self }
    }

    /// Adds `+k`.
    pub fn keyword_expansion(self) -> (r: Self)
        ensures
            r == (FileType { keyword_expansion: true, ..self }),
    {
        FileType { keyword_expansion: true, ..self }
    }

    /// Adds `+l`.
    pub fn exclusive_lock(self) -> (r: Self)
        ensures
            r == (FileType { exclusive_lock: true, ..self }),
    {
        FileType { exclusive_lock: true, ..self }
    }

    /// Adds `+F`.
    pub fn full_revisions(self) -> (r: Self)
        ensures
            r == (FileType { full_revisions: true, ..self }),
    {
        FileType { full_revisions: true, ..self }
    }

    /// Adds `+C`.
    pub fn compressed(self) -> (r: Self)
        ensures
            r == (FileType { compressed: true, ..self }),
    {
        FileType { compressed: true, ..self }
    }

    /// Adds `+D`.
    pub fn rcs_deltas(self) -> (r: Self)
        ensures
            r == (FileType { rcs_deltas: true, ..self }),
    {
        FileType { rcs_deltas: true, ..self }
    }

    /// How `p4` writes this file type, e.g. `text+Cx` is written `text+x+C`.
    pub fn to_p4_string(&self) -> (s: String)
        ensures
            s@ == file_type_text(*self),
    {
        let mut s = String::new();
        if let Some(b) = &self.base {
            s.append(b.name());
        }
        let ghost base_part = s@;
        push_modifier(&mut s, self.writable, 'w');
        push_modifier(&mut s, self.executable, 'x');
        push_modifier(&mut s, self.keyword_expansion, 'k');
        push_modifier(&mut s, self.exclusive_lock, 'l');
        push_modifier(&mut s, self.full_revisions, 'F');
        push_modifier(&mut s, self.compressed, 'C');
        push_modifier(&mut s, self.rcs_deltas, 'D');
        assert(base_part =~= (match self.base {
            Some(b) => base_name(b),
            None => Seq::empty(),
        }));
        s
    }
}

/// The first position at or after `i` of a `+` in `s`, or `s.len()`.
pub open spec fn first_plus(s: Seq<char>, i: int) -> int
    decreases s.len() - i,
{
    if i < 0 || i >= s.len() || s[i] == '+' {
        i
    } else {
        first_plus(s, i + 1)
    }
}

/// The base a name names: none for an empty name, nothing for an unknown
/// one.
pub open spec fn base_of_name(w: Seq<char>) -> Option<Option<BaseFileType>> {
    if w.len() == 0 {
        Some(None)
    } else if w == base_name(BaseFileType::Text) {
        Some(Some(BaseFileType::Text))
    } else if w == base_name(BaseFileType::Binary) {
        Some(Some(BaseFileType::Binary))
    } else if w == base_name(BaseFileType::Symlink) {
        Some(Some(BaseFileType::Symlink))
    } else if w == base_name(BaseFileType::Apple) {
        Some(Some(BaseFileType::Apple))
    } else if w == base_name(BaseFileType::Resource) {
        Some(Some(BaseFileType::Resource))
    } else if w == base_name(BaseFileType::Unicode) {
        Some(Some(BaseFileType::Unicode))
    } else if w == base_name(BaseFileType::Utf8) {
        Some(Some(BaseFileType::Utf8))
    } else if w == base_name(BaseFileType::Utf16) {
        Some(Some(BaseFileType::Utf16))
    } else {
        None
    }
}

/// A character that may follow the base name: `+` or a modifier letter.
pub open spec fn is_modifier_char(c: char) -> bool {
    c == '+' || c == 'w' || c == 'x' || c == 'k' || c == 'l' || c == 'F' || c == 'C' || c == 'D'
}

/// `c` occurs in `s`.
pub open spec fn has_char(s: Seq<char>, c: char) -> bool {
    exists|j: int| 0 <= j < s.len() && s[j] == c
}

/// The file type `p4` writes as `s`: a base name (or none), then `+` and
/// modifier letters, in any grouping (`text+x+C` and `text+xC` alike); none
/// for any other text.
pub open spec fn parse_file_type_spec(s: Seq<char>) -> Option<FileType> {
    let i = first_plus(s, 0);
    let rest = s.subrange(i, s.len() as int);
    match base_of_name(s.subrange(0, i)) {
        None => None,
        Some(b) => if forall|j: int| 0 <= j < rest.len() ==> is_modifier_char(#[trigger] rest[j]) {
            Some(
                FileType {
                    base: b,
                    writable: has_char(rest, 'w'),
                    executable: has_char(rest, 'x'),
                    keyword_expansion: has_char(rest, 'k'),
                    exclusive_lock: has_char(rest, 'l'),
                    full_revisions: has_char(rest, 'F'),
                    compressed: has_char(rest, 'C'),
                    rcs_deltas: has_char(rest, 'D'),
                },
            )
        } else {
            None
        },
    }
}

fn base_from_name(w: &String) -> (r: Option<Option<BaseFileType>>)
    ensures
        r == base_of_name(w@),
{
    if w.as_str().unicode_len() == 0 {
        return Some(None);
    }
    let bases = [
        BaseFileType::Text,
        BaseFileType::Binary,
        BaseFileType::Symlink,
        BaseFileType::Apple,
        BaseFileType::Resource,
        BaseFileType::Unicode,
        BaseFileType::Utf8,
        BaseFileType::Utf16,
    ];
    let mut k: usize = 0;
    while k < 8
        invariant
            k <= 8,
            w@.len() != 0,
            bases@ == seq![
                BaseFileType::Text,
                BaseFileType::Binary,
                BaseFileType::Symlink,
                BaseFileType::Apple,
                BaseFileType::Resource,
                BaseFileType::Unicode,
                BaseFileType::Utf8,
                BaseFileType::Utf16,
            ],
            forall|j: int| 0 <= j < k ==> w@ != base_name(#[trigger] bases@[j]),
        decreases 8 - k,
    {
        let b = bases[k];
        if *w == b.name().to_owned() {
            proof {
                assert(forall|j: int| 0 <= j < k ==> w@ != base_name(#[trigger] bases@[j]));
            }
            return Some(Some(b));
        }
        k = k + 1;
    }
    assert(w@ != base_name(bases@[0]));
    assert(w@ != base_name(bases@[1]));
    assert(w@ != base_name(bases@[2]));
    assert(w@ != base_name(bases@[3]));
    assert(w@ != base_name(bases@[4]));
    assert(w@ != base_name(bases@[5]));
    assert(w@ != base_name(bases@[6]));
    assert(w@ != base_name(bases@[7]));
    None
}

/// The file type `p4` writes as `text`.
pub fn parse_file_type(text: &str) -> (r: Option<FileType>)
    ensures
        r == parse_file_type_spec(text@),
{
    let cs = chars_of(text);
    let mut i: usize = 0;
    while i < cs.len() && cs[i] != '+'
        invariant
            cs@ == text@,
            i <= cs@.len(),
            first_plus(cs@, 0) == first_plus(cs@, i as int),
        decreases cs.len() - i,
    {
        i = i + 1;
    }
    assert(first_plus(cs@, 0) == i as int);
    let name = string_of(&cs, 0, i);
    let base = match base_from_name(&name) {
        None => return None,
        Some(b) => b,
    };
    let ghost rest = cs@.subrange(i as int, cs@.len() as int);
    let mut t = FileType {
        base,
        writable: false,
        executable: false,
        keyword_expansion: false,
        exclusive_lock: false,
        full_revisions: false,
        compressed: false,
        rcs_deltas: false,
    };
    let mut j = i;
    while j < cs.len()
        invariant
            cs@ == text@,
            i <= j <= cs@.len(),
            rest == cs@.subrange(i as int, cs@.len() as int),
            first_plus(cs@, 0) == i as int,
            base_of_name(cs@.subrange(0, i as int)) == Some(base),
            t.base == base,
            forall|q: int| i <= q < j ==> is_modifier_char(#[trigger] cs@[q]),
            t.writable == exists|q: int| i <= q < j && cs@[q] == 'w',
            t.executable == exists|q: int| i <= q < j && cs@[q] == 'x',
            t.keyword_expansion == exists|q: int| i <= q < j && cs@[q] == 'k',
            t.exclusive_lock == exists|q: int| i <= q < j && cs@[q] == 'l',
            t.full_revisions == exists|q: int| i <= q < j && cs@[q] == 'F',
            t.compressed == exists|q: int| i <= q < j && cs@[q] == 'C',
            t.rcs_deltas == exists|q: int| i <= q < j && cs@[q] == 'D',
        decreases cs.len() - j,
    {
        let c = cs[j];
        if c == 'w' {
            t.writable = true;
        } else if c == 'x' {
            t.executable = true;
        } else if c == 'k' {
            t.keyword_expansion = true;
        } else if c == 'l' {
            t.exclusive_lock = true;
        } else if c == 'F' {
            t.full_revisions = true;
        } else if c == 'C' {
            t.compressed = true;
        } else if c == 'D' {
            t.rcs_deltas = true;
        } else if c != '+' {
            proof {
                assert(rest[j - i] == cs@[j as int]);
                assert(!is_modifier_char(rest[j - i]));
                assert(!(forall|q: int| 0 <= q < rest.len() ==> is_modifier_char(#[trigger] rest[q])));
            }
            return None;
        }
        j = j + 1;
    }
    proof {
        assert forall|q: int| 0 <= q < rest.len() implies is_modifier_char(#[trigger] rest[q]) by {
            assert(rest[q] == cs@[i + q]);
        }
        assert(has_char(rest, 'w') == t.writable) by {
            if t.writable {
                let q = choose|q: int| i <= q < j && cs@[q] == 'w';
                assert(rest[q - i] == 'w');
            }
            if has_char(rest, 'w') {
                let q = choose|q: int| 0 <= q < rest.len() && rest[q] == 'w';
                assert(cs@[i + q] == 'w');
            }
        }
        assert(has_char(rest, 'x') == t.executable) by {
            if t.executable {
                let q = choose|q: int| i <= q < j && cs@[q] == 'x';
                assert(rest[q - i] == 'x');
            }
            if has_char(rest, 'x') {
                let q = choose|q: int| 0 <= q < rest.len() && rest[q] == 'x';
                assert(cs@[i + q] == 'x');
            }
        }
        assert(has_char(rest, 'k') == t.keyword_expansion) by {
            if t.keyword_expansion {
                let q = choose|q: int| i <= q < j && cs@[q] == 'k';
                assert(rest[q - i] == 'k');
            }
            if has_char(rest, 'k') {
                let q = choose|q: int| 0 <= q < rest.len() && rest[q] == 'k';
                assert(cs@[i + q] == 'k');
            }
        }
        assert(has_char(rest, 'l') == t.exclusive_lock) by {
            if t.exclusive_lock {
                let q = choose|q: int| i <= q < j && cs@[q] == 'l';
                assert(rest[q - i] == 'l');
            }
            if has_char(rest, 'l') {
                let q = choose|q: int| 0 <= q < rest.len() && rest[q] == 'l';
                assert(cs@[i + q] == 'l');
            }
        }
        assert(has_char(rest, 'F') == t.full_revisions) by {
            if t.full_revisions {
                let q = choose|q: int| i <= q < j && cs@[q] == 'F';
                assert(rest[q - i] == 'F');
            }
            if has_char(rest, 'F') {
                let q = choose|q: int| 0 <= q < rest.len() && rest[q] == 'F';
                assert(cs@[i + q] == 'F');
            }
        }
        assert(has_char(rest, 'C') == t.compressed) by {
            if t.compressed {
                let q = choose|q: int| i <= q < j && cs@[q] == 'C';
                assert(rest[q - i] == 'C');
            }
            if has_char(rest, 'C') {
                let q = choose|q: int| 0 <= q < rest.len() && rest[q] == 'C';
                assert(cs@[i + q] == 'C');
            }
        }
        assert(has_char(rest, 'D') == t.rcs_deltas) by {
            if t.rcs_deltas {
                let q = choose|q: int| i <= q < j && cs@[q] == 'D';
                assert(rest[q - i] == 'D');
            }
            if has_char(rest, 'D') {
                let q = choose|q: int| 0 <= q < rest.len() && rest[q] == 'D';
                assert(cs@[i + q] == 'D');
            }
        }
    }
    Some(t)
}

proof fn lemma_has_char_concat(a: Seq<char>, b: Seq<char>, c: char)
    ensures
        has_char(a + b, c) == (has_char(a, c) || has_char(b, c)),
{
    if has_char(a + b, c) {
        let j = choose|j: int| 0 <= j < (a + b).len() && (a + b)[j] == c;
        if j < a.len() {
            assert(a[j] == c);
        } else {
            assert(b[j - a.len()] == c);
        }
    }
    if has_char(a, c) {
        let j = choose|j: int| 0 <= j < a.len() && a[j] == c;
        assert((a + b)[j] == c);
    }
    if has_char(b, c) {
        let j = choose|j: int| 0 <= j < b.len() && b[j] == c;
        assert((a + b)[a.len() + j] == c);
    }
}

proof fn lemma_has_char_modifier(on: bool, m: char, c: char)
    ensures
        has_char(modifier(on, m), c) == (on && (c == '+' || c == m)),
{
    if on {
        let s = modifier(on, m);
        assert(s[0] == '+' && s[1] == m);
        if c == '+' {
            assert(s[0] == c);
        }
        if c == m {
            assert(s[1] == c);
        }
    }
}

proof fn lemma_first_plus_at(s: Seq<char>, i: int, k: int)
    requires
        0 <= i <= k <= s.len(),
        forall|q: int| i <= q < k ==> s[q] != '+',
        k == s.len() || s[k] == '+',
    ensures
        first_plus(s, i) == k,
    decreases k - i,
{
    if i < k {
        lemma_first_plus_at(s, i + 1, k);
    }
}

/// The modifiers part of how `p4` writes a type.
pub open spec fn modifiers_text(t: FileType) -> Seq<char> {
    modifier(t.writable, 'w') + modifier(t.executable, 'x') + modifier(t.keyword_expansion, 'k')
        + modifier(t.exclusive_lock, 'l') + modifier(t.full_revisions, 'F') + modifier(
        t.compressed,
        'C',
    ) + modifier(t.rcs_deltas, 'D')
}

proof fn lemma_modifiers_text(t: FileType)
    ensures
        forall|j: int|
            0 <= j < modifiers_text(t).len() ==> is_modifier_char(#[trigger] modifiers_text(t)[j]),
        modifiers_text(t).len() > 0 ==> modifiers_text(t)[0] == '+',
        has_char(modifiers_text(t), 'w') == t.writable,
        has_char(modifiers_text(t), 'x') == t.executable,
        has_char(modifiers_text(t), 'k') == t.keyword_expansion,
        has_char(modifiers_text(t), 'l') == t.exclusive_lock,
        has_char(modifiers_text(t), 'F') == t.full_revisions,
        has_char(modifiers_text(t), 'C') == t.compressed,
        has_char(modifiers_text(t), 'D') == t.rcs_deltas,
{
    let m1 = modifier(t.writable, 'w');
    let m2 = modifier(t.executable, 'x');
    let m3 = modifier(t.keyword_expansion, 'k');
    let m4 = modifier(t.exclusive_lock, 'l');
    let m5 = modifier(t.full_revisions, 'F');
    let m6 = modifier(t.compressed, 'C');
    let m7 = modifier(t.rcs_deltas, 'D');
    let s = modifiers_text(t);
    assert forall|c: char| has_char(s, c) == (has_char(m1, c) || has_char(m2, c) || has_char(m3, c)
        || has_char(m4, c) || has_char(m5, c) || has_char(m6, c) || has_char(m7, c)) by {
        lemma_has_char_concat(m1, m2, c);
        lemma_has_char_concat(m1 + m2, m3, c);
        lemma_has_char_concat(m1 + m2 + m3, m4, c);
        lemma_has_char_concat(m1 + m2 + m3 + m4, m5, c);
        lemma_has_char_concat(m1 + m2 + m3 + m4 + m5, m6, c);
        lemma_has_char_concat(m1 + m2 + m3 + m4 + m5 + m6, m7, c);
    }
    assert forall|c: char|
        #![trigger has_char(s, c)]
        has_char(m1, c) == (t.writable && (c == '+' || c == 'w')) && has_char(m2, c) == (
        t.executable && (c == '+' || c == 'x')) && has_char(m3, c) == (t.keyword_expansion && (c
            == '+' || c == 'k')) && has_char(m4, c) == (t.exclusive_lock && (c == '+' || c == 'l'))
            && has_char(m5, c) == (t.full_revisions && (c == '+' || c == 'F')) && has_char(m6, c)
            == (t.compressed && (c == '+' || c == 'C')) && has_char(m7, c) == (t.rcs_deltas && (c
            == '+' || c == 'D')) by {
        lemma_has_char_modifier(t.writable, 'w', c);
        lemma_has_char_modifier(t.executable, 'x', c);
        lemma_has_char_modifier(t.keyword_expansion, 'k', c);
        lemma_has_char_modifier(t.exclusive_lock, 'l', c);
        lemma_has_char_modifier(t.full_revisions, 'F', c);
        lemma_has_char_modifier(t.compressed, 'C', c);
        lemma_has_char_modifier(t.rcs_deltas, 'D', c);
    }
    assert(has_char(s, 'w') == t.writable);
    assert(has_char(s, 'x') == t.executable);
    assert(has_char(s, 'k') == t.keyword_expansion);
    assert(has_char(s, 'l') == t.exclusive_lock);
    assert(has_char(s, 'F') == t.full_revisions);
    assert(has_char(s, 'C') == t.compressed);
    assert(has_char(s, 'D') == t.rcs_deltas);
    assert forall|j: int| 0 <= j < s.len() implies is_modifier_char(#[trigger] s[j]) by {
        let c = s[j];
        assert(has_char(s, c));
        if !is_modifier_char(c) {
            assert(!has_char(m1, c) && !has_char(m2, c) && !has_char(m3, c) && !has_char(m4, c)
                && !has_char(m5, c) && !has_char(m6, c) && !has_char(m7, c));
        }
    }
    if s.len() > 0 {
        if m1.len() > 0 {
            assert(s[0] == m1[0]);
        } else if m2.len() > 0 {
            assert(s[0] == m2[0]);
        } else if m3.len() > 0 {
            assert(s[0] == m3[0]);
        } else if m4.len() > 0 {
            assert(s[0] == m4[0]);
        } else if m5.len() > 0 {
            assert(s[0] == m5[0]);
        } else if m6.len() > 0 {
            assert(s[0] == m6[0]);
        } else {
            assert(s[0] == m7[0]);
        }
    }
}

proof fn lemma_base_name(b: BaseFileType)
    ensures
        base_of_name(base_name(b)) == Some(Some(b)),
        forall|q: int| 0 <= q < base_name(b).len() ==> base_name(b)[q] != '+',
{
    let n = base_name(b);
    assert(n.len() > 0);
    assert(forall|q: int| 0 <= q < n.len() ==> n[q] != '+');
}

proof fn lemma_parse_parts(bn: Seq<char>, ms: Seq<char>, b: Option<BaseFileType>)
    requires
        base_of_name(bn) == Some(b),
        forall|q: int| 0 <= q < bn.len() ==> bn[q] != '+',
        forall|j: int| 0 <= j < ms.len() ==> is_modifier_char(#[trigger] ms[j]),
        ms.len() > 0 ==> ms[0] == '+',
    ensures
        parse_file_type_spec(bn + ms) == Some(
            FileType {
                base: b,
                writable: has_char(ms, 'w'),
                executable: has_char(ms, 'x'),
                keyword_expansion: has_char(ms, 'k'),
                exclusive_lock: has_char(ms, 'l'),
                full_revisions: has_char(ms, 'F'),
                compressed: has_char(ms, 'C'),
                rcs_deltas: has_char(ms, 'D'),
            },
        ),
{
    let text = bn + ms;
    let i = bn.len() as int;
    assert forall|q: int| 0 <= q < i implies text[q] != '+' by {
        assert(text[q] == bn[q]);
    }
    if ms.len() > 0 {
        assert(text[i] == ms[0]);
    }
    lemma_first_plus_at(text, 0, i);
    assert(text.subrange(0, i) =~= bn);
    assert(text.subrange(i, text.len() as int) =~= ms);
}

proof fn lemma_add_assoc(a: Seq<char>, b: Seq<char>, c: Seq<char>)
    ensures
        a + (b + c) == (a + b) + c,
{
    assert(a + (b + c) =~= (a + b) + c);
}

proof fn lemma_text_parts(t: FileType)
    ensures
        file_type_text(t) == (match t.base {
            Some(b) => base_name(b),
            None => Seq::empty(),
        }) + modifiers_text(t),
{
    let b = match t.base {
        Some(x) => base_name(x),
        None => Seq::empty(),
    };
    let m1 = modifier(t.writable, 'w');
    let m2 = modifier(t.executable, 'x');
    let m3 = modifier(t.keyword_expansion, 'k');
    let m4 = modifier(t.exclusive_lock, 'l');
    let m5 = modifier(t.full_revisions, 'F');
    let m6 = modifier(t.compressed, 'C');
    let m7 = modifier(t.rcs_deltas, 'D');
    lemma_add_assoc(b, m1, m2);
    lemma_add_assoc(b, m1 + m2, m3);
    lemma_add_assoc(b, m1 + m2 + m3, m4);
    lemma_add_assoc(b, m1 + m2 + m3 + m4, m5);
    lemma_add_assoc(b, m1 + m2 + m3 + m4 + m5, m6);
    lemma_add_assoc(b, m1 + m2 + m3 + m4 + m5 + m6, m7);
}

/// Reading back how `p4` writes a file type gives the type: every type
/// written by [`FileType::to_p4_string`] parses to itself.
pub proof fn lemma_file_type_round_trip(t: FileType)
    ensures
        parse_file_type_spec(file_type_text(t)) == Some(t),
{
    let bn = match t.base {
        Some(b) => base_name(b),
        None => Seq::empty(),
    };
    let ms = modifiers_text(t);
    lemma_text_parts(t);
    lemma_modifiers_text(t);
    match t.base {
        Some(b) => lemma_base_name(b),
        None => {},
    }
    lemma_parse_parts(bn, ms, t.base);
    let r = FileType {
        base: t.base,
        writable: has_char(ms, 'w'),
        executable: has_char(ms, 'x'),
        keyword_expansion: has_char(ms, 'k'),
        exclusive_lock: has_char(ms, 'l'),
        full_revisions: has_char(ms, 'F'),
        compressed: has_char(ms, 'C'),
        rcs_deltas: has_char(ms, 'D'),
    };
    assert(r == t);
}

/// The state of a Perforce change.
#[derive(Debug, PartialEq, Eq, Hash, Clone, Copy, Structural)]
pub enum ChangeStatus {
    Pending,
    Submitted,
    Shelved,
}

/// The name `p4` uses for a change state.
pub open spec fn status_name(s: ChangeStatus) -> Seq<char> {
    match s {
        ChangeStatus::Pending => seq!['p', 'e', 'n', 'd', 'i', 'n', 'g'],
        ChangeStatus::Submitted => seq!['s', 'u', 'b', 'm', 'i', 't', 't', 'e', 'd'],
        ChangeStatus::Shelved => seq!['s', 'h', 'e', 'l', 'v', 'e', 'd'],
    }
}

impl ChangeStatus {
    /// The name `p4` uses for this state (`p4 changes -s <name>`).
    pub fn name(&self) -> (r: &'static str)
        ensures
            r@ == status_name(*self),
    {
        match self {
            ChangeStatus::Pending => {
                proof { reveal_strlit("pending"); }
                "pending"
            },
            ChangeStatus::Submitted => {
                proof { reveal_strlit("submitted"); }
                "submitted"
            },
            ChangeStatus::Shelved => {
                proof { reveal_strlit("shelved"); }
                "shelved"
            },
        }
    }
}

} // verus!
