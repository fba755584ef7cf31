//! Character and byte helpers shared by the rest of the library: prefix
//! and suffix tests, decimal and hexadecimal numerals, and whitespace
//! trimming, each stated over `Seq`.

use vstd::prelude::*;
use vstd::utf8::{decode_utf8, valid_utf8};

verus! {

/// `s` begins with `p`.
pub open spec fn seq_starts_with<T>(s: Seq<T>, p: Seq<T>) -> bool {
    p.len() <= s.len() && s.subrange(0, p.len() as int) == p
}

/// `s` ends with `p`.
pub open spec fn seq_ends_with<T>(s: Seq<T>, p: Seq<T>) -> bool {
    p.len() <= s.len() && s.subrange(s.len() - p.len(), s.len() as int) == p
}

/// `p` occurs in `s` starting at position `i`.
pub open spec fn occurs_at<T>(s: Seq<T>, p: Seq<T>, i: int) -> bool {
    0 <= i && i + p.len() <= s.len() && s.subrange(i, i + p.len()) == p
}

/// `p` occurs somewhere in `s`.
pub open spec fn seq_contains_seq<T>(s: Seq<T>, p: Seq<T>) -> bool {
    exists|i: int| occurs_at(s, p, i)
}

/// Appends one character to a string (`String::push`).
#[verifier::external_body]
pub(crate) fn push_char(s: &mut String, c: char)
    ensures
        final(s)@ == old(s)@.push(c),
{
    s.push(c);
}

/// Decodes bytes as UTF-8 (`std::str::from_utf8`): text exactly when the
/// bytes are valid UTF-8, and then the characters they encode; otherwise the
/// error's message, whose text is not stated here.
#[verifier::external_body]
pub(crate) fn utf8_decode(bytes: &[u8]) -> (r: Result<&str, String>)
    ensures
        r is Ok <==> valid_utf8(bytes@),
        r matches Ok(s) ==> s@ == decode_utf8(bytes@),
{
    std::str::from_utf8(bytes).map_err(|e| e.to_string())
}

/// The characters of `s`, in order.
pub fn chars_of(s: &str) -> (v: Vec<char>)
    ensures
        v@ == s@,
{
    let mut v: Vec<char> = Vec::new();
    for c in it: s.chars()
        invariant
            v@ == it.seq().take(it.index() as int),
            it.seq() == s@,
    {
        v.push(c);
    }
    v
}

/// The string made of `v[lo..hi]`.
pub fn string_of(v: &[char], lo: usize, hi: usize) -> (s: String)
    requires
        lo <= hi <= v@.len(),
    ensures
        s@ == v@.subrange(lo as int, hi as int),
{
    let mut s = String::new();
    let mut i = lo;
    while i < hi
        invariant
            lo <= i <= hi <= v@.len(),
            s@ == v@.subrange(lo as int, i as int),
        decreases hi - i,
    {
        push_char(&mut s, v[i]);
        i = i + 1;
        assert(s@ =~= v@.subrange(lo as int, i as int));
    }
    s
}

/// The string made of all of `v`.
pub fn string_from(v: &[char]) -> (s: String)
    ensures
        s@ == v@,
{
    let s = string_of(v, 0, v.len());
    assert(v@.subrange(0, v@.len() as int) =~= v@);
    s
}

/// Appends `t[lo..hi]` to `s`.
pub fn append_chars(s: &mut String, t: &[char], lo: usize, hi: usize)
    requires
        lo <= hi <= t@.len(),
    ensures
        final(s)@ == old(s)@ + t@.subrange(lo as int, hi as int),
{
    let mut i: usize = lo;
    while i < hi
        invariant
            lo <= i <= hi <= t@.len(),
            s@ == old(s)@ + t@.subrange(lo as int, i as int),
        decreases hi - i,
    {
        push_char(s, t[i]);
        i = i + 1;
        assert(s@ =~= old(s)@ + t@.subrange(lo as int, i as int));
    }
}

/// Whether `p` occurs in `s` at position `i`.
pub fn matches_at(s: &[char], p: &[char], i: usize) -> (r: bool)
    ensures
        r == occurs_at(s@, p@, i as int),
{
    if p.len() > s.len() || i > s.len() - p.len() {
        return false;
    }
    let slen = s.len();
    let mut k: usize = 0;
    while k < p.len()
        invariant
            slen == s@.len(),
            i + p@.len() <= s@.len(),
            k <= p@.len(),
            forall|j: int| 0 <= j < k ==> s@[i + j] == p@[j],
        decreases p.len() - k,
    {
        assert(i + k < s@.len());
        if s[i + k] != p[k] {
            assert(s@.subrange(i as int, i + p@.len())[k as int] != p@[k as int]);
            return false;
        }
        k = k + 1;
    }
    assert(s@.subrange(i as int, i + p@.len()) =~= p@);
    true
}

/// Whether `s` begins with `p`.
pub fn starts_with(s: &[char], p: &[char]) -> (r: bool)
    ensures
        r == seq_starts_with(s@, p@),
{
    matches_at(s, p, 0)
}

/// Whether `s` ends with `p`.
pub fn ends_with(s: &[char], p: &[char]) -> (r: bool)
    ensures
        r == seq_ends_with(s@, p@),
{
    if p.len() > s.len() {
        return false;
    }
    matches_at(s, p, s.len() - p.len())
}

/// The first position at or after `from` where `p` occurs in `s`.
pub fn find_from(s: &[char], p: &[char], from: usize) -> (r: Option<usize>)
    ensures
        match r {
            Some(i) => from <= i && occurs_at(s@, p@, i as int) && forall|j: int|
                from <= j < i ==> !occurs_at(s@, p@, j),
            None => forall|j: int| from <= j ==> !occurs_at(s@, p@, j),
        },
{
    if from > s.len() {
        return None;
    }
    let mut i = from;
    loop
        invariant
            from <= i <= s@.len(),
            forall|j: int| from <= j < i ==> !occurs_at(s@, p@, j),
        decreases s.len() - i,
    {
        if matches_at(s, p, i) {
            return Some(i);
        }
        if i == s.len() {
            return None;
        }
        i = i + 1;
    }
}

/// The last position where `p` occurs in `s`.
pub fn rfind(s: &[char], p: &[char]) -> (r: Option<usize>)
    ensures
        match r {
            Some(i) => occurs_at(s@, p@, i as int) && forall|j: int|
                i < j ==> !occurs_at(s@, p@, j),
            None => forall|j: int| !occurs_at(s@, p@, j),
        },
{
    if p.len() > s.len() {
        return None;
    }
    let mut i = s.len() - p.len();
    loop
        invariant
            p@.len() <= s@.len(),
            i <= s@.len() - p@.len(),
            forall|j: int| i < j ==> !occurs_at(s@, p@, j),
        decreases i,
    {
        if matches_at(s, p, i) {
            return Some(i);
        }
        if i == 0 {
            return None;
        }
        i = i - 1;
    }
}

/// Whether `p` occurs anywhere in `s`.
pub fn contains(s: &[char], p: &[char]) -> (r: bool)
    ensures
        r == seq_contains_seq(s@, p@),
{
    match find_from(s, p, 0) {
        Some(i) => true,
        None => {
            assert forall|j: int| !occurs_at(s@, p@, j) by {
                if j < 0 {
                }
            }
            false
        },
    }
}

// ---------------------------------------------------------------- numerals

/// The ASCII digit of `d`.
pub open spec fn digit_char(d: nat) -> char {
    if d == 0 { '0' } else if d == 1 { '1' } else if d == 2 { '2' } else if d == 3 { '3' }
    else if d == 4 { '4' } else if d == 5 { '5' } else if d == 6 { '6' } else if d == 7 { '7' }
    else if d == 8 { '8' } else { '9' }
}

/// The ASCII digit of `d`.
pub fn digit_to_char(d: usize) -> (c: char)
    requires
        d < 10,
    ensures
        c == digit_char(d as nat),
        is_digit(c),
        digit_value(c) == d,
{
    match d {
        0 => '0',
        1 => '1',
        2 => '2',
        3 => '3',
        4 => '4',
        5 => '5',
        6 => '6',
        7 => '7',
        8 => '8',
        _ => '9',
    }
}

proof fn lemma_digit_char(d: nat)
    requires
        d < 10,
    ensures
        is_digit(digit_char(d)),
        digit_value(digit_char(d)) == d,
{
}

/// The decimal numeral of `n`, without leading zeros.
pub open spec fn decimal(n: nat) -> Seq<char>
    decreases n,
{
    if n < 10 {
        seq![digit_char(n)]
    } else {
        decimal(n / 10).push(digit_char(n % 10))
    }
}

/// The value of a character that is an ASCII digit.
pub open spec fn digit_value(c: char) -> nat {
    (c as u32 - '0' as u32) as nat
}

/// `c` is an ASCII digit.
pub open spec fn is_digit(c: char) -> bool {
    '0' <= c && c <= '9'
}

/// All characters of `s` are ASCII digits.
pub open spec fn all_digits(s: Seq<char>) -> bool {
    forall|i: int| 0 <= i < s.len() ==> is_digit(#[trigger] s[i])
}

/// The value of a run of ASCII digits.
pub open spec fn digits_value(s: Seq<char>) -> nat
    decreases s.len(),
{
    if s.len() == 0 {
        0
    } else {
        digits_value(s.drop_last()) * 10 + digit_value(s.last())
    }
}

/// What `str::parse::<usize>` gives: an optional `+`, then one or more
/// ASCII digits whose value fits in `usize`.
pub open spec fn parse_usize_spec(s: Seq<char>) -> Option<usize> {
    let body = if s.len() > 0 && s[0] == '+' {
        s.drop_first()
    } else {
        s
    };
    if body.len() > 0 && all_digits(body) && digits_value(body) <= usize::MAX {
        Some(digits_value(body) as usize)
    } else {
        None
    }
}

proof fn lemma_decimal_digits(n: nat)
    ensures
        decimal(n).len() > 0,
        all_digits(decimal(n)),
        digits_value(decimal(n)) == n,
    decreases n,
{
    if n < 10 {
        lemma_digit_char(n);
        assert(decimal(n).drop_last() =~= Seq::<char>::empty());
        assert(digits_value(Seq::<char>::empty()) == 0);
    } else {
        assert((n / 10) * 10 + n % 10 == n) by (nonlinear_arith);
        lemma_decimal_digits(n / 10);
        let d = decimal(n / 10);
        lemma_digit_char(n % 10);
        assert(decimal(n).drop_last() =~= d);
        assert(decimal(n).last() == digit_char(n % 10));
        assert(digits_value(decimal(n)) == digits_value(d) * 10 + digit_value(digit_char(n % 10)));
        assert forall|i: int| 0 <= i < decimal(n).len() implies is_digit(#[trigger] decimal(n)[i]) by {
            if i < d.len() {
                assert(decimal(n)[i] == d[i]);
            }
        }
    }
}

/// Parsing the decimal numeral of `n` gives `n` back.
pub proof fn lemma_parse_decimal(n: usize)
    ensures
        parse_usize_spec(decimal(n as nat)) == Some(n),
{
    lemma_decimal_digits(n as nat);
}

/// The decimal numeral of `n`.
pub fn decimal_string(n: usize) -> (s: String)
    ensures
        s@ == decimal(n as nat),
{
    let mut digits: Vec<char> = Vec::new();
    let mut m = n;
    // digits collected least significant first
    let ghost mut rest: Seq<char> = Seq::empty();
    while m >= 10
        invariant
            decimal(n as nat) == decimal(m as nat) + digits@.reverse(),
        decreases m,
    {
        let c = digit_to_char(m % 10);
        proof {
            assert(decimal(m as nat) == decimal((m / 10) as nat).push(digit_char((m % 10) as nat)));
        }
        digits.push(c);
        m = m / 10;
        assert(digits@.reverse() =~= seq![c] + digits@.drop_last().reverse());
    }
    let c0 = digit_to_char(m);
    digits.push(c0);
    assert(digits@.reverse() =~= seq![c0] + digits@.drop_last().reverse());
    let mut s = String::new();
    let mut i = digits.len();
    while i > 0
        invariant
            i <= digits@.len(),
            s@ == digits@.reverse().subrange(0, (digits@.len() - i) as int),
        decreases i,
    {
        i = i - 1;
        push_char(&mut s, digits[i]);
        assert(s@ =~= digits@.reverse().subrange(0, (digits@.len() - i) as int));
    }
    assert(digits@.reverse().subrange(0, digits@.len() as int) =~= digits@.reverse());
    s
}

proof fn lemma_digits_value_push(s: Seq<char>, c: char)
    ensures
        digits_value(s.push(c)) == digits_value(s) * 10 + digit_value(c),
{
    assert(s.push(c).drop_last() =~= s);
}

/// `str::parse::<usize>` on `s[lo..hi]`.
pub fn parse_usize(s: &[char], lo: usize, hi: usize) -> (r: Option<usize>)
    requires
        lo <= hi <= s@.len(),
    ensures
        r == parse_usize_spec(s@.subrange(lo as int, hi as int)),
{
    let ghost t = s@.subrange(lo as int, hi as int);
    let mut start = lo;
    if lo < hi && s[lo] == '+' {
        start = lo + 1;
    }
    let ghost body = s@.subrange(start as int, hi as int);
    assert(body =~= (if t.len() > 0 && t[0] == '+' { t.drop_first() } else { t }));
    if start == hi {
        return None;
    }
    let mut acc: usize = 0;
    let mut i = start;
    while i < hi
        invariant
            lo <= start <= i <= hi <= s@.len(),
            start < hi,
            body == s@.subrange(start as int, hi as int),
            parse_usize_spec(s@.subrange(lo as int, hi as int)) == (if body.len() > 0 && all_digits(
                body,
            ) && digits_value(body) <= usize::MAX {
                Some(digits_value(body) as usize)
            } else {
                None
            }),
            all_digits(s@.subrange(start as int, i as int)),
            acc as nat == digits_value(s@.subrange(start as int, i as int)),
        decreases hi - i,
    {
        let c = s[i];
        if !('0' <= c && c <= '9') {
            assert(body[i - start] == c);
            assert(!is_digit(body[i - start]));
            return None;
        }
        let d = (c as u32 - '0' as u32) as usize;
        proof {
            lemma_digits_value_push(s@.subrange(start as int, i as int), c);
            assert(s@.subrange(start as int, i + 1) =~= s@.subrange(start as int, i as int).push(c));
        }
        if acc > (usize::MAX - d) / 10 {
            proof {
                assert(acc * 10 + d > usize::MAX) by (nonlinear_arith)
                    requires
                        acc > (usize::MAX - d) / 10,
                        d <= 9,
                ;
                if all_digits(body) {
                    lemma_digits_prefix_bound(body, (i - start + 1) as nat);
                    assert(body.subrange(0, (i - start + 1) as int) =~= s@.subrange(start as int, i + 1));
                }
            }
            return None;
        }
        acc = acc * 10 + d;
        i = i + 1;
    }
    Some(acc)
}

/// A prefix of a digit run is worth no more than the whole run.
proof fn lemma_digits_prefix_bound(s: Seq<char>, k: nat)
    requires
        k <= s.len(),
        all_digits(s),
    ensures
        digits_value(s.subrange(0, k as int)) <= digits_value(s),
    decreases s.len(),
{
    if k < s.len() {
        lemma_digits_prefix_bound(s.drop_last(), k);
        assert(s.drop_last().subrange(0, k as int) =~= s.subrange(0, k as int));
    } else {
        assert(s.subrange(0, k as int) =~= s);
    }
}

/// The lowercase hexadecimal digit of `d`.
pub open spec fn hex_digit(d: nat) -> u8 {
    if d < 10 {
        (48 + d) as u8
    } else {
        (87 + d) as u8
    }
}

/// The lowercase hexadecimal numeral of `n`, zero-padded to at least
/// `width` digits (what `format!("{:0width$x}", n)` writes).
pub open spec fn hex_padded(n: nat, width: nat) -> Seq<u8>
    decreases width, n,
{
    if n < 16 && width <= 1 {
        seq![hex_digit(n)]
    } else {
        hex_padded(n / 16, if width > 0 { (width - 1) as nat } else { 0 }).push(hex_digit(n % 16))
    }
}

/// `format!("{:04x}", n)` as bytes.
pub fn hex4(n: u128) -> (r: Vec<u8>)
    ensures
        r@ == hex_padded(n as nat, 4),
{
    let mut rev: Vec<u8> = Vec::new();
    let mut m = n;
    let mut w: usize = 4;
    while !(m < 16 && w <= 1)
        invariant
            w <= 4,
            hex_padded(n as nat, 4) == hex_padded(m as nat, w as nat) + rev@.reverse(),
        decreases m, w,
    {
        let d = m % 16;
        let c: u8 = if d < 10 { (48 + d) as u8 } else { (87 + d) as u8 };
        rev.push(c);
        assert(rev@.reverse() =~= seq![c] + rev@.drop_last().reverse());
        m = m / 16;
        w = if w > 0 { w - 1 } else { 0 };
    }
    let c: u8 = if m < 10 { (48 + m) as u8 } else { (87 + m) as u8 };
    rev.push(c);
    assert(rev@.reverse() =~= seq![c] + rev@.drop_last().reverse());
    let mut r: Vec<u8> = Vec::new();
    let mut i = rev.len();
    while i > 0
        invariant
            i <= rev@.len(),
            r@ == rev@.reverse().subrange(0, (rev@.len() - i) as int),
        decreases i,
    {
        i = i - 1;
        r.push(rev[i]);
        assert(r@ =~= rev@.reverse().subrange(0, (rev@.len() - i) as int));
    }
    assert(rev@.reverse().subrange(0, rev@.len() as int) =~= rev@.reverse());
    r
}

// -------------------------------------------------------------- whitespace

/// The Unicode `White_Space` property, which `char::is_whitespace` tests.
pub open spec fn is_ws(c: char) -> bool {
    ||| ('\u{9}' <= c && c <= '\u{d}')
    ||| c == ' '
    ||| c == '\u{85}'
    ||| c == '\u{a0}'
    ||| c == '\u{1680}'
    ||| ('\u{2000}' <= c && c <= '\u{200a}')
    ||| c == '\u{2028}'
    ||| c == '\u{2029}'
    ||| c == '\u{202f}'
    ||| c == '\u{205f}'
    ||| c == '\u{3000}'
}

/// `char::is_whitespace`.
pub fn is_whitespace(c: char) -> (r: bool)
    ensures
        r == is_ws(c),
{
    ('\u{9}' <= c && c <= '\u{d}') || c == ' ' || c == '\u{85}' || c == '\u{a0}' || c == '\u{1680}'
        || ('\u{2000}' <= c && c <= '\u{200a}') || c == '\u{2028}' || c == '\u{2029}' || c
        == '\u{202f}' || c == '\u{205f}' || c == '\u{3000}'
}

/// The bounds `(lo, hi)` that `str::trim` keeps of `s`: no whitespace at
/// either end of `s[lo..hi]`, and only whitespace outside it.
pub open spec fn trimmed_bounds(s: Seq<char>, lo: int, hi: int) -> bool {
    &&& 0 <= lo <= hi <= s.len()
    &&& forall|i: int| 0 <= i < lo ==> is_ws(#[trigger] s[i])
    &&& forall|i: int| hi <= i < s.len() ==> is_ws(#[trigger] s[i])
    &&& lo < hi ==> !is_ws(s[lo]) && !is_ws(s[hi - 1])
    &&& lo == hi ==> hi == s.len()
}

/// What `str::trim` keeps of `s`.
pub open spec fn trim_spec(s: Seq<char>) -> Seq<char> {
    let (lo, hi) = choose|lo: int, hi: int| #[trigger] trimmed_bounds(s, lo, hi);
    s.subrange(lo, hi)
}

/// The trimmed bounds of a sequence are unique.
pub proof fn lemma_trimmed_bounds_unique(s: Seq<char>, lo1: int, hi1: int, lo2: int, hi2: int)
    requires
        trimmed_bounds(s, lo1, hi1),
        trimmed_bounds(s, lo2, hi2),
    ensures
        lo1 == lo2 && hi1 == hi2,
{
    if lo1 < hi1 && lo2 < hi2 {
        if lo1 < lo2 {
            assert(is_ws(s[lo1]));
        }
        if lo2 < lo1 {
            assert(is_ws(s[lo2]));
        }
        if hi1 < hi2 {
            assert(is_ws(s[hi2 - 1]));
        }
        if hi2 < hi1 {
            assert(is_ws(s[hi1 - 1]));
        }
    } else if lo1 < hi1 {
        assert(is_ws(s[lo1]));
    } else if lo2 < hi2 {
        assert(is_ws(s[lo2]));
    }
}

/// `str::trim` on `s[lo..hi]`, as bounds into `s`.
pub fn trim_bounds(s: &[char], lo: usize, hi: usize) -> (r: (usize, usize))
    requires
        lo <= hi <= s@.len(),
    ensures
        lo <= r.0 <= r.1 <= hi,
        trimmed_bounds(s@.subrange(lo as int, hi as int), r.0 - lo, r.1 - lo),
        s@.subrange(r.0 as int, r.1 as int) == trim_spec(s@.subrange(lo as int, hi as int)),
{
    let ghost t = s@.subrange(lo as int, hi as int);
    let mut a = lo;
    while a < hi && is_whitespace(s[a])
        invariant
            lo <= a <= hi <= s@.len(),
            forall|i: int| lo <= i < a ==> is_ws(s@[i]),
        decreases hi - a,
    {
        a = a + 1;
    }
    let mut b = hi;
    while b > a && is_whitespace(s[b - 1])
        invariant
            lo <= a <= b <= hi <= s@.len(),
            forall|i: int| b <= i < hi ==> is_ws(s@[i]),
        decreases b,
    {
        b = b - 1;
    }
    proof {
        assert(trimmed_bounds(t, a - lo, b - lo));
        let (lo2, hi2) = choose|lo2: int, hi2: int| #[trigger] trimmed_bounds(t, lo2, hi2);
        lemma_trimmed_bounds_unique(t, a - lo, b - lo, lo2, hi2);
        assert(t.subrange(a - lo, b - lo) =~= s@.subrange(a as int, b as int));
    }
    (a, b)
}


// ------------------------------------------------------------------ bytes

/// Whether `p` occurs in the bytes `s` at position `i`.
pub fn bytes_match_at(s: &[u8], p: &[u8], i: usize) -> (r: bool)
    ensures
        r == occurs_at(s@, p@, i as int),
{
    if p.len() > s.len() || i > s.len() - p.len() {
        return false;
    }
    let slen = s.len();
    let mut k: usize = 0;
    while k < p.len()
        invariant
            slen == s@.len(),
            i + p@.len() <= s@.len(),
            k <= p@.len(),
            forall|j: int| 0 <= j < k ==> s@[i + j] == p@[j],
        decreases p.len() - k,
    {
        assert(i + k < s@.len());
        if s[i + k] != p[k] {
            assert(s@.subrange(i as int, i + p@.len())[k as int] != p@[k as int]);
            return false;
        }
        k = k + 1;
    }
    assert(s@.subrange(i as int, i + p@.len()) =~= p@);
    true
}

/// Whether the bytes `s` begin with `p`.
pub fn bytes_start_with(s: &[u8], p: &[u8]) -> (r: bool)
    ensures
        r == seq_starts_with(s@, p@),
{
    bytes_match_at(s, p, 0)
}

/// The last position where `p` occurs in the bytes `s`.
pub fn bytes_rfind(s: &[u8], p: &[u8]) -> (r: Option<usize>)
    ensures
        match r {
            Some(i) => occurs_at(s@, p@, i as int) && forall|j: int|
                i < j ==> !occurs_at(s@, p@, j),
            None => forall|j: int| !occurs_at(s@, p@, j),
        },
{
    if p.len() > s.len() {
        return None;
    }
    let mut i = s.len() - p.len();
    loop
        invariant
            p@.len() <= s@.len(),
            i <= s@.len() - p@.len(),
            forall|j: int| i < j ==> !occurs_at(s@, p@, j),
        decreases i,
    {
        if bytes_match_at(s, p, i) {
            return Some(i);
        }
        if i == 0 {
            return None;
        }
        i = i - 1;
    }
}


// ------------------------------------------------------------------ lines

/// The end of the line that starts at `i`: the next `\n`, or the end.
pub open spec fn line_end(s: Seq<char>, i: int) -> int
    decreases s.len() - i,
{
    if i >= s.len() {
        s.len() as int
    } else if s[i] == '\n' {
        i
    } else {
        line_end(s, i + 1)
    }
}

/// `line_end` lies between `i` and the end.
pub proof fn lemma_line_end_bounds(s: Seq<char>, i: int)
    requires
        0 <= i,
    ensures
        i <= line_end(s, i) || i > s.len(),
        line_end(s, i) <= s.len(),
        line_end(s, i) < s.len() ==> s[line_end(s, i)] == '\n',
        forall|j: int| i <= j < line_end(s, i) ==> s[j] != '\n',
    decreases s.len() - i,
{
    if i < s.len() && s[i] != '\n' {
        lemma_line_end_bounds(s, i + 1);
    }
}

/// The text of the line `s[i..e]`: a `\r` before the `\n` that ends it is
/// not part of it.
pub open spec fn line_text(s: Seq<char>, i: int, e: int) -> Seq<char> {
    let l = s.subrange(i, e);
    if e < s.len() && l.len() > 0 && l.last() == '\r' {
        l.drop_last()
    } else {
        l
    }
}

/// The lines of `s` from position `i` on, as `str::lines` yields them.
pub open spec fn lines_from(s: Seq<char>, i: int) -> Seq<Seq<char>>
    decreases s.len() - i,
{
    if i < 0 || i >= s.len() {
        Seq::empty()
    } else {
        let e = line_end(s, i);
        proof {
            lemma_line_end_bounds(s, i);
        }
        if e >= s.len() {
            seq![line_text(s, i, e)]
        } else {
            seq![line_text(s, i, e)] + lines_from(s, e + 1)
        }
    }
}

/// The bounds `(start, end)` of the lines of `s`, as `str::lines` yields
/// them.
pub fn line_bounds(s: &[char]) -> (r: Vec<(usize, usize)>)
    ensures
        r@.len() == lines_from(s@, 0).len(),
        forall|k: int|
            0 <= k < r@.len() ==> {
                &&& #[trigger] r@[k].0 <= r@[k].1 <= s@.len()
                &&& s@.subrange(r@[k].0 as int, r@[k].1 as int) == lines_from(s@, 0)[k]
            },
{
    let mut r: Vec<(usize, usize)> = Vec::new();
    let mut i: usize = 0;
    while i < s.len()
        invariant
            i <= s@.len(),
            lines_from(s@, 0) == r@.map_values(
                |b: (usize, usize)| s@.subrange(b.0 as int, b.1 as int),
            ) + lines_from(s@, i as int),
            forall|k: int| 0 <= k < r@.len() ==> #[trigger] r@[k].0 <= r@[k].1 <= s@.len(),
        decreases s.len() - i,
    {
        let mut e = i;
        while e < s.len() && s[e] != '\n'
            invariant
                i <= e <= s@.len(),
                line_end(s@, i as int) == line_end(s@, e as int),
            decreases s.len() - e,
        {
            e = e + 1;
        }
        assert(line_end(s@, i as int) == e as int);
        let mut end = e;
        if e < s.len() && e > i && s[e - 1] == '\r' {
            end = e - 1;
        }
        proof {
            lemma_line_end_bounds(s@, i as int);
            assert(s@.subrange(i as int, end as int) =~= line_text(s@, i as int, e as int));
        }
        let ghost old_r = r@;
        r.push((i, end));
        assert(r@.map_values(|b: (usize, usize)| s@.subrange(b.0 as int, b.1 as int)) =~= old_r.map_values(
            |b: (usize, usize)| s@.subrange(b.0 as int, b.1 as int),
        ).push(line_text(s@, i as int, e as int)));
        let ghost i0 = i;
        if e == s.len() {
            i = e;
        } else {
            i = e + 1;
        }
        assert(lines_from(s@, i0 as int) =~= seq![line_text(s@, i0 as int, e as int)] + lines_from(
            s@,
            i as int,
        ));
        assert(lines_from(s@, 0) =~= r@.map_values(
            |b: (usize, usize)| s@.subrange(b.0 as int, b.1 as int),
        ) + lines_from(s@, i as int));
    }
    assert(lines_from(s@, 0) =~= r@.map_values(
        |b: (usize, usize)| s@.subrange(b.0 as int, b.1 as int),
    ));
    proof {
        assert forall|k: int| 0 <= k < r@.len() implies s@.subrange(
            #[trigger] r@[k].0 as int,
            r@[k].1 as int,
        ) == lines_from(s@, 0)[k] by {
            assert(lines_from(s@, 0)[k] == r@.map_values(
                |b: (usize, usize)| s@.subrange(b.0 as int, b.1 as int),
            )[k]);
        }
    }
    r
}


/// The first position at or after `i` that holds no whitespace.
pub open spec fn skip_ws(t: Seq<char>, i: int) -> int
    decreases t.len() - i,
{
    if i < 0 || i >= t.len() || !is_ws(t[i]) {
        i
    } else {
        skip_ws(t, i + 1)
    }
}

/// The first position at or after `i` that holds whitespace.
pub open spec fn skip_word(t: Seq<char>, i: int) -> int
    decreases t.len() - i,
{
    if i < 0 || i >= t.len() || is_ws(t[i]) {
        i
    } else {
        skip_word(t, i + 1)
    }
}

/// The skips stay within `t` and stop where they should.
pub proof fn lemma_skip_bounds(t: Seq<char>, i: int)
    requires
        0 <= i <= t.len(),
    ensures
        i <= skip_ws(t, i) <= t.len(),
        i <= skip_word(t, i) <= t.len(),
        skip_ws(t, i) < t.len() ==> !is_ws(t[skip_ws(t, i)]),
        skip_word(t, i) < t.len() ==> is_ws(t[skip_word(t, i)]),
    decreases t.len() - i,
{
    if i < t.len() {
        lemma_skip_bounds(t, i + 1);
    }
}

/// The whitespace-separated words of `t` from position `i` on, as
/// `str::split_whitespace` yields them.
pub open spec fn words_from(t: Seq<char>, i: int) -> Seq<Seq<char>>
    decreases t.len() - i,
{
    if i < 0 || i > t.len() {
        Seq::empty()
    } else {
        let lo = skip_ws(t, i);
        if lo >= t.len() {
            Seq::empty()
        } else {
            let hi = skip_word(t, lo);
            proof {
                lemma_skip_bounds(t, i);
                lemma_skip_bounds(t, lo);
            }
            if hi <= i {
                Seq::empty()
            } else {
                seq![t.subrange(lo, hi)] + words_from(t, hi)
            }
        }
    }
}

/// The whitespace-separated words of `s`.
pub fn split_words(s: &str) -> (r: Vec<String>)
    ensures
        r@.map_values(|w: String| w@) == words_from(s@, 0),
{
    let cs = chars_of(s);
    let mut r: Vec<String> = Vec::new();
    let mut i: usize = 0;
    while i < cs.len()
        invariant
            cs@ == s@,
            i <= cs@.len(),
            words_from(s@, 0) == r@.map_values(|w: String| w@) + words_from(s@, i as int),
        decreases cs.len() - i,
    {
        let i0 = i;
        let mut lo = i;
        while lo < cs.len() && is_whitespace(cs[lo])
            invariant
                cs@ == s@,
                i0 <= lo <= cs@.len(),
                skip_ws(cs@, i0 as int) == skip_ws(cs@, lo as int),
            decreases cs.len() - lo,
        {
            lo = lo + 1;
        }
        if lo >= cs.len() {
            assert(words_from(s@, i0 as int) =~= Seq::<Seq<char>>::empty());
            assert(words_from(s@, cs@.len() as int) =~= Seq::<Seq<char>>::empty()) by {
                assert(skip_ws(s@, cs@.len() as int) == cs@.len());
            }
            i = cs.len();
        } else {
            let mut hi = lo;
            while hi < cs.len() && !is_whitespace(cs[hi])
                invariant
                    cs@ == s@,
                    lo <= hi <= cs@.len(),
                    skip_word(cs@, lo as int) == skip_word(cs@, hi as int),
                decreases cs.len() - hi,
            {
                hi = hi + 1;
            }
            proof {
                lemma_skip_bounds(cs@, i0 as int);
                lemma_skip_bounds(cs@, lo as int);
            }
            let ghost before = r@.map_values(|w: String| w@);
            r.push(string_of(&cs, lo, hi));
            assert(r@.map_values(|w: String| w@) =~= before.push(s@.subrange(lo as int, hi as int)));
            assert(words_from(s@, i0 as int) =~= seq![s@.subrange(lo as int, hi as int)] + words_from(
                s@,
                hi as int,
            ));
            i = hi;
        }
    }
    assert(words_from(s@, cs@.len() as int) =~= Seq::<Seq<char>>::empty()) by {
        assert(skip_ws(s@, cs@.len() as int) == cs@.len());
    }
    r
}

// ------------------------------------------------------------ on strings

/// `s` without the prefix `p`, when `s` begins with `p`.
pub open spec fn strip_prefix_spec(s: Seq<char>, p: Seq<char>) -> Option<Seq<char>> {
    if seq_starts_with(s, p) {
        Some(s.subrange(p.len() as int, s.len() as int))
    } else {
        None
    }
}

/// `s` without the prefix `p`, when `s` begins with `p`.
pub fn strip_prefix(s: &str, p: &str) -> (r: Option<String>)
    ensures
        match r {
            Some(t) => strip_prefix_spec(s@, p@) == Some(t@),
            None => strip_prefix_spec(s@, p@) is None,
        },
{
    let cs = chars_of(s);
    let ps = chars_of(p);
    if starts_with(&cs, &ps) {
        Some(string_of(&cs, ps.len(), cs.len()))
    } else {
        None
    }
}

/// The first position of `p` in `s`, if it occurs.
pub open spec fn first_occurrence(s: Seq<char>, p: Seq<char>, i: int) -> bool {
    occurs_at(s, p, i) && forall|j: int| 0 <= j < i ==> !occurs_at(s, p, j)
}

/// The first position of `p` in `s`.
pub fn find_str(s: &str, p: &str) -> (r: Option<usize>)
    ensures
        match r {
            Some(i) => first_occurrence(s@, p@, i as int),
            None => !seq_contains_seq(s@, p@),
        },
{
    let cs = chars_of(s);
    let ps = chars_of(p);
    let r = find_from(&cs, &ps, 0);
    if r.is_none() {
        assert forall|j: int| !occurs_at(s@, p@, j) by {
            if j < 0 {
            }
        }
    }
    r
}

/// Whether `p` occurs in `s`.
pub fn contains_str(s: &str, p: &str) -> (r: bool)
    ensures
        r == seq_contains_seq(s@, p@),
{
    let cs = chars_of(s);
    let ps = chars_of(p);
    contains(&cs, &ps)
}

/// The decimal numeral of `n` appended to `s`.
pub fn append_decimal(s: &mut String, n: usize)
    ensures
        final(s)@ == old(s)@ + decimal(n as nat),
{
    let d = decimal_string(n);
    s.append(d.as_str());
}

} // verus!
