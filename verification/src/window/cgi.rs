//! Reading what git-http-backend writes back: CGI headers, a `Status`
//! header among them, then the body.

use vstd::prelude::*;
use vstd::utf8::{decode_utf8, valid_utf8};
use crate::text::{skip_word, skip_ws, utf8_decode, chars_of, is_whitespace, parse_usize, parse_usize_spec};

verus! {

/// The headers at the front of a CGI response, as `httparse` reads them.
pub enum ParsedHeaders {
    /// All headers were read; the body starts at `body_offset`.
    Complete { body_offset: usize, headers: Vec<(String, Vec<u8>)> },
    /// The input ends inside the headers.
    Partial,
    /// The input does not start with valid headers.
    Invalid,
}

/// The mathematical form of [`ParsedHeaders`].
pub enum ParsedHeadersView {
    Complete(nat, Seq<(Seq<char>, Seq<u8>)>),
    Partial,
    Invalid,
}

impl View for ParsedHeaders {
    type V = ParsedHeadersView;

    open spec fn view(&self) -> ParsedHeadersView {
        match self {
            ParsedHeaders::Complete { body_offset, headers } => ParsedHeadersView::Complete(
                *body_offset as nat,
                headers@.map_values(|h: (String, Vec<u8>)| (h.0@, h.1@)),
            ),
            ParsedHeaders::Partial => ParsedHeadersView::Partial,
            ParsedHeaders::Invalid => ParsedHeadersView::Invalid,
        }
    }
}

/// What `httparse::parse_headers` makes of `raw`, with room for 16 headers.
pub uninterp spec fn httparse_headers(raw: Seq<u8>) -> ParsedHeadersView;

/// Reads the headers at the front of `raw` with `httparse::parse_headers`,
/// into 16 header slots. The parse depends on `raw` alone, and a complete
/// one ends within `raw`. Which headers it finds is not stated here.
#[verifier::external_body]
fn parse_headers(raw: &[u8]) -> (r: ParsedHeaders)
    ensures
        r@ == httparse_headers(raw@),
        r matches ParsedHeaders::Complete { body_offset, .. } ==> body_offset <= raw@.len(),
{
    let mut buf = [httparse::EMPTY_HEADER; 16];
    match httparse::parse_headers(raw, &mut buf) {
        Ok(httparse::Status::Complete((body_offset, hs))) => ParsedHeaders::Complete {
            body_offset,
            headers: hs.iter().map(|h| (h.name.to_string(), h.value.to_vec())).collect(),
        },
        Ok(httparse::Status::Partial) => ParsedHeaders::Partial,
        Err(_) => ParsedHeaders::Invalid,
    }
}

/// The first whitespace-separated word of `t`, if any.
pub open spec fn first_word(t: Seq<char>) -> Option<Seq<char>> {
    let lo = skip_ws(t, 0);
    if lo >= t.len() {
        None
    } else {
        Some(t.subrange(lo, skip_word(t, lo)))
    }
}

/// The status a CGI `Status` header's value gives: its first word as a
/// number from 100 to 999; 200 when the value is not UTF-8 or names none.
pub open spec fn status_of(value: Seq<u8>) -> u16 {
    if valid_utf8(value) {
        match first_word(decode_utf8(value)) {
            Some(w) => match parse_usize_spec(w) {
                Some(n) => if 100 <= n <= 999 {
                    n as u16
                } else {
                    200
                },
                None => 200,
            },
            None => 200,
        }
    } else {
        200
    }
}

/// The status a `Status` header's value gives.
pub fn status_from_value(value: &[u8]) -> (r: u16)
    ensures
        r == status_of(value@),
{
    match utf8_decode(value) {
        Err(_) => 200,
        Ok(text) => {
            let cs = chars_of(text);
            let mut lo: usize = 0;
            while lo < cs.len() && is_whitespace(cs[lo])
                invariant
                    cs@ == text@,
                    lo <= cs@.len(),
                    skip_ws(cs@, 0) == skip_ws(cs@, lo as int),
                decreases cs.len() - lo,
            {
                lo = lo + 1;
            }
            if lo >= cs.len() {
                return 200;
            }
            let mut hi: usize = lo;
            while hi < cs.len() && !is_whitespace(cs[hi])
                invariant
                    cs@ == text@,
                    lo <= hi <= cs@.len(),
                    skip_word(cs@, lo as int) == skip_word(cs@, hi as int),
                decreases cs.len() - hi,
            {
                hi = hi + 1;
            }
            match parse_usize(&cs, lo, hi) {
                Some(n) => {
                    if 100 <= n && n <= 999 {
                        n as u16
                    } else {
                        200
                    }
                },
                None => 200,
            }
        },
    }
}

/// `c` is `w`, or the ASCII capital of the small letter `w`.
pub open spec fn ascii_same(c: char, w: char) -> bool {
    c == w || ('A' <= c && c <= 'Z' && (c as u32) + 32 == (w as u32))
}

/// Whether a header name is `Status`, in any ASCII case.
pub open spec fn is_status_name(name: Seq<char>) -> bool {
    name.len() == 6 && forall|i: int| 0 <= i < 6 ==> ascii_same(#[trigger] name[i], "status"@[i])
}

/// Whether a header name is `Status`, in any ASCII case.
pub fn is_status_header(name: &str) -> (r: bool)
    ensures
        r == is_status_name(name@),
{
    proof {
        reveal_strlit("status");
    }
    let cs = chars_of(name);
    let want = chars_of("status");
    if cs.len() != 6 {
        return false;
    }
    let mut i: usize = 0;
    while i < 6
        invariant
            cs@ == name@,
            want@ == "status"@,
            want@.len() == 6,
            cs@.len() == 6,
            i <= 6,
            forall|j: int| 0 <= j < i ==> ascii_same(#[trigger] cs@[j], "status"@[j]),
        decreases 6 - i,
    {
        let c = cs[i];
        let w = want[i];
        let same = c == w || ('A' <= c && c <= 'Z' && (c as u32) + 32 == (w as u32));
        if !same {
            return false;
        }
        i = i + 1;
    }
    true
}

/// The status, the headers but `Status`, and the body's start that a
/// parse of CGI headers gives.
pub open spec fn cgi_reply_spec(parsed: ParsedHeadersView) -> (u16, Seq<(Seq<char>, Seq<u8>)>, nat) {
    match parsed {
        ParsedHeadersView::Complete(offset, hs) => (
            status_of_headers(hs),
            other_headers(hs),
            offset,
        ),
        _ => (200, Seq::empty(), 0),
    }
}

/// The status the last `Status` header gives; 200 when there is none.
pub open spec fn status_of_headers(hs: Seq<(Seq<char>, Seq<u8>)>) -> u16
    decreases hs.len(),
{
    if hs.len() == 0 {
        200
    } else if is_status_name(hs.last().0) {
        status_of(hs.last().1)
    } else {
        status_of_headers(hs.drop_last())
    }
}

/// The headers that are not `Status`, in order.
pub open spec fn other_headers(hs: Seq<(Seq<char>, Seq<u8>)>) -> Seq<(Seq<char>, Seq<u8>)>
    decreases hs.len(),
{
    if hs.len() == 0 {
        Seq::empty()
    } else if is_status_name(hs.last().0) {
        other_headers(hs.drop_last())
    } else {
        other_headers(hs.drop_last()).push(hs.last())
    }
}

/// Every header but `Status` is passed on, in order, and only those: the
/// headers passed on are exactly the headers whose name is not `Status`.
pub proof fn lemma_other_headers_keep_all(hs: Seq<(Seq<char>, Seq<u8>)>)
    ensures
        other_headers(hs) == hs.filter(|h: (Seq<char>, Seq<u8>)| !is_status_name(h.0)),
        forall|i: int|
            0 <= i < hs.len() && !is_status_name(hs[i].0) ==> #[trigger] other_headers(hs).contains(
                hs[i],
            ),
        forall|j: int|
            0 <= j < other_headers(hs).len() ==> !is_status_name(#[trigger] other_headers(hs)[j].0),
        other_headers(hs).len() <= hs.len(),
        (forall|i: int| 0 <= i < hs.len() ==> !is_status_name(#[trigger] hs[i].0)) ==> other_headers(
            hs,
        ) == hs,
    decreases hs.len(),
{
    let pred = |h: (Seq<char>, Seq<u8>)| !is_status_name(h.0);
    reveal(Seq::filter);
    if hs.len() > 0 {
        lemma_other_headers_keep_all(hs.drop_last());
        assert(hs.drop_last().push(hs.last()) =~= hs);
    } else {
        assert(hs.filter(pred) =~= hs);
    }
    assert(other_headers(hs) == hs.filter(pred));
    assert forall|i: int| 0 <= i < hs.len() && !is_status_name(hs[i].0) implies #[trigger] other_headers(
        hs,
    ).contains(hs[i]) by {
        hs.lemma_filter_contains(pred, i);
    }
    assert forall|j: int| 0 <= j < other_headers(hs).len() implies !is_status_name(
        #[trigger] other_headers(hs)[j].0,
    ) by {
        hs.lemma_filter_pred(pred, j);
    }
    hs.lemma_filter_len(pred);
}

/// What git-http-backend answered: a status, its headers, and where in
/// its output the body starts.
#[derive(Debug)]
pub struct CgiReply {
    pub status: u16,
    pub headers: Vec<(String, Vec<u8>)>,
    pub body_offset: usize,
}

/// Splits parsed CGI headers into the status (from the last `Status`
/// header, 200 without one), the other headers, and the body's start; input
/// whose headers do not parse is all body, with status 200.
pub fn cgi_reply(parsed: ParsedHeaders) -> (r: CgiReply)
    ensures
        (r.status, r.headers@.map_values(|h: (String, Vec<u8>)| (h.0@, h.1@)), r.body_offset as nat)
            == cgi_reply_spec(parsed@),
{
    match parsed {
        ParsedHeaders::Complete { body_offset, headers } => {
            let ghost hs = headers@.map_values(|h: (String, Vec<u8>)| (h.0@, h.1@));
            let mut status: u16 = 200;
            let mut others: Vec<(String, Vec<u8>)> = Vec::new();
            let mut k: usize = 0;
            while k < headers.len()
                invariant
                    k <= headers@.len(),
                    hs == headers@.map_values(|h: (String, Vec<u8>)| (h.0@, h.1@)),
                    status == status_of_headers(hs.take(k as int)),
                    others@.map_values(|h: (String, Vec<u8>)| (h.0@, h.1@)) == other_headers(
                        hs.take(k as int),
                    ),
                decreases headers.len() - k,
            {
                proof {
                    assert(hs.take(k + 1).drop_last() =~= hs.take(k as int));
                    assert(hs.take(k + 1).last() == hs[k as int]);
                }
                let (name, value) = &headers[k];
                if is_status_header(name.as_str()) {
                    status = status_from_value(value.as_slice());
                } else {
                    let ghost before = others@.map_values(|h: (String, Vec<u8>)| (h.0@, h.1@));
                    others.push((name.clone(), value.clone()));
                    assert(others@.map_values(|h: (String, Vec<u8>)| (h.0@, h.1@)) =~= before.push(
                        hs[k as int],
                    ));
                }
                k = k + 1;
            }
            assert(hs.take(headers@.len() as int) =~= hs);
            CgiReply { status, headers: others, body_offset }
        },
        _ => CgiReply { status: 200, headers: Vec::new(), body_offset: 0 },
    }
}

/// Reads git-http-backend's output: its status, its headers but
/// `Status`, and where its body starts.
pub fn parse_cgi_output(raw: &[u8]) -> (r: CgiReply)
    ensures
        (r.status, r.headers@.map_values(|h: (String, Vec<u8>)| (h.0@, h.1@)), r.body_offset as nat)
            == cgi_reply_spec(httparse_headers(raw@)),
        r.body_offset <= raw@.len(),
{
    let parsed = parse_headers(raw);
    cgi_reply(parsed)
}

} // verus!
