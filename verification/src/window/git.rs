//! The git smart-HTTP wire format as the server meets it: reading the ref
//! updates a push announces, and writing error and progress packets back.

use vstd::prelude::*;
use gix_packetline::decode::Stream;
use gix_packetline::PacketLineRef;
use vstd::utf8::{decode_utf8, encode_utf8, valid_utf8};
use crate::text::{
    utf8_decode, hex_digit,
    chars_of, hex4, hex_padded, line_bounds, lines_from, trim_bounds, trim_spec, bytes_rfind,
    occurs_at,
};

verus! {

// ---------------------------------------------------------- pkt-line input

/// One packet line.
pub enum PktLine {
    Flush,
    Delimiter,
    ResponseEnd,
    Data(Vec<u8>),
}

/// The outcome of decoding one packet line from the front of a buffer.
pub enum PktDecode {
    /// A line, and how many bytes of the buffer it took.
    Complete { line: PktLine, consumed: usize },
    /// The buffer ends before the line does; `needed` more bytes are wanted.
    Incomplete { needed: usize },
    /// The buffer does not start with a valid packet line.
    Invalid,
}

/// The mathematical form of a [`PktDecode`].
pub enum PktDecodeSpec {
    Flush(nat),
    Delimiter(nat),
    ResponseEnd(nat),
    Data(Seq<u8>, nat),
    Incomplete(nat),
    Invalid,
}

impl View for PktDecode {
    type V = PktDecodeSpec;

    open spec fn view(&self) -> PktDecodeSpec {
        match self {
            PktDecode::Complete { line, consumed } => match line {
                PktLine::Flush => PktDecodeSpec::Flush(*consumed as nat),
                PktLine::Delimiter => PktDecodeSpec::Delimiter(*consumed as nat),
                PktLine::ResponseEnd => PktDecodeSpec::ResponseEnd(*consumed as nat),
                PktLine::Data(d) => PktDecodeSpec::Data(d@, *consumed as nat),
            },
            PktDecode::Incomplete { needed } => PktDecodeSpec::Incomplete(*needed as nat),
            PktDecode::Invalid => PktDecodeSpec::Invalid,
        }
    }
}

/// The value of a hexadecimal digit (either case), if it is one.
pub open spec fn hex_value(b: u8) -> Option<nat> {
    if 48 <= b <= 57 {
        Some((b - 48) as nat)
    } else if 97 <= b <= 102 {
        Some((b - 87) as nat)
    } else if 65 <= b <= 70 {
        Some((b - 55) as nat)
    } else {
        None
    }
}

/// The value of four hexadecimal digits.
pub open spec fn hex4_value(p: Seq<u8>) -> Option<nat> {
    match (hex_value(p[0]), hex_value(p[1]), hex_value(p[2]), hex_value(p[3])) {
        (Some(a), Some(b), Some(c), Some(d)) => Some(((a * 16 + b) * 16 + c) * 16 + d),
        _ => None,
    }
}

/// How a packet line is read from the front of `data`: four hexadecimal
/// digits give the length of the whole line, prefix included; `0000`,
/// `0001` and `0002` are the flush, delimiter and response-end packets;
/// lengths 3 and 4, and lengths above 65520, are invalid.
pub open spec fn pkt_decode_spec(data: Seq<u8>) -> PktDecodeSpec {
    if data.len() < 4 {
        PktDecodeSpec::Incomplete((4 - data.len()) as nat)
    } else if data.subrange(0, 4) == seq![48u8, 48u8, 48u8, 48u8] {
        PktDecodeSpec::Flush(4)
    } else if data.subrange(0, 4) == seq![48u8, 48u8, 48u8, 49u8] {
        PktDecodeSpec::Delimiter(4)
    } else if data.subrange(0, 4) == seq![48u8, 48u8, 48u8, 50u8] {
        PktDecodeSpec::ResponseEnd(4)
    } else {
        match hex4_value(data) {
            None => PktDecodeSpec::Invalid,
            Some(w) => if w == 3 || w == 4 || w > 65520 {
                PktDecodeSpec::Invalid
            } else if data.len() < w {
                PktDecodeSpec::Incomplete((w - data.len()) as nat)
            } else {
                PktDecodeSpec::Data(data.subrange(4, w as int), w)
            },
        }
    }
}

/// Decodes one packet line from the front of `data`
/// (`gix_packetline::decode::streaming`). The crate's source reads the four
/// hex digits (either case) as the line length, prefix included; treats
/// `0000`, `0001`, `0002` as flush, delimiter and response end; rejects
/// lengths 3 and 4 and lengths above 65520; and asks for more bytes when
/// the buffer is short. That is the whole of what the contract claims.
#[verifier::external_body]
fn decode_pkt_line(data: &[u8]) -> (r: PktDecode)
    ensures
        r@ == pkt_decode_spec(data@),
{
    match gix_packetline::decode::streaming(data) {
        Ok(Stream::Complete { line, bytes_consumed }) => PktDecode::Complete {
            line: match line {
                PacketLineRef::Data(d) => PktLine::Data(d.to_vec()),
                PacketLineRef::Flush => PktLine::Flush,
                PacketLineRef::Delimiter => PktLine::Delimiter,
                PacketLineRef::ResponseEnd => PktLine::ResponseEnd,
            },
            consumed: bytes_consumed,
        },
        Ok(Stream::Incomplete { bytes_needed }) => PktDecode::Incomplete { needed: bytes_needed },
        Err(_) => PktDecode::Invalid,
    }
}


/// A ref update a push announces: old id, new id, ref name.
#[derive(Debug)]
pub struct RefUpdate {
    pub old_sha: String,
    pub new_sha: String,
    pub refname: String,
}

impl View for RefUpdate {
    type V = (Seq<char>, Seq<char>, Seq<char>);

    open spec fn view(&self) -> (Seq<char>, Seq<char>, Seq<char>) {
        (self.old_sha@, self.new_sha@, self.refname@)
    }
}

/// The first position of `c` in `t` at or after `from`, or `t.len()`.
pub open spec fn next_index_of(t: Seq<char>, c: char, from: int) -> int
    decreases t.len() - from,
{
    if from >= t.len() {
        t.len() as int
    } else if t[from] == c {
        from
    } else {
        next_index_of(t, c, from + 1)
    }
}

proof fn lemma_next_index_of(t: Seq<char>, c: char, from: int)
    requires
        0 <= from,
    ensures
        from <= next_index_of(t, c, from) || from > t.len(),
        next_index_of(t, c, from) <= t.len(),
        next_index_of(t, c, from) < t.len() ==> t[next_index_of(t, c, from)] == c,
        forall|j: int| from <= j < next_index_of(t, c, from) ==> t[j] != c,
    decreases t.len() - from,
{
    if from < t.len() && t[from] != c {
        lemma_next_index_of(t, c, from + 1);
    }
}

/// `t.splitn(3, ' ')` when it yields three parts.
pub open spec fn split3_spec(t: Seq<char>) -> Option<(Seq<char>, Seq<char>, Seq<char>)> {
    let i1 = next_index_of(t, ' ', 0);
    if i1 >= t.len() {
        None
    } else {
        let i2 = next_index_of(t, ' ', i1 + 1);
        if i2 >= t.len() {
            None
        } else {
            Some((t.subrange(0, i1), t.subrange(i1 + 1, i2), t.subrange(i2 + 1, t.len() as int)))
        }
    }
}

/// The position of the first NUL in `p` at or after `from`, or `p.len()`.
pub open spec fn first_nul(p: Seq<u8>, from: int) -> int
    decreases p.len() - from,
{
    if from >= p.len() {
        p.len() as int
    } else if p[from] == 0 {
        from
    } else {
        first_nul(p, from + 1)
    }
}

/// The bytes of `p` before its first NUL (the capability list follows it).
pub open spec fn before_nul(p: Seq<u8>) -> Seq<u8> {
    p.subrange(0, first_nul(p, 0))
}

/// The ref update a packet payload announces, if it reads as one: the part
/// before any NUL is UTF-8 text which, trimmed, splits at its first two
/// spaces into three parts.
pub open spec fn ref_update_of(payload: Seq<u8>) -> Option<(Seq<char>, Seq<char>, Seq<char>)> {
    let p = before_nul(payload);
    if valid_utf8(p) {
        split3_spec(trim_spec(decode_utf8(p)))
    } else {
        None
    }
}

/// The ref updates of a push request body: one per data packet, up to the
/// first packet that is not data.
pub open spec fn ref_updates_spec(body: Seq<u8>) -> Seq<(Seq<char>, Seq<char>, Seq<char>)>
    decreases body.len(),
{
    match pkt_decode_spec(body) {
        PktDecodeSpec::Data(payload, consumed) => {
            if 0 < consumed <= body.len() {
                let rest = ref_updates_spec(body.subrange(consumed as int, body.len() as int));
                match ref_update_of(payload) {
                    Some(u) => seq![u] + rest,
                    None => rest,
                }
            } else {
                Seq::empty()
            }
        },
        _ => Seq::empty(),
    }
}

fn payload_before_nul(payload: &Vec<u8>) -> (r: Vec<u8>)
    ensures
        r@ == before_nul(payload@),
{
    let mut i: usize = 0;
    while i < payload.len() && payload[i] != 0
        invariant
            i <= payload@.len(),
            first_nul(payload@, 0) == first_nul(payload@, i as int),
        decreases payload.len() - i,
    {
        i = i + 1;
    }
    let mut r: Vec<u8> = Vec::new();
    let mut k: usize = 0;
    while k < i
        invariant
            i <= payload@.len(),
            k <= i,
            r@ == payload@.subrange(0, k as int),
        decreases i - k,
    {
        r.push(payload[k]);
        k = k + 1;
        assert(r@ =~= payload@.subrange(0, k as int));
    }
    r
}

fn find_char_from(t: &[char], c: char, from: usize) -> (r: usize)
    requires
        from <= t@.len(),
    ensures
        r == next_index_of(t@, c, from as int),
{
    let mut i = from;
    while i < t.len() && t[i] != c
        invariant
            from <= i <= t@.len(),
            next_index_of(t@, c, from as int) == next_index_of(t@, c, i as int),
        decreases t.len() - i,
    {
        i = i + 1;
    }
    i
}

fn ref_update_from_payload(payload: &Vec<u8>) -> (r: Option<RefUpdate>)
    ensures
        match r {
            Some(u) => ref_update_of(payload@) == Some(u@),
            None => ref_update_of(payload@).is_none(),
        },
{
    let p = payload_before_nul(payload);
    let text = match utf8_decode(p.as_slice()) {
        Ok(t) => t,
        Err(_) => return None,
    };
    let cs: Vec<char> = chars_of(text);
    let (a, b) = trim_bounds(&cs, 0, cs.len());
    assert(cs@.subrange(0, cs@.len() as int) =~= cs@);
    let ghost t = cs@.subrange(a as int, b as int);
    let tv: Vec<char> = slice_to_vec(&cs, a, b);
    let i1 = find_char_from(&tv, ' ', 0);
    if i1 >= tv.len() {
        return None;
    }
    proof {
        lemma_next_index_of(tv@, ' ', 0);
    }
    let i2 = find_char_from(&tv, ' ', i1 + 1);
    if i2 >= tv.len() {
        return None;
    }
    proof {
        lemma_next_index_of(tv@, ' ', i1 + 1);
    }
    Some(RefUpdate {
        old_sha: crate::text::string_of(&tv, 0, i1),
        new_sha: crate::text::string_of(&tv, i1 + 1, i2),
        refname: crate::text::string_of(&tv, i2 + 1, tv.len()),
    })
}

fn slice_to_vec(v: &[char], lo: usize, hi: usize) -> (r: Vec<char>)
    requires
        lo <= hi <= v@.len(),
    ensures
        r@ == v@.subrange(lo as int, hi as int),
{
    let mut r: Vec<char> = Vec::new();
    let mut i = lo;
    while i < hi
        invariant
            lo <= i <= hi <= v@.len(),
            r@ == v@.subrange(lo as int, i as int),
        decreases hi - i,
    {
        r.push(v[i]);
        i = i + 1;
        assert(r@ =~= v@.subrange(lo as int, i as int));
    }
    r
}

/// The ref updates a `git-receive-pack` request body announces, in order:
/// one per data packet whose text splits into old id, new id and ref
/// name; reading stops at the first packet that is not data.
pub fn parse_ref_updates(body: &[u8]) -> (r: Vec<RefUpdate>)
    ensures
        r@.map_values(|u: RefUpdate| u@) == ref_updates_spec(body@),
{
    let blen = body.len();
    let mut refs: Vec<RefUpdate> = Vec::new();
    let mut pos: usize = 0;
    let mut rest: Vec<u8> = body_from(body, 0);
    assert(body@.subrange(0, body@.len() as int) =~= body@);
    loop
        invariant
            blen == body@.len(),
            pos <= body@.len(),
            rest@ == body@.subrange(pos as int, body@.len() as int),
            ref_updates_spec(body@) == refs@.map_values(|u: RefUpdate| u@) + ref_updates_spec(rest@),
        decreases body@.len() - pos,
    {
        let d = decode_pkt_line(rest.as_slice());
        match d {
            PktDecode::Complete { line: PktLine::Data(payload), consumed } => {
                if consumed == 0 || consumed > rest.len() {
                    return refs;
                }
                let ghost old_refs = refs@.map_values(|u: RefUpdate| u@);
                let ghost old_rest = rest@;
                match ref_update_from_payload(&payload) {
                    Some(u) => {
                        refs.push(u);
                        assert(refs@.map_values(|u: RefUpdate| u@) =~= old_refs.push(
                            ref_update_of(payload@).unwrap(),
                        ));
                    },
                    None => {},
                }
                pos = pos + consumed;
                rest = body_from(body, pos);
                assert(rest@ =~= old_rest.subrange(consumed as int, old_rest.len() as int));
                assert(ref_updates_spec(body@) =~= refs@.map_values(|u: RefUpdate| u@) + ref_updates_spec(rest@));
            },
            _ => {
                assert(refs@.map_values(|u: RefUpdate| u@) + ref_updates_spec(rest@) =~= refs@.map_values(
                    |u: RefUpdate| u@,
                ));
                return refs;
            },
        }
    }
}

fn body_from(body: &[u8], pos: usize) -> (r: Vec<u8>)
    requires
        pos <= body@.len(),
    ensures
        r@ == body@.subrange(pos as int, body@.len() as int),
{
    let mut r: Vec<u8> = Vec::new();
    let mut i = pos;
    while i < body.len()
        invariant
            pos <= i <= body@.len(),
            r@ == body@.subrange(pos as int, i as int),
        decreases body.len() - i,
    {
        r.push(body[i]);
        i = i + 1;
        assert(r@ =~= body@.subrange(pos as int, i as int));
    }
    r
}


// --------------------------------------------------------- pkt-line output

/// A packet on sideband `band` carrying `payload`: four (or more) hex
/// digits giving the packet's length, the band byte, then the payload.
pub open spec fn pkt(band: u8, payload: Seq<u8>) -> Seq<u8> {
    hex_padded((payload.len() + 5) as nat, 4) + seq![band] + payload
}

/// `ERR `
pub open spec fn err_prefix() -> Seq<char> {
    Seq::empty().push('E').push('R').push('R').push(' ')
}

/// `remote: `
pub open spec fn remote_prefix() -> Seq<char> {
    Seq::empty().push('r').push('e').push('m').push('o').push('t').push('e').push(':').push(' ')
}

/// One error packet (band 3) per line, each reading `ERR <line>`.
pub open spec fn err_packets(ls: Seq<Seq<char>>) -> Seq<u8>
    decreases ls.len(),
{
    if ls.len() == 0 {
        Seq::empty()
    } else {
        err_packets(ls.drop_last()) + pkt(3, encode_utf8(err_prefix() + ls.last()))
    }
}

/// One progress packet (band 2) per line, each reading `remote: <line>`
/// and a newline.
pub open spec fn progress_packets(ls: Seq<Seq<char>>) -> Seq<u8>
    decreases ls.len(),
{
    if ls.len() == 0 {
        Seq::empty()
    } else {
        progress_packets(ls.drop_last()) + pkt(2, encode_utf8(remote_prefix() + ls.last() + seq!['\n']))
    }
}

/// Each line gets its own progress packet, in order: one line gives one
/// packet reading `remote: <line>` and a newline, and the packets of two
/// runs of lines are the packets of the first followed by those of the
/// second; so no line is dropped and the packets grow with every line.
pub proof fn lemma_progress_packets_per_line(a: Seq<Seq<char>>, b: Seq<Seq<char>>, l: Seq<char>)
    ensures
        progress_packets(seq![l]) == pkt(2, encode_utf8(remote_prefix() + l + seq!['\n'])),
        progress_packets(a + b) == progress_packets(a) + progress_packets(b),
        progress_packets(a.push(l)).len() > progress_packets(a).len(),
    decreases b.len(),
{
    assert(seq![l].drop_last() =~= Seq::<Seq<char>>::empty());
    assert(progress_packets(Seq::<Seq<char>>::empty()) =~= Seq::<u8>::empty());
    assert(progress_packets(seq![l]) =~= pkt(2, encode_utf8(remote_prefix() + l + seq!['\n'])));
    if b.len() == 0 {
        assert(a + b =~= a);
        assert(progress_packets(a) + progress_packets(b) =~= progress_packets(a));
    } else {
        lemma_progress_packets_per_line(a, b.drop_last(), l);
        assert((a + b).drop_last() =~= a + b.drop_last());
        assert((a + b).last() == b.last());
        assert(progress_packets(a + b) =~= progress_packets(a) + progress_packets(b));
    }
    assert(a.push(l).drop_last() =~= a);
}

/// Each line gets its own error packet, in order: one line gives one
/// packet reading `ERR <line>`, and the packets of two runs of lines are
/// those of the first followed by those of the second.
pub proof fn lemma_err_packets_per_line(a: Seq<Seq<char>>, b: Seq<Seq<char>>, l: Seq<char>)
    ensures
        err_packets(seq![l]) == pkt(3, encode_utf8(err_prefix() + l)),
        err_packets(a + b) == err_packets(a) + err_packets(b),
        err_packets(a.push(l)).len() > err_packets(a).len(),
    decreases b.len(),
{
    assert(seq![l].drop_last() =~= Seq::<Seq<char>>::empty());
    assert(err_packets(Seq::<Seq<char>>::empty()) =~= Seq::<u8>::empty());
    assert(err_packets(seq![l]) =~= pkt(3, encode_utf8(err_prefix() + l)));
    if b.len() == 0 {
        assert(a + b =~= a);
        assert(err_packets(a) + err_packets(b) =~= err_packets(a));
    } else {
        lemma_err_packets_per_line(a, b.drop_last(), l);
        assert((a + b).drop_last() =~= a + b.drop_last());
        assert((a + b).last() == b.last());
        assert(err_packets(a + b) =~= err_packets(a) + err_packets(b));
    }
    assert(a.push(l).drop_last() =~= a);
}

proof fn lemma_hex_digit(d: nat)
    requires
        d < 16,
    ensures
        hex_value(hex_digit(d)) == Some(d),
{
}

proof fn lemma_hex_padded4(n: nat)
    requires
        5 <= n < 65536,
    ensures
        hex_padded(n, 4).len() == 4,
        hex4_value(hex_padded(n, 4)) == Some(n),
        hex_padded(n, 4) != seq![48u8, 48u8, 48u8, 48u8],
        hex_padded(n, 4) != seq![48u8, 48u8, 48u8, 49u8],
        hex_padded(n, 4) != seq![48u8, 48u8, 48u8, 50u8],
{
    let a = n / 4096;
    let b = (n / 256) % 16;
    let c = (n / 16) % 16;
    let d = n % 16;
    assert(n / 16 / 16 == n / 256 && n / 256 / 16 == n / 4096 && a < 16 && n == ((a * 16 + b) * 16
        + c) * 16 + d) by (nonlinear_arith)
        requires
            a == n / 4096,
            b == (n / 256) % 16,
            c == (n / 16) % 16,
            d == n % 16,
            n < 65536,
    ;
    assert(hex_padded(a, 1) == seq![hex_digit(a)]);
    assert(hex_padded(n / 256, 2) == hex_padded(n / 256 / 16, 1).push(hex_digit((n / 256) % 16)));
    assert(hex_padded(n / 16, 3) == hex_padded(n / 16 / 16, 2).push(hex_digit((n / 16) % 16)));
    assert(hex_padded(n, 4) == hex_padded(n / 16, 3).push(hex_digit(n % 16)));
    let h = hex_padded(n, 4);
    assert(h =~= seq![hex_digit(a), hex_digit(b), hex_digit(c), hex_digit(d)]);
    lemma_hex_digit(a);
    lemma_hex_digit(b);
    lemma_hex_digit(c);
    lemma_hex_digit(d);
    if h == seq![48u8, 48u8, 48u8, 48u8] || h == seq![48u8, 48u8, 48u8, 49u8] || h == seq![
        48u8,
        48u8,
        48u8,
        50u8,
    ] {
        assert(h[0] == 48u8 && h[1] == 48u8 && h[2] == 48u8);
        assert(a == 0 && b == 0 && c == 0);
        assert(d <= 2);
    }
}

/// A packet line, read back from the front of any stream it starts: the
/// reader gives back the band and payload it carries, and how many bytes
/// it took. This holds for every payload short enough for one packet.
pub proof fn lemma_pkt_round_trip(band: u8, payload: Seq<u8>, rest: Seq<u8>)
    requires
        payload.len() + 5 <= 65520,
    ensures
        pkt_decode_spec(pkt(band, payload) + rest) == PktDecodeSpec::Data(
            seq![band] + payload,
            (payload.len() + 5) as nat,
        ),
{
    let n = (payload.len() + 5) as nat;
    lemma_hex_padded4(n);
    let h = hex_padded(n, 4);
    let data = pkt(band, payload) + rest;
    assert(data.subrange(0, 4) =~= h);
    assert(hex4_value(data) == hex4_value(h)) by {
        assert(data[0] == h[0] && data[1] == h[1] && data[2] == h[2] && data[3] == h[3]);
    }
    assert(data.subrange(4, n as int) =~= seq![band] + payload);
}

/// `0000`, the flush packet.
pub open spec fn flush_pkt() -> Seq<u8> {
    seq![48u8, 48u8, 48u8, 48u8]
}

fn push_bytes(out: &mut Vec<u8>, b: &[u8])
    ensures
        final(out)@ == old(out)@ + b@,
{
    let mut i: usize = 0;
    while i < b.len()
        invariant
            i <= b@.len(),
            out@ == old(out)@ + b@.subrange(0, i as int),
        decreases b.len() - i,
    {
        out.push(b[i]);
        i = i + 1;
        assert(out@ =~= old(out)@ + b@.subrange(0, i as int));
    }
    assert(b@.subrange(0, b@.len() as int) =~= b@);
}

fn push_pkt(out: &mut Vec<u8>, band: u8, payload: &[u8])
    ensures
        final(out)@ == old(out)@ + pkt(band, payload@),
{
    let len: u128 = payload.len() as u128;
    let h = hex4(len + 5);
    push_bytes(out, h.as_slice());
    out.push(band);
    push_bytes(out, payload);
    assert(final(out)@ =~= old(out)@ + pkt(band, payload@));
}

/// The packets that carry `lines` of `text`, each line framed by `prefix`
/// and `suffix`, on sideband `band`.
fn packets_for_lines(text: &str, band: u8, prefix: &str, suffix: &str) -> (r: Vec<u8>)
    ensures
        band == 3 && prefix@ == err_prefix() && suffix@ == Seq::<char>::empty() ==> r@ == err_packets(
            lines_from(text@, 0),
        ),
        band == 2 && prefix@ == remote_prefix() && suffix@ == seq!['\n'] ==> r@ == progress_packets(
            lines_from(text@, 0),
        ),
{
    let cs: Vec<char> = chars_of(text);
    let bounds = line_bounds(&cs);
    let ghost ls = lines_from(cs@, 0);
    let mut out: Vec<u8> = Vec::new();
    let mut k: usize = 0;
    while k < bounds.len()
        invariant
            cs@ == text@,
            ls == lines_from(cs@, 0),
            bounds@.len() == ls.len(),
            forall|j: int|
                0 <= j < bounds@.len() ==> {
                    &&& #[trigger] bounds@[j].0 <= bounds@[j].1 <= cs@.len()
                    &&& cs@.subrange(bounds@[j].0 as int, bounds@[j].1 as int) == ls[j]
                },
            k <= bounds@.len(),
            band == 3 && prefix@ == err_prefix() && suffix@ == Seq::<char>::empty() ==> out@
                == err_packets(ls.take(k as int)),
            band == 2 && prefix@ == remote_prefix() && suffix@ == seq!['\n'] ==> out@
                == progress_packets(ls.take(k as int)),
        decreases bounds.len() - k,
    {
        let (a, b) = bounds[k];
        assert(bounds@[k as int].0 <= bounds@[k as int].1);
        let mut line = String::new();
        line.append(prefix);
        crate::text::append_chars(&mut line, &cs, a, b);
        line.append(suffix);
        let bytes = line.as_str().as_bytes();
        let ghost before = out@;
        push_pkt(&mut out, band, bytes);
        proof {
            assert(ls.take(k + 1).drop_last() =~= ls.take(k as int));
            assert(ls.take(k + 1).last() == ls[k as int]);
            if suffix@ == Seq::<char>::empty() {
                assert(line@ =~= prefix@ + ls[k as int]);
            } else {
                assert(line@ =~= prefix@ + ls[k as int] + suffix@);
            }
        }
        k = k + 1;
    }
    assert(ls.take(bounds@.len() as int) =~= ls);
    out
}

/// The body of a git smart-HTTP response that makes `git push` print
/// `message`: one `ERR` packet per line, then a flush packet.
pub fn git_error_body(message: &str) -> (r: Vec<u8>)
    ensures
        r@ == err_packets(lines_from(message@, 0)) + flush_pkt(),
{
    proof {
        reveal_strlit("ERR ");
        reveal_strlit("");
        assert("ERR "@ =~= err_prefix());
        assert(""@ =~= Seq::<char>::empty());
    }
    let mut body = packets_for_lines(message, 3, "ERR ", "");
    body.push(48u8);
    body.push(48u8);
    body.push(48u8);
    body.push(48u8);
    assert(body@ =~= err_packets(lines_from(message@, 0)) + flush_pkt());
    body
}

/// What `inject_sideband_messages` makes of `body`: the progress packets
/// for `message` go in just before the last flush packet; a body with no
/// flush packet is left as it is.
pub open spec fn inject_spec(body: Seq<u8>, message: Seq<char>, pos: Option<int>) -> Seq<u8> {
    match pos {
        Some(p) => body.subrange(0, p) + progress_packets(lines_from(message, 0)) + body.subrange(
            p,
            body.len() as int,
        ),
        None => body,
    }
}

/// The position of the last flush packet in `body`, if any.
pub open spec fn last_flush(body: Seq<u8>, pos: Option<int>) -> bool {
    match pos {
        Some(p) => occurs_at(body, flush_pkt(), p) && forall|j: int|
            p < j ==> !occurs_at(body, flush_pkt(), j),
        None => forall|j: int| !occurs_at(body, flush_pkt(), j),
    }
}

/// Adds `message` to a receive-pack response as progress lines
/// (`remote: ...`), placed before the body's final flush packet.
pub fn inject_sideband_messages(body: &[u8], message: &str) -> (r: Vec<u8>)
    ensures
        exists|pos: Option<int>| last_flush(body@, pos) && r@ == inject_spec(body@, message@, pos),
{
    let flush: Vec<u8> = vec![48u8, 48u8, 48u8, 48u8];
    assert(flush@ =~= flush_pkt());
    match bytes_rfind(body, &flush) {
        Some(p) => {
            proof {
                reveal_strlit("remote: ");
                reveal_strlit("\n");
                assert("remote: "@ =~= remote_prefix());
                assert("\n"@ =~= seq!['\n']);
            }
            let info = packets_for_lines(message, 2, "remote: ", "\n");
            let mut out: Vec<u8> = Vec::new();
            push_range(&mut out, body, 0, p);
            push_bytes(&mut out, info.as_slice());
            push_range(&mut out, body, p, body.len());
            assert(last_flush(body@, Some(p as int)));
            assert(out@ =~= inject_spec(body@, message@, Some(p as int)));
            out
        },
        None => {
            assert(last_flush(body@, None));
            let mut out: Vec<u8> = Vec::new();
            push_range(&mut out, body, 0, body.len());
            assert(out@ =~= inject_spec(body@, message@, None));
            out
        },
    }
}

fn push_range(out: &mut Vec<u8>, b: &[u8], lo: usize, hi: usize)
    requires
        lo <= hi <= b@.len(),
    ensures
        final(out)@ == old(out)@ + b@.subrange(lo as int, hi as int),
{
    let mut i = lo;
    while i < hi
        invariant
            lo <= i <= hi <= b@.len(),
            out@ == old(out)@ + b@.subrange(lo as int, i as int),
        decreases hi - i,
    {
        out.push(b[i]);
        i = i + 1;
        assert(out@ =~= old(out)@ + b@.subrange(lo as int, i as int));
    }
}

} // verus!
