//! Reading a pusher's Perforce credentials from an HTTP `Authorization`
//! header: HTTP basic authentication, with the Perforce ticket as password.

use vstd::prelude::*;
use base64::Engine;
use vstd::utf8::{decode_utf8, valid_utf8};
use crate::text::{chars_of, string_of, strip_prefix, strip_prefix_spec, utf8_decode};

verus! {

/// The bytes that the standard base64 alphabet, with padding, decodes
/// `text` to; none when `text` is not such base64.
pub uninterp spec fn base64_standard_decode(text: Seq<char>) -> Option<Seq<u8>>;

/// Decodes `text` with `base64`'s standard engine
/// (`general_purpose::STANDARD.decode`). The result depends on `text`
/// alone; which texts decode, and to what, is not stated here.
#[verifier::external_body]
fn decode_base64(text: &str) -> (r: Option<Vec<u8>>)
    ensures
        match r {
            Some(v) => base64_standard_decode(text@) == Some(v@),
            None => base64_standard_decode(text@) is None,
        },
{
    base64::engine::general_purpose::STANDARD.decode(text).ok()
}

/// The user and password that decoded basic credentials hold: the UTF-8
/// text split at its first `:`.
pub open spec fn credentials_spec(decoded: Seq<u8>) -> Option<(Seq<char>, Seq<char>)> {
    if !valid_utf8(decoded) {
        None
    } else {
        let t = decode_utf8(decoded);
        if exists|i: int| 0 <= i < t.len() && t[i] == ':' {
            let i = choose|i: int|
                0 <= i < t.len() && t[i] == ':' && forall|j: int| 0 <= j < i ==> t[j] != ':';
            Some((t.subrange(0, i), t.subrange(i + 1, t.len() as int)))
        } else {
            None
        }
    }
}

/// The user and password in decoded basic credentials.
pub fn credentials_from_decoded(decoded: &[u8]) -> (r: Option<(String, String)>)
    ensures
        match r {
            Some((u, p)) => credentials_spec(decoded@) == Some((u@, p@)),
            None => credentials_spec(decoded@) is None,
        },
{
    let text = match utf8_decode(decoded) {
        Ok(t) => t,
        Err(_) => return None,
    };
    let cs = chars_of(text);
    let mut i: usize = 0;
    while i < cs.len()
        invariant
            cs@ == text@,
            text@ == decode_utf8(decoded@),
            valid_utf8(decoded@),
            i <= cs@.len(),
            forall|j: int| 0 <= j < i ==> cs@[j] != ':',
        decreases cs.len() - i,
    {
        if cs[i] == ':' {
            let user = string_of(&cs, 0, i);
            let pass = string_of(&cs, i + 1, cs.len());
            proof {
                let t = decode_utf8(decoded@);
                let k = choose|k: int|
                    0 <= k < t.len() && t[k] == ':' && forall|j: int| 0 <= j < k ==> t[j] != ':';
                assert(0 <= i < t.len() && t[i as int] == ':');
                if k < i {
                    assert(cs@[k] != ':');
                } else if k > i {
                    assert(t[i as int] != ':');
                }
            }
            return Some((user, pass));
        }
        i = i + 1;
    }
    None
}

/// The credentials an `Authorization` header's value carries: `Basic `,
/// then base64 of `user:password`.
pub open spec fn basic_auth_spec(header: Seq<char>) -> Option<(Seq<char>, Seq<char>)> {
    match strip_prefix_spec(header, "Basic "@) {
        None => None,
        Some(encoded) => match base64_standard_decode(encoded) {
            None => None,
            Some(decoded) => credentials_spec(decoded),
        },
    }
}

/// The user and password of a basic `Authorization` header's value.
pub fn extract_basic_auth(header: &str) -> (r: Option<(String, String)>)
    ensures
        match r {
            Some((u, p)) => basic_auth_spec(header@) == Some((u@, p@)),
            None => basic_auth_spec(header@) is None,
        },
{
    let encoded = match strip_prefix(header, "Basic ") {
        Some(e) => e,
        None => return None,
    };
    let decoded = match decode_base64(encoded.as_str()) {
        Some(d) => d,
        None => return None,
    };
    credentials_from_decoded(decoded.as_slice())
}

} // verus!
