//! Perforce tickets kept for pushers: under which key a ticket is stored,
//! and when a stored one may be used.

use vstd::prelude::*;
use crate::perforce::p4::{P4, P4View};
use crate::text::{chars_of, string_of};

verus! {

/// Why a ticket cannot be had.
#[derive(Debug)]
pub enum TicketStoreError {
    NoTicketStored { p4port: String, p4user: String },
    TicketExpired { p4port: String, p4user: String },
    KeyringUnavailable(String),
    TicketInvalid(String),
    Database(String),
}

/// The key a ticket is stored under: `port:user`.
pub open spec fn ticket_key(p4port: Seq<char>, p4user: Seq<char>) -> Seq<char> {
    p4port + seq![':'] + p4user
}

/// The key a ticket for `p4user` on `p4port` is stored under.
pub fn keyring_username(p4port: &str, p4user: &str) -> (r: String)
    ensures
        r@ == ticket_key(p4port@, p4user@),
{
    let mut r = p4port.to_owned();
    r.append(":");
    r.append(p4user);
    proof {
        reveal_strlit(":");
        assert(r@ =~= ticket_key(p4port@, p4user@));
    }
    r
}

/// The port and user a key names: the key split at its first `:`; a key
/// without one names no port.
pub open spec fn key_parts_spec(key: Seq<char>) -> (Seq<char>, Seq<char>) {
    if exists|i: int| 0 <= i < key.len() && key[i] == ':' {
        let i = choose|i: int|
            0 <= i < key.len() && key[i] == ':' && forall|j: int| 0 <= j < i ==> key[j] != ':';
        (key.subrange(0, i), key.subrange(i + 1, key.len() as int))
    } else {
        (Seq::empty(), key)
    }
}

/// The port and user a key names.
pub fn key_parts(key: &str) -> (r: (String, String))
    ensures
        (r.0@, r.1@) == key_parts_spec(key@),
{
    let cs = chars_of(key);
    let mut i: usize = 0;
    while i < cs.len()
        invariant
            cs@ == key@,
            i <= cs@.len(),
            forall|j: int| 0 <= j < i ==> cs@[j] != ':',
        decreases cs.len() - i,
    {
        if cs[i] == ':' {
            proof {
                let k = choose|k: int|
                    0 <= k < key@.len() && key@[k] == ':' && forall|j: int| 0 <= j < k ==> key@[j] != ':';
                assert(key@[i as int] == ':');
                if k < i {
                    assert(cs@[k] != ':');
                } else if k > i {
                    assert(key@[i as int] != ':');
                }
            }
            return (string_of(&cs, 0, i), string_of(&cs, i + 1, cs.len()));
        }
        i = i + 1;
    }
    (String::new(), key.to_owned())
}

/// The key of a ticket names its port and user again, for a port without
/// a `:` in it.
pub proof fn lemma_ticket_key_round_trip(p4port: Seq<char>, p4user: Seq<char>)
    requires
        forall|i: int| 0 <= i < p4port.len() ==> p4port[i] != ':',
    ensures
        key_parts_spec(ticket_key(p4port, p4user)) == (p4port, p4user),
{
    let key = ticket_key(p4port, p4user);
    let n = p4port.len() as int;
    assert(key[n] == ':');
    let i = choose|i: int|
        0 <= i < key.len() && key[i] == ':' && forall|j: int| 0 <= j < i ==> key[j] != ':';
    if i < n {
        assert(key[i] == p4port[i]);
    } else if i > n {
        assert(key[n] != ':');
    }
    assert(key.subrange(0, n) =~= p4port);
    assert(key.subrange(n + 1, key.len() as int) =~= p4user);
}

/// Whether a ticket that expires at `expires_at` has expired at `now`
/// (both in seconds since the Unix epoch): from its expiry on.
pub fn ticket_expired(now: i64, expires_at: i64) -> (r: bool)
    ensures
        r == (now >= expires_at),
{
    now >= expires_at
}

/// Whether the ticket of `p4user` on `p4port` has expired at `now`, from
/// its stored expiry; an error when no expiry is stored.
pub fn check_expiry(expires_at: Option<i64>, now: i64, p4port: &str, p4user: &str) -> (r: Result<
    bool,
    TicketStoreError,
>)
    ensures
        match expires_at {
            Some(e) => r == Ok::<bool, TicketStoreError>(now >= e),
            None => r matches Err(TicketStoreError::NoTicketStored { p4port: p, p4user: u }) && p@
                == p4port@ && u@ == p4user@,
        },
{
    match expires_at {
        Some(e) => Ok(ticket_expired(now, e)),
        None => Err(
            TicketStoreError::NoTicketStored { p4port: p4port.to_owned(), p4user: p4user.to_owned() },
        ),
    }
}

/// A connection as `p4user` on `p4port` with a stored ticket: refused when
/// the ticket has expired, else authenticated with the ticket, when there
/// is one.
pub fn authenticated_p4(
    expired: bool,
    ticket: Result<String, TicketStoreError>,
    p4port: &str,
    p4user: &str,
) -> (r: Result<P4, TicketStoreError>)
    ensures
        expired ==> (r matches Err(TicketStoreError::TicketExpired { p4port: p, p4user: u }) && p@
            == p4port@ && u@ == p4user@),
        !expired ==> match ticket {
            Ok(t) => r matches Ok(p) && p@ == (P4View {
                p4_path: "p4"@,
                port: Some(p4port@),
                user: Some(p4user@),
                password: Some(t@),
                client: None,
                retries: None,
            }),
            Err(e) => r == Err::<P4, TicketStoreError>(e),
        },
{
    if expired {
        return Err(
            TicketStoreError::TicketExpired { p4port: p4port.to_owned(), p4user: p4user.to_owned() },
        );
    }
    match ticket {
        Ok(t) => Ok(P4::new().port(p4port).p4_user(p4user).password(t.as_str())),
        Err(e) => Err(e),
    }
}

} // verus!
