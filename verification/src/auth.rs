//! The bearer-token check that guards the upload endpoint.

use vstd::prelude::*;
use vstd::string::StringSliceAdditionalSpecFns;
use crate::error::ErrorResponse;
use crate::text::{
    is_ascii_whitespace_byte, lemma_trim_end_padding, lemma_trim_start_padding, owned, trim,
    trim_end, trim_start,
};

verus! {

/// Why a request to a guarded endpoint is turned away.
#[derive(PartialEq, Eq, Structural, Clone, Copy)]
pub enum AuthRejection {
    /// No admin token is configured on the server.
    NotConfigured,
    /// The request has no `Authorization: Bearer ...` header.
    MissingHeader,
    /// The bearer token is not the admin token.
    InvalidToken,
}

/// A byte that a header value may hold for it to be read as text: visible
/// ASCII or a tab (as `HeaderValue::to_str` requires).
pub open spec fn is_visible_ascii(b: u8) -> bool {
    (32 <= b && b < 127) || b == 9
}

/// The text of an `Authorization` header: its bytes when they are all
/// visible ASCII, else (or when there is no header) the empty text.
pub open spec fn header_text(h: Option<Seq<u8>>) -> Seq<u8> {
    match h {
        Some(b) => if forall|i: int| 0 <= i < b.len() ==> is_visible_ascii(#[trigger] b[i]) {
            b
        } else {
            Seq::empty()
        },
        None => Seq::empty(),
    }
}

/// The bytes of `Bearer ` (with its space).
pub open spec fn bearer_prefix() -> Seq<u8> {
    seq![66u8, 101u8, 97u8, 114u8, 101u8, 114u8, 32u8]
}

/// The whitespace-trimming that `str::trim` does on ASCII text.
pub open spec fn trim_ascii(s: Seq<u8>) -> Seq<u8> {
    trim(s, |b: u8| is_ascii_whitespace_byte(b))
}

/// The decision on a request, given the configured admin token (as bytes)
/// and the request's `Authorization` header: no admin token turns every
/// request away; a header that does not read as `Bearer ` followed by a
/// token is missing; the token, trimmed of whitespace, must equal the admin
/// token.
pub open spec fn auth_decision(admin: Seq<u8>, header: Option<Seq<u8>>) -> Result<(), AuthRejection> {
    if admin.len() == 0 {
        Err(AuthRejection::NotConfigured)
    } else if !bearer_prefix().is_prefix_of(header_text(header)) {
        Err(AuthRejection::MissingHeader)
    } else if trim_ascii(header_text(header).skip(7)) != admin {
        Err(AuthRejection::InvalidToken)
    } else {
        Ok(())
    }
}

/// The view of an optional byte slice.
pub open spec fn opt_bytes(h: Option<&[u8]>) -> Option<Seq<u8>> {
    match h {
        Some(b) => Some(b@),
        None => None,
    }
}

/// Whether every byte of `b` is visible ASCII or a tab.
fn all_visible_ascii(b: &[u8]) -> (r: bool)
    ensures
        r == forall|i: int| 0 <= i < b@.len() ==> is_visible_ascii(#[trigger] b@[i]),
{
    let mut i: usize = 0;
    while i < b.len()
        invariant
            i <= b@.len(),
            forall|j: int| 0 <= j < i ==> is_visible_ascii(#[trigger] b@[j]),
        decreases b@.len() - i,
    {
        let x = b[i];
        if !((32 <= x && x < 127) || x == 9) {
            assert(!is_visible_ascii(b@[i as int]));
            return false;
        }
        i = i + 1;
    }
    true
}

/// Whether `b` starts with `Bearer `.
fn starts_with_bearer(b: &[u8]) -> (r: bool)
    ensures
        r == bearer_prefix().is_prefix_of(b@),
{
    if b.len() < 7 {
        return false;
    }
    let r = b[0] == 66 && b[1] == 101 && b[2] == 97 && b[3] == 114 && b[4] == 101 && b[5] == 114
        && b[6] == 32;
    if r {
        assert(b@.subrange(0, 7) =~= bearer_prefix());
    } else {
        assert(b@.subrange(0, 7) != bearer_prefix()) by {
            let s = b@.subrange(0, 7);
            assert(s[0] == b@[0] && s[1] == b@[1] && s[2] == b@[2] && s[3] == b@[3] && s[4]
                == b@[4] && s[5] == b@[5] && s[6] == b@[6]);
        }
    }
    r
}

/// Whether `b` is an ASCII whitespace byte.
fn is_space(b: u8) -> (r: bool)
    ensures
        r == is_ascii_whitespace_byte(b),
{
    (9 <= b && b <= 13) || b == 32
}

/// Bounds `(i, j)` of `b` from `from` on with whitespace trimmed off.
fn trim_bounds(b: &[u8], from: usize) -> (r: (usize, usize))
    requires
        from <= b@.len(),
    ensures
        from <= r.0 <= r.1 <= b@.len(),
        b@.subrange(r.0 as int, r.1 as int) == trim_ascii(b@.skip(from as int)),
{
    let ghost ws = |x: u8| is_ascii_whitespace_byte(x);
    let ghost s = b@.skip(from as int);
    let n = b.len();
    let mut i: usize = from;
    assert(b@.skip(from as int) =~= s.skip(0));
    while i < n && is_space(b[i])
        invariant
            from <= i <= n,
            n == b@.len(),
            s == b@.skip(from as int),
            ws == (|x: u8| is_ascii_whitespace_byte(x)),
            trim_start(s, ws) == trim_start(b@.skip(i as int), ws),
        decreases n - i,
    {
        assert(b@.skip(i as int).drop_first() =~= b@.skip(i + 1));
        assert(b@.skip(i as int)[0] == b@[i as int]);
        i = i + 1;
    }
    assert(trim_start(s, ws) == b@.skip(i as int));
    let mut j: usize = n;
    assert(b@.subrange(i as int, j as int) =~= b@.skip(i as int));
    while j > i && is_space(b[j - 1])
        invariant
            from <= i <= j <= n,
            n == b@.len(),
            s == b@.skip(from as int),
            ws == (|x: u8| is_ascii_whitespace_byte(x)),
            trim(s, ws) == trim_end(b@.subrange(i as int, j as int), ws),
        decreases j,
    {
        assert(b@.subrange(i as int, j as int).drop_last() =~= b@.subrange(i as int, j - 1));
        assert(b@.subrange(i as int, j as int).last() == b@[j - 1]);
        j = j - 1;
    }
    (i, j)
}

/// Whether `b[i..j]` equals `other`.
fn range_eq(b: &[u8], i: usize, j: usize, other: &[u8]) -> (r: bool)
    requires
        i <= j <= b@.len(),
    ensures
        r == (b@.subrange(i as int, j as int) == other@),
{
    if j - i != other.len() {
        return false;
    }
    let mut k: usize = 0;
    while k < other.len()
        invariant
            i <= j <= b@.len(),
            j - i == other@.len(),
            k <= other@.len(),
            forall|t: int| 0 <= t < k ==> b@[i + t] == other@[t],
        decreases other@.len() - k,
    {
        if b[i + k] != other[k] {
            assert(b@.subrange(i as int, j as int)[k as int] != other@[k as int]);
            return false;
        }
        k = k + 1;
    }
    assert(b@.subrange(i as int, j as int) =~= other@);
    true
}

/// Decides whether a request may reach a guarded endpoint, given the
/// configured admin token (empty when none is configured) and the raw
/// bytes of the request's `Authorization` header, if it has one.
pub fn require_admin_bearer(admin_token: &str, authorization: Option<&[u8]>) -> (r: Result<
    (),
    AuthRejection,
>)
    ensures
        r == auth_decision(admin_token.spec_bytes(), opt_bytes(authorization)),
{
    let admin = admin_token.as_bytes();
    if admin.len() == 0 {
        return Err(AuthRejection::NotConfigured);
    }
    let header = match authorization {
        Some(b) => {
            if all_visible_ascii(b) {
                Some(b)
            } else {
                None
            }
        },
        None => None,
    };
    match header {
        None => {
            assert(header_text(opt_bytes(authorization)) =~= Seq::<u8>::empty());
            Err(AuthRejection::MissingHeader)
        },
        Some(b) => {
            assert(header_text(opt_bytes(authorization)) == b@);
            if !starts_with_bearer(b) {
                return Err(AuthRejection::MissingHeader);
            }
            let (i, j) = trim_bounds(b, 7);
            if range_eq(b, i, j, admin) {
                Ok(())
            } else {
                Err(AuthRejection::InvalidToken)
            }
        },
    }
}

impl AuthRejection {
    /// The status code and message with which the API answers.
    pub fn into_response(self) -> (r: ErrorResponse)
        ensures
            r.status == match self {
                AuthRejection::NotConfigured => 500u16,
                _ => 401u16,
            },
            r.message@ == match self {
                AuthRejection::NotConfigured => "Server auth not configured"@,
                AuthRejection::MissingHeader => "Missing or invalid Authorization header"@,
                AuthRejection::InvalidToken => "Invalid token"@,
            },
    {
        match self {
            AuthRejection::NotConfigured => ErrorResponse {
                status: 500,
                message: owned("Server auth not configured"),
            },
            AuthRejection::MissingHeader => ErrorResponse {
                status: 401,
                message: owned("Missing or invalid Authorization header"),
            },
            AuthRejection::InvalidToken => ErrorResponse {
                status: 401,
                message: owned("Invalid token"),
            },
        }
    }
}

/// A header `Bearer <token>` is let through exactly when an admin token
/// is configured and the token, trimmed of whitespace, is the admin token;
/// a header that is not visible ASCII starting with `Bearer ` is reported
/// missing.
pub proof fn lemma_only_admin_token_passes(admin: Seq<u8>, header: Option<Seq<u8>>)
    ensures
        auth_decision(admin, header) is Ok <==> {
            &&& admin.len() > 0
            &&& bearer_prefix().is_prefix_of(header_text(header))
            &&& trim_ascii(header_text(header).skip(7)) == admin
        },
        admin.len() > 0 && !bearer_prefix().is_prefix_of(header_text(header)) ==> auth_decision(
            admin,
            header,
        ) == Err::<(), AuthRejection>(AuthRejection::MissingHeader),
        admin.len() == 0 ==> auth_decision(admin, header) == Err::<(), AuthRejection>(
            AuthRejection::NotConfigured,
        ),
{
}

/// The admin token sent as `Bearer <admin token>`, with any spaces or tabs
/// around the token, is let through (for an admin token of visible ASCII
/// that neither starts nor ends with whitespace).
pub proof fn lemma_admin_token_passes(admin: Seq<u8>, before: Seq<u8>, after: Seq<u8>)
    requires
        admin.len() > 0,
        forall|i: int| 0 <= i < admin.len() ==> is_visible_ascii(#[trigger] admin[i]),
        !is_ascii_whitespace_byte(admin[0]),
        !is_ascii_whitespace_byte(admin.last()),
        forall|i: int| 0 <= i < before.len() ==> (#[trigger] before[i] == 32u8 || before[i] == 9u8),
        forall|i: int| 0 <= i < after.len() ==> (#[trigger] after[i] == 32u8 || after[i] == 9u8),
    ensures
        auth_decision(admin, Some(bearer_prefix() + before + admin + after)) == Ok::<
            (),
            AuthRejection,
        >(()),
{
    let ws = |b: u8| is_ascii_whitespace_byte(b);
    let h = bearer_prefix() + before + admin + after;
    assert forall|i: int| 0 <= i < h.len() implies is_visible_ascii(#[trigger] h[i]) by {
        let p = bearer_prefix().len() as int;
        if i < p {
        } else if i < p + before.len() {
            assert(h[i] == before[i - p]);
        } else if i < p + before.len() + admin.len() {
            assert(h[i] == admin[i - p - before.len()]);
        } else {
            assert(h[i] == after[i - p - before.len() - admin.len()]);
        }
    }
    assert(header_text(Some(h)) == h);
    assert(h.subrange(0, 7) =~= bearer_prefix());
    assert(h.skip(7) =~= before + (admin + after));
    assert forall|i: int| 0 <= i < before.len() implies ws(#[trigger] before[i]) by {}
    assert forall|i: int| 0 <= i < after.len() implies ws(#[trigger] after[i]) by {}
    lemma_trim_start_padding(before, admin + after, ws);
    assert((admin + after)[0] == admin[0]);
    lemma_trim_end_padding(admin, after, ws);
}

} // verus!
