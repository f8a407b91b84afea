//! Settings read from the environment: allowed CORS origins, the listen
//! port, and defaults.

use vstd::prelude::*;
use crate::text::{is_unicode_whitespace, owned, split_chars, split_on, trim, trim_whitespace, views};

verus! {

/// Largest request body the upload endpoint accepts: 1 GiB.
pub const MAX_UPLOAD_BYTES: usize = 1024 * 1024 * 1024;

/// Port the API listens on when `PORT` is unset or not a port number.
pub const DEFAULT_PORT: u16 = 3000;

/// A character a header value may hold (as `HeaderValue::from_str` checks
/// byte by byte: a tab, or any byte from 32 on but 127; every byte of a
/// non-ASCII character is above 127).
pub open spec fn is_header_value_char(c: char) -> bool {
    c == '\t' || (' ' <= c && c != '\u{7f}')
}

/// The origin a comma-separated piece of `CORS_ORIGINS` names: the piece
/// trimmed of whitespace, unless that is empty or not a valid header value.
pub open spec fn origin_of(piece: Seq<char>) -> Option<Seq<char>> {
    let t = trim(piece, |c: char| is_unicode_whitespace(c));
    if t.len() > 0 && forall|i: int| 0 <= i < t.len() ==> is_header_value_char(#[trigger] t[i]) {
        Some(t)
    } else {
        None
    }
}

/// The origins that a value of `CORS_ORIGINS` lists, in order.
pub open spec fn origin_list(s: Seq<char>) -> Seq<Seq<char>> {
    split_on(s, ',').filter_map(|p: Seq<char>| origin_of(p))
}

/// Which origins may call the API.
pub enum CorsOrigins {
    /// Any origin.
    Any,
    /// Only these.
    List(Vec<String>),
}

/// The origins a value of `CORS_ORIGINS` (or its absence) allows: the
/// listed origins, or any origin when it is unset or lists none.
pub open spec fn allowed_origins(raw: Option<Seq<char>>, r: CorsOrigins) -> bool {
    match raw {
        Some(s) => if origin_list(s).len() > 0 {
            r matches CorsOrigins::List(v) && views(v@) == origin_list(s)
        } else {
            r is Any
        },
        None => r is Any,
    }
}

/// The view of an optional string slice.
pub open spec fn opt_str(raw: Option<&str>) -> Option<Seq<char>> {
    match raw {
        Some(s) => Some(s@),
        None => None,
    }
}

/// A request method the API answers cross-origin.
#[derive(PartialEq, Eq, Structural, Clone, Copy)]
pub enum HttpMethod {
    Get,
    Post,
    Options,
}

/// A request header a cross-origin caller may send.
#[derive(PartialEq, Eq, Structural, Clone, Copy)]
pub enum AllowedHeader {
    Authorization,
    ContentType,
    Accept,
}

/// The cross-origin policy of the API: who may call, with which methods
/// and which request headers.
pub struct CorsPolicy {
    pub origins: CorsOrigins,
    pub methods: Vec<HttpMethod>,
    pub headers: Vec<AllowedHeader>,
}

/// The cross-origin policy, given `CORS_ORIGINS`: the origins that
/// [`cors_origins`] allows, the methods GET, POST and OPTIONS, and the
/// headers Authorization, Content-Type and Accept.
pub fn cors_policy(raw: Option<&str>) -> (p: CorsPolicy)
    ensures
        allowed_origins(opt_str(raw), p.origins),
        p.methods@ == seq![HttpMethod::Get, HttpMethod::Post, HttpMethod::Options],
        p.headers@ == seq![
            AllowedHeader::Authorization,
            AllowedHeader::ContentType,
            AllowedHeader::Accept,
        ],
{
    let origins = cors_origins(raw);
    let mut methods: Vec<HttpMethod> = Vec::new();
    methods.push(HttpMethod::Get);
    methods.push(HttpMethod::Post);
    methods.push(HttpMethod::Options);
    let mut headers: Vec<AllowedHeader> = Vec::new();
    headers.push(AllowedHeader::Authorization);
    headers.push(AllowedHeader::ContentType);
    headers.push(AllowedHeader::Accept);
    assert(methods@ =~= seq![HttpMethod::Get, HttpMethod::Post, HttpMethod::Options]);
    assert(headers@ =~= seq![
        AllowedHeader::Authorization,
        AllowedHeader::ContentType,
        AllowedHeader::Accept,
    ]);
    CorsPolicy { origins, methods, headers }
}

/// Whether every character of `s` may stand in a header value.
fn all_header_value_chars(s: &str) -> (r: bool)
    ensures
        r == forall|i: int| 0 <= i < s@.len() ==> is_header_value_char(#[trigger] s@[i]),
{
    let cs = crate::text::chars_of(s);
    let mut i: usize = 0;
    while i < cs.len()
        invariant
            cs@ == s@,
            i <= cs.len(),
            forall|j: int| 0 <= j < i ==> is_header_value_char(#[trigger] s@[j]),
        decreases cs.len() - i,
    {
        let c = cs[i];
        if !(c == '\t' || (' ' <= c && c != '\u{7f}')) {
            assert(!is_header_value_char(s@[i as int]));
            return false;
        }
        i = i + 1;
    }
    true
}

/// The origins allowed to call the API, given `CORS_ORIGINS` (a
/// comma-separated list): the listed origins, trimmed, leaving out empty
/// pieces and pieces that are not valid header values; any origin when the
/// variable is unset or lists none.
pub fn cors_origins(raw: Option<&str>) -> (r: CorsOrigins)
    ensures
        allowed_origins(opt_str(raw), r),
{
    let s = match raw {
        Some(s) => s,
        None => {
            return CorsOrigins::Any;
        },
    };
    let pieces = split_chars(s, ',');
    let ghost ps = views(pieces@);
    let ghost f = |p: Seq<char>| origin_of(p);
    let mut out: Vec<String> = Vec::new();
    let mut i: usize = 0;
    assert(ps.take(0) =~= Seq::<Seq<char>>::empty());
    assert(views(out@) =~= Seq::<Seq<char>>::empty());
    while i < pieces.len()
        invariant
            ps == views(pieces@),
            ps == split_on(s@, ','),
            f == (|p: Seq<char>| origin_of(p)),
            i <= pieces.len(),
            views(out@) == ps.take(i as int).filter_map(f),
        decreases pieces.len() - i,
    {
        assert(ps.take(i + 1).drop_last() =~= ps.take(i as int));
        assert(ps.take(i + 1).last() == pieces@[i as int]@);
        let t = trim_whitespace(pieces[i].as_str());
        let ghost before = views(out@);
        if t.as_str().unicode_len() > 0 && all_header_value_chars(t.as_str()) {
            let ghost tv = t@;
            out.push(t);
            assert(views(out@) =~= before + seq![tv]);
        }
        i = i + 1;
    }
    assert(ps.take(pieces.len() as int) =~= ps);
    if out.len() > 0 {
        CorsOrigins::List(out)
    } else {
        CorsOrigins::Any
    }
}

/// The value of the decimal digits `d`.
pub open spec fn decimal_value(d: Seq<char>) -> int
    decreases d.len(),
{
    if d.len() == 0 {
        0
    } else {
        decimal_value(d.drop_last()) * 10 + (d.last() as int - '0' as int)
    }
}

/// An ASCII decimal digit.
pub open spec fn is_digit(c: char) -> bool {
    '0' <= c && c <= '9'
}

/// The digits part of a number: `s` without a leading `+`.
pub open spec fn unsigned_digits(s: Seq<char>) -> Seq<char> {
    if s.len() > 0 && s[0] == '+' {
        s.skip(1)
    } else {
        s
    }
}

/// Whether `d` holds decimal digits only.
pub open spec fn all_digits(d: Seq<char>) -> bool {
    forall|i: int| 0 <= i < d.len() ==> is_digit(#[trigger] d[i])
}

/// The number `s` spells as a `u16` (as `str::parse::<u16>` reads it: an
/// optional `+`, then one or more decimal digits, at most 65535).
pub open spec fn parse_u16(s: Seq<char>) -> Option<int> {
    let d = unsigned_digits(s);
    if d.len() > 0 && all_digits(d) && decimal_value(d) <= 65535 {
        Some(decimal_value(d))
    } else {
        None
    }
}

/// The value of a prefix of digits is at least that of a shorter prefix.
proof fn lemma_decimal_value_grows(d: Seq<char>, i: int, j: int)
    requires
        0 <= i <= j <= d.len(),
        forall|k: int| 0 <= k < d.len() ==> is_digit(#[trigger] d[k]),
    ensures
        decimal_value(d.take(i)) <= decimal_value(d.take(j)),
        0 <= decimal_value(d.take(i)),
    decreases j,
{
    if j == 0 {
        assert(d.take(0) =~= Seq::<char>::empty());
    } else {
        let k = if i < j {
            i
        } else {
            j - 1
        };
        lemma_decimal_value_grows(d, k, j - 1);
        assert(d.take(j).drop_last() =~= d.take(j - 1));
        assert(d.take(j).last() == d[j - 1]);
        assert(is_digit(d[j - 1]));
    }
}

/// The port number that `s` spells, if any (as `str::parse::<u16>`).
pub fn parse_port(s: &str) -> (r: Option<u16>)
    ensures
        match r {
            Some(p) => parse_u16(s@) == Some(p as int),
            None => parse_u16(s@) is None,
        },
{
    let cs = crate::text::chars_of(s);
    let n = cs.len();
    let start: usize = if n > 0 && cs[0] == '+' {
        1
    } else {
        0
    };
    let ghost d = unsigned_digits(s@);
    assert(d =~= s@.skip(start as int));
    if start >= n {
        return None;
    }
    let mut value: u32 = 0;
    let mut i: usize = start;
    assert(d.take(0) =~= Seq::<char>::empty());
    while i < n
        invariant
            cs@ == s@,
            n == cs.len(),
            start <= i <= n,
            d == s@.skip(start as int),
            d == unsigned_digits(s@),
            start < n,
            forall|k: int| 0 <= k < i - start ==> is_digit(#[trigger] d[k]),
            value as int == decimal_value(d.take(i - start)),
            value <= 65535,
        decreases n - i,
    {
        let c = cs[i];
        if !('0' <= c && c <= '9') {
            assert(!is_digit(d[i - start]));
            return None;
        }
        let digit = (c as u32) - ('0' as u32);
        assert(d.take(i + 1 - start).drop_last() =~= d.take(i - start));
        assert(d.take(i + 1 - start).last() == c);
        let next = value * 10 + digit;
        if next > 65535 {
            proof {
                assert forall|k: int| 0 <= k < i + 1 - start implies is_digit(
                    #[trigger] d.take(i + 1 - start)[k],
                ) by {
                    if k < i - start {
                        assert(d.take(i + 1 - start)[k] == d[k]);
                    }
                }
                if all_digits(d) {
                    lemma_decimal_value_grows(d, i + 1 - start, d.len() as int);
                    assert(d.take(d.len() as int) =~= d);
                }
            }
            return None;
        }
        value = next;
        i = i + 1;
    }
    assert(d.take(n - start) =~= d);
    Some(value as u16)
}

/// The port to listen on, given `PORT`: the number it spells, else
/// [`DEFAULT_PORT`].
pub fn listen_port(raw: Option<&str>) -> (p: u16)
    ensures
        p as int == match raw {
            Some(s) => match parse_u16(s@) {
                Some(v) => v,
                None => DEFAULT_PORT as int,
            },
            None => DEFAULT_PORT as int,
        },
{
    match raw {
        Some(s) => match parse_port(s) {
            Some(p) => p,
            None => DEFAULT_PORT,
        },
        None => DEFAULT_PORT,
    }
}

/// The value of a setting, or `default` when it is unset.
pub fn setting_or(raw: Option<String>, default: &str) -> (v: String)
    ensures
        v@ == match raw {
            Some(s) => s@,
            None => default@,
        },
{
    match raw {
        Some(s) => s,
        None => owned(default),
    }
}

/// The AWS region used when `AWS_DEFAULT_REGION` is unset.
pub fn default_region() -> (r: String)
    ensures
        r@ == "eu-west-3"@,
{
    owned("eu-west-3")
}

/// The log filter used when `RUST_LOG` is unset.
pub fn default_log_filter() -> (r: String)
    ensures
        r@ == "info"@,
{
    owned("info")
}

} // verus!
