//! Small verified helpers over strings and byte strings: prefixes and
//! suffixes, splitting on a separator, and whitespace trimming.

use vstd::prelude::*;

verus! {

/// `s` with its leading elements that satisfy `ws` removed.
pub open spec fn trim_start<A>(s: Seq<A>, ws: spec_fn(A) -> bool) -> Seq<A>
    decreases s.len(),
{
    if s.len() > 0 && ws(s[0]) {
        trim_start(s.drop_first(), ws)
    } else {
        s
    }
}

/// `s` with its trailing elements that satisfy `ws` removed.
pub open spec fn trim_end<A>(s: Seq<A>, ws: spec_fn(A) -> bool) -> Seq<A>
    decreases s.len(),
{
    if s.len() > 0 && ws(s.last()) {
        trim_end(s.drop_last(), ws)
    } else {
        s
    }
}

/// `s` with leading and trailing elements that satisfy `ws` removed.
pub open spec fn trim<A>(s: Seq<A>, ws: spec_fn(A) -> bool) -> Seq<A> {
    trim_end(trim_start(s, ws), ws)
}

/// Characters with the Unicode `White_Space` property, the set that
/// `char::is_whitespace` and `str::trim` use.
pub open spec fn is_unicode_whitespace(c: char) -> bool {
    ||| '\t' <= c <= '\r'
    ||| c == ' '
    ||| c == '\u{85}'
    ||| c == '\u{a0}'
    ||| c == '\u{1680}'
    ||| '\u{2000}' <= c <= '\u{200a}'
    ||| c == '\u{2028}'
    ||| c == '\u{2029}'
    ||| c == '\u{202f}'
    ||| c == '\u{205f}'
    ||| c == '\u{3000}'
}

/// Bytes that encode a whitespace character on their own (ASCII whitespace
/// in the sense of `White_Space`).
pub open spec fn is_ascii_whitespace_byte(b: u8) -> bool {
    (9 <= b && b <= 13) || b == 32
}

/// The pieces of `s` between occurrences of `sep`, as `str::split` yields
/// them (an empty `s` gives one empty piece).
pub open spec fn split_on(s: Seq<char>, sep: char) -> Seq<Seq<char>>
    decreases s.len(),
{
    if s.len() == 0 {
        seq![Seq::<char>::empty()]
    } else {
        let r = split_on(s.drop_last(), sep);
        if s.last() == sep {
            r.push(Seq::<char>::empty())
        } else {
            r.update(r.len() - 1, r.last().push(s.last()))
        }
    }
}

/// The part of `s` after the last occurrence of `sep` (all of `s` if there
/// is none): the last piece that `str::split` yields.
pub open spec fn after_last(s: Seq<char>, sep: char) -> Seq<char>
    decreases s.len(),
{
    if s.len() == 0 {
        s
    } else if s.last() == sep {
        Seq::<char>::empty()
    } else {
        after_last(s.drop_last(), sep).push(s.last())
    }
}

/// `s` without the prefix `p`, if `s` starts with `p`.
pub open spec fn without_prefix(s: Seq<char>, p: Seq<char>) -> Option<Seq<char>> {
    if p.is_prefix_of(s) {
        Some(s.skip(p.len() as int))
    } else {
        None
    }
}

/// `s` without the suffix `p`, if `s` ends with `p`.
pub open spec fn without_suffix(s: Seq<char>, p: Seq<char>) -> Option<Seq<char>> {
    if p.is_suffix_of(s) {
        Some(s.take(s.len() - p.len()))
    } else {
        None
    }
}

/// The views of a sequence of strings.
pub open spec fn views(v: Seq<String>) -> Seq<Seq<char>> {
    v.map_values(|x: String| x@)
}

/// The characters of `s`, one by one.
pub fn chars_of(s: &str) -> (v: Vec<char>)
    ensures
        v@ == s@,
{
    let n = s.unicode_len();
    let mut v: Vec<char> = Vec::new();
    let mut i: usize = 0;
    while i < n
        invariant
            n == s@.len(),
            i <= n,
            v@ == s@.take(i as int),
        decreases n - i,
    {
        let c = s.get_char(i);
        v.push(c);
        i = i + 1;
        assert(v@ =~= s@.take(i as int));
    }
    assert(s@.take(n as int) =~= s@);
    v
}

/// An owned copy of `s`.
pub fn owned(s: &str) -> (r: String)
    ensures
        r@ == s@,
{
    <String as StringExecFns>::from_str(s)
}

/// The concatenation `a + b + c`.
pub fn concat3(a: &str, b: &str, c: &str) -> (r: String)
    ensures
        r@ == a@ + b@ + c@,
{
    let mut r = owned(a);
    r.append(b);
    r.append(c);
    r
}

/// Whether `a` and `b` hold the same characters.
pub fn str_eq(a: &str, b: &str) -> (r: bool)
    ensures
        r == (a@ == b@),
{
    let ac = chars_of(a);
    let bc = chars_of(b);
    if ac.len() != bc.len() {
        return false;
    }
    let mut i: usize = 0;
    while i < ac.len()
        invariant
            ac@ == a@,
            bc@ == b@,
            ac.len() == bc.len(),
            i <= ac.len(),
            forall|j: int| 0 <= j < i ==> ac@[j] == bc@[j],
        decreases ac.len() - i,
    {
        if ac[i] != bc[i] {
            return false;
        }
        i = i + 1;
    }
    assert(a@ =~= b@);
    true
}

/// `s` without the prefix `p`, or `None` when `s` does not start with `p`
/// (as `str::strip_prefix`).
pub fn strip_prefix(s: &str, p: &str) -> (r: Option<String>)
    ensures
        r matches Some(x) ==> without_prefix(s@, p@) == Some(x@),
        r is None <==> without_prefix(s@, p@) is None,
{
    let sc = chars_of(s);
    let pc = chars_of(p);
    if pc.len() > sc.len() {
        return None;
    }
    let mut i: usize = 0;
    while i < pc.len()
        invariant
            sc@ == s@,
            pc@ == p@,
            pc.len() <= sc.len(),
            i <= pc.len(),
            forall|j: int| 0 <= j < i ==> sc@[j] == pc@[j],
        decreases pc.len() - i,
    {
        if sc[i] != pc[i] {
            assert(s@.subrange(0, p@.len() as int)[i as int] != p@[i as int]);
            return None;
        }
        i = i + 1;
    }
    assert(p@ =~= s@.subrange(0, p@.len() as int));
    let rest = s.substring_char(pc.len(), sc.len());
    Some(owned(rest))
}

/// `s` without the suffix `p`, or `None` when `s` does not end with `p`
/// (as `str::strip_suffix`).
pub fn strip_suffix(s: &str, p: &str) -> (r: Option<String>)
    ensures
        r matches Some(x) ==> without_suffix(s@, p@) == Some(x@),
        r is None <==> without_suffix(s@, p@) is None,
{
    let sc = chars_of(s);
    let pc = chars_of(p);
    if pc.len() > sc.len() {
        return None;
    }
    let off = sc.len() - pc.len();
    let mut i: usize = 0;
    while i < pc.len()
        invariant
            sc@ == s@,
            pc@ == p@,
            pc.len() <= sc.len(),
            off == sc.len() - pc.len(),
            i <= pc.len(),
            forall|j: int| 0 <= j < i ==> sc@[off + j] == pc@[j],
        decreases pc.len() - i,
    {
        if sc[off + i] != pc[i] {
            assert(s@.subrange(off as int, s@.len() as int)[i as int] != p@[i as int]);
            return None;
        }
        i = i + 1;
    }
    assert(p@ =~= s@.subrange(off as int, s@.len() as int));
    let head = s.substring_char(0, off);
    Some(owned(head))
}

/// The part of `s` after the last `sep` (as `s.split(sep).last()`).
pub fn after_last_sep(s: &str, sep: char) -> (r: String)
    ensures
        r@ == after_last(s@, sep),
{
    let sc = chars_of(s);
    let n = sc.len();
    let mut start: usize = 0;
    let mut i: usize = 0;
    while i < n
        invariant
            sc@ == s@,
            n == sc.len(),
            start <= i <= n,
            after_last(s@.take(i as int), sep) == s@.subrange(start as int, i as int),
        decreases n - i,
    {
        assert(s@.take(i + 1).drop_last() =~= s@.take(i as int));
        if sc[i] == sep {
            start = i + 1;
            assert(s@.subrange(start as int, i + 1) =~= Seq::<char>::empty());
        } else {
            assert(s@.subrange(start as int, i + 1) =~= s@.subrange(start as int, i as int).push(
                s@[i as int],
            ));
        }
        i = i + 1;
    }
    assert(s@.take(n as int) =~= s@);
    owned(s.substring_char(start, n))
}

/// The pieces of `s` between occurrences of `sep` (as `str::split`).
pub fn split_chars(s: &str, sep: char) -> (r: Vec<String>)
    ensures
        views(r@) == split_on(s@, sep),
{
    let sc = chars_of(s);
    let n = sc.len();
    let mut pieces: Vec<String> = Vec::new();
    let mut start: usize = 0;
    let mut i: usize = 0;
    assert(s@.take(0) =~= Seq::<char>::empty());
    assert(views(pieces@) =~= Seq::<Seq<char>>::empty());
    assert(s@.subrange(0, 0) =~= Seq::<char>::empty());
    while i < n
        invariant
            sc@ == s@,
            n == sc.len(),
            start <= i <= n,
            split_on(s@.take(i as int), sep) == views(pieces@).push(
                s@.subrange(start as int, i as int),
            ),
        decreases n - i,
    {
        let ghost before = views(pieces@);
        assert(s@.take(i + 1).drop_last() =~= s@.take(i as int));
        assert(s@.take(i + 1).last() == s@[i as int]);
        if sc[i] == sep {
            let piece = owned(s.substring_char(start, i));
            pieces.push(piece);
            start = i + 1;
            assert(views(pieces@) =~= before.push(piece@));
            assert(s@.subrange(start as int, i + 1) =~= Seq::<char>::empty());
        } else {
            assert(s@.subrange(start as int, i + 1) =~= s@.subrange(start as int, i as int).push(
                s@[i as int],
            ));
            assert(before.push(s@.subrange(start as int, i as int)).update(
                before.len() as int,
                s@.subrange(start as int, i + 1),
            ) =~= before.push(s@.subrange(start as int, i + 1)));
        }
        i = i + 1;
    }
    assert(s@.take(n as int) =~= s@);
    let last = owned(s.substring_char(start, n));
    let ghost before = views(pieces@);
    pieces.push(last);
    assert(views(pieces@) =~= before.push(last@));
    pieces
}

/// Whether `c` has the Unicode `White_Space` property.
pub fn is_whitespace(c: char) -> (r: bool)
    ensures
        r == is_unicode_whitespace(c),
{
    ('\t' <= c && c <= '\r') || c == ' ' || c == '\u{85}' || c == '\u{a0}' || c == '\u{1680}'
        || ('\u{2000}' <= c && c <= '\u{200a}') || c == '\u{2028}' || c == '\u{2029}' || c
        == '\u{202f}' || c == '\u{205f}' || c == '\u{3000}'
}

/// `s` with leading and trailing whitespace removed (as `str::trim`).
pub fn trim_whitespace(s: &str) -> (r: String)
    ensures
        r@ == trim(s@, |c: char| is_unicode_whitespace(c)),
{
    let ghost ws = |c: char| is_unicode_whitespace(c);
    let sc = chars_of(s);
    let n = sc.len();
    let mut i: usize = 0;
    assert(s@.skip(0) =~= s@);
    while i < n && is_whitespace(sc[i])
        invariant
            sc@ == s@,
            n == sc.len(),
            i <= n,
            ws == (|c: char| is_unicode_whitespace(c)),
            trim_start(s@, ws) == trim_start(s@.skip(i as int), ws),
        decreases n - i,
    {
        assert(s@.skip(i as int).drop_first() =~= s@.skip(i + 1));
        assert(s@.skip(i as int)[0] == s@[i as int]);
        assert(ws(s@[i as int]));
        i = i + 1;
    }
    let mut j: usize = n;
    assert(s@.subrange(i as int, j as int) =~= s@.skip(i as int));
    while j > i && is_whitespace(sc[j - 1])
        invariant
            sc@ == s@,
            n == sc.len(),
            i <= j <= n,
            ws == (|c: char| is_unicode_whitespace(c)),
            trim_start(s@, ws) == s@.skip(i as int) || i == n,
            i < n ==> !ws(s@[i as int]),
            trim(s@, ws) == trim_end(s@.subrange(i as int, j as int), ws),
        decreases j,
    {
        assert(s@.subrange(i as int, j as int).drop_last() =~= s@.subrange(i as int, j - 1));
        assert(s@.subrange(i as int, j as int).last() == s@[j - 1]);
        assert(ws(s@[j - 1]));
        j = j - 1;
    }
    owned(s.substring_char(i, j))
}

/// Leading padding made of trimmed elements is trimmed away.
pub proof fn lemma_trim_start_padding<A>(pad: Seq<A>, a: Seq<A>, ws: spec_fn(A) -> bool)
    requires
        forall|i: int| 0 <= i < pad.len() ==> ws(#[trigger] pad[i]),
        a.len() == 0 || !ws(a[0]),
    ensures
        trim_start(pad + a, ws) == a,
    decreases pad.len(),
{
    if pad.len() == 0 {
        assert(pad + a =~= a);
    } else {
        let rest = pad.drop_first();
        assert forall|i: int| 0 <= i < rest.len() implies ws(#[trigger] rest[i]) by {
            assert(rest[i] == pad[i + 1]);
        }
        lemma_trim_start_padding(rest, a, ws);
        assert((pad + a).drop_first() =~= rest + a);
        assert((pad + a)[0] == pad[0]);
    }
}

/// Trailing padding made of trimmed elements is trimmed away.
pub proof fn lemma_trim_end_padding<A>(a: Seq<A>, pad: Seq<A>, ws: spec_fn(A) -> bool)
    requires
        forall|i: int| 0 <= i < pad.len() ==> ws(#[trigger] pad[i]),
        a.len() == 0 || !ws(a.last()),
    ensures
        trim_end(a + pad, ws) == a,
    decreases pad.len(),
{
    if pad.len() == 0 {
        assert(a + pad =~= a);
    } else {
        let rest = pad.drop_last();
        assert forall|i: int| 0 <= i < rest.len() implies ws(#[trigger] rest[i]) by {
            assert(rest[i] == pad[i]);
        }
        lemma_trim_end_padding(a, rest, ws);
        assert((a + pad).drop_last() =~= a + rest);
        assert((a + pad).last() == pad[pad.len() - 1]);
    }
}

} // verus!
