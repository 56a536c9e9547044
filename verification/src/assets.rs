//! Asset handling: which filename an asset is saved under. The response's
//! `Content-Disposition` header is consulted first — an `attachment`
//! disposition may carry a `filename` parameter — and the final path
//! segment of the asset's URL is the fallback. An asset with neither is
//! fetched but not written, and the job proceeds.

use vstd::prelude::*;
use crate::body::{concat_chunks, total_len, read_body_with_limit};
use crate::bytes::ascii_seq;
use crate::errors::RenderError;

verus! {

/// ASCII lower-casing of one byte.
pub open spec fn lower_b(b: u8) -> u8 {
    if 'A' as u8 <= b && b <= 'Z' as u8 {
        (b + 32) as u8
    } else {
        b
    }
}

/// ASCII lower-casing of a byte string.
pub open spec fn lower_seq(s: Seq<u8>) -> Seq<u8> {
    s.map_values(|b: u8| lower_b(b))
}

/// Linear white space inside a header value.
pub open spec fn is_lws(b: u8) -> bool {
    b == ' ' as u8 || b == '\t' as u8
}

/// The index of the first occurrence of `stop`, or the length.
pub open spec fn scan_to(s: Seq<u8>, stop: u8) -> nat
    decreases s.len(),
{
    if s.len() == 0 {
        0
    } else if s[0] == stop {
        0
    } else {
        1 + scan_to(s.drop_first(), stop)
    }
}

/// The index of the first occurrence of `x` or `y`, or the length.
pub open spec fn scan_to2(s: Seq<u8>, x: u8, y: u8) -> nat
    decreases s.len(),
{
    if s.len() == 0 {
        0
    } else if s[0] == x || s[0] == y {
        0
    } else {
        1 + scan_to2(s.drop_first(), x, y)
    }
}

/// The index just after the last slash, or zero.
pub open spec fn rscan_slash(s: Seq<u8>) -> nat
    decreases s.len(),
{
    if s.len() == 0 {
        0
    } else if s.last() == '/' as u8 {
        s.len()
    } else {
        rscan_slash(s.drop_last())
    }
}

/// The byte string without its leading white space.
pub open spec fn ltrim(s: Seq<u8>) -> Seq<u8>
    decreases s.len(),
{
    if s.len() > 0 && is_lws(s[0]) {
        ltrim(s.drop_first())
    } else {
        s
    }
}

/// The byte string without its trailing white space.
pub open spec fn rtrim(s: Seq<u8>) -> Seq<u8>
    decreases s.len(),
{
    if s.len() > 0 && is_lws(s.last()) {
        rtrim(s.drop_last())
    } else {
        s
    }
}

/// The byte string without leading or trailing white space.
pub open spec fn trim(s: Seq<u8>) -> Seq<u8> {
    rtrim(ltrim(s))
}

/// A header value split on its semicolons.
pub open spec fn split_parts(s: Seq<u8>) -> Seq<Seq<u8>>
    decreases s.len(),
{
    let j = scan_to(s, ';' as u8);
    if j < s.len() {
        seq![s.subrange(0, j as int)] + split_parts(s.subrange(j + 1 as int, s.len() as int))
    } else {
        seq![s]
    }
}

/// A parameter value without one pair of surrounding double quotes.
pub open spec fn unquote(v: Seq<u8>) -> Seq<u8> {
    if v.len() >= 2 && v[0] == '"' as u8 && v.last() == '"' as u8 {
        v.subrange(1, v.len() - 1)
    } else {
        v
    }
}

/// The value of the first parameter of the given name among the parts.
pub open spec fn param_of_parts(parts: Seq<Seq<u8>>, name: Seq<u8>) -> Option<Seq<u8>>
    decreases parts.len(),
{
    if parts.len() == 0 {
        None
    } else {
        let p = parts[0];
        let e = scan_to(p, '=' as u8);
        if e < p.len() && lower_seq(trim(p.subrange(0, e as int))) == name {
            Some(unquote(trim(p.subrange(e + 1 as int, p.len() as int))))
        } else {
            param_of_parts(parts.drop_first(), name)
        }
    }
}

/// The filename hint of a `Content-Disposition` header value: present
/// exactly when the disposition is `attachment` (case-insensitively), a
/// `filename` parameter follows, and the parameter's bytes decode as
/// UTF-8; the value is taken with its surrounding quotes, if any,
/// removed. Undecodable bytes yield no hint, and the asset falls back to
/// its URL.
pub open spec fn filename_hint_spec(h: Seq<u8>) -> Option<Seq<u8>> {
    let parts = split_parts(h);
    if lower_seq(trim(parts[0])) == ascii_seq("attachment"@) {
        match param_of_parts(parts.drop_first(), ascii_seq("filename"@)) {
            Some(v) => if vstd::utf8::valid_utf8(v) {
                Some(v)
            } else {
                None
            },
            None => None,
        }
    } else {
        None
    }
}

/// The final path segment of a URL: what stands after the last slash of
/// the path, with the query and fragment cut off, if it is non-empty.
pub open spec fn last_segment_spec(u: Seq<u8>) -> Option<Seq<u8>> {
    let c = scan_to2(u, '?' as u8, '#' as u8);
    let pre = u.subrange(0, c as int);
    let i = scan_to(pre, ':' as u8);
    if i + 3 <= pre.len() && pre[i as int + 1] == '/' as u8 && pre[i as int + 2] == '/' as u8 {
        let rel = pre.subrange(i + 3 as int, pre.len() as int);
        let p = scan_to(rel, '/' as u8);
        if p < rel.len() {
            let path = rel.subrange(p as int, rel.len() as int);
            let s = rscan_slash(path);
            if s < path.len() {
                Some(path.subrange(s as int, path.len() as int))
            } else {
                None
            }
        } else {
            None
        }
    } else {
        None
    }
}

proof fn lemma_scan_to_is(s: Seq<u8>, stop: u8, i: int)
    requires
        0 <= i <= s.len(),
        forall|k: int| 0 <= k < i ==> s[k] != stop,
        i < s.len() ==> s[i] == stop,
    ensures
        scan_to(s, stop) == i,
    decreases i,
{
    if i > 0 {
        lemma_scan_to_is(s.drop_first(), stop, i - 1);
    }
}

proof fn lemma_scan_to2_is(s: Seq<u8>, x: u8, y: u8, i: int)
    requires
        0 <= i <= s.len(),
        forall|k: int| 0 <= k < i ==> s[k] != x && s[k] != y,
        i < s.len() ==> s[i] == x || s[i] == y,
    ensures
        scan_to2(s, x, y) == i,
    decreases i,
{
    if i > 0 {
        lemma_scan_to2_is(s.drop_first(), x, y, i - 1);
    }
}

proof fn lemma_rscan_is(s: Seq<u8>, j: int)
    requires
        0 <= j <= s.len(),
        forall|k: int| j <= k < s.len() ==> s[k] != '/' as u8,
        j > 0 ==> s[j - 1] == '/' as u8,
    ensures
        rscan_slash(s) == j,
    decreases s.len(),
{
    if j == s.len() {
    } else {
        assert(s.last() != '/' as u8);
        lemma_rscan_is(s.drop_last(), j);
    }
}

proof fn lemma_ltrim_is(s: Seq<u8>, i: int)
    requires
        0 <= i <= s.len(),
        forall|k: int| 0 <= k < i ==> is_lws(s[k]),
        i < s.len() ==> !is_lws(s[i]),
    ensures
        ltrim(s) == s.subrange(i, s.len() as int),
    decreases i,
{
    if i == 0 {
        assert(s.subrange(0, s.len() as int) =~= s);
    } else {
        lemma_ltrim_is(s.drop_first(), i - 1);
        assert(s.drop_first().subrange(i - 1, s.drop_first().len() as int) =~= s.subrange(
            i,
            s.len() as int,
        ));
    }
}

proof fn lemma_rtrim_is(s: Seq<u8>, j: int)
    requires
        0 <= j <= s.len(),
        forall|k: int| j <= k < s.len() ==> is_lws(s[k]),
        j > 0 ==> !is_lws(s[j - 1]),
    ensures
        rtrim(s) == s.subrange(0, j),
    decreases s.len(),
{
    if j == s.len() {
        if s.len() > 0 {
            assert(!is_lws(s.last()));
        }
        assert(s.subrange(0, s.len() as int) =~= s);
    } else {
        assert(is_lws(s.last()));
        lemma_rtrim_is(s.drop_last(), j);
        assert(s.drop_last().subrange(0, j) =~= s.subrange(0, j));
    }
}

/// Finds the first occurrence of `stop` at or after `from`.
fn scan_from(s: &[u8], from: usize, stop: u8) -> (r: usize)
    requires
        from <= s@.len(),
    ensures
        from <= r <= s@.len(),
        r - from == scan_to(s@.subrange(from as int, s@.len() as int), stop),
        r < s@.len() ==> s@[r as int] == stop,
        forall|k: int| from <= k < r ==> s@[k] != stop,
{
    let n = s.len();
    let mut i: usize = from;
    while i < n && s[i] != stop
        invariant
            from <= i <= n,
            n == s@.len(),
            forall|k: int| from <= k < i ==> s@[k] != stop,
        decreases n - i,
    {
        i = i + 1;
    }
    proof {
        lemma_scan_to_is(s@.subrange(from as int, s@.len() as int), stop, i - from);
    }
    i
}

/// Finds the first occurrence of `x` or `y` at or after `from`.
fn scan2_from(s: &[u8], from: usize, x: u8, y: u8) -> (r: usize)
    requires
        from <= s@.len(),
    ensures
        from <= r <= s@.len(),
        r - from == scan_to2(s@.subrange(from as int, s@.len() as int), x, y),
        forall|k: int| from <= k < r ==> s@[k] != x && s@[k] != y,
{
    let n = s.len();
    let mut i: usize = from;
    while i < n && s[i] != x && s[i] != y
        invariant
            from <= i <= n,
            n == s@.len(),
            forall|k: int| from <= k < i ==> s@[k] != x && s@[k] != y,
        decreases n - i,
    {
        i = i + 1;
    }
    proof {
        lemma_scan_to2_is(s@.subrange(from as int, s@.len() as int), x, y, i - from);
    }
    i
}

/// Finds the position just after the last slash inside `[from, to)`.
fn rscan_from(s: &[u8], from: usize, to: usize) -> (r: usize)
    requires
        from <= to <= s@.len(),
    ensures
        from <= r <= to,
        r - from == rscan_slash(s@.subrange(from as int, to as int)),
{
    let mut j: usize = to;
    while j > from && s[j - 1] != '/' as u8
        invariant
            from <= j <= to <= s@.len(),
            forall|k: int| j <= k < to ==> s@[k] != '/' as u8,
        decreases j,
    {
        j = j - 1;
    }
    proof {
        lemma_rscan_is(s@.subrange(from as int, to as int), j - from);
    }
    j
}

/// The bounds of the given region once trimmed of white space.
fn trim_bounds(s: &[u8], from: usize, to: usize) -> (r: (usize, usize))
    requires
        from <= to <= s@.len(),
    ensures
        from <= r.0 <= r.1 <= to,
        trim(s@.subrange(from as int, to as int)) == s@.subrange(r.0 as int, r.1 as int),
{
    let mut a: usize = from;
    while a < to && (s[a] == ' ' as u8 || s[a] == '\t' as u8)
        invariant
            from <= a <= to,
            to <= s@.len(),
            forall|k: int| from <= k < a ==> is_lws(s@[k]),
        decreases to - a,
    {
        a = a + 1;
    }
    let mut b: usize = to;
    while b > a && (s[b - 1] == ' ' as u8 || s[b - 1] == '\t' as u8)
        invariant
            a <= b <= to,
            to <= s@.len(),
            forall|k: int| b <= k < to ==> is_lws(s@[k]),
        decreases b,
    {
        b = b - 1;
    }
    proof {
        let region = s@.subrange(from as int, to as int);
        lemma_ltrim_is(region, a - from);
        let lt = s@.subrange(a as int, to as int);
        assert(region.subrange(a - from, region.len() as int) =~= lt);
        lemma_rtrim_is(lt, b - a);
        assert(lt.subrange(0, b - a) =~= s@.subrange(a as int, b as int));
    }
    (a, b)
}

/// Compares a region, lower-cased, against a lower-case ASCII literal.
fn region_eq_ci(s: &[u8], a: usize, b: usize, lit: &str) -> (r: bool)
    requires
        a <= b <= s@.len(),
        lit.is_ascii(),
    ensures
        r <==> lower_seq(s@.subrange(a as int, b as int)) == ascii_seq(lit@),
{
    let lb = lit.as_bytes();
    proof {
        vstd::string::is_ascii_spec_bytes(lit);
        assert(lb@ =~= ascii_seq(lit@));
    }
    if b - a != lb.len() {
        proof {
            if lower_seq(s@.subrange(a as int, b as int)) == ascii_seq(lit@) {
                assert(lower_seq(s@.subrange(a as int, b as int)).len() == b - a);
            }
        }
        return false;
    }
    let n = b - a;
    let mut i: usize = 0;
    while i < n
        invariant
            0 <= i <= n,
            n == lb@.len(),
            a + n == b,
            b <= s@.len(),
            lb@ == ascii_seq(lit@),
            forall|k: int| 0 <= k < i ==> lower_b(s@[a + k]) == lb@[k],
        decreases n - i,
    {
        let c = s[a + i];
        let low = if 'A' as u8 <= c && c <= 'Z' as u8 {
            c + 32
        } else {
            c
        };
        if low != lb[i] {
            proof {
                if lower_seq(s@.subrange(a as int, b as int)) == ascii_seq(lit@) {
                    assert(lower_seq(s@.subrange(a as int, b as int))[i as int] == lb@[i as int]);
                    assert(s@.subrange(a as int, b as int)[i as int] == s@[a + i]);
                }
            }
            return false;
        }
        i = i + 1;
    }
    proof {
        assert(lower_seq(s@.subrange(a as int, b as int)) =~= ascii_seq(lit@));
    }
    true
}

/// A fresh copy of a region of a byte slice.
fn copy_range(s: &[u8], a: usize, b: usize) -> (r: Vec<u8>)
    requires
        a <= b <= s@.len(),
    ensures
        r@ == s@.subrange(a as int, b as int),
{
    let mut out: Vec<u8> = Vec::new();
    let mut i: usize = a;
    while i < b
        invariant
            a <= i <= b <= s@.len(),
            out@ == s@.subrange(a as int, i as int),
        decreases b - i,
    {
        out.push(s[i]);
        proof {
            assert(out@ =~= s@.subrange(a as int, i + 1));
        }
        i = i + 1;
    }
    out
}

/// When the head part carries the sought parameter, the search returns
/// its value.
proof fn lemma_param_found(parts: Seq<Seq<u8>>, part: Seq<u8>, name: Seq<u8>)
    requires
        parts.len() > 0,
        parts[0] == part,
        scan_to(part, '=' as u8) < part.len(),
        lower_seq(trim(part.subrange(0, scan_to(part, '=' as u8) as int))) == name,
    ensures
        param_of_parts(parts, name) == Some(
            unquote(trim(part.subrange(scan_to(part, '=' as u8) + 1 as int, part.len() as int))),
        ),
{
}

/// When the head part is not the sought parameter, the search moves on.
proof fn lemma_param_not_here(parts: Seq<Seq<u8>>, part: Seq<u8>, name: Seq<u8>)
    requires
        parts.len() > 0,
        parts[0] == part,
        scan_to(part, '=' as u8) < part.len() ==> lower_seq(
            trim(part.subrange(0, scan_to(part, '=' as u8) as int)),
        ) != name,
    ensures
        param_of_parts(parts, name) == param_of_parts(parts.drop_first(), name),
{
}

/// Finds the value of the named parameter among the parts that start at
/// `pos0`; the name is matched case-insensitively against a lower-case
/// ASCII name.
pub(crate) fn param_from(h: &[u8], pos0: usize, name: &str) -> (r: Option<Vec<u8>>)
    requires
        pos0 <= h@.len(),
        name.is_ascii(),
    ensures
        match r {
            Some(v) => param_of_parts(
                split_parts(h@.subrange(pos0 as int, h@.len() as int)),
                ascii_seq(name@),
            ) == Some(v@),
            None => param_of_parts(
                split_parts(h@.subrange(pos0 as int, h@.len() as int)),
                ascii_seq(name@),
            ) is None,
        },
{
    let n = h.len();
    let ghost nm = ascii_seq(name@);
    let ghost parts = split_parts(h@.subrange(pos0 as int, h@.len() as int));
    let mut pos: usize = pos0;
    let ghost mut idx: int = 0;
    proof {
        assert(parts.subrange(0, parts.len() as int) =~~= parts);
        assert(h@.subrange(pos0 as int, h@.len() as int).subrange(
            0,
            h@.len() - pos0,
        ) =~= h@.subrange(pos0 as int, h@.len() as int));
    }
    loop
        invariant
            0 <= idx < parts.len(),
            pos0 <= pos <= n,
            n == h@.len(),
            name.is_ascii(),
            nm == ascii_seq(name@),
            parts == split_parts(h@.subrange(pos0 as int, h@.len() as int)),
            param_of_parts(parts, nm) == param_of_parts(
                parts.subrange(idx, parts.len() as int),
                nm,
            ),
            split_parts(h@.subrange(pos as int, h@.len() as int)) =~~= parts.subrange(
                idx,
                parts.len() as int,
            ),
        decreases n - pos,
    {
        let ghost tail = h@.subrange(pos as int, h@.len() as int);
        let part_end = scan_from(h, pos, ';' as u8);
        proof {
            assert(tail.subrange(0, part_end - pos) =~= h@.subrange(pos as int, part_end as int));
            lemma_scan_to_is(tail, ';' as u8, part_end - pos);
            if part_end - pos < tail.len() {
                assert(split_parts(tail)[0] == tail.subrange(0, part_end - pos));
            } else {
                assert(split_parts(tail) =~~= seq![tail]);
                assert(tail =~= tail.subrange(0, part_end - pos));
            }
        }
        let ghost part = h@.subrange(pos as int, part_end as int);
        proof {
            assert(parts.subrange(idx, parts.len() as int)[0] == split_parts(tail)[0]);
            assert(split_parts(tail)[0] == part);
        }
        let eq_pos = scan_from(h, pos, '=' as u8);
        let found: bool;
        if eq_pos < part_end {
            proof {
                assert(part[eq_pos - pos] == h@[eq_pos as int]);
                lemma_scan_to_is(part, '=' as u8, eq_pos - pos);
            }
            let (a1, b1) = trim_bounds(h, pos, eq_pos);
            proof {
                assert(part.subrange(0, eq_pos - pos) =~= h@.subrange(pos as int, eq_pos as int));
            }
            found = region_eq_ci(h, a1, b1, name);
        } else {
            proof {
                lemma_scan_to_is(part, '=' as u8, part.len() as int);
            }
            found = false;
        }
        if found {
            let (a2, b2) = trim_bounds(h, eq_pos + 1, part_end);
            proof {
                assert(part.subrange(eq_pos + 1 - pos, part.len() as int) =~= h@.subrange(
                    eq_pos + 1,
                    part_end as int,
                ));
            }
            let ghost tv = h@.subrange(a2 as int, b2 as int);
            let v: Vec<u8>;
            if b2 - a2 >= 2 && h[a2] == '"' as u8 && h[b2 - 1] == '"' as u8 {
                proof {
                    assert(tv[0] == h@[a2 as int]);
                    assert(tv.last() == h@[b2 - 1]);
                }
                v = copy_range(h, a2 + 1, b2 - 1);
                proof {
                    assert(tv.subrange(1, tv.len() - 1) =~= h@.subrange(a2 + 1, b2 - 1));
                }
            } else {
                proof {
                    if tv.len() >= 2 {
                        assert(tv[0] == h@[a2 as int]);
                        assert(tv.last() == h@[b2 - 1]);
                    }
                }
                v = copy_range(h, a2, b2);
            }
            proof {
                lemma_param_found(parts.subrange(idx, parts.len() as int), part, nm);
            }
            return Some(v);
        }
        proof {
            lemma_param_not_here(parts.subrange(idx, parts.len() as int), part, nm);
            assert(parts.subrange(idx, parts.len() as int).drop_first() =~~= parts.subrange(
                idx + 1,
                parts.len() as int,
            ));
        }
        if part_end >= n {
            // this was the last part, and it is not the sought parameter
            proof {
                assert(split_parts(tail).len() == 1);
                assert(parts.subrange(idx, parts.len() as int).len() == 1);
                assert(parts.subrange(idx + 1, parts.len() as int) =~~= Seq::<Seq<u8>>::empty());
            }
            return None;
        }
        proof {
            assert(split_parts(tail).drop_first() =~~= split_parts(
                tail.subrange(part_end - pos + 1, tail.len() as int),
            ));
            assert(tail.subrange(part_end - pos + 1, tail.len() as int) =~= h@.subrange(
                part_end + 1,
                h@.len() as int,
            ));
            assert(parts.subrange(idx + 1, parts.len() as int).len() >= 1);
            idx = idx + 1;
        }
        pos = part_end + 1;
    }
}

/// Checks that a header value opens with the given word (case-insensitively,
/// surrounding white space ignored) before its first semicolon, and hands
/// back where the parameters start.
pub(crate) fn leading_token_is(h: &[u8], word: &str) -> (r: (bool, usize))
    requires
        word.is_ascii(),
    ensures
        r.0 <==> lower_seq(trim(split_parts(h@)[0])) == ascii_seq(word@),
        r.1 <= h@.len(),
        forall|nm: Seq<u8>|
            #[trigger] param_of_parts(split_parts(h@).drop_first(), nm) == param_of_parts(
                split_parts(h@.subrange(r.1 as int, h@.len() as int)),
                nm,
            ),
{
    let n = h.len();
    let ghost parts = split_parts(h@);
    let first_end = scan_from(h, 0, ';' as u8);
    proof {
        assert(h@.subrange(0, h@.len() as int) =~= h@);
        assert(scan_to(h@, ';' as u8) == first_end);
        if first_end < n {
            assert(parts[0] == h@.subrange(0, first_end as int));
        } else {
            assert(parts =~~= seq![h@]);
            assert(parts[0] =~= h@.subrange(0, first_end as int));
        }
    }
    let (a0, b0) = trim_bounds(h, 0, first_end);
    let ok = region_eq_ci(h, a0, b0, word);
    if first_end < n {
        proof {
            assert(parts.drop_first() =~~= split_parts(h@.subrange(first_end + 1, n as int)));
        }
        (ok, first_end + 1)
    } else {
        proof {
            assert(parts.drop_first() =~~= Seq::<Seq<u8>>::empty());
            assert(h@.subrange(n as int, n as int) =~= Seq::<u8>::empty());
            assert(scan_to(Seq::<u8>::empty(), ';' as u8) == 0);
            assert(split_parts(Seq::<u8>::empty()) =~~= seq![Seq::<u8>::empty()]);
            assert forall|nm: Seq<u8>|
                #[trigger] param_of_parts(parts.drop_first(), nm) == param_of_parts(
                    split_parts(h@.subrange(n as int, h@.len() as int)),
                    nm,
                ) by {
                let em = Seq::<u8>::empty();
                assert(scan_to(em, '=' as u8) == 0);
                assert(param_of_parts(seq![em], nm) == param_of_parts(
                    seq![em].drop_first(),
                    nm,
                ));
                assert(seq![em].drop_first() =~~= Seq::<Seq<u8>>::empty());
                assert(param_of_parts(Seq::<Seq<u8>>::empty(), nm) is None);
                assert(param_of_parts(parts.drop_first(), nm) is None);
            }
        }
        (ok, n)
    }
}

/// Parses the filename hint out of a `Content-Disposition` header value.
pub fn filename_hint(h: &[u8]) -> (r: Option<Vec<u8>>)
    ensures
        match r {
            Some(v) => filename_hint_spec(h@) == Some(v@),
            None => filename_hint_spec(h@) is None,
        },
{
    proof {
        reveal_strlit("attachment");
        reveal_strlit("filename");
    }
    let (is_attachment, params_start) = leading_token_is(h, "attachment");
    if !is_attachment {
        return None;
    }
    match param_from(h, params_start, "filename") {
        Some(v) => {
            if crate::bytes::utf8_ok(v.as_slice()) {
                Some(v)
            } else {
                None
            }
        },
        None => None,
    }
}

/// Extracts the final path segment of a URL, if there is one.
pub fn last_path_segment(u: &[u8]) -> (r: Option<Vec<u8>>)
    ensures
        match r {
            Some(v) => last_segment_spec(u@) == Some(v@),
            None => last_segment_spec(u@) is None,
        },
{
    let n = u.len();
    let c = scan2_from(u, 0, '?' as u8, '#' as u8);
    let ghost pre = u@.subrange(0, c as int);
    proof {
        assert(u@.subrange(0, u@.len() as int) =~= u@);
        assert(scan_to2(u@, '?' as u8, '#' as u8) == c);
    }
    let ic = scan_from(u, 0, ':' as u8);
    proof {
        if ic < c {
            assert(pre[ic as int] == u@[ic as int]);
            lemma_scan_to_is(pre, ':' as u8, ic as int);
        } else {
            lemma_scan_to_is(pre, ':' as u8, pre.len() as int);
        }
    }
    if !(ic < c && c - ic >= 3) {
        return None;
    }
    if !(u[ic + 1] == '/' as u8 && u[ic + 2] == '/' as u8) {
        proof {
            assert(pre[ic as int + 1] == u@[ic + 1]);
            assert(pre[ic as int + 2] == u@[ic + 2]);
        }
        return None;
    }
    proof {
        assert(pre[ic as int + 1] == u@[ic + 1]);
        assert(pre[ic as int + 2] == u@[ic + 2]);
    }
    let ghost rel = pre.subrange(ic + 3, pre.len() as int);
    let pc = scan_from(u, ic + 3, '/' as u8);
    proof {
        assert(rel =~= u@.subrange(ic + 3, c as int));
        if pc < c {
            assert(rel[pc - (ic + 3)] == u@[pc as int]);
            lemma_scan_to_is(rel, '/' as u8, pc - (ic + 3));
        } else {
            lemma_scan_to_is(rel, '/' as u8, rel.len() as int);
        }
    }
    if pc >= c {
        return None;
    }
    let ghost path = rel.subrange(pc - (ic + 3), rel.len() as int);
    let s = rscan_from(u, pc, c);
    proof {
        assert(path =~= u@.subrange(pc as int, c as int));
        assert(rscan_slash(path) == s - pc);
    }
    if s >= c {
        return None;
    }
    let v = copy_range(u, s, c);
    proof {
        assert(path.subrange(s - pc, path.len() as int) =~= u@.subrange(s as int, c as int));
    }
    Some(v)
}

/// The contents of an optional byte string.
pub open spec fn opt_view(o: Option<Vec<u8>>) -> Option<Seq<u8>> {
    match o {
        Some(v) => Some(v@),
        None => None,
    }
}

/// The filename an asset is saved under: the response's hint first, then
/// the final path segment of its URL; possibly none at all.
pub open spec fn asset_filename_spec(hint: Option<Seq<u8>>, url: Seq<u8>) -> Option<Seq<u8>> {
    match hint {
        Some(f) => Some(f),
        None => last_segment_spec(url),
    }
}

/// Chooses the filename an asset is saved under.
pub fn asset_filename(hint: Option<Vec<u8>>, url: &[u8]) -> (r: Option<Vec<u8>>)
    ensures
        match r {
            Some(v) => asset_filename_spec(opt_view(hint), url@) == Some(v@),
            None => asset_filename_spec(opt_view(hint), url@) is None,
        },
{
    match hint {
        Some(f) => Some(f),
        None => last_path_segment(url),
    }
}

/// Decides what becomes of one fetched asset: the body is read under the
/// size limit, then the filename is chosen. Within the limit, an asset
/// with a filename is written under it; one without is dropped, and the
/// job proceeds.
pub fn asset_disposition(
    url: &[u8],
    hint: Option<Vec<u8>>,
    chunks: &Vec<Vec<u8>>,
    max: usize,
) -> (r: Result<Option<(Vec<u8>, Vec<u8>)>, RenderError>)
    ensures
        total_len(chunks@.map_values(|c: Vec<u8>| c@)) > max ==> (r matches Err(e)
            && e is BodyTooLarge),
        total_len(chunks@.map_values(|c: Vec<u8>| c@)) <= max ==> match asset_filename_spec(
            opt_view(hint),
            url@,
        ) {
            Some(f) => r matches Ok(Some(p)) && p.0@ == f && p.1@ == concat_chunks(
                chunks@.map_values(|c: Vec<u8>| c@),
            ),
            None => r matches Ok(None),
        },
{
    let body = match read_body_with_limit(chunks, max) {
        Ok(b) => b,
        Err(_) => {
            return Err(RenderError::BodyTooLarge);
        },
    };
    match asset_filename(hint, url) {
        Some(name) => Ok(Some((name, body))),
        None => Ok(None),
    }
}

} // verus!
