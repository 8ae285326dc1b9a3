use vstd::prelude::*;
use vstd::string::*;

verus! {

/// A path token: a nonempty run of characters without a slash.
pub open spec fn is_token(t: Seq<char>) -> bool {
    t.len() > 0 && forall|i: int| 0 <= i < t.len() ==> t[i] != '/'
}

/// Strips a literal prefix, or yields nothing when it is not there.
pub open spec fn strip_lit(s: Seq<char>, p: Seq<char>) -> Option<Seq<char>> {
    if p.is_prefix_of(s) {
        Some(s.skip(p.len() as int))
    } else {
        None
    }
}

/// Strips the scheme: "http://" or "https://".
pub open spec fn strip_scheme(s: Seq<char>) -> Option<Seq<char>> {
    match strip_lit(s, "https://"@) {
        Some(r) => Some(r),
        None => strip_lit(s, "http://"@),
    }
}

/// Strips an optional "www." subdomain.
pub open spec fn strip_www(s: Seq<char>) -> Seq<char> {
    match strip_lit(s, "www."@) {
        Some(r) => r,
        None => s,
    }
}

/// Strips the first path segment: "licenses/" or "publicdomain/".
pub open spec fn strip_category(s: Seq<char>) -> Option<Seq<char>> {
    match strip_lit(s, "licenses/"@) {
        Some(r) => Some(r),
        None => strip_lit(s, "publicdomain/"@),
    }
}

/// Splits a sequence at its first slash; nothing when it has no slash.
pub open spec fn split_segment(s: Seq<char>) -> Option<(Seq<char>, Seq<char>)>
    decreases s.len(),
{
    if s.len() == 0 {
        None
    } else if s[0] == '/' {
        Some((Seq::empty(), s.skip(1)))
    } else {
        match split_segment(s.skip(1)) {
            Some(p) => Some((seq![s[0]] + p.0, p.1)),
            None => None,
        }
    }
}

/// The URL matcher: yields the raw rights and version tokens of a string
/// of the canonical shape
/// `http(s)://[www.]creativecommons.org/(licenses|publicdomain)/<rights>/<version>[/]`,
/// and nothing for every other string.
pub open spec fn spec_extract(s: Seq<char>) -> Option<(Seq<char>, Seq<char>)> {
    match strip_scheme(s) {
        None => None,
        Some(s1) => match strip_lit(strip_www(s1), "creativecommons.org/"@) {
            None => None,
            Some(s2) => match strip_category(s2) {
                None => None,
                Some(s3) => match split_segment(s3) {
                    None => None,
                    Some(p) => {
                        let rt = p.0;
                        let rest = p.1;
                        if rt.len() == 0 || rest.len() == 0 {
                            None
                        } else {
                            let vt = if rest.last() == '/' {
                                rest.drop_last()
                            } else {
                                rest
                            };
                            if is_token(vt) {
                                Some((rt, vt))
                            } else {
                                None
                            }
                        }
                    },
                },
            },
        },
    }
}

/// A sequence without a slash splits to nothing.
proof fn lemma_split_segment_none(s: Seq<char>)
    requires
        forall|t: int| 0 <= t < s.len() ==> s[t] != '/',
    ensures
        split_segment(s) is None,
    decreases s.len(),
{
    if s.len() > 0 {
        assert forall|t: int| 0 <= t < s.skip(1).len() implies s.skip(1)[t] != '/' by {
            assert(s.skip(1)[t] == s[t + 1]);
        }
        lemma_split_segment_none(s.skip(1));
    }
}

/// A sequence whose first slash stands at `k` splits exactly there.
proof fn lemma_split_segment_at(s: Seq<char>, k: int)
    requires
        0 <= k < s.len(),
        s[k] == '/',
        forall|t: int| 0 <= t < k ==> s[t] != '/',
    ensures
        split_segment(s) == Some((s.take(k), s.skip(k + 1))),
    decreases k,
{
    if k == 0 {
        assert(s.take(0) =~= Seq::<char>::empty());
    } else {
        assert(s[0] != '/');
        assert(s.skip(1)[k - 1] == s[k]);
        assert forall|t: int| 0 <= t < k - 1 implies s.skip(1)[t] != '/' by {
            assert(s.skip(1)[t] == s[t + 1]);
        }
        lemma_split_segment_at(s.skip(1), k - 1);
        assert(seq![s[0]] + s.skip(1).take(k - 1) =~= s.take(k));
        assert(s.skip(1).skip(k) =~= s.skip(k + 1));
    }
}

/// Splitting a slash-free segment prepended with a slash and a remainder
/// recovers exactly that segment and that remainder.
proof fn lemma_split_segment_concat(a: Seq<char>, b: Seq<char>)
    requires
        forall|t: int| 0 <= t < a.len() ==> a[t] != '/',
    ensures
        split_segment(a + seq!['/'] + b) == Some((a, b)),
    decreases a.len(),
{
    let s = a + seq!['/'] + b;
    if a.len() == 0 {
        assert(s[0] == '/');
        assert(s.skip(1) =~= b);
        assert(Seq::<char>::empty() =~= a);
    } else {
        assert(s[0] == a[0]);
        assert(s[0] != '/');
        assert forall|t: int| 0 <= t < a.skip(1).len() implies a.skip(1)[t] != '/' by {
            assert(a.skip(1)[t] == a[t + 1]);
        }
        lemma_split_segment_concat(a.skip(1), b);
        assert(s.skip(1) =~= a.skip(1) + seq!['/'] + b);
        assert(seq![s[0]] + a.skip(1) =~= a);
    }
}

/// A successful split recovers the segment and the remainder of the
/// sequence, and the segment is slash-free.
proof fn lemma_split_segment_props(s: Seq<char>, a: Seq<char>, b: Seq<char>)
    requires
        split_segment(s) == Some((a, b)),
    ensures
        s == a + seq!['/'] + b,
        forall|t: int| 0 <= t < a.len() ==> a[t] != '/',
    decreases s.len(),
{
    if s.len() == 0 {
    } else if s[0] == '/' {
        assert(a == Seq::<char>::empty());
        assert(b == s.skip(1));
        assert(s =~= a + seq!['/'] + b);
    } else {
        let p = split_segment(s.skip(1))->Some_0;
        lemma_split_segment_props(s.skip(1), p.0, p.1);
        assert(a == seq![s[0]] + p.0);
        let x = a + seq!['/'] + b;
        assert forall|i: int| 0 <= i < s.len() implies s[i] == x[i] by {
            if i == 0 {
                assert(x[0] == a[0]);
            } else {
                assert(s[i] == s.skip(1)[i - 1]);
                assert(x[i] == (p.0 + seq!['/'] + p.1)[i - 1]);
            }
        }
        assert(s =~= x);
        assert forall|t: int| 0 <= t < a.len() implies a[t] != '/' by {
            if t == 0 {
                assert(a[0] == s[0]);
            } else {
                assert(a[t] == p.0[t - 1]);
            }
        }
    }
}

/// The pieces of the canonical URL shape: one of the two schemes, an
/// optional "www." subdomain, one of the two path categories, and an
/// optional trailing slash.
pub open spec fn shape_parts_ok(
    scheme: Seq<char>,
    www: Seq<char>,
    cat: Seq<char>,
    tail: Seq<char>,
) -> bool {
    &&& (scheme == "http://"@ || scheme == "https://"@)
    &&& (www == Seq::<char>::empty() || www == "www."@)
    &&& (cat == "licenses/"@ || cat == "publicdomain/"@)
    &&& (tail == Seq::<char>::empty() || tail == "/"@)
}

/// A canonical URL assembled from its pieces and its two tokens.
pub open spec fn assemble(
    scheme: Seq<char>,
    www: Seq<char>,
    cat: Seq<char>,
    rt: Seq<char>,
    vt: Seq<char>,
    tail: Seq<char>,
) -> Seq<char> {
    scheme + (www + ("creativecommons.org/"@ + (cat + (rt + ("/"@ + (vt + tail))))))
}

/// Stripping a literal from that same literal followed by a remainder
/// yields the remainder.
proof fn lemma_strip_lit_concat(p: Seq<char>, r: Seq<char>)
    ensures
        strip_lit(p + r, p) == Some(r),
{
    let s = p + r;
    assert(p =~= s.subrange(0, p.len() as int));
    assert(s.skip(p.len() as int) =~= r);
}

/// A literal that disagrees with the sequence at one position is no
/// prefix of it.
proof fn lemma_strip_lit_mismatch(s: Seq<char>, p: Seq<char>, i: int)
    requires
        0 <= i < p.len(),
        i < s.len(),
        s[i] != p[i],
    ensures
        strip_lit(s, p) is None,
{
    if p.is_prefix_of(s) {
        assert(s.subrange(0, p.len() as int)[i] == s[i]);
    }
}

/// A successful strip decomposes the sequence into the literal and the
/// remainder.
proof fn lemma_strip_lit_decomp(s: Seq<char>, p: Seq<char>, r: Seq<char>)
    requires
        strip_lit(s, p) == Some(r),
    ensures
        s == p + r,
{
    assert(s =~= p + s.skip(p.len() as int));
}

/// The canonical Creative Commons URL shape, stated declaratively: `s` is
/// some assembly of accepted pieces around the tokens `rt` and `vt`.
pub open spec fn cc_url_shape(s: Seq<char>, rt: Seq<char>, vt: Seq<char>) -> bool {
    &&& is_token(rt)
    &&& is_token(vt)
    &&& exists|scheme: Seq<char>, www: Seq<char>, cat: Seq<char>, tail: Seq<char>|
        shape_parts_ok(scheme, www, cat, tail) && s == #[trigger] assemble(
            scheme,
            www,
            cat,
            rt,
            vt,
            tail,
        )
}

/// Whatever the matcher extracts did come from a string of the canonical
/// shape, with the extracted tokens in token position.
#[verifier::rlimit(100)]
proof fn lemma_extract_sound(s: Seq<char>, rt: Seq<char>, vt: Seq<char>)
    requires
        spec_extract(s) == Some((rt, vt)),
    ensures
        cc_url_shape(s, rt, vt),
{
    reveal_strlit("/");
    let s1 = strip_scheme(s)->Some_0;
    let scheme: Seq<char> = if strip_lit(s, "https://"@) is Some {
        "https://"@
    } else {
        "http://"@
    };
    assert(strip_lit(s, scheme) == Some(s1));
    lemma_strip_lit_decomp(s, scheme, s1);
    let sw = strip_www(s1);
    let www: Seq<char> = if strip_lit(s1, "www."@) is Some {
        "www."@
    } else {
        Seq::empty()
    };
    if strip_lit(s1, "www."@) is Some {
        lemma_strip_lit_decomp(s1, "www."@, sw);
    } else {
        assert(Seq::<char>::empty() + sw =~= sw);
    }
    assert(s1 == www + sw);
    let s2 = strip_lit(sw, "creativecommons.org/"@)->Some_0;
    lemma_strip_lit_decomp(sw, "creativecommons.org/"@, s2);
    let s3 = strip_category(s2)->Some_0;
    let cat: Seq<char> = if strip_lit(s2, "licenses/"@) is Some {
        "licenses/"@
    } else {
        "publicdomain/"@
    };
    assert(strip_lit(s2, cat) == Some(s3));
    lemma_strip_lit_decomp(s2, cat, s3);
    let p = split_segment(s3)->Some_0;
    let rest = p.1;
    lemma_split_segment_props(s3, p.0, rest);
    assert(p.0 == rt);
    assert(is_token(rt));
    let tail: Seq<char> = if rest.last() == '/' {
        "/"@
    } else {
        Seq::empty()
    };
    if rest.last() == '/' {
        assert(vt == rest.drop_last());
        assert(vt + tail =~= rest);
    } else {
        assert(vt == rest);
        assert(vt + tail =~= rest);
    }
    assert(is_token(vt));
    assert(rt + seq!['/'] + rest =~= rt + ("/"@ + (vt + tail)));
    assert(s3 == rt + ("/"@ + (vt + tail)));
    assert(s == assemble(scheme, www, cat, rt, vt, tail));
    assert(shape_parts_ok(scheme, www, cat, tail));
}

/// Every string of the canonical shape is matched, and the matcher hands
/// back exactly the tokens standing in token position.
#[verifier::rlimit(100)]
proof fn lemma_shape_extract(s: Seq<char>, rt: Seq<char>, vt: Seq<char>)
    requires
        cc_url_shape(s, rt, vt),
    ensures
        spec_extract(s) == Some((rt, vt)),
{
    reveal_strlit("https://");
    reveal_strlit("http://");
    reveal_strlit("www.");
    reveal_strlit("creativecommons.org/");
    reveal_strlit("licenses/");
    reveal_strlit("publicdomain/");
    reveal_strlit("/");
    let (scheme, www, cat, tail) = choose|
        scheme: Seq<char>,
        www: Seq<char>,
        cat: Seq<char>,
        tail: Seq<char>,
    |
        shape_parts_ok(scheme, www, cat, tail) && s == #[trigger] assemble(
            scheme,
            www,
            cat,
            rt,
            vt,
            tail,
        );
    let r6 = vt + tail;
    let r5 = rt + ("/"@ + r6);
    let r4 = cat + r5;
    let r3 = "creativecommons.org/"@ + r4;
    let r2 = www + r3;
    assert(s == scheme + r2);
    if scheme == "https://"@ {
        lemma_strip_lit_concat("https://"@, r2);
    } else {
        assert(s[4] == ':') by {
            assert(("http://"@ + r2)[4] == "http://"@[4]);
        }
        lemma_strip_lit_mismatch(s, "https://"@, 4);
        lemma_strip_lit_concat("http://"@, r2);
    }
    assert(strip_scheme(s) == Some(r2));
    if www == "www."@ {
        lemma_strip_lit_concat("www."@, r3);
        assert(strip_www(r2) == r3);
    } else {
        assert(r2 =~= r3);
        assert(r2[0] == 'c') by {
            assert(("creativecommons.org/"@ + r4)[0] == "creativecommons.org/"@[0]);
        }
        lemma_strip_lit_mismatch(r2, "www."@, 0);
        assert(strip_www(r2) == r2);
    }
    assert(strip_www(r2) == r3);
    lemma_strip_lit_concat("creativecommons.org/"@, r4);
    assert(strip_lit(r3, "creativecommons.org/"@) == Some(r4));
    if cat == "licenses/"@ {
        lemma_strip_lit_concat("licenses/"@, r5);
    } else {
        assert(r4[0] == 'p') by {
            assert(("publicdomain/"@ + r5)[0] == "publicdomain/"@[0]);
        }
        lemma_strip_lit_mismatch(r4, "licenses/"@, 0);
        lemma_strip_lit_concat("publicdomain/"@, r5);
    }
    assert(strip_category(r4) == Some(r5));
    assert(rt + seq!['/'] + r6 =~= r5);
    lemma_split_segment_concat(rt, r6);
    assert(split_segment(r5) == Some((rt, r6)));
    assert(rt.len() > 0);
    assert(r6.len() > 0);
    if tail == "/"@ {
        assert(r6.last() == '/') by {
            assert((vt + "/"@)[vt.len() as int] == "/"@[0]);
        }
        assert(r6.drop_last() =~= vt);
    } else {
        assert(r6 =~= vt);
        assert(r6.last() == vt[vt.len() - 1]);
        assert(r6.last() != '/');
    }
}

/// The URL matcher is exact: it extracts the tokens `rt` and `vt` from
/// `s` exactly when `s` has the canonical Creative Commons URL shape with
/// those two tokens in token position.
pub proof fn lemma_extract_exact(s: Seq<char>, rt: Seq<char>, vt: Seq<char>)
    ensures
        spec_extract(s) == Some((rt, vt)) <==> cc_url_shape(s, rt, vt),
{
    if spec_extract(s) == Some((rt, vt)) {
        lemma_extract_sound(s, rt, vt);
    }
    if cc_url_shape(s, rt, vt) {
        lemma_shape_extract(s, rt, vt);
    }
}

/// Consumes the view of `pat` at position `i` of `s`, telling apart
/// exactly the strings where it is a prefix of the rest.
pub fn try_eat(s: &str, i: usize, pat: &str) -> (res: Option<usize>)
    requires
        i <= s@.len(),
    ensures
        match res {
            Some(j) => i + pat@.len() == j && j <= s@.len() && strip_lit(
                s@.skip(i as int),
                pat@,
            ) == Some(s@.skip(j as int)),
            None => strip_lit(s@.skip(i as int), pat@) is None,
        },
{
    let n = s.unicode_len();
    let m = pat.unicode_len();
    if n - i < m {
        proof {
            assert(s@.skip(i as int).len() < pat@.len());
            assert(!pat@.is_prefix_of(s@.skip(i as int)));
        }
        return None;
    }
    let mut k: usize = 0;
    while k < m
        invariant
            0 <= k <= m,
            i + m <= n,
            n == s@.len(),
            m == pat@.len(),
            forall|t: int| 0 <= t < k ==> s@[i + t] == pat@[t],
        decreases m - k,
    {
        if s.get_char(i + k) != pat.get_char(k) {
            proof {
                let rest = s@.skip(i as int);
                assert(rest[k as int] == s@[i + k]);
                assert(rest.subrange(0, m as int)[k as int] == rest[k as int]);
                assert(!pat@.is_prefix_of(rest));
            }
            return None;
        }
        k += 1;
    }
    proof {
        let rest = s@.skip(i as int);
        assert forall|t: int| 0 <= t < m implies rest.subrange(0, m as int)[t] == pat@[t] by {
            assert(rest[t] == s@[i + t]);
        }
        assert(pat@ =~= rest.subrange(0, m as int));
        assert(pat@.is_prefix_of(rest));
        assert(rest.skip(m as int) =~= s@.skip((i + m) as int));
    }
    Some(i + m)
}

/// Recognizes the canonical Creative Commons URL shape and hands out the
/// raw rights and version tokens, exactly as [`spec_extract`] describes.
#[verifier::rlimit(100)]
pub fn extract<'a>(url: &'a str) -> (res: Option<(&'a str, &'a str)>)
    ensures
        match res {
            Some(p) => spec_extract(url@) == Some((p.0@, p.1@)),
            None => spec_extract(url@) is None,
        },
{
    let n = url.unicode_len();
    proof {
        assert(url@.skip(0) =~= url@);
    }
    let i0 = match try_eat(url, 0, "https://") {
        Some(j) => j,
        None => {
            match try_eat(url, 0, "http://") {
                Some(j) => j,
                None => {
                    return None;
                },
            }
        },
    };
    proof {
        assert(strip_scheme(url@) == Some(url@.skip(i0 as int)));
    }
    let i1 = match try_eat(url, i0, "www.") {
        Some(j) => j,
        None => i0,
    };
    proof {
        assert(strip_www(url@.skip(i0 as int)) == url@.skip(i1 as int));
    }
    let i2 = match try_eat(url, i1, "creativecommons.org/") {
        Some(j) => j,
        None => {
            return None;
        },
    };
    let i3 = match try_eat(url, i2, "licenses/") {
        Some(j) => j,
        None => {
            match try_eat(url, i2, "publicdomain/") {
                Some(j) => j,
                None => {
                    return None;
                },
            }
        },
    };
    proof {
        assert(strip_category(url@.skip(i2 as int)) == Some(url@.skip(i3 as int)));
    }
    let ghost s3 = url@.skip(i3 as int);
    let mut j = i3;
    while j < n && url.get_char(j) != '/'
        invariant
            i3 <= j <= n,
            n == url@.len(),
            forall|t: int| i3 <= t < j ==> url@[t] != '/',
        decreases n - j,
    {
        j += 1;
    }
    if j == n {
        proof {
            assert forall|t: int| 0 <= t < s3.len() implies s3[t] != '/' by {
                assert(s3[t] == url@[i3 + t]);
            }
            lemma_split_segment_none(s3);
        }
        return None;
    }
    proof {
        assert(url@[j as int] == '/');
        assert(s3[j - i3] == url@[j as int]);
        assert forall|t: int| 0 <= t < j - i3 implies s3[t] != '/' by {
            assert(s3[t] == url@[i3 + t]);
        }
        lemma_split_segment_at(s3, j - i3);
        assert(s3.take(j - i3) =~= url@.subrange(i3 as int, j as int));
        assert(s3.skip(j - i3 + 1) =~= url@.subrange(j + 1, n as int));
    }
    let ghost rt = s3.take(j - i3);
    let ghost rest = s3.skip(j - i3 + 1);
    if j == i3 {
        return None;
    }
    let vstart = j + 1;
    if vstart == n {
        return None;
    }
    proof {
        assert(rest.len() == n - vstart);
        assert(rest.last() == url@[n - 1]);
    }
    let vend = if url.get_char(n - 1) == '/' {
        n - 1
    } else {
        n
    };
    let ghost vt = if rest.last() == '/' {
        rest.drop_last()
    } else {
        rest
    };
    proof {
        assert(vt =~= url@.subrange(vstart as int, vend as int));
    }
    if vend == vstart {
        proof {
            assert(!is_token(vt));
        }
        return None;
    }
    let mut q = vstart;
    while q < vend && url.get_char(q) != '/'
        invariant
            vstart <= q <= vend,
            vend <= n,
            n == url@.len(),
            forall|t: int| vstart <= t < q ==> url@[t] != '/',
        decreases vend - q,
    {
        q += 1;
    }
    if q < vend {
        proof {
            assert(vt[q - vstart] == url@[q as int]);
            assert(!is_token(vt));
        }
        return None;
    }
    proof {
        assert forall|t: int| 0 <= t < vt.len() implies vt[t] != '/' by {
            assert(vt[t] == url@[vstart + t]);
        }
        assert(is_token(vt));
    }
    let rights_str = url.substring_char(i3, j);
    let version_str = url.substring_char(vstart, vend);
    proof {
        assert(rights_str@ == rt);
        assert(version_str@ == vt);
    }
    Some((rights_str, version_str))
}

} // verus!
