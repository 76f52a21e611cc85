//! Relative paths over segment lists: relativization, resolution, and the
//! round trip between them that linker shims rely on: resolving a
//! computed require path from the shim's own directory lands exactly on
//! the target file.

use vstd::prelude::*;

verus! {

/// The segments of a list of strings.
pub open spec fn segs_view(v: Seq<String>) -> Seq<Seq<char>> {
    v.map_values(|s: String| s@)
}

/// A normalized absolute path: non-empty segments, none of them `.` or
/// `..`.
pub open spec fn valid_abs_path(p: Seq<Seq<char>>) -> bool {
    forall|i: int| 0 <= i < p.len()
        ==> (#[trigger] p[i]).len() > 0 && p[i] != "."@ && p[i] != ".."@
}

/// The length of the longest common prefix of two paths.
pub open spec fn common_len(a: Seq<Seq<char>>, b: Seq<Seq<char>>) -> int
    decreases a.len(),
{
    if a.len() == 0 || b.len() == 0 || a[0] != b[0] {
        0
    } else {
        1 + common_len(a.skip(1), b.skip(1))
    }
}

/// `..` repeated `n` times.
pub open spec fn updots(n: int) -> Seq<Seq<char>>
    decreases n,
{
    if n <= 0 {
        Seq::empty()
    } else {
        seq![".."@] + updots(n - 1)
    }
}

/// The relative path from the directory `base` to `target`: climb out of
/// the uncommon part of `base`, then descend into the uncommon part of
/// `target`.
pub open spec fn spec_relativize(base: Seq<Seq<char>>, target: Seq<Seq<char>>) -> Seq<Seq<char>> {
    let k = common_len(base, target);
    updots(base.len() - k) + target.skip(k)
}

/// Resolves a relative path against the directory `base`: `..` climbs one
/// level (failing at the root), any other segment descends.
pub open spec fn spec_resolve(base: Seq<Seq<char>>, rel: Seq<Seq<char>>) -> Option<Seq<Seq<char>>>
    decreases rel.len(),
{
    if rel.len() == 0 {
        Some(base)
    } else if rel[0] == ".."@ {
        if base.len() == 0 {
            None
        } else {
            spec_resolve(base.take(base.len() - 1), rel.skip(1))
        }
    } else {
        spec_resolve(base.push(rel[0]), rel.skip(1))
    }
}

/// The common prefix really is a prefix of both paths.
proof fn lemma_common_prefix(a: Seq<Seq<char>>, b: Seq<Seq<char>>)
    ensures
        0 <= common_len(a, b) <= a.len(),
        common_len(a, b) <= b.len(),
        a.take(common_len(a, b)) =~= b.take(common_len(a, b)),
    decreases a.len(),
{
    if a.len() == 0 || b.len() == 0 || a[0] != b[0] {
    } else {
        lemma_common_prefix(a.skip(1), b.skip(1));
        let k = common_len(a, b);
        assert(a.skip(1).take(k - 1) =~= a.take(k).skip(1));
        assert(b.skip(1).take(k - 1) =~= b.take(k).skip(1));
        assert forall|i: int| 0 <= i < k implies a.take(k)[i] == b.take(k)[i] by {
            if i > 0 {
                assert(a.take(k).skip(1)[i - 1] == a.take(k)[i]);
                assert(b.take(k).skip(1)[i - 1] == b.take(k)[i]);
            }
        }
        assert(a.take(k) =~= b.take(k));
    }
}

/// Leading `..` segments pop the base, one level each.
proof fn lemma_resolve_updots(base: Seq<Seq<char>>, m: int, rest: Seq<Seq<char>>)
    requires
        0 <= m <= base.len(),
    ensures
        spec_resolve(base, updots(m) + rest) == spec_resolve(base.take(base.len() - m), rest),
    decreases m,
{
    if m == 0 {
        assert(updots(0) + rest =~= rest);
        assert(base.take(base.len() as int) =~= base);
    } else {
        let rel = updots(m) + rest;
        assert(rel[0] == ".."@);
        assert(rel.skip(1) =~= updots(m - 1) + rest);
        lemma_resolve_updots(base.take(base.len() - 1), m - 1, rest);
        assert(base.take(base.len() - 1).take(base.len() - m) =~= base.take(base.len() - m));
        assert(base.take(base.len() - 1).len() == base.len() - 1);
    }
}

/// Descending segments extend the base, one level each.
proof fn lemma_resolve_pushes(base: Seq<Seq<char>>, segs: Seq<Seq<char>>)
    requires
        valid_abs_path(segs),
    ensures
        spec_resolve(base, segs) == Some(base + segs),
    decreases segs.len(),
{
    if segs.len() == 0 {
        assert(base + segs =~= base);
    } else {
        assert(segs[0] != ".."@);
        assert(valid_abs_path(segs.skip(1)));
        lemma_resolve_pushes(base.push(segs[0]), segs.skip(1));
        assert(base.push(segs[0]) + segs.skip(1) =~= base + segs);
    }
}

/// The round trip: resolving the relative path from `base` to `target`
/// against `base` lands exactly on `target`.
pub proof fn lemma_relativize_resolve(base: Seq<Seq<char>>, target: Seq<Seq<char>>)
    requires
        valid_abs_path(target),
    ensures
        spec_resolve(base, spec_relativize(base, target)) == Some(target),
{
    let k = common_len(base, target);
    lemma_common_prefix(base, target);
    lemma_resolve_updots(base, base.len() - k, target.skip(k));
    assert(valid_abs_path(target.skip(k)));
    lemma_resolve_pushes(base.take(k), target.skip(k));
    assert(base.take(base.len() - (base.len() - k)) =~= base.take(k));
    assert(base.take(k) =~= target.take(k));
    assert(target.take(k) + target.skip(k) =~= target);
}

/// The length of the longest common prefix, computed.
fn common_prefix_len(base: &Vec<String>, target: &Vec<String>) -> (k: usize)
    ensures
        k as int == common_len(segs_view(base@), segs_view(target@)),
{
    let ghost bv = segs_view(base@);
    let ghost tv = segs_view(target@);
    let mut k: usize = 0;
    proof {
        assert(bv.skip(0) =~= bv);
        assert(tv.skip(0) =~= tv);
    }
    loop
        invariant
            bv == segs_view(base@),
            tv == segs_view(target@),
            bv.len() == base@.len(),
            tv.len() == target@.len(),
            k <= bv.len(),
            k <= tv.len(),
            common_len(bv, tv) == k + common_len(bv.skip(k as int), tv.skip(k as int)),
        decreases bv.len() - k,
    {
        if k >= base.len() || k >= target.len() {
            proof {
                assert(bv.skip(k as int).len() == 0 || tv.skip(k as int).len() == 0);
            }
            return k;
        }
        proof {
            assert(bv.skip(k as int)[0] == bv[k as int]);
            assert(tv.skip(k as int)[0] == tv[k as int]);
            assert(bv[k as int] == base@[k as int]@);
            assert(tv[k as int] == target@[k as int]@);
        }
        if !crate::strutil::str_eq(base[k].as_str(), target[k].as_str()) {
            proof {
                assert(common_len(bv.skip(k as int), tv.skip(k as int)) == 0);
            }
            return k;
        }
        proof {
            assert(bv.skip(k as int).skip(1) =~= bv.skip(k as int + 1));
            assert(tv.skip(k as int).skip(1) =~= tv.skip(k as int + 1));
        }
        k += 1;
    }
}

/// Lengths and elements of `updots`.
proof fn lemma_updots_props(n: int)
    requires
        n >= 0,
    ensures
        updots(n).len() == n,
        forall|j: int| 0 <= j < n ==> updots(n)[j] == ".."@,
    decreases n,
{
    if n > 0 {
        lemma_updots_props(n - 1);
        assert forall|j: int| 0 <= j < n implies updots(n)[j] == ".."@ by {
            if j > 0 {
                assert(updots(n)[j] == updots(n - 1)[j - 1]);
            }
        }
    }
}

/// Computes the relative path from the directory `base` to `target`.
pub fn relativize(base: &Vec<String>, target: &Vec<String>) -> (r: Vec<String>)
    ensures
        segs_view(r@) == spec_relativize(segs_view(base@), segs_view(target@)),
{
    let ghost bv = segs_view(base@);
    let ghost tv = segs_view(target@);
    let k = common_prefix_len(base, target);
    proof {
        lemma_common_prefix(bv, tv);
    }
    let mut out: Vec<String> = Vec::new();
    let up: usize = base.len() - k;
    let mut u: usize = 0;
    while u < up
        invariant
            u <= up,
            out@.len() == u,
            forall|j: int| 0 <= j < u ==> (#[trigger] out@[j])@ == ".."@,
        decreases up - u,
    {
        out.push(String::from_str(".."));
        proof {
            reveal_strlit("..");
        }
        u += 1;
    }
    let mut t: usize = k;
    while t < target.len()
        invariant
            tv == segs_view(target@),
            tv.len() == target@.len(),
            k <= t <= tv.len(),
            out@.len() == up + t - k,
            forall|j: int| 0 <= j < up ==> (#[trigger] out@[j])@ == ".."@,
            forall|j: int| up <= j < out@.len()
                ==> (#[trigger] out@[j])@ == target@[k + j - up]@,
        decreases tv.len() - t,
    {
        out.push(target[t].clone());
        t += 1;
    }
    proof {
        lemma_updots_props(up as int);
        let rhs = spec_relativize(bv, tv);
        assert(rhs.len() == up + tv.len() - k);
        assert forall|j: int| 0 <= j < out@.len()
            implies segs_view(out@)[j] == rhs[j] by {
            assert(segs_view(out@)[j] == out@[j]@);
            if j < up {
                assert(rhs[j] == updots(up as int)[j]);
            } else {
                assert(rhs[j] == tv.skip(k as int)[j - up]);
                assert(tv.skip(k as int)[j - up] == tv[k + j - up]);
                assert(tv[k + j - up] == target@[k + j - up]@);
            }
        }
        assert(segs_view(out@) =~~= rhs);
    }
    out
}

/// Resolves a relative path against the directory `base`.
pub fn resolve(base: &Vec<String>, rel: &Vec<String>) -> (r: Option<Vec<String>>)
    ensures
        match r {
            Some(p) => spec_resolve(segs_view(base@), segs_view(rel@)) == Some(segs_view(p@)),
            None => spec_resolve(segs_view(base@), segs_view(rel@)) is None,
        },
{
    let ghost bv = segs_view(base@);
    let ghost rv = segs_view(rel@);
    let mut stack: Vec<String> = Vec::new();
    let mut i: usize = 0;
    while i < base.len()
        invariant
            i <= base@.len(),
            stack@.len() == i,
            forall|j: int| 0 <= j < i ==> (#[trigger] stack@[j])@ == base@[j]@,
        decreases base@.len() - i,
    {
        stack.push(base[i].clone());
        i += 1;
    }
    proof {
        assert forall|j: int| 0 <= j < stack@.len()
            implies segs_view(stack@)[j] == bv[j] by {
            assert(segs_view(stack@)[j] == stack@[j]@);
            assert(bv[j] == base@[j]@);
        }
        assert(segs_view(stack@) =~~= bv);
        assert(rv.skip(0) =~= rv);
    }
    let mut i: usize = 0;
    while i < rel.len()
        invariant
            bv == segs_view(base@),
            rv == segs_view(rel@),
            rv.len() == rel@.len(),
            i <= rel@.len(),
            spec_resolve(bv, rv) == spec_resolve(segs_view(stack@), rv.skip(i as int)),
        decreases rel@.len() - i,
    {
        let ghost s0 = segs_view(stack@);
        proof {
            assert(rv.skip(i as int)[0] == rv[i as int]);
            assert(rv[i as int] == rel@[i as int]@);
            assert(rv.skip(i as int).skip(1) =~= rv.skip(i as int + 1));
        }
        if crate::strutil::str_eq(rel[i].as_str(), "..") {
            proof {
                reveal_strlit("..");
            }
            if stack.len() == 0 {
                proof {
                    assert(s0.len() == stack@.len());
                    assert(spec_resolve(s0, rv.skip(i as int)) is None);
                }
                return None;
            }
            let ghost st0 = stack@;
            stack.pop();
            proof {
                assert(stack@ =~= st0.take(st0.len() - 1));
                assert forall|j: int| 0 <= j < stack@.len()
                    implies segs_view(stack@)[j] == s0.take(s0.len() - 1)[j] by {
                    assert(segs_view(stack@)[j] == stack@[j]@);
                    assert(stack@[j] == st0[j]);
                    assert(s0[j] == st0[j]@);
                }
                assert(s0.len() == st0.len());
                assert(segs_view(stack@) =~~= s0.take(s0.len() - 1));
            }
        } else {
            proof {
                reveal_strlit("..");
            }
            let ghost st0 = stack@;
            stack.push(rel[i].clone());
            proof {
                assert forall|j: int| 0 <= j < stack@.len()
                    implies segs_view(stack@)[j] == s0.push(rv[i as int])[j] by {
                    assert(segs_view(stack@)[j] == stack@[j]@);
                    if j < st0.len() {
                        assert(stack@[j] == st0[j]);
                        assert(s0[j] == st0[j]@);
                    }
                }
                assert(s0.len() == st0.len());
                assert(segs_view(stack@) =~~= s0.push(rv[i as int]));
            }
        }
        i += 1;
    }
    proof {
        assert(rv.skip(rv.len() as int) =~= Seq::<Seq<char>>::empty());
    }
    Some(stack)
}

/// Renders a relative path for a `require` string: `./a/b` when the path
/// descends immediately, `../a/b` style otherwise.
pub open spec fn spec_render_rel(rel: Seq<Seq<char>>) -> Seq<char> {
    if rel.len() == 0 {
        "."@
    } else if rel[0] == ".."@ {
        crate::version::spec_join(rel, '/')
    } else {
        "./"@ + crate::version::spec_join(rel, '/')
    }
}

/// Joins path segments with `/`.
pub fn join_segments(v: &Vec<String>) -> (r: String)
    ensures
        r@ == crate::version::spec_join(segs_view(v@), '/'),
{
    let ghost l = segs_view(v@);
    let mut out = String::new();
    let mut i: usize = 0;
    while i < v.len()
        invariant
            l == segs_view(v@),
            l.len() == v@.len(),
            i <= v@.len(),
            out@ == crate::version::spec_join(l.take(i as int), '/'),
        decreases v@.len() - i,
    {
        if i > 0 {
            out.append("/");
            proof {
                reveal_strlit("/");
            }
        }
        out.append(v[i].as_str());
        proof {
            if i == 0 {
                assert(l.take(1).len() == 1);
                assert(l.take(1)[0] == l[0]);
                assert(out@ =~= crate::version::spec_join(l.take(1), '/'));
            } else {
                crate::version::lemma_spec_join_last(l.take(i as int + 1), '/');
                assert(l.take(i as int + 1).take(i as int) =~= l.take(i as int));
                assert(l.take(i as int + 1).last() == l[i as int]);
                assert(out@ =~= crate::version::spec_join(l.take(i as int + 1), '/'));
            }
        }
        i += 1;
    }
    proof {
        assert(l.take(l.len() as int) =~= l);
    }
    out
}

/// Renders a relative path for a `require` string.
pub fn render_rel(rel: &Vec<String>) -> (r: String)
    ensures
        r@ == spec_render_rel(segs_view(rel@)),
{
    proof {
        reveal_strlit(".");
        reveal_strlit("..");
        reveal_strlit("./");
    }
    if rel.len() == 0 {
        return String::from_str(".");
    }
    let joined = join_segments(rel);
    if crate::strutil::str_eq(rel[0].as_str(), "..") {
        proof {
            assert(segs_view(rel@)[0] == rel@[0]@);
        }
        joined
    } else {
        let mut out = String::from_str("./");
        out.append(joined.as_str());
        proof {
            assert(segs_view(rel@)[0] == rel@[0]@);
            assert(out@ =~= "./"@ + crate::version::spec_join(segs_view(rel@), '/'));
        }
        out
    }
}

} // verus!
