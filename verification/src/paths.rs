//! Byte-string paths and their order.
//!
//! Filesystem paths travel through this crate as plain byte strings.
//! This module gives them an equality test, a total lexicographic
//! order, prefix stripping, and the sorted, duplicate-free normal form
//! used for a snapshot's subdirectory list.

use vstd::prelude::*;

verus! {

/// Lexicographic order on byte strings, by byte value.
pub open spec fn bytes_le(a: Seq<u8>, b: Seq<u8>) -> bool
    decreases a.len(),
{
    if a.len() == 0 {
        true
    } else if b.len() == 0 {
        false
    } else if a.first() < b.first() {
        true
    } else if a.first() > b.first() {
        false
    } else {
        bytes_le(a.drop_first(), b.drop_first())
    }
}

/// The views of a sequence of byte-string values.
pub open spec fn path_views(v: Seq<Vec<u8>>) -> Seq<Seq<u8>> {
    v.map_values(|x: Vec<u8>| x@)
}

/// Sorted with no two elements equal.
pub open spec fn strictly_sorted(s: Seq<Seq<u8>>) -> bool {
    forall|i: int, j: int| #![trigger s[i], s[j]]
        0 <= i < j < s.len() ==> bytes_le(s[i], s[j]) && s[i] != s[j]
}

/// The order is reflexive.
pub proof fn lemma_bytes_le_refl(a: Seq<u8>)
    ensures
        bytes_le(a, a),
    decreases a.len(),
{
    if a.len() > 0 {
        lemma_bytes_le_refl(a.drop_first());
    }
}

/// Any two byte strings are comparable.
pub proof fn lemma_bytes_le_total(a: Seq<u8>, b: Seq<u8>)
    ensures
        bytes_le(a, b) || bytes_le(b, a),
    decreases a.len(),
{
    if a.len() > 0 && b.len() > 0 && a.first() == b.first() {
        lemma_bytes_le_total(a.drop_first(), b.drop_first());
    }
}

/// The order is antisymmetric.
pub proof fn lemma_bytes_le_antisym(a: Seq<u8>, b: Seq<u8>)
    requires
        bytes_le(a, b),
        bytes_le(b, a),
    ensures
        a == b,
    decreases a.len(),
{
    if a.len() == 0 {
        assert(b.len() == 0);
        assert(a =~= b);
    } else {
        assert(b.len() > 0);
        assert(a.first() == b.first());
        lemma_bytes_le_antisym(a.drop_first(), b.drop_first());
        assert(a.len() == b.len());
        assert forall|i: int| 0 <= i < a.len() implies a[i] == b[i] by {
            if i >= 1 {
                assert(a[i] == a.drop_first()[i - 1]);
                assert(b[i] == b.drop_first()[i - 1]);
            }
        }
        assert(a =~= b);
    }
}

/// The order is transitive.
pub proof fn lemma_bytes_le_trans(a: Seq<u8>, b: Seq<u8>, c: Seq<u8>)
    requires
        bytes_le(a, b),
        bytes_le(b, c),
    ensures
        bytes_le(a, c),
    decreases a.len(),
{
    if a.len() > 0 {
        assert(b.len() > 0);
        assert(c.len() > 0);
        if a.first() == b.first() && b.first() == c.first() {
            lemma_bytes_le_trans(a.drop_first(), b.drop_first(), c.drop_first());
        }
    }
}

/// Byte-string equality.
pub fn path_eq(a: &Vec<u8>, b: &Vec<u8>) -> (r: bool)
    ensures
        r == (a@ == b@),
{
    if a.len() != b.len() {
        proof {
            assert(a@ != b@);
        }
        return false;
    }
    let n = a.len();
    for i in 0..n
        invariant
            n == a@.len(),
            n == b@.len(),
            forall|j: int| 0 <= j < i ==> a@[j] == b@[j],
    {
        if a[i] != b[i] {
            proof {
                assert(a@ != b@);
            }
            return false;
        }
    }
    proof {
        assert(a@ =~= b@);
    }
    true
}

/// Byte-string comparison in the lexicographic order.
pub fn path_le(a: &Vec<u8>, b: &Vec<u8>) -> (r: bool)
    ensures
        r == bytes_le(a@, b@),
{
    let an = a.len();
    let bn = b.len();
    let mut i: usize = 0;
    proof {
        assert(a@.skip(0) =~= a@);
        assert(b@.skip(0) =~= b@);
    }
    while i < an && i < bn && a[i] == b[i]
        invariant
            0 <= i <= an,
            0 <= i <= bn,
            an == a@.len(),
            bn == b@.len(),
            bytes_le(a@, b@) == bytes_le(a@.skip(i as int), b@.skip(i as int)),
        decreases an - i,
    {
        proof {
            assert(a@.skip(i as int).first() == a@[i as int]);
            assert(b@.skip(i as int).first() == b@[i as int]);
            assert(a@.skip(i as int).drop_first() =~= a@.skip(i + 1));
            assert(b@.skip(i as int).drop_first() =~= b@.skip(i + 1));
        }
        i = i + 1;
    }
    if i == an {
        proof {
            assert(a@.skip(i as int).len() == 0);
        }
        true
    } else if i == bn {
        proof {
            assert(b@.skip(i as int).len() == 0);
            assert(a@.skip(i as int).len() > 0);
        }
        false
    } else {
        proof {
            assert(a@.skip(i as int).first() == a@[i as int]);
            assert(b@.skip(i as int).first() == b@[i as int]);
        }
        a[i] < b[i]
    }
}

/// A fresh copy of a byte string.
pub fn copy_path(p: &Vec<u8>) -> (r: Vec<u8>)
    ensures
        r@ == p@,
{
    let mut r: Vec<u8> = Vec::new();
    let n = p.len();
    for i in 0..n
        invariant
            n == p@.len(),
            r@ =~= p@.subrange(0, i as int),
    {
        r.push(p[i]);
    }
    proof {
        assert(p@.subrange(0, n as int) =~= p@);
    }
    r
}

/// Strictly below in the lexicographic order.
pub fn path_lt(a: &Vec<u8>, b: &Vec<u8>) -> (r: bool)
    ensures
        r == (bytes_le(a@, b@) && a@ != b@),
{
    let le = path_le(a, b);
    let eq = path_eq(a, b);
    le && !eq
}

/// Whether a list of byte strings holds the given one.
pub fn contains_path(v: &Vec<Vec<u8>>, p: &Vec<u8>) -> (r: bool)
    ensures
        r == path_views(v@).contains(p@),
{
    let n = v.len();
    for i in 0..n
        invariant
            n == v@.len(),
            forall|j: int| 0 <= j < i ==> path_views(v@)[j] != p@,
    {
        if path_eq(&v[i], p) {
            proof {
                assert(path_views(v@)[i as int] == p@);
            }
            return true;
        }
    }
    proof {
        assert(forall|j: int| 0 <= j < v@.len() ==> path_views(v@)[j] != p@);
    }
    false
}

/// Whether `pre` is a byte-for-byte prefix of `s`.
pub open spec fn is_prefix(pre: Seq<u8>, s: Seq<u8>) -> bool {
    pre.len() <= s.len() && s.subrange(0, pre.len() as int) == pre
}

/// Strip a leading prefix from a path, as done when handing the
/// version-control tool paths relative to the watched directory.
pub fn strip_prefix(p: &Vec<u8>, pre: &Vec<u8>) -> (r: Option<Vec<u8>>)
    ensures
        r is Some <==> is_prefix(pre@, p@),
        r is Some ==> r->0@ == p@.skip(pre@.len() as int),
{
    let pn = pre.len();
    if pn > p.len() {
        proof {
            assert(!is_prefix(pre@, p@));
        }
        return None;
    }
    for i in 0..pn
        invariant
            pn == pre@.len(),
            pn <= p@.len(),
            forall|j: int| 0 <= j < i ==> p@[j] == pre@[j],
    {
        if p[i] != pre[i] {
            proof {
                assert(p@.subrange(0, pre@.len() as int)[i as int] != pre@[i as int]);
            }
            return None;
        }
    }
    proof {
        assert(p@.subrange(0, pre@.len() as int) =~= pre@);
    }
    let mut out: Vec<u8> = Vec::new();
    let n = p.len();
    let mut i: usize = pn;
    while i < n
        invariant
            pn <= i <= n,
            n == p@.len(),
            out@ =~= p@.subrange(pn as int, i as int),
        decreases n - i,
    {
        out.push(p[i]);
        i = i + 1;
    }
    proof {
        assert(out@ =~= p@.skip(pn as int));
    }
    Some(out)
}

/// Sort a list of byte strings and drop duplicates.  The result is the
/// unique strictly sorted list with the same members.
pub fn sort_dedup(v: Vec<Vec<u8>>) -> (r: Vec<Vec<u8>>)
    ensures
        strictly_sorted(path_views(r@)),
        forall|p: Seq<u8>|
            #[trigger] path_views(r@).contains(p) <==> path_views(v@).contains(p),
{
    let ghost v0 = v@;
    let mut src = v;
    let mut out: Vec<Vec<u8>> = Vec::new();
    proof {
        assert(src@ =~= v0.subrange(0, src@.len() as int));
        assert(path_views(v0.skip(src@.len() as int)) =~= Seq::<Seq<u8>>::empty());
    }
    while src.len() > 0
        invariant
            src@.len() <= v0.len(),
            src@ =~= v0.subrange(0, src@.len() as int),
            strictly_sorted(path_views(out@)),
            forall|p: Seq<u8>|
                #[trigger] path_views(out@).contains(p) <==> path_views(
                    v0.skip(src@.len() as int),
                ).contains(p),
        decreases src@.len(),
    {
        let ghost prev_rest = v0.skip(src@.len() as int);
        let x = src.pop().unwrap();
        let ghost rest = v0.skip(src@.len() as int);
        proof {
            assert(x == v0[src@.len() as int]);
            assert(rest =~= seq![x].add(prev_rest));
            assert(forall|p: Seq<u8>|
                #[trigger] path_views(rest).contains(p) <==> (p == x@ || path_views(
                    prev_rest,
                ).contains(p))) by {
                assert forall|p: Seq<u8>| #[trigger] path_views(rest).contains(p) implies (p == x@
                    || path_views(prev_rest).contains(p)) by {
                    let k = choose|k: int|
                        0 <= k < path_views(rest).len() && path_views(rest)[k] == p;
                    if k > 0 {
                        assert(path_views(prev_rest)[k - 1] == p);
                    }
                }
                assert forall|p: Seq<u8>| (p == x@ || path_views(prev_rest).contains(p)) implies #[trigger] path_views(
                    rest,
                ).contains(p) by {
                    if p == x@ {
                        assert(path_views(rest)[0] == p);
                    } else {
                        let k = choose|k: int|
                            0 <= k < path_views(prev_rest).len() && path_views(prev_rest)[k] == p;
                        assert(path_views(rest)[k + 1] == p);
                    }
                }
            }
        }
        insert_sorted(&mut out, x);
    }
    proof {
        assert(v0.skip(0) =~= v0);
    }
    out
}

/// Insert a byte string into a strictly sorted list, keeping it strictly
/// sorted; an element already present is not inserted again.
fn insert_sorted(out: &mut Vec<Vec<u8>>, x: Vec<u8>)
    requires
        strictly_sorted(path_views(old(out)@)),
    ensures
        strictly_sorted(path_views(final(out)@)),
        forall|p: Seq<u8>|
            #[trigger] path_views(final(out)@).contains(p) <==> (p == x@ || path_views(
                old(out)@,
            ).contains(p)),
{
    let ghost orig = out@;
    let mut j: usize = 0;
    while j < out.len() && path_lt(&out[j], &x)
        invariant
            out@ == orig,
            strictly_sorted(path_views(out@)),
            0 <= j <= out@.len(),
            forall|k: int|
                0 <= k < j ==> bytes_le(#[trigger] path_views(out@)[k], x@) && path_views(out@)[k]
                    != x@,
        decreases out@.len() - j,
    {
        j = j + 1;
    }
    if j < out.len() && path_eq(&out[j], &x) {
        // already present: the member set is unchanged
        proof {
            assert(path_views(out@)[j as int] == x@);
        }
    } else {
        let ghost pre = out@;
        let ghost xv = x@;
        proof {
            let ov = path_views(pre);
            // x comes strictly before every element from position j on
            if j < out@.len() {
                lemma_bytes_le_total(ov[j as int], xv);
                if ov[j as int] == xv {
                    lemma_bytes_le_refl(xv);
                    assert(false);
                }
            }
            assert forall|k: int| j <= k < ov.len() implies bytes_le(xv, #[trigger] ov[k]) && xv
                != ov[k] by {
                if k > j {
                    lemma_bytes_le_trans(xv, ov[j as int], ov[k]);
                    if xv == ov[k] {
                        lemma_bytes_le_antisym(xv, ov[j as int]);
                        assert(false);
                    }
                }
            }
            assert(forall|k: int|
                0 <= k < j ==> bytes_le(#[trigger] ov[k], xv) && ov[k] != xv);
        }
        out.insert(j, x);
        proof {
            let nv = path_views(out@);
            let ov = path_views(pre);
            assert(out@ =~= pre.insert(j as int, x));
            assert(forall|k: int| 0 <= k < j ==> nv[k] == ov[k]);
            assert(nv[j as int] == xv);
            assert(forall|k: int| j < k < nv.len() ==> nv[k] == ov[k - 1]);
            assert forall|a: int, b: int| #![trigger nv[a], nv[b]]
                0 <= a < b < nv.len() implies bytes_le(nv[a], nv[b]) && nv[a] != nv[b] by {
                if b < j {
                    assert(bytes_le(ov[a], ov[b]) && ov[a] != ov[b]);
                } else if a > j {
                    assert(bytes_le(ov[a - 1], ov[b - 1]) && ov[a - 1] != ov[b - 1]);
                } else if a < j && b == j {
                    assert(bytes_le(ov[a], xv) && ov[a] != xv);
                } else if a == j {
                    assert(bytes_le(xv, ov[b - 1]) && xv != ov[b - 1]);
                } else {
                    // a < j < b: go through x in the middle
                    assert(bytes_le(ov[a], xv));
                    assert(bytes_le(xv, ov[b - 1]));
                    lemma_bytes_le_trans(ov[a], xv, ov[b - 1]);
                    assert(a < b - 1);
                    assert(bytes_le(ov[a], ov[b - 1]) && ov[a] != ov[b - 1]);
                }
            }
            assert forall|p: Seq<u8>| #[trigger] nv.contains(p) implies (p == x@ || ov.contains(
                p,
            )) by {
                let k = choose|k: int| 0 <= k < nv.len() && nv[k] == p;
                if k < j {
                    assert(ov[k] == p);
                } else if k > j {
                    assert(ov[k - 1] == p);
                }
            }
            assert forall|p: Seq<u8>| (p == x@ || ov.contains(p)) implies #[trigger] nv.contains(
                p,
            ) by {
                if p == x@ {
                    assert(nv[j as int] == p);
                } else {
                    let k = choose|k: int| 0 <= k < ov.len() && ov[k] == p;
                    if k < j {
                        assert(nv[k] == p);
                    } else {
                        assert(nv[k + 1] == p);
                    }
                }
            }
        }
    }
}

} // verus!
