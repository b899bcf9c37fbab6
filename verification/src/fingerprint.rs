//! State fingerprints.
//!
//! A fingerprint pairs every path of a snapshot — root, subdirectories,
//! or files — with its last-modified time.  Two fingerprints taken at
//! different moments are compared to decide whether anything changed
//! and which paths changed.
//!
//! A time that could not be read is recorded as [`Mtime::Unknown`], and
//! an unknown time never agrees with anything, itself included: a
//! transient read failure reliably surfaces as a change instead of
//! silently matching stale data.

use crate::paths::{contains_path, copy_path, path_eq, path_views};
use vstd::prelude::*;

verus! {

/// A last-modified time as a fingerprint records it.
#[derive(Clone, Copy, Debug, PartialEq, Eq, Structural)]
pub enum Mtime {
    /// Seconds since some fixed epoch, as the platform reports it.
    Known(u64),
    /// The metadata could not be read when the fingerprint was taken.
    Unknown,
}

/// Whether two recorded times certainly agree.  Unknown agrees with
/// nothing, itself included.
pub open spec fn mtime_same(a: Mtime, b: Mtime) -> bool {
    match (a, b) {
        (Mtime::Known(x), Mtime::Known(y)) => x == y,
        _ => false,
    }
}

/// Whether two recorded times certainly agree.
pub fn mtime_agrees(a: Mtime, b: Mtime) -> (r: bool)
    ensures
        r == mtime_same(a, b),
{
    match (a, b) {
        (Mtime::Known(x), Mtime::Known(y)) => x == y,
        _ => false,
    }
}

/// One fingerprint entry: a path and its recorded time.
pub struct FpEntry {
    pub path: Vec<u8>,
    pub mtime: Mtime,
}

/// A state fingerprint: each path of a snapshot paired with its
/// last-modified time, in snapshot order.
pub struct Fingerprint {
    pub entries: Vec<FpEntry>,
}

impl View for Fingerprint {
    type V = Seq<(Seq<u8>, Mtime)>;

    open spec fn view(&self) -> Seq<(Seq<u8>, Mtime)> {
        self.entries@.map_values(|e: FpEntry| (e.path@, e.mtime))
    }
}

/// The fingerprint of the given paths under the given times.
pub open spec fn fp_of(paths: Seq<Seq<u8>>, times: Seq<Mtime>) -> Seq<(Seq<u8>, Mtime)> {
    Seq::new(paths.len(), |i: int| (paths[i], times[i]))
}

/// Pair each path with its observed time.  The times come in the same
/// order as the paths.
pub fn fingerprint(paths: &Vec<Vec<u8>>, times: &Vec<Mtime>) -> (r: Fingerprint)
    requires
        paths@.len() == times@.len(),
    ensures
        r@ == fp_of(path_views(paths@), times@),
{
    let mut entries: Vec<FpEntry> = Vec::new();
    let n = paths.len();
    for i in 0..n
        invariant
            n == paths@.len(),
            n == times@.len(),
            entries@.len() == i,
            forall|k: int|
                0 <= k < i ==> (#[trigger] entries@[k]).path@ == paths@[k]@ && entries@[k].mtime
                    == times@[k],
    {
        entries.push(FpEntry { path: copy_path(&paths[i]), mtime: times[i] });
    }
    let r = Fingerprint { entries };
    proof {
        assert(r@ =~= fp_of(path_views(paths@), times@));
    }
    r
}

/// Whether two fingerprints certainly agree: the same paths in the same
/// order, every time known and equal.
pub open spec fn fp_same(a: Seq<(Seq<u8>, Mtime)>, b: Seq<(Seq<u8>, Mtime)>) -> bool {
    a.len() == b.len() && forall|i: int| #![trigger a[i], b[i]]
        0 <= i < a.len() ==> a[i].0 == b[i].0 && mtime_same(a[i].1, b[i].1)
}

/// Whether two fingerprints are the same record, byte for byte.  Unlike
/// [`fp_same`], two unknown times count as the same record here: this
/// is the stability test of the settle phase, not a change test.
pub open spec fn fp_identical(a: Seq<(Seq<u8>, Mtime)>, b: Seq<(Seq<u8>, Mtime)>) -> bool {
    a == b
}

/// Change test: do the two fingerprints certainly agree?
pub fn fingerprints_agree(a: &Fingerprint, b: &Fingerprint) -> (r: bool)
    ensures
        r == fp_same(a@, b@),
{
    if a.entries.len() != b.entries.len() {
        return false;
    }
    let n = a.entries.len();
    for i in 0..n
        invariant
            n == a@.len(),
            n == b@.len(),
            n == a.entries@.len(),
            n == b.entries@.len(),
            forall|k: int| #![trigger a@[k], b@[k]]
                0 <= k < i ==> a@[k].0 == b@[k].0 && mtime_same(a@[k].1, b@[k].1),
    {
        let pe = path_eq(&a.entries[i].path, &b.entries[i].path);
        let te = mtime_agrees(a.entries[i].mtime, b.entries[i].mtime);
        if !pe || !te {
            proof {
                assert(!(a@[i as int].0 == b@[i as int].0 && mtime_same(
                    a@[i as int].1,
                    b@[i as int].1,
                )));
            }
            return false;
        }
    }
    true
}

/// Stability test: are the two fingerprints the same record, byte for
/// byte?
pub fn fingerprints_identical(a: &Fingerprint, b: &Fingerprint) -> (r: bool)
    ensures
        r == fp_identical(a@, b@),
{
    if a.entries.len() != b.entries.len() {
        proof {
            assert(a@.len() != b@.len());
        }
        return false;
    }
    let n = a.entries.len();
    for i in 0..n
        invariant
            n == a@.len(),
            n == b@.len(),
            n == a.entries@.len(),
            n == b.entries@.len(),
            forall|k: int| #![trigger a@[k]] 0 <= k < i ==> a@[k] == b@[k],
    {
        let pe = path_eq(&a.entries[i].path, &b.entries[i].path);
        let te = match (a.entries[i].mtime, b.entries[i].mtime) {
            (Mtime::Known(x), Mtime::Known(y)) => x == y,
            (Mtime::Unknown, Mtime::Unknown) => true,
            _ => false,
        };
        if !pe || !te {
            proof {
                assert(a@[i as int] != b@[i as int]);
            }
            return false;
        }
        proof {
            assert(a@[i as int] == b@[i as int]);
        }
    }
    proof {
        assert(a@ =~= b@);
    }
    true
}

/// Whether the fingerprint lists this path.
pub open spec fn fp_has(fp: Seq<(Seq<u8>, Mtime)>, p: Seq<u8>) -> bool {
    exists|i: int| 0 <= i < fp.len() && (#[trigger] fp[i]).0 == p
}

/// The time recorded for this path, at its first occurrence.
pub open spec fn fp_time(fp: Seq<(Seq<u8>, Mtime)>, p: Seq<u8>) -> Mtime
    decreases fp.len(),
{
    if fp.len() == 0 {
        Mtime::Unknown
    } else if fp.first().0 == p {
        fp.first().1
    } else {
        fp_time(fp.drop_first(), p)
    }
}

/// Look a path up in a fingerprint: its first recorded time, if any.
pub fn fp_find(fp: &Fingerprint, p: &Vec<u8>) -> (r: Option<Mtime>)
    ensures
        r is Some <==> fp_has(fp@, p@),
        r is Some ==> r->0 == fp_time(fp@, p@),
{
    let n = fp.entries.len();
    proof {
        assert(fp@.skip(0) =~= fp@);
    }
    let mut i: usize = 0;
    while i < n
        invariant
            0 <= i <= n,
            n == fp@.len(),
            n == fp.entries@.len(),
            forall|k: int| 0 <= k < i ==> (#[trigger] fp@[k]).0 != p@,
            fp_time(fp@, p@) == fp_time(fp@.skip(i as int), p@),
        decreases n - i,
    {
        if path_eq(&fp.entries[i].path, p) {
            proof {
                assert((fp@[i as int]).0 == p@);
                assert(fp@.skip(i as int).first() == fp@[i as int]);
            }
            return Some(fp.entries[i].mtime);
        }
        proof {
            assert(fp@.skip(i as int).first() == fp@[i as int]);
            assert(fp@.skip(i as int).drop_first() =~= fp@.skip(i + 1));
        }
        i = i + 1;
    }
    proof {
        assert(forall|k: int| 0 <= k < fp@.len() ==> (#[trigger] fp@[k]).0 != p@);
    }
    None
}

/// Whether a path counts as changed between two fingerprints: it is
/// listed on either side, and it is not the case that both sides list
/// it with times that certainly agree.  A path listed on only one side
/// is changed; so is one whose time is unknown on either side.
pub open spec fn changed_at(
    before: Seq<(Seq<u8>, Mtime)>,
    after: Seq<(Seq<u8>, Mtime)>,
    p: Seq<u8>,
) -> bool {
    (fp_has(before, p) || fp_has(after, p)) && !(fp_has(before, p) && fp_has(after, p)
        && mtime_same(fp_time(before, p), fp_time(after, p)))
}

/// The set of paths that changed between two fingerprints: the
/// symmetric difference by path, together with the paths both sides
/// list whose times do not certainly agree.
pub fn changed_paths(before: &Fingerprint, after: &Fingerprint) -> (r: Vec<Vec<u8>>)
    ensures
        forall|p: Seq<u8>|
            #[trigger] path_views(r@).contains(p) <==> changed_at(before@, after@, p),
{
    let mut out: Vec<Vec<u8>> = Vec::new();
    let n = after.entries.len();
    for i in 0..n
        invariant
            n == after@.len(),
            n == after.entries@.len(),
            forall|p: Seq<u8>|
                #[trigger] path_views(out@).contains(p) <==> (fp_has(after@.subrange(0, i as int), p)
                    && changed_at(before@, after@, p)),
    {
        let ghost prev_out = out@;
        let p = &after.entries[i].path;
        proof {
            assert(after@[i as int].0 == p@);
        }
        let t_new = match fp_find(after, p) {
            Some(t) => t,
            None => {
                proof {
                    assert(fp_has(after@, p@));
                    assert(false);
                }
                Mtime::Unknown
            },
        };
        let is_changed = match fp_find(before, p) {
            Some(t_old) => !mtime_agrees(t_old, t_new),
            None => true,
        };
        if is_changed && !contains_path(&out, p) {
            out.push(copy_path(p));
            proof {
                assert(path_views(out@) =~= path_views(prev_out).push(p@));
                assert forall|q: Seq<u8>| #[trigger] path_views(out@).contains(q) implies (q == p@
                    || path_views(prev_out).contains(q)) by {
                    let k = choose|k: int|
                        0 <= k < path_views(out@).len() && path_views(out@)[k] == q;
                    if k < path_views(prev_out).len() {
                        assert(path_views(prev_out)[k] == q);
                    }
                }
                assert(path_views(out@).contains(p@)) by {
                    assert(path_views(out@)[path_views(out@).len() - 1] == p@);
                }
                assert forall|q: Seq<u8>|
                    path_views(prev_out).contains(q) implies #[trigger] path_views(out@).contains(
                    q,
                ) by {
                    let k = choose|k: int|
                        0 <= k < path_views(prev_out).len() && path_views(prev_out)[k] == q;
                    assert(path_views(out@)[k] == q);
                }
            }
        }
        proof {
            assert forall|q: Seq<u8>| #[trigger] path_views(out@).contains(q) implies (fp_has(
                after@.subrange(0, i + 1),
                q,
            ) && changed_at(before@, after@, q)) by {
                if path_views(prev_out).contains(q) {
                    assert(fp_has(after@.subrange(0, i as int), q));
                    let k = choose|k: int|
                        0 <= k < i && (#[trigger] after@.subrange(0, i as int)[k]).0 == q;
                    assert((after@.subrange(0, i + 1)[k]).0 == q);
                } else {
                    assert(q == p@);
                    assert((after@.subrange(0, i + 1)[i as int]).0 == q);
                }
            }
            assert forall|q: Seq<u8>| (fp_has(after@.subrange(0, i + 1), q) && changed_at(
                before@,
                after@,
                q,
            )) implies #[trigger] path_views(out@).contains(q) by {
                let k = choose|k: int|
                    0 <= k <= i && (#[trigger] after@.subrange(0, i + 1)[k]).0 == q;
                if k < i {
                    assert((after@.subrange(0, i as int)[k]).0 == q);
                    assert(path_views(prev_out).contains(q));
                } else {
                    assert(q == p@);
                }
            }
        }
    }
    let n2 = before.entries.len();
    proof {
        assert(after@.subrange(0, after@.len() as int) =~= after@);
    }
    for j in 0..n2
        invariant
            n2 == before@.len(),
            n2 == before.entries@.len(),
            forall|p: Seq<u8>|
                #[trigger] path_views(out@).contains(p) <==> ((fp_has(after@, p) && changed_at(
                    before@,
                    after@,
                    p,
                )) || (fp_has(before@.subrange(0, j as int), p) && !fp_has(after@, p))),
    {
        let ghost prev_out = out@;
        let p = &before.entries[j].path;
        proof {
            assert(before@[j as int].0 == p@);
        }
        let missing = match fp_find(after, p) {
            Some(_) => false,
            None => true,
        };
        if missing && !contains_path(&out, p) {
            out.push(copy_path(p));
            proof {
                assert(path_views(out@) =~= path_views(prev_out).push(p@));
                assert forall|q: Seq<u8>| #[trigger] path_views(out@).contains(q) implies (q == p@
                    || path_views(prev_out).contains(q)) by {
                    let k = choose|k: int|
                        0 <= k < path_views(out@).len() && path_views(out@)[k] == q;
                    if k < path_views(prev_out).len() {
                        assert(path_views(prev_out)[k] == q);
                    }
                }
                assert(path_views(out@).contains(p@)) by {
                    assert(path_views(out@)[path_views(out@).len() - 1] == p@);
                }
                assert forall|q: Seq<u8>|
                    path_views(prev_out).contains(q) implies #[trigger] path_views(out@).contains(
                    q,
                ) by {
                    let k = choose|k: int|
                        0 <= k < path_views(prev_out).len() && path_views(prev_out)[k] == q;
                    assert(path_views(out@)[k] == q);
                }
            }
        }
        proof {
            assert forall|q: Seq<u8>| #[trigger] path_views(out@).contains(q) implies ((fp_has(
                after@,
                q,
            ) && changed_at(before@, after@, q)) || (fp_has(before@.subrange(0, j + 1), q)
                && !fp_has(after@, q))) by {
                if path_views(prev_out).contains(q) {
                    if !(fp_has(after@, q) && changed_at(before@, after@, q)) {
                        let k = choose|k: int|
                            0 <= k < j && (#[trigger] before@.subrange(0, j as int)[k]).0 == q;
                        assert((before@.subrange(0, j + 1)[k]).0 == q);
                    }
                } else {
                    assert(q == p@);
                    assert((before@.subrange(0, j + 1)[j as int]).0 == q);
                }
            }
            assert forall|q: Seq<u8>| ((fp_has(after@, q) && changed_at(before@, after@, q)) || (
            fp_has(before@.subrange(0, j + 1), q) && !fp_has(after@, q))) implies #[trigger] path_views(
                out@,
            ).contains(q) by {
                if !(fp_has(after@, q) && changed_at(before@, after@, q)) {
                    let k = choose|k: int|
                        0 <= k <= j && (#[trigger] before@.subrange(0, j + 1)[k]).0 == q;
                    if k < j {
                        assert((before@.subrange(0, j as int)[k]).0 == q);
                    } else {
                        assert(q == p@);
                    }
                }
            }
        }
    }
    proof {
        assert(before@.subrange(0, before@.len() as int) =~= before@);
        assert forall|p: Seq<u8>| #[trigger] path_views(out@).contains(p) implies changed_at(
            before@,
            after@,
            p,
        ) by {}
        assert forall|p: Seq<u8>| changed_at(before@, after@, p) implies #[trigger] path_views(
            out@,
        ).contains(p) by {}
    }
    out
}

/// Fingerprinting the same unmodified tree twice in immediate
/// succession gives fingerprints that certainly agree, provided every
/// time was readable both times.  (A tree with an unreadable entry is
/// the deliberate exception: its unknown time never agrees with
/// itself.)
pub proof fn lemma_fingerprint_idempotent(paths: Seq<Seq<u8>>, times: Seq<Mtime>)
    requires
        paths.len() == times.len(),
        forall|i: int| 0 <= i < times.len() ==> (#[trigger] times[i]) is Known,
    ensures
        fp_same(fp_of(paths, times), fp_of(paths, times)),
{
    let fp = fp_of(paths, times);
    assert forall|i: int| #![trigger fp[i]] 0 <= i < fp.len() implies fp[i].0 == fp[i].0
        && mtime_same(fp[i].1, fp[i].1) by {
        assert(times[i] is Known);
    }
}

} // verus!

