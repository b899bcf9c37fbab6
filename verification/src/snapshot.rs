//! Directory snapshots.
//!
//! The filesystem walk enumerates a watched tree into a raw listing:
//! the root, every subdirectory found, every file found.  A scan turns
//! that listing into a snapshot filtered by the directory's ignore set:
//! a normal scan keeps the paths the set does not match, an inverted
//! scan keeps exactly the paths it does match (those are the paths to
//! drop from version control).  The subdirectory list is deduplicated
//! and sorted; the file list keeps the walk's order.

use crate::ignore::{IgnoreSet, ignore_matches};
use crate::paths::{copy_path, path_views, sort_dedup, strictly_sorted};
use vstd::prelude::*;

verus! {

/// The raw enumeration of a directory tree, as the filesystem walk
/// hands it over.  Unreadable entries are simply absent: the walk is
/// best-effort.
pub struct RawTree {
    pub root: Vec<u8>,
    pub dirs: Vec<Vec<u8>>,
    pub files: Vec<Vec<u8>>,
}

/// A directory snapshot: the root marker, the filtered subdirectories,
/// and the filtered files.  Immutable once produced; a fresh one is
/// made on every polling pass.
pub struct DirContents {
    pub root: Vec<u8>,
    pub subdirs: Vec<Vec<u8>>,
    pub contents: Vec<Vec<u8>>,
}

/// Whether a scan keeps this path: a normal scan keeps the paths the
/// ignore set does not match; an inverted scan keeps exactly the ones
/// it does.
pub open spec fn scan_keeps(pats: Seq<Seq<char>>, invert: bool, p: Seq<u8>) -> bool {
    ignore_matches(pats, p) == invert
}

/// The paths a scan keeps, in their original order.
pub open spec fn filter_kept(ps: Seq<Seq<u8>>, pats: Seq<Seq<char>>, invert: bool) -> Seq<Seq<u8>>
    decreases ps.len(),
{
    if ps.len() == 0 {
        Seq::empty()
    } else {
        let rest = filter_kept(ps.drop_last(), pats, invert);
        if scan_keeps(pats, invert, ps.last()) {
            rest.push(ps.last())
        } else {
            rest
        }
    }
}

/// A path is kept by a scan exactly when it is in the listing and the
/// filter keeps it.
pub proof fn lemma_filter_kept_membership(ps: Seq<Seq<u8>>, pats: Seq<Seq<char>>, invert: bool)
    ensures
        forall|p: Seq<u8>|
            #[trigger] filter_kept(ps, pats, invert).contains(p) <==> (ps.contains(p)
                && scan_keeps(pats, invert, p)),
    decreases ps.len(),
{
    if ps.len() > 0 {
        lemma_filter_kept_membership(ps.drop_last(), pats, invert);
        let rest = filter_kept(ps.drop_last(), pats, invert);
        let whole = filter_kept(ps, pats, invert);
        assert forall|p: Seq<u8>| #[trigger] whole.contains(p) implies (ps.contains(p)
            && scan_keeps(pats, invert, p)) by {
            let k = choose|k: int| 0 <= k < whole.len() && whole[k] == p;
            if k < rest.len() {
                assert(rest.contains(p));
                let m = choose|m: int| 0 <= m < ps.drop_last().len() && ps.drop_last()[m] == p;
                assert(ps[m] == p);
            } else {
                assert(p == ps.last());
                assert(ps[ps.len() - 1] == p);
            }
        }
        assert forall|p: Seq<u8>| (ps.contains(p) && scan_keeps(pats, invert, p)) implies #[trigger] whole.contains(
            p,
        ) by {
            let k = choose|k: int| 0 <= k < ps.len() && ps[k] == p;
            if k < ps.len() - 1 {
                assert(ps.drop_last()[k] == p);
                assert(rest.contains(p));
                let m = choose|m: int| 0 <= m < rest.len() && rest[m] == p;
                assert(whole[m] == p);
            } else {
                assert(p == ps.last());
                assert(whole[whole.len() - 1] == p);
            }
        }
    }
}

/// Keep the listed paths the scan keeps, in order.
fn filter_paths(ps: &Vec<Vec<u8>>, ignore: &IgnoreSet, invert: bool) -> (r: Vec<Vec<u8>>)
    ensures
        path_views(r@) == filter_kept(path_views(ps@), ignore@, invert),
{
    let mut r: Vec<Vec<u8>> = Vec::new();
    let n = ps.len();
    proof {
        assert(path_views(ps@).subrange(0, 0) =~= Seq::<Seq<u8>>::empty());
        assert(path_views(r@) =~= Seq::<Seq<u8>>::empty());
    }
    for i in 0..n
        invariant
            n == ps@.len(),
            path_views(r@) == filter_kept(path_views(ps@).subrange(0, i as int), ignore@, invert),
    {
        let ghost pre = path_views(ps@).subrange(0, i as int);
        let ghost pre2 = path_views(ps@).subrange(0, i + 1);
        proof {
            assert(pre2.drop_last() =~= pre);
            assert(pre2.last() == ps@[i as int]@);
        }
        let m = ignore.matches(&ps[i]);
        if m == invert {
            let ghost old_r = path_views(r@);
            r.push(copy_path(&ps[i]));
            proof {
                assert(path_views(r@) =~= old_r.push(ps@[i as int]@));
            }
        }
    }
    proof {
        assert(path_views(ps@).subrange(0, n as int) =~= path_views(ps@));
    }
    r
}

/// Scan a raw tree listing under an ignore set.  The snapshot's files
/// are the kept files in walk order; its subdirectories are the kept
/// subdirectories, deduplicated and sorted; its root is the listed root,
/// unfiltered.
pub fn scan(raw: &RawTree, ignore: &IgnoreSet, invert: bool) -> (r: DirContents)
    ensures
        r.root@ == raw.root@,
        path_views(r.contents@) == filter_kept(path_views(raw.files@), ignore@, invert),
        strictly_sorted(path_views(r.subdirs@)),
        forall|p: Seq<u8>|
            #[trigger] path_views(r.subdirs@).contains(p) <==> (path_views(raw.dirs@).contains(p)
                && scan_keeps(ignore@, invert, p)),
{
    let contents = filter_paths(&raw.files, ignore, invert);
    let kept_dirs = filter_paths(&raw.dirs, ignore, invert);
    proof {
        lemma_filter_kept_membership(path_views(raw.dirs@), ignore@, invert);
    }
    let subdirs = sort_dedup(kept_dirs);
    let root = copy_path(&raw.root);
    DirContents { root, subdirs, contents }
}

/// Scanning a listing normally and scanning it inverted partition its
/// paths: each listed path lands in exactly one of the two scans, and
/// nothing else lands in either.
pub proof fn lemma_scan_partition(ps: Seq<Seq<u8>>, pats: Seq<Seq<char>>)
    ensures
        forall|p: Seq<u8>|
            #[trigger] ps.contains(p) ==> (filter_kept(ps, pats, false).contains(p)
                <==> !filter_kept(ps, pats, true).contains(p)),
        forall|p: Seq<u8>|
            filter_kept(ps, pats, false).contains(p) || #[trigger] filter_kept(
                ps,
                pats,
                true,
            ).contains(p) ==> ps.contains(p),
        forall|p: Seq<u8>|
            !(filter_kept(ps, pats, false).contains(p) && #[trigger] filter_kept(
                ps,
                pats,
                true,
            ).contains(p)),
{
    lemma_filter_kept_membership(ps, pats, false);
    lemma_filter_kept_membership(ps, pats, true);
}

} // verus!
