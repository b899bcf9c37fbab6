use cbak::detector::{
    Baseline, ChangeResult, PollObservation, PollOutcome, SettleOutcome, classify_poll,
    settle_step,
};
use cbak::fingerprint::{
    FpEntry, Fingerprint, Mtime, changed_paths, fingerprint, fingerprints_agree,
};
use cbak::ignore::IgnoreSet;
use cbak::snapshot::{RawTree, scan};

fn fp(entries: &[(&[u8], Mtime)]) -> Fingerprint {
    Fingerprint {
        entries: entries
            .iter()
            .map(|(p, t)| FpEntry { path: p.to_vec(), mtime: *t })
            .collect(),
    }
}

fn known(t: u64) -> Mtime {
    Mtime::Known(t)
}

fn obs(cancel: bool, root: Fingerprint, sub: Fingerprint, files: Fingerprint) -> PollObservation {
    PollObservation { cancel, root_fp: root, subdir_fp: sub, files_fp: files }
}

fn base(root: Fingerprint, sub: Fingerprint, files: Fingerprint) -> Baseline {
    Baseline { root_fp: root, subdir_fp: sub, files_fp: files }
}

#[test]
fn fingerprinting_twice_agrees() {
    let paths = vec![b"/r".to_vec(), b"/r/a".to_vec()];
    let times = vec![known(10), known(20)];
    let a = fingerprint(&paths, &times);
    let b = fingerprint(&paths, &times);
    assert!(fingerprints_agree(&a, &b));
}

#[test]
fn unknown_time_never_agrees_with_itself() {
    let paths = vec![b"/r/gone".to_vec()];
    let times = vec![Mtime::Unknown];
    let a = fingerprint(&paths, &times);
    let b = fingerprint(&paths, &times);
    assert!(!fingerprints_agree(&a, &b));
}

#[test]
fn root_change_wins_over_everything() {
    let b = base(fp(&[(b"/r", known(1))]), fp(&[(b"/r/a", known(1))]), fp(&[(b"/r/f", known(1))]));
    let o = obs(
        false,
        fp(&[(b"/r", known(9))]),
        fp(&[(b"/r/a", known(9))]),
        fp(&[(b"/r/f", known(9))]),
    );
    assert_eq!(classify_poll(&b, &o), PollOutcome::Done(ChangeResult::RootChanged));
}

#[test]
fn cancellation_wins_over_root_change() {
    let b = base(fp(&[(b"/r", known(1))]), fp(&[]), fp(&[]));
    let o = obs(true, fp(&[(b"/r", known(9))]), fp(&[]), fp(&[]));
    assert_eq!(classify_poll(&b, &o), PollOutcome::Done(ChangeResult::Cancelled));
}

#[test]
fn structure_change_reports_symmetric_difference() {
    let b = base(
        fp(&[(b"/r", known(1))]),
        fp(&[(b"/r/a", known(1)), (b"/r/b", known(2))]),
        fp(&[(b"/r/f", known(3))]),
    );
    let o = obs(
        false,
        fp(&[(b"/r", known(1))]),
        fp(&[(b"/r/a", known(1)), (b"/r/b", known(7)), (b"/r/c", known(4))]),
        fp(&[(b"/r/f", known(9))]),
    );
    match classify_poll(&b, &o) {
        PollOutcome::Done(ChangeResult::StructureChanged(v)) => {
            assert!(v.contains(&b"/r/b".to_vec()));
            assert!(v.contains(&b"/r/c".to_vec()));
            assert!(!v.contains(&b"/r/a".to_vec()));
            assert_eq!(v.len(), 2);
        }
        other => panic!("expected a structure change, got {:?}", other),
    }
}

#[test]
fn unreadable_path_is_reported_as_changed() {
    let before = fp(&[(b"/r/f", known(1))]);
    let after = fp(&[(b"/r/f", Mtime::Unknown)]);
    let v = changed_paths(&before, &after);
    assert_eq!(v, vec![b"/r/f".to_vec()]);
}

#[test]
fn removed_subdirectory_is_reported() {
    let before = fp(&[(b"/r/a", known(1))]);
    let after = fp(&[]);
    let v = changed_paths(&before, &after);
    assert_eq!(v, vec![b"/r/a".to_vec()]);
}

#[test]
fn content_change_enters_settle_then_reports() {
    let b = base(fp(&[(b"/r", known(1))]), fp(&[]), fp(&[(b"/r/f", known(1))]));
    let o = obs(false, fp(&[(b"/r", known(1))]), fp(&[]), fp(&[(b"/r/f", known(2))]));
    assert_eq!(classify_poll(&b, &o), PollOutcome::Settle);

    // the write goes on for one more delay interval, then stabilizes
    let last = fp(&[(b"/r/f", known(2))]);
    let sample1 = fp(&[(b"/r/f", known(3))]);
    assert_eq!(settle_step(&b.files_fp, &last, &sample1), SettleOutcome::Again);
    let sample2 = fp(&[(b"/r/f", known(3))]);
    match settle_step(&b.files_fp, &sample1, &sample2) {
        SettleOutcome::Stable(v) => assert_eq!(v, vec![b"/r/f".to_vec()]),
        other => panic!("expected settled content, got {:?}", other),
    }
}

#[test]
fn settle_reports_after_one_stable_interval() {
    // the modification time stabilizes after exactly one write delay:
    // the first re-sample equals the last read, so the change is
    // reported then and no earlier transient value leaks out
    let base_files = fp(&[(b"/r/f", known(1))]);
    let last = fp(&[(b"/r/f", known(5))]);
    let sample = fp(&[(b"/r/f", known(5))]);
    match settle_step(&base_files, &last, &sample) {
        SettleOutcome::Stable(v) => assert_eq!(v, vec![b"/r/f".to_vec()]),
        other => panic!("expected settled content, got {:?}", other),
    }
}

#[test]
fn fresh_directory_one_file_created() {
    // end to end: no ignore patterns, an empty directory gains a file
    let ignore = IgnoreSet::compile(&vec![]).unwrap();
    let empty = RawTree { root: b"/d".to_vec(), dirs: vec![], files: vec![] };
    let with_file = RawTree {
        root: b"/d".to_vec(),
        dirs: vec![],
        files: vec![b"/d/new.txt".to_vec()],
    };
    let snap0 = scan(&empty, &ignore, false);
    let snap1 = scan(&with_file, &ignore, false);

    let b = base(
        fingerprint(&vec![snap0.root.clone()], &vec![known(100)]),
        fingerprint(&snap0.subdirs, &vec![]),
        fingerprint(&snap0.contents, &vec![]),
    );
    let o = obs(
        false,
        fingerprint(&vec![snap1.root.clone()], &vec![known(100)]),
        fingerprint(&snap1.subdirs, &vec![]),
        fingerprint(&snap1.contents, &vec![known(101)]),
    );
    assert_eq!(classify_poll(&b, &o), PollOutcome::Settle);
    let last = o.files_fp;
    let sample = fingerprint(&snap1.contents, &vec![known(101)]);
    match settle_step(&b.files_fp, &last, &sample) {
        SettleOutcome::Stable(v) => assert_eq!(v, vec![b"/d/new.txt".to_vec()]),
        other => panic!("expected settled content, got {:?}", other),
    }
}

#[test]
fn ignored_file_never_reports() {
    // end to end: a .tmp file is created and modified repeatedly, but
    // the pattern keeps it out of every snapshot, so nothing changes
    let ignore = IgnoreSet::compile(&vec![String::from(r"\.tmp$")]).unwrap();
    let before = RawTree { root: b"/d".to_vec(), dirs: vec![], files: vec![] };
    let after = RawTree {
        root: b"/d".to_vec(),
        dirs: vec![],
        files: vec![b"/d/scratch.tmp".to_vec()],
    };
    let snap0 = scan(&before, &ignore, false);
    let snap1 = scan(&after, &ignore, false);
    assert_eq!(snap1.contents, Vec::<Vec<u8>>::new());

    let b = base(
        fingerprint(&vec![snap0.root.clone()], &vec![known(100)]),
        fingerprint(&snap0.subdirs, &vec![]),
        fingerprint(&snap0.contents, &vec![]),
    );
    for _ in 0..3 {
        let o = obs(
            false,
            fingerprint(&vec![snap1.root.clone()], &vec![known(100)]),
            fingerprint(&snap1.subdirs, &vec![]),
            fingerprint(&snap1.contents, &vec![]),
        );
        assert_eq!(classify_poll(&b, &o), PollOutcome::Continue);
    }
}
