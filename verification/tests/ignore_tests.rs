use cbak::ignore::IgnoreSet;

#[test]
fn empty_set_matches_nothing() {
    let set = IgnoreSet::compile(&vec![]).unwrap();
    assert_eq!(set.len(), 0);
    assert!(!set.matches(&b"".to_vec()));
    assert!(!set.matches(&b"/some/path".to_vec()));
    assert!(!set.matches(&b".git".to_vec()));
}

#[test]
fn matches_when_any_pattern_matches() {
    let set = IgnoreSet::compile(&vec![
        String::from(r"\.tmp$"),
        String::from("^/private/"),
    ])
    .unwrap();
    assert!(set.matches(&b"/work/a.tmp".to_vec()));
    assert!(set.matches(&b"/private/notes".to_vec()));
    assert!(!set.matches(&b"/work/a.rs".to_vec()));
    assert!(!set.matches(&b"/work/tmp/a.txt".to_vec()));
}

#[test]
fn regex_semantics_not_substring() {
    let set = IgnoreSet::compile(&vec![String::from("^a+b$")]).unwrap();
    assert!(set.matches(&b"aaab".to_vec()));
    assert!(!set.matches(&b"b".to_vec()));
    assert!(!set.matches(&b"xaaab".to_vec()));
}

#[test]
fn git_dir_pattern() {
    let set = IgnoreSet::compile(&vec![String::from(r"/\.git/")]).unwrap();
    assert!(set.matches(&b"/repo/.git/objects/ab".to_vec()));
    assert!(!set.matches(&b"/repo/src/lib.rs".to_vec()));
}

#[test]
fn bad_pattern_is_reported() {
    let err = IgnoreSet::compile(&vec![
        String::from("fine.*"),
        String::from("(unclosed"),
        String::from("also_fine"),
    ])
    .unwrap_err();
    assert_eq!(err.pattern, "(unclosed");
}
