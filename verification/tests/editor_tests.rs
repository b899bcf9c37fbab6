use cbak::config::{RawCbakConfig, RawDirConfig, RawGlobalConfig};
use cbak::editor::{
    ConfigKey, EditError, add_watch, edit_global, edit_watch, parse_nonneg_i32, remove_watch,
};

fn sample() -> RawCbakConfig {
    RawCbakConfig {
        global: RawGlobalConfig {
            ignore: vec![String::from(r"\.git")],
            poll_interval: 30,
            write_delay: 30,
        },
        watch: vec![
            RawDirConfig {
                directory: String::from("/a"),
                name: String::from("one"),
                ignore: vec![],
                poll_interval: None,
                write_delay: None,
            },
            RawDirConfig {
                directory: String::from("/b"),
                name: String::from("two"),
                ignore: vec![String::from("x")],
                poll_interval: Some(5),
                write_delay: None,
            },
        ],
    }
}

#[test]
fn parse_accepts_nonnegative_decimals() {
    assert_eq!(parse_nonneg_i32(&String::from("0")), Some(0));
    assert_eq!(parse_nonneg_i32(&String::from("123")), Some(123));
    assert_eq!(parse_nonneg_i32(&String::from("007")), Some(7));
    assert_eq!(parse_nonneg_i32(&String::from("2147483647")), Some(i32::MAX));
}

#[test]
fn parse_rejects_everything_else() {
    assert_eq!(parse_nonneg_i32(&String::from("")), None);
    assert_eq!(parse_nonneg_i32(&String::from("-3")), None);
    assert_eq!(parse_nonneg_i32(&String::from("+3")), None);
    assert_eq!(parse_nonneg_i32(&String::from("12a")), None);
    assert_eq!(parse_nonneg_i32(&String::from("2147483648")), None);
    assert_eq!(parse_nonneg_i32(&String::from("99999999999")), None);
}

#[test]
fn add_appends_an_entry() {
    let c = add_watch(
        sample(),
        RawDirConfig {
            directory: String::from("/c"),
            name: String::from("three"),
            ignore: vec![],
            poll_interval: None,
            write_delay: None,
        },
    );
    assert_eq!(c.watch.len(), 3);
    assert_eq!(c.watch[2].name, "three");
}

#[test]
fn remove_drops_by_name_and_keeps_order() {
    let c = remove_watch(sample(), &String::from("one"));
    assert_eq!(c.watch.len(), 1);
    assert_eq!(c.watch[0].name, "two");
    let unchanged = remove_watch(sample(), &String::from("nobody"));
    assert_eq!(unchanged.watch.len(), 2);
    assert_eq!(unchanged.watch[0].name, "one");
    assert_eq!(unchanged.watch[1].name, "two");
}

#[test]
fn global_numeric_edit() {
    let c = edit_global(sample(), ConfigKey::PollInterval, &vec![String::from("45")]).unwrap();
    assert_eq!(c.global.poll_interval, 45);
    assert_eq!(c.global.write_delay, 30);
    let c = edit_global(sample(), ConfigKey::WriteDelay, &vec![String::from("0")]).unwrap();
    assert_eq!(c.global.write_delay, 0);
}

#[test]
fn global_numeric_edit_wants_one_value() {
    assert_eq!(
        edit_global(sample(), ConfigKey::PollInterval, &vec![]).unwrap_err(),
        EditError::WrongArgumentCount
    );
    assert_eq!(
        edit_global(
            sample(),
            ConfigKey::PollInterval,
            &vec![String::from("4"), String::from("5")]
        )
        .unwrap_err(),
        EditError::WrongArgumentCount
    );
}

#[test]
fn global_numeric_edit_wants_a_nonnegative_integer() {
    assert_eq!(
        edit_global(sample(), ConfigKey::PollInterval, &vec![String::from("-1")]).unwrap_err(),
        EditError::ExpectedNonNegativeInt
    );
    assert_eq!(
        edit_global(sample(), ConfigKey::WriteDelay, &vec![String::from("soon")]).unwrap_err(),
        EditError::ExpectedNonNegativeInt
    );
}

#[test]
fn global_ignore_edit_replaces_the_list() {
    let c = edit_global(
        sample(),
        ConfigKey::IgnorePatterns,
        &vec![String::from("a"), String::from("b")],
    )
    .unwrap();
    assert_eq!(c.global.ignore, vec![String::from("a"), String::from("b")]);
}

#[test]
fn watch_edit_needs_an_existing_name() {
    assert_eq!(
        edit_watch(
            sample(),
            &String::from("nobody"),
            ConfigKey::PollInterval,
            &vec![String::from("7")]
        )
        .unwrap_err(),
        EditError::NoSuchEntry
    );
}

#[test]
fn watch_edit_sets_an_override_and_moves_the_entry_last() {
    let c = edit_watch(
        sample(),
        &String::from("one"),
        ConfigKey::PollInterval,
        &vec![String::from("7")],
    )
    .unwrap();
    assert_eq!(c.watch.len(), 2);
    assert_eq!(c.watch[0].name, "two");
    assert_eq!(c.watch[1].name, "one");
    assert_eq!(c.watch[1].poll_interval, Some(7));
}

#[test]
fn watch_edit_with_no_values_clears_the_override() {
    let c = edit_watch(sample(), &String::from("two"), ConfigKey::PollInterval, &vec![])
        .unwrap();
    assert_eq!(c.watch[1].name, "two");
    assert_eq!(c.watch[1].poll_interval, None);
}

#[test]
fn watch_ignore_edit_takes_the_values() {
    let c = edit_watch(
        sample(),
        &String::from("two"),
        ConfigKey::IgnorePatterns,
        &vec![String::from("y"), String::from("z")],
    )
    .unwrap();
    assert_eq!(c.watch[1].ignore, vec![String::from("y"), String::from("z")]);
}
