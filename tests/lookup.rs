use mdbook_last_changed::config::{commit_url_base, ConfigValue};
use mdbook_last_changed::history::{parse_last_modification, NoHistory};
use mdbook_last_changed::root::{find_git, repository_candidates};
use mdbook_last_changed::LastChanged;

#[test]
fn parses_date_and_revision() {
    let rec = parse_last_modification("2024-01-05 abcd123").unwrap();
    assert_eq!(rec.date, "2024-01-05");
    assert_eq!(rec.revision, "abcd123");
}

#[test]
fn splits_at_first_space_only() {
    let rec = parse_last_modification("2024-01-05 abc def").unwrap();
    assert_eq!(rec.date, "2024-01-05");
    assert_eq!(rec.revision, "abc def");
}

#[test]
fn empty_log_output_has_no_history() {
    assert_eq!(parse_last_modification("").err(), Some(NoHistory));
    assert_eq!(parse_last_modification("2024-01-05").err(), Some(NoHistory));
}

#[test]
fn candidates_walk_up_to_below_root() {
    let c = repository_candidates("/home/user/book");
    assert_eq!(c, vec!["/home/user/book".to_string(), "/home/user".to_string(), "/home".to_string()]);
}

#[test]
fn candidates_of_root_is_root_alone() {
    assert_eq!(repository_candidates("/"), vec!["/".to_string()]);
}

#[test]
fn marker_two_levels_up_is_found() {
    let c = repository_candidates("/srv/repo/docs/book");
    let marks = vec![false, false, true, false];
    assert_eq!(find_git(&c, &marks), Some("/srv/repo".to_string()));
}

#[test]
fn nearest_marker_wins() {
    let c = repository_candidates("/a/b/c");
    assert_eq!(find_git(&c, &vec![false, true, true]), Some("/a/b".to_string()));
    assert_eq!(find_git(&c, &vec![true, true, true]), Some("/a/b/c".to_string()));
}

#[test]
fn no_marker_finds_no_repository() {
    let c = repository_candidates("/a/b/c");
    assert_eq!(find_git(&c, &vec![false, false, false]), None);
}

#[test]
fn explicit_commit_url_wins() {
    let r = commit_url_base(
        &ConfigValue::Text("https://git.example/repo".to_string()),
        &ConfigValue::Text("https://c.example/".to_string()),
    );
    assert_eq!(r, Some("https://c.example/".to_string()));
}

#[test]
fn repository_url_gets_commit_suffix() {
    let r = commit_url_base(&ConfigValue::Text("https://git.example/repo".to_string()), &ConfigValue::Absent);
    assert_eq!(r, Some("https://git.example/repo/commit/".to_string()));
    let r = commit_url_base(&ConfigValue::Text("https://git.example/repo".to_string()), &ConfigValue::Flag(true));
    assert_eq!(r, Some("https://git.example/repo/commit/".to_string()));
}

#[test]
fn commit_url_false_disables_links() {
    let r = commit_url_base(&ConfigValue::Text("https://git.example/repo".to_string()), &ConfigValue::Flag(false));
    assert_eq!(r, None);
}

#[test]
fn non_string_settings_give_no_links() {
    assert_eq!(commit_url_base(&ConfigValue::Other, &ConfigValue::Other), None);
    assert_eq!(commit_url_base(&ConfigValue::Absent, &ConfigValue::Absent), None);
}

#[test]
fn preprocessor_name() {
    assert_eq!(LastChanged.name(), "last-changed");
}
