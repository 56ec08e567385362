use mdbook_last_changed::footer::{has_footer, last_changed, FOOTER_START};
use mdbook_last_changed::history::LastChangeRecord;

fn record(date: &str, revision: &str) -> LastChangeRecord {
    LastChangeRecord { date: date.to_string(), revision: revision.to_string() }
}

#[test]
fn title_page_gets_footer_with_commit_link() {
    let rec = record("2024-01-05", "abcd123");
    let out = last_changed("# Title", Some(&rec), Some("https://example.com/commit/"));
    assert_eq!(
        out,
        "# Title\n<footer id=\"last-change\">Last change: <time datetime=\"2024-01-05\">2024-01-05</time>, commit: <a href=\"https://example.com/commit/abcd123\">abcd123</a></footer>"
    );
}

#[test]
fn footer_without_commit_url_shows_date_only() {
    let rec = record("2023-12-31", "ff00aa1");
    let out = last_changed("Body", Some(&rec), None);
    assert_eq!(
        out,
        "Body\n<footer id=\"last-change\">Last change: <time datetime=\"2023-12-31\">2023-12-31</time></footer>"
    );
}

#[test]
fn page_with_footer_is_left_alone() {
    let content = "Text\n<footer id=\"last-change\">Last change: old</footer>";
    let rec = record("2024-01-05", "abcd123");
    assert_eq!(last_changed(content, Some(&rec), Some("https://x/")), content);
    assert_eq!(last_changed(content, None, None), content);
}

#[test]
fn page_without_history_is_left_alone() {
    assert_eq!(last_changed("# Intro", None, Some("https://example.com/commit/")), "# Intro");
    assert_eq!(last_changed("", None, None), "");
}

#[test]
fn annotating_twice_equals_once() {
    let rec = record("2024-02-29", "0123abc");
    let once = last_changed("## Page", Some(&rec), Some("https://h/c/"));
    let twice = last_changed(&once, Some(&rec), Some("https://h/c/"));
    assert_eq!(once, twice);
    assert_eq!(once.matches(FOOTER_START).count(), 1);
}

#[test]
fn empty_page_gets_footer() {
    let rec = record("2024-01-05", "abcd123");
    let out = last_changed("", Some(&rec), None);
    assert!(out.starts_with("\n<footer id=\"last-change\">"));
    assert!(out.ends_with("</footer>"));
}

#[test]
fn detects_footer_opening_tag() {
    assert!(has_footer("x <footer id=\"last-change\">y"));
    assert!(!has_footer("x <footer>y"));
    assert!(!has_footer(""));
}
