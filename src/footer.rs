use vstd::prelude::*;

use crate::history::LastChangeRecord;

verus! {

/// Opening tag of the footer; its presence marks a page as already annotated.
pub const FOOTER_START: &'static str = "<footer id=\"last-change\">";

/// `s` holds `p` as a contiguous run of characters.
pub open spec fn has_substring(s: Seq<char>, p: Seq<char>) -> bool {
    exists|i: int| 0 <= i && i + p.len() <= s.len() && #[trigger] s.subrange(i, i + p.len()) == p
}

/// Relies on `str::contains` with a `&str` pattern: true exactly when the
/// pattern occurs in the string as a contiguous substring.
#[verifier::external_body]
fn contains_str(s: &str, p: &str) -> (r: bool)
    ensures
        r == has_substring(s@, p@),
{
    s.contains(p)
}

/// Whether the page already carries a last-change footer.
pub fn has_footer(content: &str) -> (r: bool)
    ensures
        r == has_substring(content@, FOOTER_START@),
{
    contains_str(content, FOOTER_START)
}

/// `<time datetime="DATE">DATE</time>`
pub open spec fn time_tag(date: Seq<char>) -> Seq<char> {
    "<time datetime=\""@ + date + "\">"@ + date + "</time>"@
}

/// The text inside the footer: the date, and a link to the commit when a
/// commit URL prefix is known.
pub open spec fn footer_text(date: Seq<char>, revision: Seq<char>, commit_url_base: Option<Seq<char>>) -> Seq<char> {
    match commit_url_base {
        Some(base) => "Last change: "@ + time_tag(date) + ", commit: <a href=\""@ + base + revision
            + "\">"@ + revision + "</a>"@,
        None => "Last change: "@ + time_tag(date),
    }
}

/// The page content followed by a new line and the complete footer block.
pub open spec fn with_footer(content: Seq<char>, date: Seq<char>, revision: Seq<char>, commit_url_base: Option<Seq<char>>) -> Seq<char> {
    content + "\n"@ + FOOTER_START@ + footer_text(date, revision, commit_url_base) + "</footer>"@
}

/// What one page becomes: unchanged when it already has a footer or when no
/// history is known for its file, else with the footer appended.
pub open spec fn annotated(content: Seq<char>, record: Option<(Seq<char>, Seq<char>)>, commit_url_base: Option<Seq<char>>) -> Seq<char> {
    if has_substring(content, FOOTER_START@) {
        content
    } else {
        match record {
            Some((date, revision)) => with_footer(content, date, revision, commit_url_base),
            None => content,
        }
    }
}

/// The view of an optional record as (date, revision).
pub open spec fn record_view(record: Option<&LastChangeRecord>) -> Option<(Seq<char>, Seq<char>)> {
    match record {
        Some(r) => Some((r.date@, r.revision@)),
        None => None,
    }
}

/// The view of an optional string slice.
pub open spec fn opt_str_view(s: Option<&str>) -> Option<Seq<char>> {
    match s {
        Some(t) => Some(t@),
        None => None,
    }
}

fn string_of(s: &str) -> (r: String)
    ensures
        r@ == s@,
{
    s.to_owned()
}

/// Builds the text inside the footer for one change.
pub fn footer_text_of(record: &LastChangeRecord, commit_url_base: Option<&str>) -> (r: String)
    ensures
        r@ == footer_text(record.date@, record.revision@, opt_str_view(commit_url_base)),
{
    let date = record.date.as_str();
    let revision = record.revision.as_str();
    let mut time = string_of("<time datetime=\"");
    time.append(date);
    time.append("\">");
    time.append(date);
    time.append("</time>");
    let mut text = string_of("Last change: ");
    text.append(time.as_str());
    match commit_url_base {
        Some(base) => {
            text.append(", commit: <a href=\"");
            text.append(base);
            text.append(revision);
            text.append("\">");
            text.append(revision);
            text.append("</a>");
        },
        None => {},
    }
    assert(time@ == time_tag(record.date@));
    assert(text@ =~= footer_text(record.date@, record.revision@, opt_str_view(commit_url_base)));
    text
}

/// The content of one page after annotation. `record` is the last change of
/// the page's file; it is `None` when the page has no source file, when that
/// file cannot be resolved, or when it has no history. A page that already
/// carries a footer is returned as it is, so the footer is never added twice.
pub fn last_changed(content: &str, record: Option<&LastChangeRecord>, commit_url_base: Option<&str>) -> (r: String)
    ensures
        r@ == annotated(content@, record_view(record), opt_str_view(commit_url_base)),
{
    if has_footer(content) {
        return string_of(content);
    }
    match record {
        None => string_of(content),
        Some(rec) => {
            let text = footer_text_of(rec, commit_url_base);
            let mut out = string_of(content);
            out.append("\n");
            out.append(FOOTER_START);
            out.append(text.as_str());
            out.append("</footer>");
            assert(out@ =~= with_footer(content@, rec.date@, rec.revision@, opt_str_view(commit_url_base)));
            out
        },
    }
}

/// A page that already holds the footer's opening tag is left unchanged,
/// whatever history is known for its file.
pub proof fn lemma_existing_footer_kept(
    content: Seq<char>,
    record: Option<(Seq<char>, Seq<char>)>,
    commit_url_base: Option<Seq<char>>,
)
    requires
        has_substring(content, FOOTER_START@),
    ensures
        annotated(content, record, commit_url_base) == content,
{
}

/// A page for which no history is known (no source path, a path that cannot
/// be resolved, or a file without commits) is left unchanged.
pub proof fn lemma_no_history_kept(content: Seq<char>, commit_url_base: Option<Seq<char>>)
    ensures
        annotated(content, None, commit_url_base) == content,
{
}

/// A page with the footer appended holds the footer's opening tag, right
/// after the new line that follows the page content.
pub proof fn lemma_footer_start_in_footer(
    content: Seq<char>,
    date: Seq<char>,
    revision: Seq<char>,
    commit_url_base: Option<Seq<char>>,
)
    ensures
        has_substring(with_footer(content, date, revision, commit_url_base), FOOTER_START@),
{
    reveal_strlit("\n");
    let out = with_footer(content, date, revision, commit_url_base);
    let i = (content.len() + 1) as int;
    assert(out.subrange(i, i + FOOTER_START@.len()) =~= FOOTER_START@);
}

/// A page with known history and no footer yet becomes its content, a new
/// line, and one footer block holding the date, and, when a commit URL
/// prefix is configured, a link to that prefix followed by the revision.
pub proof fn lemma_footer_appended(
    content: Seq<char>,
    date: Seq<char>,
    revision: Seq<char>,
    commit_url_base: Option<Seq<char>>,
)
    requires
        !has_substring(content, FOOTER_START@),
    ensures
        ({
            let out = annotated(content, Some((date, revision)), commit_url_base);
            &&& out.subrange(0, content.len() as int) == content
            &&& out.subrange(content.len() as int, out.len() as int) == "\n"@ + FOOTER_START@
                + footer_text(date, revision, commit_url_base) + "</footer>"@
            &&& has_substring(out, time_tag(date))
            &&& commit_url_base is Some ==> has_substring(
                out,
                "<a href=\""@ + commit_url_base->0 + revision + "\">"@,
            )
        }),
{
    let out = annotated(content, Some((date, revision)), commit_url_base);
    let block = "\n"@ + FOOTER_START@ + footer_text(date, revision, commit_url_base) + "</footer>"@;
    assert(out =~= content + block);
    assert(out.subrange(0, content.len() as int) =~= content);
    assert(out.subrange(content.len() as int, out.len() as int) =~= block);
    let t = (content.len() + "\n"@.len() + FOOTER_START@.len() + "Last change: "@.len()) as int;
    assert(out.subrange(t, t + time_tag(date).len()) =~= time_tag(date));
    if commit_url_base is Some {
        let base = commit_url_base->0;
        let a: int = t + time_tag(date).len() + ", commit: "@.len();
        let link = "<a href=\""@ + base + revision + "\">"@;
        reveal_strlit(", commit: ");
        reveal_strlit(", commit: <a href=\"");
        reveal_strlit("<a href=\"");
        assert(", commit: <a href=\""@ =~= ", commit: "@ + "<a href=\""@);
        assert(out.subrange(a, a + link.len()) =~= link);
    }
}

/// Annotating a page twice gives the same page as annotating it once.
pub proof fn lemma_annotate_idempotent(
    content: Seq<char>,
    record: Option<(Seq<char>, Seq<char>)>,
    commit_url_base: Option<Seq<char>>,
)
    ensures
        annotated(annotated(content, record, commit_url_base), record, commit_url_base)
            == annotated(content, record, commit_url_base),
{
    if !has_substring(content, FOOTER_START@) {
        if let Some((date, revision)) = record {
            lemma_footer_start_in_footer(content, date, revision, commit_url_base);
        }
    }
}

} // verus!
