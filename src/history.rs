use vstd::prelude::*;

verus! {

/// The most recent change to one file: the commit date as text and the
/// short revision identifier of that commit.
pub struct LastChangeRecord {
    pub date: String,
    pub revision: String,
}

/// The file has no usable history: the log printed no `<date> <revision>` line.
#[derive(Debug, PartialEq, Eq, Structural)]
pub struct NoHistory;

/// Relies on `str::split_once` with a `char` pattern: it splits around the
/// first occurrence of the character and returns `None` when there is none.
#[verifier::external_body]
fn split_at_first_space(s: &str) -> (r: Option<(&str, &str)>)
    ensures
        match r {
            Some((head, tail)) => s@ == head@ + seq![' '] + tail@ && !head@.contains(' '),
            None => !s@.contains(' '),
        },
{
    s.split_once(' ')
}

/// Reads the log line `<date> <revision>` printed for one file: the date is
/// everything before the first space, the revision everything after it.
pub fn parse_last_modification(output: &str) -> (r: Result<LastChangeRecord, NoHistory>)
    ensures
        r is Ok <==> output@.contains(' '),
        match r {
            Ok(rec) => output@ == rec.date@ + seq![' '] + rec.revision@ && !rec.date@.contains(' '),
            Err(e) => e == NoHistory,
        },
{
    match split_at_first_space(output) {
        Some((date, revision)) => {
            proof {
                assert(output@[date@.len() as int] == ' ');
            }
            Ok(LastChangeRecord { date: date.to_owned(), revision: revision.to_owned() })
        },
        None => Err(NoHistory),
    }
}

} // verus!
