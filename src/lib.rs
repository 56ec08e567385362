use vstd::prelude::*;

pub mod config;
pub mod footer;
pub mod history;
pub mod root;

verus! {

/// The view of an optional string.
pub open spec fn opt_string_view(s: Option<String>) -> Option<Seq<char>> {
    match s {
        Some(t) => Some(t@),
        None => None,
    }
}

/// The preprocessor itself: it carries no state of its own.
pub struct LastChanged;

impl LastChanged {
    /// The name under which the host knows this preprocessor.
    pub fn name(&self) -> (r: &'static str)
        ensures
            r@ == "last-changed"@,
    {
        "last-changed"
    }
}

} // verus!
