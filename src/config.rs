use vstd::prelude::*;

use crate::opt_string_view;

verus! {

/// One setting read from the book configuration, reduced to what the
/// preprocessor distinguishes.
pub enum ConfigValue {
    /// The key is not set.
    Absent,
    /// The key holds a string.
    Text(String),
    /// The key holds a boolean.
    Flag(bool),
    /// The key holds a value of any other kind.
    Other,
}

/// The prefix to which a revision is appended to link to its commit.
/// An explicit commit URL wins; `false` there turns links off; otherwise the
/// repository URL, when it is a string, followed by `/commit/`.
pub open spec fn commit_url_base_of(repository_url: ConfigValue, commit_url: ConfigValue) -> Option<Seq<char>> {
    match commit_url {
        ConfigValue::Text(url) => Some(url@),
        ConfigValue::Flag(false) => None,
        _ => match repository_url {
            ConfigValue::Text(url) => Some(url@ + "/commit/"@),
            _ => None,
        },
    }
}

/// Works out the commit URL prefix from the `output.html.git-repository-url`
/// and `output.html.git-commit-url` settings.
pub fn commit_url_base(repository_url: &ConfigValue, commit_url: &ConfigValue) -> (r: Option<String>)
    ensures
        opt_string_view(r) == commit_url_base_of(*repository_url, *commit_url),
{
    match commit_url {
        ConfigValue::Text(url) => {
            return Some(url.clone());
        },
        ConfigValue::Flag(false) => {
            return None;
        },
        _ => {},
    }
    match repository_url {
        ConfigValue::Text(url) => {
            let mut base = url.clone();
            base.append("/commit/");
            Some(base)
        },
        _ => None,
    }
}

} // verus!
