use vstd::prelude::*;

use crate::opt_string_view;

verus! {

/// Directory name whose presence marks the root of a git working copy.
pub const MARKER_DIR: &'static str = ".git";

/// The parent directory of a path, as `std::path::Path::parent` computes it.
pub uninterp spec fn parent_of(p: Seq<char>) -> Option<Seq<char>>;

/// Relies on `std::path::Path::parent`: the path without its final component,
/// or `None` for a root or an empty path. The parent is a slice of the path
/// that ends before the removed component, so it is shorter than the path.
#[verifier::external_body]
fn parent_dir(p: &str) -> (r: Option<String>)
    ensures
        match r {
            Some(q) => parent_of(p@) == Some(q@) && q@.len() < p@.len(),
            None => parent_of(p@) is None,
        },
{
    std::path::Path::new(p).parent().map(|q| q.to_string_lossy().into_owned())
}

/// The directories searched for a marker, nearest first: `p` itself, then
/// each of its ancestors, stopping before the filesystem root `/`.
pub open spec fn ancestors(p: Seq<char>) -> Seq<Seq<char>>
    decreases p.len(),
{
    match parent_of(p) {
        Some(q) => if q != "/"@ && q.len() < p.len() {
            seq![p] + ancestors(q)
        } else {
            seq![p]
        },
        None => seq![p],
    }
}

/// The index of the first `true`, if any.
pub open spec fn first_marked(marks: Seq<bool>) -> Option<int>
    decreases marks.len(),
{
    if marks.len() == 0 {
        None
    } else if marks[0] {
        Some(0)
    } else {
        match first_marked(marks.drop_first()) {
            Some(i) => Some(i + 1),
            None => None,
        }
    }
}

/// The nearest directory among `dirs` (listed nearest first) whose mark says
/// that it holds a repository marker.
pub open spec fn repository_root(dirs: Seq<Seq<char>>, marks: Seq<bool>) -> Option<Seq<char>> {
    match first_marked(marks) {
        Some(i) => Some(dirs[i]),
        None => None,
    }
}

proof fn lemma_first_marked_bounds(marks: Seq<bool>)
    ensures
        match first_marked(marks) {
            Some(i) => 0 <= i < marks.len() && marks[i] && forall|j: int| 0 <= j < i ==> !marks[j],
            None => forall|j: int| 0 <= j < marks.len() ==> !marks[j],
        },
    decreases marks.len(),
{
    if marks.len() > 0 && !marks[0] {
        lemma_first_marked_bounds(marks.drop_first());
        assert forall|j: int| 1 <= j < marks.len() implies marks[j] == marks.drop_first()[j - 1] by {}
    }
}

/// Lists the directories to search for a repository marker, nearest first.
pub fn repository_candidates(path: &str) -> (r: Vec<String>)
    ensures
        r@.map_values(|s: String| s@) == ancestors(path@),
{
    let root = "/".to_owned();
    let mut out: Vec<String> = Vec::new();
    let mut current = path.to_owned();
    loop
        invariant_except_break
            out@.map_values(|s: String| s@) + ancestors(current@) == ancestors(path@),
            root@ == "/"@,
        ensures
            out@.map_values(|s: String| s@) == ancestors(path@),
        decreases current@.len(),
    {
        let parent = parent_dir(current.as_str());
        let ghost before = out@.map_values(|s: String| s@);
        let ghost here = current@;
        out.push(current);
        assert(out@.map_values(|s: String| s@) =~= before.push(here));
        match parent {
            Some(q) => {
                if q == root {
                    assert(before + ancestors(here) =~= out@.map_values(|s: String| s@));
                    break;
                }
                assert(before + ancestors(here) =~= out@.map_values(|s: String| s@) + ancestors(q@));
                current = q;
            },
            None => {
                assert(before + ancestors(here) =~= out@.map_values(|s: String| s@));
                break;
            },
        }
    }
    out
}

/// Picks the repository root: the first of `candidates` (nearest first, as
/// `repository_candidates` lists them) whose entry in `has_marker` is true,
/// or `None` when no candidate holds a marker.
pub fn find_git(candidates: &Vec<String>, has_marker: &Vec<bool>) -> (r: Option<String>)
    requires
        has_marker@.len() == candidates@.len(),
    ensures
        opt_string_view(r) == repository_root(candidates@.map_values(|s: String| s@), has_marker@),
{
    let ghost dirs = candidates@.map_values(|s: String| s@);
    proof {
        lemma_first_marked_bounds(has_marker@);
    }
    let mut i: usize = 0;
    while i < has_marker.len()
        invariant
            i <= has_marker@.len() == candidates@.len(),
            forall|j: int| 0 <= j < i ==> !has_marker@[j],
            dirs == candidates@.map_values(|s: String| s@),
            match first_marked(has_marker@) {
                Some(k) => 0 <= k < has_marker@.len() && has_marker@[k] && forall|j: int| 0 <= j < k ==> !has_marker@[j],
                None => forall|j: int| 0 <= j < has_marker@.len() ==> !has_marker@[j],
            },
        decreases has_marker@.len() - i,
    {
        if has_marker[i] {
            assert(first_marked(has_marker@) == Some(i as int));
            return Some(candidates[i].clone());
        }
        i = i + 1;
    }
    None
}

/// Root finding: when the only marker among the searched directories is
/// two levels above the start, that ancestor is the root found; when no
/// searched directory holds a marker, no root is found.
pub proof fn lemma_root_two_levels_up(path: Seq<char>, marks: Seq<bool>)
    requires
        marks.len() == ancestors(path).len(),
    ensures
        (ancestors(path).len() > 2 && marks[2] && forall|j: int| 0 <= j < marks.len() && j != 2 ==> !marks[j])
            ==> repository_root(ancestors(path), marks) == Some(parent_of(parent_of(path)->0)->0),
        (forall|j: int| 0 <= j < marks.len() ==> !marks[j]) ==> repository_root(ancestors(path), marks) is None,
{
    lemma_first_marked_bounds(marks);
    if ancestors(path).len() > 2 {
        let p1 = parent_of(path)->0;
        assert(ancestors(path) == seq![path] + ancestors(p1));
        assert(ancestors(p1) == seq![p1] + ancestors(parent_of(p1)->0));
        assert(ancestors(path)[2] == parent_of(p1)->0);
    }
}

} // verus!
