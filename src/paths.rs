//! Paths as sequences of characters: joining an entry's internal path onto
//! the destination directory, and the checks that keep an entry inside it.
use vstd::prelude::*;

verus! {

/// Both `/` and `\` end a path segment.
pub open spec fn is_separator(c: char) -> bool {
    c == '/' || c == '\\'
}

/// A segment that is exactly `..` begins at `i`.
pub open spec fn parent_segment_at(p: Seq<char>, i: int) -> bool {
    &&& 0 <= i
    &&& i + 2 <= p.len()
    &&& p[i] == '.'
    &&& p[i + 1] == '.'
    &&& (i == 0 || is_separator(p[i - 1]))
    &&& (i + 2 == p.len() || is_separator(p[i + 2]))
}

/// A segment that is exactly `.` begins at `i`.
pub open spec fn current_segment_at(p: Seq<char>, i: int) -> bool {
    &&& 0 <= i
    &&& i + 1 <= p.len()
    &&& p[i] == '.'
    &&& (i == 0 || is_separator(p[i - 1]))
    &&& (i + 1 == p.len() || is_separator(p[i + 1]))
}

pub open spec fn has_parent_segment(p: Seq<char>) -> bool {
    exists|i: int| parent_segment_at(p, i)
}

pub open spec fn has_current_segment(p: Seq<char>) -> bool {
    exists|i: int| current_segment_at(p, i)
}

/// An entry path that names something under the destination directory:
/// not empty, not absolute, and with no `..` segment that could climb out.
pub open spec fn is_safe_entry_path(p: Seq<char>) -> bool {
    &&& p.len() > 0
    &&& !is_separator(p[0])
    &&& !has_parent_segment(p)
}

/// A path in resolved form: absolute, with no `.` or `..` segment left.
pub open spec fn is_resolved_path(p: Seq<char>) -> bool {
    &&& p.len() > 0
    &&& is_separator(p[0])
    &&& !has_parent_segment(p)
    &&& !has_current_segment(p)
}

/// `dir` joined with the relative path `rel`, with one separator between.
pub open spec fn joined(dir: Seq<char>, rel: Seq<char>) -> Seq<char> {
    if dir.len() == 0 {
        rel
    } else if is_separator(dir.last()) {
        dir + rel
    } else {
        dir + seq!['/'] + rel
    }
}

fn separator(c: char) -> (r: bool)
    ensures
        r == is_separator(c),
{
    c == '/' || c == '\\'
}

/// Whether some segment of `p` is exactly `..`.
pub fn contains_parent_segment(p: &str) -> (r: bool)
    ensures
        r == has_parent_segment(p@),
{
    let n = p.unicode_len();
    let mut i: usize = 0;
    while i < n
        invariant
            n == p@.len(),
            i <= n,
            forall|j: int| 0 <= j < i ==> !parent_segment_at(p@, j),
        decreases n - i,
    {
        if i + 1 < n && p.get_char(i) == '.' && p.get_char(i + 1) == '.' && (i == 0
            || separator(p.get_char(i - 1))) && (i + 2 == n || separator(p.get_char(i + 2))) {
            assert(parent_segment_at(p@, i as int));
            return true;
        }
        i = i + 1;
    }
    assert forall|j: int| !parent_segment_at(p@, j) by {
        if 0 <= j < n {
        }
    }
    false
}

/// Whether some segment of `p` is exactly `.`.
pub fn contains_current_segment(p: &str) -> (r: bool)
    ensures
        r == has_current_segment(p@),
{
    let n = p.unicode_len();
    let mut i: usize = 0;
    while i < n
        invariant
            n == p@.len(),
            i <= n,
            forall|j: int| 0 <= j < i ==> !current_segment_at(p@, j),
        decreases n - i,
    {
        if p.get_char(i) == '.' && (i == 0 || separator(p.get_char(i - 1))) && (i + 1 == n
            || separator(p.get_char(i + 1))) {
            assert(current_segment_at(p@, i as int));
            return true;
        }
        i = i + 1;
    }
    assert forall|j: int| !current_segment_at(p@, j) by {
        if 0 <= j < n {
        }
    }
    false
}

/// Whether `p` may be written under the destination directory.
pub fn is_safe_entry(p: &str) -> (r: bool)
    ensures
        r == is_safe_entry_path(p@),
{
    if p.unicode_len() == 0 {
        return false;
    }
    !separator(p.get_char(0)) && !contains_parent_segment(p)
}

/// Whether `p` is absolute and free of `.` and `..` segments.
pub fn is_resolved(p: &str) -> (r: bool)
    ensures
        r == is_resolved_path(p@),
{
    if p.unicode_len() == 0 {
        return false;
    }
    separator(p.get_char(0)) && !contains_parent_segment(p) && !contains_current_segment(p)
}

/// Joins the relative path `rel` onto the directory `dir`.
pub fn join(dir: &str, rel: &str) -> (r: String)
    ensures
        r@ == joined(dir@, rel@),
{
    let n = dir.unicode_len();
    if n == 0 {
        return rel.to_owned();
    }
    let mut r = dir.to_owned();
    if !separator(dir.get_char(n - 1)) {
        proof {
            reveal_strlit("/");
        }
        r.append("/");
    }
    r.append(rel);
    r
}

} // verus!
