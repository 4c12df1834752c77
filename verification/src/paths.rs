//! File eligibility: which paths the aggregator analyzes.
//!
//! A path is analyzed when its final component (after the last `/`) carries a
//! `.py` extension with a non-empty stem, and no part of the path names a
//! bytecode cache or a virtual environment. Exclusion is by substring of the
//! whole path, the minimal acceptable matching.

use vstd::prelude::*;
use crate::text::{contains_substr, has_substring};

verus! {

/// The final path component ends in `.py` with at least one character of stem:
/// the four last characters exist, the last three are `.py`, and the fourth
/// from the end is not a separator.
pub open spec fn has_py_extension(p: Seq<char>) -> bool {
    &&& p.len() >= 4
    &&& p[p.len() - 3] == '.'
    &&& p[p.len() - 2] == 'p'
    &&& p[p.len() - 1] == 'y'
    &&& p[p.len() - 4] != '/'
}

/// The path lies under a bytecode-cache or virtual-environment segment.
pub open spec fn excluded_path(p: Seq<char>) -> bool {
    ||| has_substring(p, "__pycache__"@)
    ||| has_substring(p, "venv"@)
}

/// The aggregator analyzes exactly the paths for which this holds.
pub open spec fn eligible_path(p: Seq<char>) -> bool {
    has_py_extension(p) && !excluded_path(p)
}

/// Decides eligibility of one path.
pub fn is_eligible_path(p: &str) -> (r: bool)
    ensures
        r == eligible_path(p@),
{
    let n: usize = p.unicode_len();
    if n < 4 {
        return false;
    }
    let dot: char = p.get_char(n - 3);
    let cp: char = p.get_char(n - 2);
    let cy: char = p.get_char(n - 1);
    let stem: char = p.get_char(n - 4);
    if !(dot == '.' && cp == 'p' && cy == 'y' && stem != '/') {
        return false;
    }
    if contains_substr(p, "__pycache__") {
        return false;
    }
    if contains_substr(p, "venv") {
        return false;
    }
    true
}

} // verus!
