//! Filtering the lines of a requirements file down to package tokens.
//!
//! A line is kept, trimmed, when it is non-empty, is no comment, and —
//! unless it carries the `==` separator — holds no whitespace.

use vstd::prelude::*;
use vstd::string::*;

use crate::text::{
    contains_space, find_separator, spec_find_sep, spec_has_space, spec_trim, strs_view, trim_str,
};

verus! {

/// Whether a line of a requirements file names a package: non-empty
/// after trimming, not a `#` comment, and free of whitespace unless it
/// is a `name==version` pair.
pub open spec fn spec_keep_line(l: Seq<char>) -> bool {
    let t = spec_trim(l);
    t.len() > 0 && t[0] != '#' && !(spec_has_space(t) && spec_find_sep(t) is None)
}

/// The package tokens of a requirements file, in order: each kept
/// line, trimmed.
pub open spec fn spec_filter_requirements(lines: Seq<Seq<char>>) -> Seq<Seq<char>>
    decreases lines.len(),
{
    if lines.len() == 0 {
        Seq::empty()
    } else {
        let front = spec_filter_requirements(lines.drop_last());
        if spec_keep_line(lines.last()) {
            front.push(spec_trim(lines.last()))
        } else {
            front
        }
    }
}

/// Keeps the lines that name a package, trimmed and in order; blank
/// lines, comments and malformed lines are dropped.
pub fn filter_requirement_lines(lines: &Vec<String>) -> (r: Vec<String>)
    ensures
        strs_view(r@) == spec_filter_requirements(strs_view(lines@)),
{
    let ghost raws = strs_view(lines@);
    let n = lines.len();
    let mut kept: Vec<String> = Vec::new();
    let mut i: usize = 0;
    while i < n
        invariant
            n == lines@.len(),
            raws == strs_view(lines@),
            0 <= i <= n,
            strs_view(kept@) == spec_filter_requirements(raws.take(i as int)),
        decreases n - i,
    {
        proof {
            assert(raws.take(i + 1).drop_last() =~= raws.take(i as int));
            assert(raws.take(i + 1).last() == lines@[i as int]@);
        }
        let t = trim_str(lines[i].as_str());
        let keep = t.unicode_len() > 0 && t.get_char(0) != '#' && !(contains_space(t)
            && find_separator(t).is_none());
        if keep {
            kept.push(String::from_str(t));
            proof {
                assert(strs_view(kept@) =~= spec_filter_requirements(raws.take(i + 1)));
            }
        }
        i = i + 1;
    }
    proof {
        assert(raws.take(n as int) =~= raws);
    }
    kept
}

} // verus!
