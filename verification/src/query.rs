//! Reading the installed version out of the external tool's report.
//!
//! The report is scanned line by line; the first line that starts with
//! `Version: ` carries the version, trimmed.  Without such a line the
//! version is the sentinel `unknown`.

use vstd::prelude::*;
use vstd::string::*;

use crate::text::{
    find_char_from, spec_find_char, spec_starts_with, spec_trim, str_starts_with, trim_str,
};

verus! {

/// The lines of a text: the pieces between line feeds, in order.
pub open spec fn spec_lines(s: Seq<char>) -> Seq<Seq<char>>
    decreases s.len(),
{
    match spec_find_char(s, '\n') {
        Some(i) => if 0 <= i < s.len() {
            seq![s.subrange(0, i)] + spec_lines(s.subrange(i + 1, s.len() as int))
        } else {
            seq![s]
        },
        None => seq![s],
    }
}

/// The version a single line reports, if it is a `Version: ` line.
pub open spec fn spec_version_of_line(l: Seq<char>) -> Option<Seq<char>> {
    if spec_starts_with(l, "Version: "@) {
        Some(spec_trim(l.subrange("Version: "@.len() as int, l.len() as int)))
    } else {
        None
    }
}

/// The version the first `Version: ` line reports, if any line does.
pub open spec fn spec_first_version(lines: Seq<Seq<char>>) -> Option<Seq<char>>
    decreases lines.len(),
{
    if lines.len() == 0 {
        None
    } else {
        match spec_version_of_line(lines[0]) {
            Some(v) => Some(v),
            None => spec_first_version(lines.subrange(1, lines.len() as int)),
        }
    }
}

/// The version the whole report yields: the first reported one, or the
/// sentinel `unknown`.
pub open spec fn spec_extract_version(out: Seq<char>) -> Seq<char> {
    match spec_first_version(spec_lines(out)) {
        Some(v) => v,
        None => "unknown"@,
    }
}

/// Reads the installed version out of the external tool's report.
pub fn extract_version(output: &str) -> (r: String)
    ensures
        r@ == spec_extract_version(output@),
{
    let n = output.unicode_len();
    proof {
        assert(output@.subrange(0, n as int) =~= output@);
    }
    let mut pos: usize = 0;
    loop
        invariant
            n == output@.len(),
            0 <= pos <= n,
            spec_first_version(spec_lines(output@)) == spec_first_version(
                spec_lines(output@.subrange(pos as int, n as int)),
            ),
        decreases n - pos,
    {
        let ghost suffix = output@.subrange(pos as int, n as int);
        let line_end: usize;
        let next_pos: Option<usize>;
        match find_char_from(output, '\n', pos) {
            Some(off) => {
                proof {
                    crate::text::lemma_find_char_props(suffix, '\n');
                }
                line_end = pos + off;
                next_pos = Some(pos + off + 1);
            },
            None => {
                line_end = n;
                next_pos = None;
            },
        }
        let line = output.substring_char(pos, line_end);
        proof {
            assert(line@ =~= suffix.subrange(0, line_end - pos));
            match spec_find_char(suffix, '\n') {
                Some(i) => {
                    assert(i == line_end - pos);
                    assert(spec_lines(suffix) == seq![suffix.subrange(0, i)] + spec_lines(
                        suffix.subrange(i + 1, suffix.len() as int),
                    ));
                    assert(spec_lines(suffix)[0] == line@);
                },
                None => {
                    assert(line_end == n);
                    assert(line@ =~= suffix);
                    assert(spec_lines(suffix) == seq![suffix]);
                },
            }
        }
        proof {
            reveal_strlit("Version: ");
        }
        if str_starts_with(line, "Version: ") {
            let rest = line.substring_char(9, line.unicode_len());
            let version = trim_str(rest);
            proof {
                assert(rest@ =~= line@.subrange("Version: "@.len() as int, line@.len() as int));
                assert(spec_version_of_line(line@) == Some(version@));
                assert(spec_first_version(spec_lines(suffix)) == Some(version@));
            }
            return String::from_str(version);
        }
        proof {
            assert(spec_version_of_line(line@) is None);
        }
        match next_pos {
            Some(p) => {
                proof {
                    let i = line_end - pos;
                    assert(spec_lines(suffix).subrange(1, spec_lines(suffix).len() as int)
                        =~= spec_lines(suffix.subrange(i + 1, suffix.len() as int)));
                    assert(spec_first_version(spec_lines(suffix)) == spec_first_version(
                        spec_lines(suffix.subrange(i + 1, suffix.len() as int)),
                    ));
                    assert(suffix.subrange(i + 1, suffix.len() as int) =~= output@.subrange(
                        p as int,
                        n as int,
                    ));
                }
                pos = p;
            },
            None => {
                proof {
                    assert(spec_lines(suffix) == seq![suffix]);
                    assert(spec_lines(suffix)[0] == suffix);
                    assert(suffix == line@);
                    assert(spec_version_of_line(suffix) is None);
                    assert(spec_lines(suffix).subrange(1, 1) =~= Seq::<Seq<char>>::empty());
                    assert(spec_first_version(Seq::<Seq<char>>::empty()) is None);
                    assert(spec_first_version(spec_lines(suffix)) is None);
                }
                return String::from_str("unknown");
            },
        }
    }
}

} // verus!
