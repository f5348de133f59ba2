//! Parsing a raw package token into a name and an optional version.
//!
//! A token is trimmed first.  If the two-character separator `==` occurs,
//! the part before its first occurrence is the name and the part after it
//! is the version, both trimmed and both required non-empty.  Without the
//! separator the whole trimmed token is the name, which must be non-empty
//! and free of whitespace.

use vstd::prelude::*;
use vstd::string::*;

use crate::errors::PackageError;
use crate::text::{
    contains_space, find_separator, spec_find_sep, spec_has_space, spec_sep_at, spec_trim,
    trim_str, lemma_find_sep_props,
};

verus! {

/// A parsed package specification: a name and an optional pinned version.
#[derive(Debug, Clone, PartialEq)]
pub struct PackageSpec {
    /// The package name.
    pub name: String,
    /// The pinned version, when the token carried one.
    pub version: Option<String>,
}

/// The view of an optional string.
pub open spec fn opt_view(v: Option<String>) -> Option<Seq<char>> {
    match v {
        Some(s) => Some(s@),
        None => None,
    }
}

impl PackageSpec {
    /// The mathematical content of the specification.
    pub open spec fn model(self) -> (Seq<char>, Option<Seq<char>>) {
        (self.name@, opt_view(self.version))
    }
}

/// What parsing a raw token yields: the name and optional version on
/// success, the diagnostic message on failure.
pub open spec fn spec_parse(raw: Seq<char>) -> Result<(Seq<char>, Option<Seq<char>>), Seq<char>> {
    let t = spec_trim(raw);
    if t.len() == 0 {
        Err("Empty package specification"@)
    } else {
        match spec_find_sep(t) {
            Some(i) => {
                let name = spec_trim(t.subrange(0, i));
                let version = spec_trim(t.subrange(i + 2, t.len() as int));
                if name.len() == 0 || version.len() == 0 {
                    Err("Invalid package specification: "@ + t)
                } else {
                    Ok((name, Some(version)))
                }
            },
            None => {
                if spec_has_space(t) {
                    Err("Invalid package specification: "@ + t)
                } else {
                    Ok((t, None))
                }
            },
        }
    }
}

/// Whether an executable parse result means what the specification-level
/// parse says of the raw token.
pub open spec fn parse_result_matches(
    r: Result<(String, Option<String>), PackageError>,
    raw: Seq<char>,
) -> bool {
    match r {
        Ok(p) => match spec_parse(raw) {
            Ok(sp) => p.0@ == sp.0 && opt_view(p.1) == sp.1,
            Err(_) => false,
        },
        Err(e) => match e {
            PackageError::InvalidPackageSpec(m) => match spec_parse(raw) {
                Ok(_) => false,
                Err(msg) => m@ == msg,
            },
            _ => false,
        },
    }
}

/// Parses a raw token into a package name and optional version.
///
/// Succeeds exactly when the specification-level parse does, with the
/// same name, version and diagnostic message; every failure is an
/// `InvalidPackageSpec`.
pub fn parse_package_spec(raw: &str) -> (r: Result<(String, Option<String>), PackageError>)
    ensures
        parse_result_matches(r, raw@),
{
    let t = trim_str(raw);
    let n = t.unicode_len();
    if n == 0 {
        return Err(
            PackageError::InvalidPackageSpec(String::from_str("Empty package specification")),
        );
    }
    match find_separator(t) {
        Some(i) => {
            proof {
                lemma_find_sep_props(t@);
                assert(spec_sep_at(t@, i as int));
            }
            let name_part = t.substring_char(0, i);
            let ver_part = t.substring_char(i + 2, n);
            let name = trim_str(name_part);
            let ver = trim_str(ver_part);
            if name.unicode_len() == 0 || ver.unicode_len() == 0 {
                let mut m = String::from_str("Invalid package specification: ");
                m.append(t);
                Err(PackageError::InvalidPackageSpec(m))
            } else {
                Ok((String::from_str(name), Some(String::from_str(ver))))
            }
        },
        None => {
            if contains_space(t) {
                let mut m = String::from_str("Invalid package specification: ");
                m.append(t);
                Err(PackageError::InvalidPackageSpec(m))
            } else {
                Ok((String::from_str(t), None))
            }
        },
    }
}

/// Parsing is deterministic and pure: any two results obtained for the
/// same raw token agree — same acceptance, same name, same version,
/// same diagnostic.
pub proof fn lemma_parse_deterministic(
    r1: Result<(String, Option<String>), PackageError>,
    r2: Result<(String, Option<String>), PackageError>,
    raw: Seq<char>,
)
    requires
        parse_result_matches(r1, raw),
        parse_result_matches(r2, raw),
    ensures
        match (r1, r2) {
            (Ok(p1), Ok(p2)) => p1.0@ == p2.0@ && opt_view(p1.1) == opt_view(p2.1),
            (Err(e1), Err(e2)) => match (e1, e2) {
                (
                    PackageError::InvalidPackageSpec(m1),
                    PackageError::InvalidPackageSpec(m2),
                ) => m1@ == m2@,
                _ => false,
            },
            _ => false,
        },
{
}

/// The token handed to the installer for a parsed specification:
/// `name` alone, or `name==version` for a pinned one.
pub open spec fn spec_render_arg(name: Seq<char>, version: Option<Seq<char>>) -> Seq<char> {
    match version {
        Some(v) => name + "=="@ + v,
        None => name,
    }
}

/// Builds the installer token for a specification.
pub fn render_install_arg(p: &PackageSpec) -> (r: String)
    ensures
        r@ == spec_render_arg(p.name@, opt_view(p.version)),
{
    match &p.version {
        Some(v) => {
            let mut s = p.name.clone();
            s.append("==");
            s.append(v.as_str());
            s
        },
        None => p.name.clone(),
    }
}

} // verus!
