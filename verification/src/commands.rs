//! The decisions behind the single commands: which form an install
//! invocation takes, when delete and update arguments are acceptable,
//! how their results change the registry, and the listing.

use vstd::prelude::*;
use vstd::string::*;

use crate::errors::PackageError;
use crate::numbers::{spec_decimal, usize_to_string};
use crate::registry::{Package, PackageRegistry};
use crate::text::{
    lemma_lex_le_total, lemma_lex_le_trans, spec_lex_le, spec_starts_with, spec_trim,
    str_le, str_starts_with, strs_view, trim_str,
};

verus! {

/// One parsed command-line invocation.
#[derive(Debug, Clone, PartialEq)]
pub struct Cli {
    /// The command to execute.
    pub command: Commands,
}

/// The commands the front end accepts.
#[derive(Debug, Clone, PartialEq)]
pub enum Commands {
    /// Install packages, optionally in parallel.
    Install { packages: Vec<String>, parallel: bool },
    /// Delete one package.
    Delete { name: String },
    /// Update one package to a pinned version.
    Update { name: String, version: String },
    /// List the installed packages.
    List,
}

/// How an install invocation is to be dispatched.
#[derive(Debug, Clone, PartialEq)]
pub enum InstallDispatch {
    /// The arguments are package tokens to install directly.
    Direct,
    /// The single argument named a requirements file to read.
    FromRequirements { path: String },
}

/// What a list of install arguments means: a requirements-file path
/// when the single argument starts with `-r=`, the direct form
/// otherwise, or a diagnostic when the list is empty or the path is.
pub open spec fn spec_classify(raws: Seq<Seq<char>>) -> Result<Option<Seq<char>>, Seq<char>> {
    if raws.len() == 0 {
        Err("No packages specified"@)
    } else if raws.len() == 1 && spec_starts_with(raws[0], "-r="@) {
        let path = raws[0].subrange("-r="@.len() as int, raws[0].len() as int);
        if path.len() == 0 {
            Err("Empty requirements file path"@)
        } else {
            Ok(Some(path))
        }
    } else {
        Ok(None)
    }
}

/// Decides how an install invocation is dispatched: exactly as the
/// specification-level classification says, with every rejection an
/// `InvalidPackageSpec` carrying its diagnostic.
pub fn classify_install_command(packages: &Vec<String>) -> (r: Result<
    InstallDispatch,
    PackageError,
>)
    ensures
        match r {
            Ok(d) => match spec_classify(strs_view(packages@)) {
                Ok(p) => match d {
                    InstallDispatch::Direct => p is None,
                    InstallDispatch::FromRequirements { path } => p == Some(path@),
                },
                Err(_) => false,
            },
            Err(e) => match e {
                PackageError::InvalidPackageSpec(m) => spec_classify(strs_view(packages@))
                    == Err::<Option<Seq<char>>, Seq<char>>(m@),
                _ => false,
            },
        },
{
    proof {
        reveal_strlit("-r=");
    }
    if packages.len() == 0 {
        return Err(PackageError::InvalidPackageSpec(String::from_str("No packages specified")));
    }
    let first = packages[0].as_str();
    if packages.len() == 1 && str_starts_with(first, "-r=") {
        let path = first.substring_char(3, first.unicode_len());
        proof {
            assert(path@ =~= strs_view(packages@)[0].subrange(3, strs_view(packages@)[0].len() as int));
        }
        if path.unicode_len() == 0 {
            return Err(
                PackageError::InvalidPackageSpec(String::from_str("Empty requirements file path")),
            );
        }
        return Ok(InstallDispatch::FromRequirements { path: String::from_str(path) });
    }
    Ok(InstallDispatch::Direct)
}

/// Checks the name handed to a delete: rejected exactly when it is
/// empty after trimming.
pub fn validate_delete_name(name: &str) -> (r: Result<(), PackageError>)
    ensures
        match r {
            Ok(_) => spec_trim(name@).len() > 0,
            Err(e) => spec_trim(name@).len() == 0 && match e {
                PackageError::InvalidPackageSpec(m) => m@ == "Package name cannot be empty"@,
                _ => false,
            },
        },
{
    let t = trim_str(name);
    if t.unicode_len() == 0 {
        Err(PackageError::InvalidPackageSpec(String::from_str("Package name cannot be empty")))
    } else {
        Ok(())
    }
}

/// Checks the arguments handed to an update: rejected exactly when the
/// name or the version is empty after trimming.
pub fn validate_update_args(name: &str, version: &str) -> (r: Result<(), PackageError>)
    ensures
        match r {
            Ok(_) => spec_trim(name@).len() > 0 && spec_trim(version@).len() > 0,
            Err(e) => (spec_trim(name@).len() == 0 || spec_trim(version@).len() == 0) && match e {
                PackageError::InvalidPackageSpec(m) => m@
                    == "Package name and version cannot be empty"@,
                _ => false,
            },
        },
{
    let tn = trim_str(name);
    let tv = trim_str(version);
    if tn.unicode_len() == 0 || tv.unicode_len() == 0 {
        Err(
            PackageError::InvalidPackageSpec(
                String::from_str("Package name and version cannot be empty"),
            ),
        )
    } else {
        Ok(())
    }
}

/// Applies the result of an uninstall attempt: on success the entry
/// leaves the registry and the call succeeds; on failure the registry
/// keeps every entry and the captured diagnostic is returned.
pub fn apply_delete_result(
    registry: &mut PackageRegistry,
    name: &str,
    exit_ok: bool,
    error_message: &str,
) -> (r: Result<(), PackageError>)
    requires
        old(registry).wf(),
    ensures
        final(registry).wf(),
        exit_ok ==> final(registry)@ == old(registry)@.remove(name@) && r is Ok,
        !exit_ok ==> final(registry)@ == old(registry)@ && match r {
            Err(e) => match e {
                PackageError::UninstallationFailed(m) => m@ == error_message@,
                _ => false,
            },
            Ok(_) => false,
        },
{
    if exit_ok {
        let _ = registry.remove_package(name);
        Ok(())
    } else {
        Err(PackageError::UninstallationFailed(String::from_str(error_message)))
    }
}

/// Applies the result of an upgrade attempt: on success the entry is
/// upserted under the externally resolved version and the call
/// succeeds; on failure the registry keeps every entry and the
/// captured diagnostic is returned.
pub fn apply_update_result(
    registry: &mut PackageRegistry,
    name: &str,
    resolved_version: &str,
    exit_ok: bool,
    error_message: &str,
) -> (r: Result<(), PackageError>)
    requires
        old(registry).wf(),
    ensures
        final(registry).wf(),
        exit_ok ==> final(registry)@ == old(registry)@.insert(name@, resolved_version@) && r is Ok,
        !exit_ok ==> final(registry)@ == old(registry)@ && match r {
            Err(e) => match e {
                PackageError::InstallationFailed(m) => m@ == error_message@,
                _ => false,
            },
            Ok(_) => false,
        },
{
    if exit_ok {
        let package = Package::new(String::from_str(name), String::from_str(resolved_version));
        registry.add_package(package);
        Ok(())
    } else {
        Err(PackageError::InstallationFailed(String::from_str(error_message)))
    }
}

/// Whether the records stand in lexicographic order of their names.
pub open spec fn sorted_by_name(s: Seq<Package>) -> bool {
    forall|i: int, j: int| 0 <= i < j < s.len() ==> spec_lex_le(s[i].name@, s[j].name@)
}

/// Whether `rs` lists exactly the entries of the registry map `m`,
/// sorted by name.
pub open spec fn is_registry_listing(m: Map<Seq<char>, Seq<char>>, rs: Seq<Package>) -> bool {
    &&& rs.len() == m.dom().len()
    &&& forall|i: int|
        0 <= i < rs.len() ==> m.contains_key(#[trigger] rs[i].name@) && m[rs[i].name@]
            == rs[i].version@
    &&& forall|k: Seq<char>|
        m.contains_key(k) ==> exists|i: int| 0 <= i < rs.len() && #[trigger] rs[i].name@ == k
    &&& sorted_by_name(rs)
}

fn copy_package(p: &Package) -> (r: Package)
    ensures
        r == *p,
{
    let r = Package::new(p.name.clone(), p.version.clone());
    r
}

fn insert_sorted(out: &mut Vec<Package>, p: Package)
    requires
        sorted_by_name(old(out)@),
    ensures
        sorted_by_name(final(out)@),
        final(out)@.to_multiset() == old(out)@.to_multiset().insert(p),
{
    broadcast use vstd::seq_lib::group_to_multiset_ensures;

    let n = out.len();
    let mut k: usize = 0;
    while k < n && str_le(out[k].name.as_str(), p.name.as_str())
        invariant
            n == out@.len(),
            sorted_by_name(out@),
            0 <= k <= n,
            forall|j: int| 0 <= j < k ==> spec_lex_le(#[trigger] out@[j].name@, p.name@),
        decreases n - k,
    {
        k = k + 1;
    }
    proof {
        if k < n {
            lemma_lex_le_total(out@[k as int].name@, p.name@);
        }
    }
    let ghost pre = out@;
    out.insert(k, p);
    proof {
        assert forall|i: int, j: int| 0 <= i < j < out@.len() implies spec_lex_le(
            out@[i].name@,
            out@[j].name@,
        ) by {
            if j < k {
            } else if i < k && j == k {
            } else if i < k && j > k {
                assert(out@[j] == pre[j - 1]);
            } else if i == k {
                assert(out@[j] == pre[j - 1]);
                if j == k + 1 {
                } else if k < pre.len() {
                    assert(spec_lex_le(pre[k as int].name@, pre[j - 1].name@));
                    lemma_lex_le_trans(p.name@, pre[k as int].name@, pre[j - 1].name@);
                }
            }
        }
    }
}

/// Returns the registry's entries as records sorted by name: one
/// record per entry, every entry covered.
pub fn sorted_records(registry: &PackageRegistry) -> (r: Vec<Package>)
    requires
        registry.wf(),
    ensures
        is_registry_listing(registry@, r@),
{
    broadcast use vstd::seq_lib::group_to_multiset_ensures;

    let records = registry.records();
    let ghost r0 = records@;
    let n = records.len();
    let mut out: Vec<Package> = Vec::new();
    let mut i: usize = 0;
    while i < n
        invariant
            n == r0.len(),
            records@ == r0,
            0 <= i <= n,
            sorted_by_name(out@),
            out@.to_multiset() == r0.take(i as int).to_multiset(),
        decreases n - i,
    {
        proof {
            assert(r0.take(i + 1).drop_last() =~= r0.take(i as int));
            assert(r0.take(i + 1) =~= r0.take(i as int).push(r0[i as int]));
        }
        let p = copy_package(&records[i]);
        insert_sorted(&mut out, p);
        proof {
            vstd::seq_lib::to_multiset_build(r0.take(i as int), r0[i as int]);
        }
        i = i + 1;
    }
    proof {
        assert(r0.take(n as int) =~= r0);
        assert(out@.to_multiset() == r0.to_multiset());
        assert(out@.len() == out@.to_multiset().len());
        assert(r0.len() == r0.to_multiset().len());
        assert(out@.len() == r0.len());
        assert forall|i2: int| 0 <= i2 < out@.len() implies registry@.contains_key(
            #[trigger] out@[i2].name@,
        ) && registry@[out@[i2].name@] == out@[i2].version@ by {
            assert(out@.contains(out@[i2]));
            assert(out@.to_multiset().count(out@[i2]) > 0);
            assert(r0.contains(out@[i2]));
            let j = choose|j: int| 0 <= j < r0.len() && r0[j] == out@[i2];
            assert(registry@.contains_key(r0[j].name@));
        }
        assert forall|k: Seq<char>| registry@.contains_key(k) implies exists|i2: int|
            0 <= i2 < out@.len() && #[trigger] out@[i2].name@ == k by {
            let j = choose|j: int| 0 <= j < r0.len() && #[trigger] r0[j].name@ == k;
            assert(r0.contains(r0[j]));
            assert(r0.to_multiset().count(r0[j]) > 0);
            assert(out@.contains(r0[j]));
            let i2 = choose|i2: int| 0 <= i2 < out@.len() && out@[i2] == r0[j];
            assert(out@[i2].name@ == k);
        }
    }
    out
}

/// The display line of one installed package.
pub open spec fn spec_package_line(name: Seq<char>, version: Seq<char>) -> Seq<char> {
    "  "@ + name + " @ "@ + version
}

/// Renders the display line of one installed package.
pub fn format_package_line(p: &Package) -> (r: String)
    ensures
        r@ == spec_package_line(p.name@, p.version@),
{
    let mut s = String::from_str("  ");
    s.append(p.name.as_str());
    s.append(" @ ");
    s.append(p.version.as_str());
    s
}

/// The header line above a listing of `n` packages.
pub open spec fn spec_list_header(n: nat) -> Seq<char> {
    "Installed packages ("@ + spec_decimal(n) + " total):"@
}

/// What a listing of the registry map `m` looks like: the single
/// no-package line for an empty registry, else a header with the count
/// followed by one line per entry, sorted by name.
pub open spec fn is_listing_output(m: Map<Seq<char>, Seq<char>>, lines: Seq<String>) -> bool {
    if m.dom() == Set::<Seq<char>>::empty() {
        strs_view(lines) == seq!["No packages installed"@]
    } else {
        exists|rs: Seq<Package>|
            #![auto]
            is_registry_listing(m, rs) && strs_view(lines) == seq![spec_list_header(m.dom().len())]
                + rs.map_values(|p: Package| spec_package_line(p.name@, p.version@))
    }
}

/// Renders the registry as its display lines: a header with the count
/// and one line per package, sorted by name, or a single line when
/// nothing is installed.
pub fn list_packages(registry: &PackageRegistry) -> (lines: Vec<String>)
    requires
        registry.wf(),
    ensures
        is_listing_output(registry@, lines@),
{
    if registry.is_empty() {
        let mut lines: Vec<String> = Vec::new();
        lines.push(String::from_str("No packages installed"));
        proof {
            assert(strs_view(lines@) =~= seq!["No packages installed"@]);
        }
        return lines;
    }
    let count = registry.count();
    let rs = sorted_records(registry);
    let mut lines: Vec<String> = Vec::new();
    let mut header = String::from_str("Installed packages (");
    header.append(usize_to_string(count).as_str());
    header.append(" total):");
    lines.push(header);
    let n = rs.len();
    let ghost rsv = rs@;
    let mut i: usize = 0;
    while i < n
        invariant
            n == rsv.len(),
            rs@ == rsv,
            0 <= i <= n,
            lines@.len() == i + 1,
            strs_view(lines@) == seq![spec_list_header(registry@.dom().len())] + rsv.take(
                i as int,
            ).map_values(|p: Package| spec_package_line(p.name@, p.version@)),
        decreases n - i,
    {
        let ghost prev = lines@;
        lines.push(format_package_line(&rs[i]));
        proof {
            let f = |p: Package| spec_package_line(p.name@, p.version@);
            assert(rsv.take(i + 1) =~= rsv.take(i as int).push(rsv[i as int]));
            assert(rsv.take(i + 1).map_values(f) =~= rsv.take(i as int).map_values(f).push(
                f(rsv[i as int]),
            ));
            assert(strs_view(lines@) =~= strs_view(prev).push(lines@.last()@));
            assert(lines@.last()@ == f(rsv[i as int]));
            assert(strs_view(prev).push(f(rsv[i as int])) =~= seq![
                spec_list_header(registry@.dom().len()),
            ] + rsv.take(i + 1).map_values(f));
            assert(strs_view(lines@) =~= seq![spec_list_header(registry@.dom().len())] + rsv.take(
                i + 1,
            ).map_values(f));
        }
        i = i + 1;
    }
    proof {
        assert(rsv.take(n as int) =~= rsv);
        assert(is_registry_listing(registry@, rsv) && strs_view(lines@) == seq![
            spec_list_header(registry@.dom().len()),
        ] + rsv.map_values(|p: Package| spec_package_line(p.name@, p.version@)));
    }
    lines
}

/// Handles the list command: always succeeds, with the registry's
/// display lines.
pub fn handle_list_command(registry: &PackageRegistry) -> (r: Result<Vec<String>, PackageError>)
    requires
        registry.wf(),
    ensures
        match r {
            Ok(lines) => is_listing_output(registry@, lines@),
            Err(_) => false,
        },
{
    Ok(list_packages(registry))
}

} // verus!
