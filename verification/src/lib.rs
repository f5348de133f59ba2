//! A verified core for a small package-manager front end.
//!
//! The library holds the logic that can be stated and proved: parsing
//! package specifications, filtering requirement lines, reconciling
//! per-item installation outcomes into a registry, and building the
//! aggregate batch report.  Everything that touches the outside world
//! (subprocesses, files, terminals) lives in the surrounding binary.

mod batch;
mod commands;
mod errors;
mod numbers;
mod parse;
mod query;
mod registry;
mod requirements;
mod text;

pub use batch::{
    batch_status, merge_outcomes, outcome_for, plan_batch, render_summary,
    resolve_success_version, run_batch, BatchReport, InstallEvent, InstallationOutcome,
};
pub use commands::{
    apply_delete_result, apply_update_result, classify_install_command, format_package_line,
    handle_list_command, list_packages, sorted_records, validate_delete_name,
    validate_update_args, Cli, Commands, InstallDispatch,
};
pub use errors::{get_exit_code, PackageError};
pub use numbers::usize_to_string;
pub use parse::{parse_package_spec, render_install_arg, PackageSpec};
pub use query::extract_version;
pub use registry::{Package, PackageRegistry};
pub use requirements::filter_requirement_lines;
pub use text::{contains_space, find_separator, is_space_char, str_eq, str_le, str_starts_with, trim_str};
