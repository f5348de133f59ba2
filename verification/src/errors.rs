//! The error type shared by every operation, and its exit-code mapping.

use vstd::prelude::*;
use vstd::string::*;

verus! {

/// Why a package operation failed.
///
/// The variants that the outside world produces (an I/O failure, a
/// serialisation failure) carry the collaborator's diagnostic text as a
/// plain string, so that the whole type stays in the verified library.
#[derive(Debug, Clone, PartialEq)]
pub enum PackageError {
    /// An I/O operation failed.
    IoError(String),
    /// No working Python executable could be located.
    PythonNotFound,
    /// An installation command reported failure.
    InstallationFailed(String),
    /// An uninstallation command reported failure.
    UninstallationFailed(String),
    /// A package specification could not be parsed.
    InvalidPackageSpec(String),
    /// The registry file could not be serialised or deserialised.
    JsonError(String),
    /// The named package is not in the registry.
    PackageNotFound(String),
}

/// The process exit code that each error maps to.
pub open spec fn spec_exit_code(e: PackageError) -> i32 {
    match e {
        PackageError::PythonNotFound => 3,
        PackageError::InstallationFailed(_) => 4,
        PackageError::UninstallationFailed(_) => 4,
        PackageError::InvalidPackageSpec(_) => 5,
        PackageError::PackageNotFound(_) => 6,
        _ => 1,
    }
}

/// Maps an error to the exit code the process should end with.
pub fn get_exit_code(error: &PackageError) -> (code: i32)
    ensures
        code == spec_exit_code(*error),
{
    match error {
        PackageError::PythonNotFound => 3,
        PackageError::InstallationFailed(_) => 4,
        PackageError::UninstallationFailed(_) => 4,
        PackageError::InvalidPackageSpec(_) => 5,
        PackageError::PackageNotFound(_) => 6,
        _ => 1,
    }
}

/// The one-line description of each error.
pub open spec fn spec_describe(e: PackageError) -> Seq<char> {
    match e {
        PackageError::IoError(m) => "IO error: "@ + m@,
        PackageError::PythonNotFound => "Python executable not found"@,
        PackageError::InstallationFailed(m) => "Installation failed: "@ + m@,
        PackageError::UninstallationFailed(m) => "Uninstallation failed: "@ + m@,
        PackageError::InvalidPackageSpec(m) => "Invalid package spec: "@ + m@,
        PackageError::JsonError(m) => "JSON error: "@ + m@,
        PackageError::PackageNotFound(m) => "Package not found: "@ + m@,
    }
}

impl PackageError {
    /// Renders the error as a single display line.
    pub fn describe(&self) -> (r: String)
        ensures
            r@ == spec_describe(*self),
    {
        match self {
            PackageError::IoError(m) => {
                let mut s = String::from_str("IO error: ");
                s.append(m.as_str());
                s
            },
            PackageError::PythonNotFound => String::from_str("Python executable not found"),
            PackageError::InstallationFailed(m) => {
                let mut s = String::from_str("Installation failed: ");
                s.append(m.as_str());
                s
            },
            PackageError::UninstallationFailed(m) => {
                let mut s = String::from_str("Uninstallation failed: ");
                s.append(m.as_str());
                s
            },
            PackageError::InvalidPackageSpec(m) => {
                let mut s = String::from_str("Invalid package spec: ");
                s.append(m.as_str());
                s
            },
            PackageError::JsonError(m) => {
                let mut s = String::from_str("JSON error: ");
                s.append(m.as_str());
                s
            },
            PackageError::PackageNotFound(m) => {
                let mut s = String::from_str("Package not found: ");
                s.append(m.as_str());
                s
            },
        }
    }
}

} // verus!
