use python_package_manager::{
    apply_delete_result, apply_update_result, classify_install_command, extract_version,
    filter_requirement_lines, get_exit_code, handle_list_command, list_packages,
    sorted_records, usize_to_string, validate_delete_name, validate_update_args,
    InstallDispatch, Package, PackageError, PackageRegistry,
};

#[test]
fn classify_rejects_empty_argument_list() {
    let packages: Vec<String> = Vec::new();
    match classify_install_command(&packages) {
        Err(PackageError::InvalidPackageSpec(m)) => assert_eq!(m, "No packages specified"),
        other => panic!("unexpected result: {:?}", other),
    }
}

#[test]
fn classify_detects_requirements_file() {
    let packages = vec!["-r=requirements.txt".to_string()];
    match classify_install_command(&packages) {
        Ok(InstallDispatch::FromRequirements { path }) => assert_eq!(path, "requirements.txt"),
        other => panic!("unexpected result: {:?}", other),
    }
}

#[test]
fn classify_rejects_empty_requirements_path() {
    let packages = vec!["-r=".to_string()];
    match classify_install_command(&packages) {
        Err(PackageError::InvalidPackageSpec(m)) => {
            assert_eq!(m, "Empty requirements file path")
        }
        other => panic!("unexpected result: {:?}", other),
    }
}

#[test]
fn classify_takes_plain_tokens_directly() {
    let packages = vec!["numpy".to_string(), "requests==2.0".to_string()];
    assert_eq!(classify_install_command(&packages).unwrap(), InstallDispatch::Direct);
    // The requirements form counts only when it is the single argument.
    let packages = vec!["-r=reqs.txt".to_string(), "numpy".to_string()];
    assert_eq!(classify_install_command(&packages).unwrap(), InstallDispatch::Direct);
}

#[test]
fn validation_of_delete_and_update_arguments() {
    assert!(validate_delete_name("numpy").is_ok());
    match validate_delete_name("   ") {
        Err(PackageError::InvalidPackageSpec(m)) => {
            assert_eq!(m, "Package name cannot be empty")
        }
        other => panic!("unexpected result: {:?}", other),
    }
    assert!(validate_update_args("numpy", "1.0").is_ok());
    match validate_update_args("numpy", " ") {
        Err(PackageError::InvalidPackageSpec(m)) => {
            assert_eq!(m, "Package name and version cannot be empty")
        }
        other => panic!("unexpected result: {:?}", other),
    }
    assert!(validate_update_args("", "1.0").is_err());
}

#[test]
fn delete_applies_only_on_success() {
    let mut registry = PackageRegistry::new();
    registry.add_package(Package::new("a".to_string(), "1.0".to_string()));

    let denied = apply_delete_result(&mut registry, "a", false, "permission denied");
    match denied {
        Err(PackageError::UninstallationFailed(m)) => assert_eq!(m, "permission denied"),
        other => panic!("unexpected result: {:?}", other),
    }
    assert_eq!(registry.get_package("a").unwrap().version, "1.0");

    assert!(apply_delete_result(&mut registry, "a", true, "").is_ok());
    assert_eq!(registry.get_package("a"), None);
}

#[test]
fn update_applies_only_on_success() {
    let mut registry = PackageRegistry::new();
    registry.add_package(Package::new("a".to_string(), "1.0".to_string()));

    let denied = apply_update_result(&mut registry, "a", "2.0", false, "resolver error");
    match denied {
        Err(PackageError::InstallationFailed(m)) => assert_eq!(m, "resolver error"),
        other => panic!("unexpected result: {:?}", other),
    }
    assert_eq!(registry.get_package("a").unwrap().version, "1.0");

    assert!(apply_update_result(&mut registry, "a", "2.0", true, "").is_ok());
    assert_eq!(registry.get_package("a").unwrap().version, "2.0");

    // An update of an absent package inserts it.
    assert!(apply_update_result(&mut registry, "new", "0.1", true, "").is_ok());
    assert_eq!(registry.get_package("new").unwrap().version, "0.1");
}

#[test]
fn extract_version_reads_the_first_version_line() {
    assert_eq!(extract_version("Name: numpy\nVersion: 1.21.0\nSummary: arrays\n"), "1.21.0");
    assert_eq!(extract_version("Version: 2.0\nVersion: 3.0\n"), "2.0");
    assert_eq!(extract_version("Name: numpy\nSummary: arrays\n"), "unknown");
    assert_eq!(extract_version(""), "unknown");
    assert_eq!(extract_version("Version: 1.5\r\n"), "1.5");
}

#[test]
fn requirements_lines_are_filtered_and_trimmed() {
    let lines = vec![
        "numpy==1.21.0".to_string(),
        "".to_string(),
        "   ".to_string(),
        "# a comment".to_string(),
        "  requests  ".to_string(),
        "bad line without separator".to_string(),
        "spaced == 1.0".to_string(),
    ];
    let kept = filter_requirement_lines(&lines);
    assert_eq!(
        kept,
        vec!["numpy==1.21.0".to_string(), "requests".to_string(), "spaced == 1.0".to_string()]
    );
}

#[test]
fn listing_is_sorted_by_name() {
    let mut registry = PackageRegistry::new();
    registry.add_package(Package::new("zlib".to_string(), "3".to_string()));
    registry.add_package(Package::new("alpha".to_string(), "1".to_string()));
    registry.add_package(Package::new("midway".to_string(), "2".to_string()));

    let records = sorted_records(&registry);
    let names: Vec<&str> = records.iter().map(|p| p.name.as_str()).collect();
    assert_eq!(names, vec!["alpha", "midway", "zlib"]);

    let lines = list_packages(&registry);
    assert_eq!(
        lines,
        vec![
            "Installed packages (3 total):".to_string(),
            "  alpha @ 1".to_string(),
            "  midway @ 2".to_string(),
            "  zlib @ 3".to_string(),
        ]
    );
}

#[test]
fn listing_of_empty_registry() {
    let registry = PackageRegistry::new();
    assert_eq!(list_packages(&registry), vec!["No packages installed".to_string()]);
    let lines = handle_list_command(&registry).unwrap();
    assert_eq!(lines, vec!["No packages installed".to_string()]);
}

#[test]
fn exit_codes_follow_the_error_kind() {
    assert_eq!(get_exit_code(&PackageError::PythonNotFound), 3);
    assert_eq!(get_exit_code(&PackageError::InstallationFailed("x".to_string())), 4);
    assert_eq!(get_exit_code(&PackageError::UninstallationFailed("x".to_string())), 4);
    assert_eq!(get_exit_code(&PackageError::InvalidPackageSpec("x".to_string())), 5);
    assert_eq!(get_exit_code(&PackageError::PackageNotFound("x".to_string())), 6);
    assert_eq!(get_exit_code(&PackageError::IoError("x".to_string())), 1);
    assert_eq!(get_exit_code(&PackageError::JsonError("x".to_string())), 1);
}

#[test]
fn error_descriptions() {
    assert_eq!(
        PackageError::InstallationFailed("boom".to_string()).describe(),
        "Installation failed: boom"
    );
    assert_eq!(PackageError::PythonNotFound.describe(), "Python executable not found");
    assert_eq!(
        PackageError::PackageNotFound("numpy".to_string()).describe(),
        "Package not found: numpy"
    );
}

#[test]
fn decimal_rendering() {
    assert_eq!(usize_to_string(0), "0");
    assert_eq!(usize_to_string(7), "7");
    assert_eq!(usize_to_string(42), "42");
    assert_eq!(usize_to_string(90210), "90210");
}
