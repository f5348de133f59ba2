use python_package_manager::{parse_package_spec, render_install_arg, PackageError, PackageSpec};

#[test]
fn test_parse_package_spec_with_version() {
    let result = parse_package_spec("numpy==1.21.0").unwrap();
    assert_eq!(result, ("numpy".to_string(), Some("1.21.0".to_string())));
}

#[test]
fn test_parse_package_spec_without_version() {
    let result = parse_package_spec("requests").unwrap();
    assert_eq!(result, ("requests".to_string(), None));
}

#[test]
fn test_parse_package_spec_invalid() {
    assert!(parse_package_spec("").is_err());
    assert!(parse_package_spec("==1.0.0").is_err());
    assert!(parse_package_spec("package==").is_err());
}

#[test]
fn parse_trims_whitespace_around_name_and_version() {
    let result = parse_package_spec("  numpy == 1.21.0  ").unwrap();
    assert_eq!(result, ("numpy".to_string(), Some("1.21.0".to_string())));
    let result = parse_package_spec("\trequests\n").unwrap();
    assert_eq!(result, ("requests".to_string(), None));
}

#[test]
fn parse_rejects_whitespace_in_bare_name() {
    assert!(parse_package_spec("bad spec with space").is_err());
}

#[test]
fn parse_splits_on_first_separator_only() {
    let result = parse_package_spec("a==b==c").unwrap();
    assert_eq!(result, ("a".to_string(), Some("b==c".to_string())));
}

#[test]
fn parse_is_deterministic() {
    for token in ["numpy==1.21.0", "requests", "", "==1.0.0", "package==", "a b"] {
        let first = parse_package_spec(token);
        let second = parse_package_spec(token);
        assert_eq!(first, second);
    }
}

#[test]
fn parse_error_messages_are_exact() {
    match parse_package_spec("") {
        Err(PackageError::InvalidPackageSpec(m)) => {
            assert_eq!(m, "Empty package specification");
        }
        other => panic!("unexpected result: {:?}", other),
    }
    match parse_package_spec("package==") {
        Err(PackageError::InvalidPackageSpec(m)) => {
            assert_eq!(m, "Invalid package specification: package==");
        }
        other => panic!("unexpected result: {:?}", other),
    }
}

#[test]
fn render_install_arg_forms() {
    let pinned = PackageSpec { name: "numpy".to_string(), version: Some("1.21.0".to_string()) };
    assert_eq!(render_install_arg(&pinned), "numpy==1.21.0");
    let bare = PackageSpec { name: "requests".to_string(), version: None };
    assert_eq!(render_install_arg(&bare), "requests");
}
