use python_package_manager::{Package, PackageRegistry};

#[test]
fn test_package_registry_operations() {
    let mut registry = PackageRegistry::new();
    let package = Package::new("test".to_string(), "1.0.0".to_string());

    registry.add_package(package.clone());
    assert_eq!(registry.get_package("test"), Some(&package));

    let removed = registry.remove_package("test");
    assert_eq!(removed, Some(package));
    assert!(registry.is_empty());
}

#[test]
fn add_package_replaces_same_name() {
    let mut registry = PackageRegistry::new();
    registry.add_package(Package::new("a".to_string(), "1.0".to_string()));
    registry.add_package(Package::new("a".to_string(), "2.0".to_string()));
    assert_eq!(registry.count(), 1);
    assert_eq!(registry.get_package("a").unwrap().version, "2.0");
}

#[test]
fn remove_absent_package_returns_none() {
    let mut registry = PackageRegistry::new();
    registry.add_package(Package::new("a".to_string(), "1.0".to_string()));
    assert_eq!(registry.remove_package("b"), None);
    assert_eq!(registry.count(), 1);
    assert!(!registry.is_empty());
}

#[test]
fn get_package_distinguishes_names() {
    let mut registry = PackageRegistry::new();
    registry.add_package(Package::new("alpha".to_string(), "1".to_string()));
    registry.add_package(Package::new("beta".to_string(), "2".to_string()));
    assert_eq!(registry.get_package("alpha").unwrap().version, "1");
    assert_eq!(registry.get_package("beta").unwrap().version, "2");
    assert_eq!(registry.get_package("gamma"), None);
    assert_eq!(registry.count(), 2);
}

#[test]
fn default_registry_is_empty() {
    let registry = PackageRegistry::default();
    assert!(registry.is_empty());
    assert_eq!(registry.count(), 0);
}
