//! Manifest generation and package-name normalisation.

use ripdoc::manifest::{generate_dummy_manifest, to_import_name};

#[test]
fn test_to_import_name() {
    assert_eq!(to_import_name("serde"), "serde");
    assert_eq!(to_import_name("serde-json"), "serde_json");
    assert_eq!(to_import_name("tokio-util"), "tokio_util");
    assert_eq!(
        to_import_name("my-hyphenated-package"),
        "my_hyphenated_package"
    );
}

#[test]
fn test_generate_dummy_manifest() {
    let manifest = generate_dummy_manifest("serde", None, None);
    assert!(manifest.contains("serde = { version = \"*\" }"));
    assert!(!manifest.contains("features"));

    let features = vec!["rt".to_string()];
    let manifest = generate_dummy_manifest("tokio", Some("1.0".to_string()), Some(&features));
    assert!(manifest.contains("tokio = { version = \"1.0\", features = [\"rt\"] }"));

    let features = vec!["rt".to_string(), "macros".to_string(), "test-util".to_string()];
    let manifest = generate_dummy_manifest("tokio", None, Some(&features));
    assert!(manifest.contains(
        "tokio = { version = \"*\", features = [\"rt\", \"macros\", \"test-util\"] }"
    ));

    let features = vec!["derive".to_string(), "std".to_string()];
    let manifest = generate_dummy_manifest("serde", None, Some(&features));
    assert!(manifest.contains("[dependencies]"));
    assert!(manifest.contains("serde = { version = \"*\", features = [\"derive\", \"std\"] }"));
}

#[test]
fn test_generate_dummy_manifest_with_underscores() {
    let manifest = generate_dummy_manifest("serde_json", None, None);
    assert!(manifest.contains("serde-json = { version = \"*\" }"));
    assert!(!manifest.contains("serde_json"));

    let manifest = generate_dummy_manifest("async-trait", None, None);
    assert!(manifest.contains("async-trait = { version = \"*\" }"));

    let manifest =
        generate_dummy_manifest("my_complex_crate_name", Some("0.1.0".to_string()), None);
    assert!(manifest.contains("my-complex-crate-name = { version = \"0.1.0\" }"));
}
