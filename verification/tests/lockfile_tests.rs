use ai_fdocs::errors::DocsError;
use ai_fdocs::lockfile::{lookup_version, resolve_cargo_versions};

#[test]
fn resolves_versions_from_cargo_lock_packages() {
    let content = r#"
[[package]]
name = "serde"
version = "1.0.217"

[[package]]
name = "tokio"
version = "1.43.0"
"#;

    let resolved = resolve_cargo_versions(content).expect("resolve lockfile");
    assert_eq!(lookup_version(&resolved, "serde"), Some("1.0.217".to_string()));
    assert_eq!(lookup_version(&resolved, "tokio"), Some("1.43.0".to_string()));
}

#[test]
fn returns_parse_error_when_package_array_is_missing() {
    let err = resolve_cargo_versions("version = 3\n").expect_err("must fail");
    assert_eq!(
        err,
        DocsError::LockParseError("`package` array is missing".to_string())
    );
    assert_eq!(
        err.message(),
        "Cargo.lock parsing error: `package` array is missing"
    );
}

#[test]
fn last_entry_wins_for_duplicate_package_names() {
    let content = "[[package]]\nname = \"serde\"\nversion = \"1.0.100\"\n\n[[package]]\nname = \"serde\"\nversion = \"1.0.200\"\n";
    let resolved = resolve_cargo_versions(content).expect("resolve lockfile");
    assert_eq!(lookup_version(&resolved, "serde"), Some("1.0.200".to_string()));
}

#[test]
fn tolerates_unknown_fields_and_sections() {
    let content = "version = 3\n\n[[package]]\nname = \"serde\"\nversion = \"1.0.217\"\nchecksum = \"abc\"\ndependencies = [\n \"serde_derive\",\n]\n\n[metadata]\nnote = \"x\"\n";
    let resolved = resolve_cargo_versions(content).expect("resolve lockfile");
    assert_eq!(lookup_version(&resolved, "serde"), Some("1.0.217".to_string()));
    assert_eq!(lookup_version(&resolved, "metadata"), None);
}

#[test]
fn errors_when_a_package_entry_lacks_a_version() {
    let content = "[[package]]\nname = \"incomplete\"\n\n[[package]]\nname = \"whole\"\nversion = \"2.0.0\"\n";
    let err = resolve_cargo_versions(content).expect_err("must fail");
    assert_eq!(
        err,
        DocsError::LockParseError("a `package` entry has no `version`".to_string())
    );
}

#[test]
fn errors_when_a_package_entry_lacks_a_name() {
    let content = "[[package]]\nversion = \"2.0.0\"\n";
    let err = resolve_cargo_versions(content).expect_err("must fail");
    assert_eq!(
        err,
        DocsError::LockParseError("a `package` entry has no `name`".to_string())
    );
}
