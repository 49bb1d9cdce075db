use nockup::run::{
    cargo_binary_names, cargo_binary_names_in, cargo_run_args, check_binary_selection, is_current_dir,
    project_display_name, run_outcome, RunError,
};
use nockup::toml_doc::TomlValue;

const MULTI_BIN_CARGO_TOML: &str = r#"
[package]
name = "multi-bin-demo"
version = "0.1.0"
edition = "2021"

[[bin]]
name = "listen"
path = "src/listen.rs"

[[bin]]
name = "talk"
path = "src/talk.rs"
"#;

fn names_of(text: &str) -> Vec<String> {
    cargo_binary_names_in("Cargo.toml", text).map_err(|e| e.message()).expect("read bins")
}

#[test]
fn cargo_binary_names_reads_multiple_bins() {
    let bins = names_of(MULTI_BIN_CARGO_TOML);
    assert_eq!(bins, vec!["listen".to_string(), "talk".to_string()]);
}

#[test]
fn run_requires_bin_for_multi_binary_project() {
    let bins = names_of(MULTI_BIN_CARGO_TOML);
    let err = check_binary_selection("/tmp/demo", None, &bins)
        .expect_err("multi-bin run without --bin should fail before cargo run");
    let msg = err.message();

    assert!(msg.contains("has multiple binaries"));
    assert!(msg.contains("--bin listen"));
    assert!(msg.contains("--bin talk"));
}

#[test]
fn run_rejects_unknown_binary() {
    let bins = names_of(MULTI_BIN_CARGO_TOML);
    let err = check_binary_selection("/tmp/demo", Some("missing"), &bins)
        .expect_err("unknown --bin should fail before cargo run");
    let msg = err.message();

    assert!(msg.contains("Binary 'missing' not found"));
    assert!(msg.contains("listen, talk"));
}

#[test]
fn multiple_binaries_message_is_exact() {
    let bins = vec!["listen".to_string(), "talk".to_string()];
    let err = check_binary_selection("demo", None, &bins).unwrap_err();
    assert_eq!(
        err.message(),
        "Project 'demo' has multiple binaries. Choose one with --bin.\n\nAvailable binaries:\n  - listen\n  - talk\n\nExamples:\n  nockup project run demo --bin listen\n  nockup project run demo --bin talk"
    );
}

#[test]
fn unknown_binary_message_is_exact() {
    let bins = vec!["listen".to_string(), "talk".to_string()];
    let err = check_binary_selection("demo", Some("missing"), &bins).unwrap_err();
    assert_eq!(
        err.message(),
        "Binary 'missing' not found in project 'demo'. Available binaries: listen, talk"
    );
}

#[test]
fn selection_accepts_known_or_single_or_undeclared() {
    let two = vec!["listen".to_string(), "talk".to_string()];
    assert!(check_binary_selection("p", Some("talk"), &two).is_ok());
    let one = vec!["app".to_string()];
    assert!(check_binary_selection("p", None, &one).is_ok());
    let none: Vec<String> = Vec::new();
    assert!(check_binary_selection("p", None, &none).is_ok());
    assert!(check_binary_selection("p", Some("anything"), &none).is_ok());
    assert!(check_binary_selection("p", Some("other"), &one).is_err());
}

#[test]
fn no_bin_section_gives_no_names() {
    assert_eq!(names_of("[package]\nname = \"solo\"\n"), Vec::<String>::new());
}

#[test]
fn bin_section_that_is_not_an_array_is_refused() {
    let err = cargo_binary_names_in("Cargo.toml", "[bin]\nname = \"solo\"\n").unwrap_err();
    assert!(matches!(err, RunError::InvalidBinFormat));
    assert_eq!(err.message(), "Invalid format for [[bin]] in Cargo.toml");
}

#[test]
fn bin_entries_without_string_names_are_skipped() {
    assert_eq!(
        names_of("[[bin]]\npath = \"a.rs\"\n\n[[bin]]\nname = 3\n\n[[bin]]\nname = \"kept\"\n"),
        vec!["kept".to_string()]
    );
}

#[test]
fn run_args_place_bin_before_separator() {
    let args = vec!["--flag".to_string(), "value".to_string()];
    assert_eq!(
        cargo_run_args(Some("talk"), &args),
        vec!["run", "--release", "--bin", "talk", "--", "--flag", "value"]
    );
    assert_eq!(cargo_run_args(None, &Vec::new()), vec!["run", "--release"]);
}

#[test]
fn failed_run_reports_exit_code() {
    assert!(run_outcome(true, Some(0)).is_ok());
    let err = run_outcome(false, Some(101)).unwrap_err();
    assert_eq!(err.message(), "Run failed with exit code: 101");
    let err = run_outcome(false, None).unwrap_err();
    assert_eq!(err.message(), "Run failed with exit code: -1");
    let err = run_outcome(false, Some(i32::MIN)).unwrap_err();
    assert_eq!(err.message(), "Run failed with exit code: -2147483648");
}

#[test]
fn missing_project_messages() {
    let e = RunError::ProjectDirectoryNotFound { project: "demo".to_string() };
    assert_eq!(e.message(), "Project directory 'demo' not found");
    let e = RunError::CargoTomlNotFound { project: "demo".to_string() };
    assert_eq!(e.message(), "No Cargo.toml found in 'demo'");
}

#[test]
fn current_dir_project_takes_manifest_name() {
    assert!(is_current_dir("."));
    assert!(!is_current_dir("./demo"));
    assert_eq!(project_display_name(".", Some("  demo \n")), "demo");
    assert_eq!(project_display_name(".", None), ".");
    assert_eq!(project_display_name("other", Some("demo")), "other");
}

#[test]
fn text_that_is_not_toml_is_refused() {
    let err = cargo_binary_names_in("/tmp/demo/Cargo.toml", "[[bin]\nname = ").unwrap_err();
    assert!(matches!(err, RunError::InvalidCargoToml { .. }));
    assert_eq!(err.message(), "Failed to parse /tmp/demo/Cargo.toml");
}

#[test]
fn toml_lookups_follow_tables() {
    let doc = TomlValue::Table(vec![(
        "commit".to_string(),
        TomlValue::Table(vec![
            ("id".to_string(), TomlValue::String("abc".to_string())),
            ("n".to_string(), TomlValue::Integer(1)),
        ]),
    )]);
    let commit = doc.get("commit").expect("table");
    assert_eq!(commit.get("id").and_then(|v| v.as_str()).map(|s| s.as_str()), Some("abc"));
    assert!(commit.get("n").and_then(|v| v.as_str()).is_none());
    assert!(doc.get("missing").is_none());
    assert!(commit.get("id").unwrap().get("x").is_none());
    assert!(doc.as_array().is_none());
    assert_eq!(cargo_binary_names(&doc).unwrap(), Vec::<String>::new());
}
