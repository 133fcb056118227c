//! Primary-diagnostic extraction from build error streams.

use ripdoc::diagnostics::{
    extract_primary_diagnostic, format_rustdoc_failure, is_primary_error_line,
    truncate_diagnostics,
};

#[test]
fn primary_diagnostic_extracts_compiler_error() {
    let stderr = r#"
error: expected pattern, found `=`
 --> src/lib.rs:3:9
  |
3 |     let = left + right;
  |         ^ expected pattern

error: Compilation failed, aborting rustdoc
"#;

    let diagnostic = extract_primary_diagnostic(stderr).expect("should find primary diagnostic");
    assert!(diagnostic.contains("expected pattern"));
    assert!(diagnostic.contains("src/lib.rs:3:9"));
    assert!(!diagnostic.contains("Compilation failed"));
}

#[test]
fn primary_error_line_classification() {
    assert!(is_primary_error_line("error: expected pattern"));
    assert!(is_primary_error_line("error[E0599]: no method"));
    assert!(!is_primary_error_line("error: Compilation failed, aborting rustdoc"));
    assert!(!is_primary_error_line("error: could not compile `demo`"));
    assert!(!is_primary_error_line("warning: unused import"));
}

#[test]
fn format_rustdoc_failure_includes_diagnostics_when_silent() {
    let stderr = "error: expected pattern, found `=`\n --> src/lib.rs:3:9\n  |\n3 |     let = left + right;\n  |         ^ expected pattern\n";
    let message = format_rustdoc_failure(stderr, true).message();

    assert!(message.contains("Failed to build rustdoc JSON"));
    assert!(message.contains("expected pattern"));
    assert!(message.contains("src/lib.rs:3:9"));
    assert!(message.contains("rustdoc stderr"));
}

#[test]
fn truncation_cuts_at_the_budget() {
    let long = "x".repeat(9000);
    let (cut, truncated) = truncate_diagnostics(&long);
    assert!(truncated);
    assert_eq!(cut.len(), 8192);

    let short = "short";
    let (kept, truncated) = truncate_diagnostics(short);
    assert!(!truncated);
    assert_eq!(kept, "short");
}

#[test]
fn no_diagnostic_in_clean_stream() {
    assert!(extract_primary_diagnostic("warning: something\nnote: fine\n").is_none());
}
