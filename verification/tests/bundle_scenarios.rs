//! End-to-end scenarios for the bounded traversal engine.
use techdocs::bundle::{bundle_entries, list_entries, BundleWriter, FileDecision, FileEntry};

fn entry(path: &str, data: &[u8]) -> FileEntry {
    FileEntry { path: path.to_string(), size: data.len() as u64, data: data.to_vec() }
}

fn no_patterns() -> Vec<String> {
    Vec::new()
}

#[test]
fn all_admissible_files_yield_one_block_each() {
    let entries = vec![
        entry("a.rs", b"fn main() {}\n"),
        entry("b.txt", b"hello\n"),
        entry("c/d.go", b"package main\n"),
    ];
    let out = bundle_entries("repo", &no_patterns(), 1024, 4096, &entries).unwrap();
    assert_eq!(out.matches("\nFile: ").count(), 3);
    assert!(out.contains("\nFile: repo/a.rs\n```rs\nfn main() {}\n\n```\n"));
    assert!(out.contains("\nFile: repo/b.txt\n```txt\nhello\n\n```\n"));
    assert!(out.contains("\nFile: repo/c/d.go\n```go\npackage main\n\n```\n"));
    assert!(!out.contains("Warning"));
    assert!(!out.contains("Skipped"));
}

#[test]
fn oversized_file_leaves_marker_and_no_block() {
    let big = vec![b'x'; 2048];
    let entries = vec![entry("small.txt", b"ok\n"), entry("big.txt", &big)];
    let out = bundle_entries("repo", &no_patterns(), 1024, 1_000_000, &entries).unwrap();
    assert!(out.contains("\nFile: repo/small.txt\n"));
    assert!(out.contains("\nSkipped (exceeds per-file size limit): repo/big.txt\n"));
    assert!(!out.contains("\nFile: repo/big.txt"));
}

#[test]
fn cumulative_ceiling_truncates_with_single_notice() {
    let first = vec![b'a'; 600_000];
    let second = vec![b'b'; 600_000];
    let entries = vec![entry("one.txt", &first), entry("two.txt", &second)];
    let out = bundle_entries("repo", &no_patterns(), 1_000_000, 1_000_000, &entries).unwrap();
    assert!(out.contains("\nFile: repo/one.txt\n"));
    assert!(out.contains(&String::from_utf8(first).unwrap()));
    assert!(!out.contains("two.txt"));
    assert_eq!(out.matches("Warning: Total size limit reached, some files omitted.").count(), 1);
    assert!(out.ends_with("Warning: Total size limit reached, some files omitted.\n"));
}

#[test]
fn entries_after_truncation_are_not_processed() {
    let first = vec![b'a'; 600_000];
    let second = vec![b'b'; 600_000];
    let entries = vec![
        entry("one.txt", &first),
        entry("two.txt", &second),
        entry("three.txt", b"tiny\n"),
    ];
    let out = bundle_entries("repo", &no_patterns(), 1_000_000, 1_000_000, &entries).unwrap();
    assert!(!out.contains("three.txt"));
    assert!(!out.contains("tiny"));
}

#[test]
fn mixed_directory_scenario() {
    let binary = vec![0xFFu8; 200 * 1024];
    let entries = vec![
        entry("a.go", b"package main // fifty bytes of source text here\n"),
        entry("b.png", &binary),
        entry(".git/config", b"[core]\n"),
    ];
    let out =
        bundle_entries("repo", &no_patterns(), 1_048_576, 1_048_576, &entries).unwrap();
    assert_eq!(out.matches("\nFile: ").count(), 1);
    assert!(out.contains("\nFile: repo/a.go\n```go\n"));
    assert!(out.contains("\nSkipped (not valid text): repo/b.png\n"));
    assert!(!out.contains(".git"));
}

#[test]
fn non_text_file_consumes_no_budget() {
    let binary = vec![0xFFu8; 900];
    let entries = vec![entry("blob.dat", &binary), entry("late.txt", b"still fits\n")];
    let out = bundle_entries("repo", &no_patterns(), 1000, 1000, &entries).unwrap();
    assert!(out.contains("\nSkipped (not valid text): repo/blob.dat\n"));
    assert!(out.contains("\nFile: repo/late.txt\n"));
    assert!(!out.contains("Warning"));
}

#[test]
fn denied_directory_contents_never_appear() {
    let entries = vec![
        entry("src/lib.rs", b"pub fn f() {}\n"),
        entry("target/debug/app.d", b"tiny\n"),
        entry("node_modules/p/index.js", b"x\n"),
    ];
    let out = bundle_entries("repo", &no_patterns(), 4096, 65536, &entries).unwrap();
    assert_eq!(out.matches("\nFile: ").count(), 1);
    assert!(out.contains("repo/src/lib.rs"));
    assert!(!out.contains("target"));
    assert!(!out.contains("node_modules"));
}

#[test]
fn hidden_files_are_skipped_by_default() {
    let entries = vec![entry(".env", b"A=1\n"), entry("seen.txt", b"yes\n")];
    let out = bundle_entries("repo", &no_patterns(), 4096, 65536, &entries).unwrap();
    assert!(!out.contains(".env"));
    assert!(out.contains("repo/seen.txt"));
}

#[test]
fn override_pattern_readmits_hidden_file() {
    let patterns = vec![".env".to_string()];
    let entries = vec![entry(".env", b"A=1\n")];
    let out = bundle_entries("repo", &patterns, 4096, 65536, &entries).unwrap();
    assert!(out.contains("\nFile: repo/.env\n"));
}

#[test]
fn negated_override_pattern_excludes_a_file() {
    let patterns = vec!["!notes.txt".to_string()];
    let entries = vec![entry("notes.txt", b"secret\n"), entry("kept.txt", b"kept\n")];
    let out = bundle_entries("repo", &patterns, 4096, 65536, &entries).unwrap();
    assert!(!out.contains("notes.txt"));
    assert!(out.contains("repo/kept.txt"));
}

#[test]
fn whitelist_override_restricts_to_matching_files() {
    let patterns = vec!["*.rs".to_string()];
    let entries = vec![entry("main.rs", b"fn main() {}\n"), entry("readme.txt", b"hi\n")];
    let out = bundle_entries("repo", &patterns, 4096, 65536, &entries).unwrap();
    assert!(out.contains("repo/main.rs"));
    assert!(!out.contains("readme.txt"));
}

#[test]
fn malformed_override_pattern_fails_the_build() {
    let patterns = vec!["[".to_string()];
    let entries = vec![entry("a.txt", b"x\n")];
    let err = bundle_entries("repo", &patterns, 4096, 65536, &entries).unwrap_err();
    assert_eq!(err.message(), "Ignore error: invalid override pattern: [");
}

#[test]
fn traversal_is_idempotent() {
    let binary = vec![0x80u8; 64];
    let entries = vec![
        entry("a.rs", b"one\n"),
        entry(".hidden", b"no\n"),
        entry("bad.dat", &binary),
        entry("b.md", b"two\n"),
    ];
    let patterns = vec!["*.rs".to_string(), "*.md".to_string(), "*.dat".to_string()];
    let out1 = bundle_entries("repo", &patterns, 4096, 65536, &entries).unwrap();
    let out2 = bundle_entries("repo", &patterns, 4096, 65536, &entries).unwrap();
    assert_eq!(out1, out2);
}

#[test]
fn no_entries_yield_only_the_directory_header() {
    let out = bundle_entries("repo", &no_patterns(), 1024, 4096, &Vec::new()).unwrap();
    assert_eq!(out, "Directory: repo\n");
}

#[test]
fn the_bundle_opens_with_the_directory_header() {
    let entries = vec![entry("a.txt", b"x\n")];
    let out = bundle_entries("repo", &no_patterns(), 1024, 4096, &entries).unwrap();
    assert!(out.starts_with("Directory: repo\n"));
    assert_eq!(out.matches("Directory: ").count(), 1);
}

#[test]
fn a_file_that_exactly_fills_the_budget_is_admitted() {
    let data = vec![b'z'; 10];
    let entries = vec![entry("fit.txt", &data)];
    let out = bundle_entries("repo", &no_patterns(), 1024, 10, &entries).unwrap();
    assert!(out.contains("\nFile: repo/fit.txt\n"));
    assert!(!out.contains("Warning"));
}

#[test]
fn one_byte_over_the_budget_truncates() {
    let data = vec![b'z'; 11];
    let entries = vec![entry("over.txt", &data)];
    let out = bundle_entries("repo", &no_patterns(), 1024, 10, &entries).unwrap();
    assert!(!out.contains("\nFile: "));
    assert!(out.contains("Warning: Total size limit reached, some files omitted.\n"));
}

#[test]
fn empty_root_uses_relative_paths() {
    let entries = vec![entry("a.txt", b"x\n")];
    let out = bundle_entries("", &no_patterns(), 4096, 65536, &entries).unwrap();
    assert!(out.contains("\nFile: a.txt\n"));
}

#[test]
fn listing_names_admitted_files_one_per_line() {
    let paths = vec![
        "src/lib.rs".to_string(),
        "target/debug/x".to_string(),
        ".env".to_string(),
        "README.md".to_string(),
    ];
    let out = list_entries("repo", &no_patterns(), &paths).unwrap();
    assert_eq!(out, "repo/src/lib.rs\nrepo/README.md\n");
}

#[test]
fn writer_steps_through_offer_and_supply() {
    let mut w = BundleWriter::new("repo", &no_patterns(), 1024, 1000).unwrap();
    assert!(!w.offer_dir(".git"));
    assert!(!w.offer_dir("target"));
    assert!(w.offer_dir("src"));
    assert_eq!(w.offer_file("src/a.rs", 3), FileDecision::Admitted);
    assert!(w.supply_content("src/a.rs", 3, &b"ok\n".to_vec()));
    assert_eq!(w.offer_file(".git/config", 3), FileDecision::Excluded);
    assert_eq!(w.offer_file("src/huge.rs", 2048), FileDecision::TooLarge);
    assert_eq!(w.offer_file("src/big.rs", 1000), FileDecision::Truncated);
    assert_eq!(w.offer_file("src/b.rs", 1), FileDecision::Truncated);
    assert!(w.was_truncated());
    let out = w.into_output();
    assert!(out.contains("\nFile: repo/src/a.rs\n"));
    assert_eq!(out.matches("Warning: Total size limit reached").count(), 1);
}

#[test]
fn a_failed_read_leaves_a_marker_and_goes_on() {
    let mut w = BundleWriter::new("repo", &no_patterns(), 1024, 4096).unwrap();
    assert_eq!(w.offer_file("gone.txt", 5), FileDecision::Admitted);
    w.supply_read_error("gone.txt");
    assert_eq!(w.offer_file("still.txt", 3), FileDecision::Admitted);
    assert!(w.supply_content("still.txt", 3, &b"ok\n".to_vec()));
    assert!(!w.was_truncated());
    let out = w.into_output();
    assert!(out.contains("\nSkipped (read error): repo/gone.txt\n"));
    assert!(out.contains("\nFile: repo/still.txt\n"));
}

#[test]
fn read_errors_are_not_reported_for_excluded_files() {
    let mut w = BundleWriter::new("repo", &no_patterns(), 1024, 4096).unwrap();
    w.supply_read_error(".git/config");
    let out = w.into_output();
    assert!(!out.contains("Skipped"));
}
