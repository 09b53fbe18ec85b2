use rust_lints::config::Environment;
use rust_lints::file_length::{
    check_file_lengths, has_documented_file_length_exception, has_inline_file_length_exception,
    has_inline_file_length_exception_with_marker, has_inventory_file_length_exception,
    inventory_lists_path, is_repo_rust_source_path, SeenFiles, SourceFile,
};
use rust_lints::paths::{
    is_repo_rust_source_path_with_roots, normalize_path, normalized_path_buf, repo_relative_path,
};
use rust_lints::text::{chars_of, lines, string_of};

#[test]
fn recognizes_documented_inline_file_length_exceptions() {
    let marker = "rust-lints-file-length-exception";
    assert!(has_inline_file_length_exception_with_marker(
        "// rust-lints-file-length-exception: owner=platform-owner reason=generated-parser expires=2026-08-01\nfn main() {}",
        marker,
    ));
    assert!(!has_inline_file_length_exception_with_marker(
        "// rust-lints-file-length-exception: owner=platform-owner reason=missing-expiry\nfn main() {}",
        marker,
    ));
}

#[test]
fn inline_exception_marker_is_configurable() {
    // A project supplying its own marker (e.g. a custom prefix) still works.
    assert!(has_inline_file_length_exception_with_marker(
        "// acme-file-length-exception: owner=o reason=r expires=2026-08-01\nfn main() {}",
        "acme-file-length-exception",
    ));
}

#[test]
fn inline_exceptions_stand_in_the_first_eighty_lines() {
    let note = "// m: owner=o reason=r expires=e";
    let at = |line: usize| format!("{}{note}\n", "\n".repeat(line - 1));
    assert!(has_inline_file_length_exception_with_marker(&at(1), "m"));
    assert!(has_inline_file_length_exception_with_marker(&at(80), "m"));
    assert!(!has_inline_file_length_exception_with_marker(&at(81), "m"));
    // The marker needs its colon, and all fields stand on its line.
    assert!(!has_inline_file_length_exception_with_marker("// m owner= reason= expires=", "m"));
    assert!(!has_inline_file_length_exception_with_marker("// m: owner= reason=\n// expires=", "m"));
    let mut env = Environment::new();
    assert!(!has_inline_file_length_exception(&env, note));
    env.set_var("RUST_LINTS_EXCEPTION_MARKER", Some("m"));
    assert!(has_inline_file_length_exception(&env, note));
}

#[test]
fn recognizes_inventory_file_length_exceptions() {
    let inventory = "path\towner\treason\texpires\tline_count\n\
             crates/platform-db/src/lib.rs\towner\treason\t2026-12-31\t900\n";
    assert!(inventory_lists_path(
        inventory,
        "crates/platform-db/src/lib.rs"
    ));
    assert!(!inventory_lists_path(
        inventory,
        "crates/platform-domain/src/lib.rs"
    ));
}

#[test]
fn inventory_rows_need_a_tab_and_the_header_is_no_row() {
    assert!(!inventory_lists_path("a.rs\tx\n", "a.rs"));
    assert!(!inventory_lists_path("h\na.rs\n", "a.rs"));
    assert!(inventory_lists_path("h\r\na.rs\tx\r\n", "a.rs"));
    assert!(inventory_lists_path("h\nb.rs\tx\na.rs\t", "a.rs"));
    assert!(!inventory_lists_path("h\na.rs x\ty", "a.rs"));
    assert!(!inventory_lists_path("", "a.rs"));
    assert!(inventory_lists_path("h\n\tx", ""));
}

#[test]
fn an_inventory_counts_only_where_it_is_configured() {
    let inventory = Some("h\na.rs\tx\n");
    let mut env = Environment::new();
    assert!(!has_inventory_file_length_exception(&env, inventory, "a.rs"));
    env.set_var("RUST_LINTS_FILE_LENGTH_EXCEPTIONS", Some("list.tsv"));
    assert!(has_inventory_file_length_exception(&env, inventory, "a.rs"));
    assert!(!has_inventory_file_length_exception(&env, inventory, "b.rs"));
    assert!(!has_inventory_file_length_exception(&env, None, "a.rs"));
    assert!(has_documented_file_length_exception(&env, inventory, "a.rs", ""));
    assert!(!has_documented_file_length_exception(&env, inventory, "b.rs", ""));
    assert!(has_documented_file_length_exception(
        &env,
        inventory,
        "b.rs",
        "// rust-lints-file-length-exception: owner=o reason=r expires=e"
    ));
}

#[test]
fn repo_source_filter_respects_configured_roots() {
    let roots = vec!["apps/".to_owned(), "crates/".to_owned()];
    assert!(is_repo_rust_source_path_with_roots(
        "crates/platform-db/src/lib.rs",
        &roots,
        None,
    ));
    assert!(!is_repo_rust_source_path_with_roots(
        "/nix/store/rust/lib/rustlib/src/rust/library/stdarch/crates/core_arch/src/x86/sse.rs",
        &roots,
        None,
    ));
    for current_dir in ["/work/repo", "/", "/nix"] {
        assert!(is_repo_rust_source_path_with_roots(
            "crates/platform-db/src/lib.rs",
            &roots,
            Some(current_dir),
        ));
        assert!(!is_repo_rust_source_path_with_roots(
            "/nix/store/rust/lib/rustlib/src/rust/library/stdarch/crates/core_arch/src/x86/sse.rs",
            &roots,
            Some(current_dir),
        ));
    }
}

#[test]
fn repo_source_paths_are_seen_from_the_current_directory() {
    let roots = vec!["crates/".to_owned()];
    let yes = |path: &str| is_repo_rust_source_path_with_roots(path, &roots, Some("/work/repo/"));
    assert!(yes("/work/repo/crates/a.rs"));
    assert!(yes("/work/./other/../repo/crates/a.rs"));
    assert!(yes("./crates/a.rs"));
    assert!(!yes("/work/repository/crates/a.rs"));
    assert!(!yes("/work/repo/apps/a.rs"));
    assert!(!is_repo_rust_source_path_with_roots("/work/repo/crates/a.rs", &roots, None));
}

#[test]
fn only_rust_files_are_sources() {
    let roots = vec!["".to_owned()];
    let yes = |path: &str| is_repo_rust_source_path_with_roots(path, &roots, None);
    for path in ["a.rs", "x/a.rs", "a.rs/", "a.rs/.", "..rs", "a.b.rs"] {
        assert!(yes(path), "{path}");
        assert_eq!(std::path::Path::new(path).extension().and_then(|e| e.to_str()), Some("rs"));
    }
    for path in ["", "a", "rs", ".rs", "a.rs/..", "a.rs/b", "a.rsx", "a.RS", "/", "."] {
        assert!(!yes(path), "{path}");
        assert_ne!(std::path::Path::new(path).extension().and_then(|e| e.to_str()), Some("rs"));
    }
    let env = Environment::new();
    assert!(is_repo_rust_source_path(&env, "tools/rust-lints/fixtures/a.rs", None));
    assert!(!is_repo_rust_source_path(&env, "src/a.rs", None));
}

#[test]
fn paths_are_normalized() {
    for (path, expected) in [
        ("crates/./a/../b.rs", "crates/b.rs"),
        ("//a//b/", "/a/b"),
        ("../a", "a"),
        ("/../a", "/a"),
        ("a/../..", ""),
        (".", ""),
        ("/", "/"),
        ("", ""),
        ("a\\b/c", "a/b/c"),
        ("/a/b/../../../c", "/c"),
    ] {
        assert_eq!(normalize_path(path), expected, "{path}");
    }
    // Without a backslash, normalizing again changes nothing.
    for path in ["crates/./a/../b.rs", "//a//b/", "../a", "/"] {
        let once = normalize_path(path);
        assert_eq!(normalize_path(&once), once);
    }
    // With one it can: the backslash has become a separator.
    assert_eq!(normalize_path("a\\..\\b"), "a/../b");
    assert_eq!(normalize_path("a/../b"), "b");
    let parts = normalized_path_buf("/a/./b");
    assert!(parts.absolute);
    assert_eq!(parts.names, ["a", "b"]);
}

#[test]
fn paths_are_taken_from_the_current_directory() {
    assert_eq!(repo_relative_path("/w/r/a.rs", Some("/w/r")), "a.rs");
    assert_eq!(repo_relative_path("/w/r/a.rs", Some("/")), "w/r/a.rs");
    assert_eq!(repo_relative_path("/w/r/a.rs", Some("")), "/w/r/a.rs");
    assert_eq!(repo_relative_path("/w/r/a.rs", Some("/w/x")), "/w/r/a.rs");
    assert_eq!(repo_relative_path("/w/r", Some("/w/r/a")), "/w/r");
    assert_eq!(repo_relative_path("w/r", Some("/w")), "w/r");
    assert_eq!(repo_relative_path("w/r", Some("w")), "r");
    assert_eq!(repo_relative_path("/w/r", Some("w")), "/w/r");
    assert_eq!(repo_relative_path("/w/r", None), "/w/r");
}

#[test]
fn lines_break_as_texts_do() {
    for text in ["", "\n", "a", "a\n", "a\nb", "a\r\nb\r\n", "a\r", "\r\n\r\n", "a\n\nb\n", "\n\n"] {
        let ours: Vec<String> = lines(&chars_of(text)).iter().map(|l| string_of(l)).collect();
        let theirs: Vec<&str> = text.lines().collect();
        assert_eq!(ours, theirs, "{text:?}");
    }
}

fn file(path: &str, contents: &str) -> SourceFile {
    SourceFile {
        path: Some(path.to_owned()),
        contents: Some(contents.to_owned()),
    }
}

#[test]
fn long_files_are_reported_once() {
    let mut env = Environment::new();
    let files = vec![
        file("crates/long.rs", "1\n2\n3\n"),
        file("crates/./long.rs", "1\n2\n3\n"),
        file("crates/short.rs", "1\n2"),
        file("src/long.rs", "1\n2\n3\n"),
        file("crates/listed.rs", "1\n2\n3"),
        file(
            "crates/marked.rs",
            "// rust-lints-file-length-exception: owner=o reason=r expires=e\n2\n3",
        ),
        SourceFile { path: None, contents: Some("1\n2\n3".to_owned()) },
        SourceFile { path: Some("crates/gone.rs".to_owned()), contents: None },
        file("apps/long.rs", "1\n2\n3"),
    ];
    let inventory = Some("path\towner\ncrates/listed.rs\to\n");
    let mut seen = SeenFiles::new();
    // Without a cap nothing happens.
    assert!(check_file_lengths(&env, None, inventory, &files, &mut seen).is_empty());
    env.set_var("RUST_LINTS_MAX_FILE_LINES", Some("2"));
    env.set_var("RUST_LINTS_FILE_LENGTH_EXCEPTIONS", Some("list.tsv"));
    let found = check_file_lengths(&env, None, inventory, &files, &mut seen);
    assert_eq!(found.len(), 2);
    for finding in &found {
        assert_eq!(
            finding.message,
            "Rust source files must stay small enough to parse and review"
        );
        assert_eq!(
            finding.help,
            "split large files into focused modules using directory modules and mod.rs, or add a documented rust-lints-file-length-exception with owner, reason, and expires fields"
        );
    }
    // A second scan reports nothing.
    assert!(check_file_lengths(&env, None, inventory, &files, &mut seen).is_empty());
    // Every scanned file has been met, reported or not.
    for key in ["crates/long.rs", "crates/short.rs", "crates/gone.rs", "crates/listed.rs"] {
        assert!(!seen.mark_file_seen(key), "{key}");
    }
    assert!(seen.mark_file_seen("src/long.rs"));
    assert!(!seen.mark_file_seen("src/long.rs"));
}

#[test]
fn the_inventory_lists_paths_as_seen_from_the_current_directory() {
    let mut env = Environment::new();
    env.set_var("RUST_LINTS_MAX_FILE_LINES", Some("1"));
    env.set_var("RUST_LINTS_FILE_LENGTH_EXCEPTIONS", Some("list.tsv"));
    let files = vec![
        file("/work/repo/crates/listed.rs", "1\n2\n"),
        file("/work/repo/crates/long.rs", "1\n2\n"),
    ];
    let inventory = Some("path\towner\ncrates/listed.rs\to\n");
    let mut seen = SeenFiles::new();
    let found = check_file_lengths(&env, Some("/work/repo"), inventory, &files, &mut seen);
    assert_eq!(found.len(), 1);
    // Files are remembered by their full paths.
    assert!(!seen.mark_file_seen("/work/repo/crates/listed.rs"));
    assert!(seen.mark_file_seen("crates/listed.rs"));
}

#[test]
fn a_cap_that_is_reached_is_kept() {
    let mut env = Environment::new();
    env.set_var("RUST_LINTS_MAX_FILE_LINES", Some("3"));
    let files = vec![file("crates/a.rs", "1\n2\n3\n"), file("crates/b.rs", "1\n2\n3\n\n")];
    let mut seen = SeenFiles::new();
    assert_eq!(check_file_lengths(&env, None, None, &files, &mut seen).len(), 1);
}
