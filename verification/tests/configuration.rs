use rust_lints::config::{self, Environment};

fn env(vars: &[(&str, &str)]) -> Environment {
    let mut env = Environment::new();
    for (name, value) in vars {
        env.set_var(name, Some(value));
    }
    env
}

#[test]
fn new_passes_are_off_by_default() {
    // The toggles read their own variable only.
    let env = env(&[
        ("RUST_LINTS_HTTP_WRAPPER", "1"),
        ("RUST_LINTS_BLOCKING_TOKIO", "1"),
        ("RUST_LINTS_REQUIRE_SQL_MARKER", "1"),
        ("RUST_LINTS_STRICT_SQLX", "1"),
    ]);
    assert!(!config::silent_saturation_enabled(&env));
    assert!(!config::unbounded_channel_enabled(&env));
    assert!(!config::bool_params_enabled(&env));
}

#[test]
fn config_defaults_are_sensible() {
    // With no env set, owner lists and label fall back to built-in defaults.
    let env = Environment::new();
    assert!(!config::sqlx_owner_paths(&env).is_empty());
    assert!(!config::http_owner_paths(&env).is_empty());
    assert!(!config::repo_source_roots(&env).is_empty());
}

#[test]
fn defaults_are_exact() {
    let env = Environment::new();
    assert_eq!(
        config::sqlx_owner_paths(&env),
        ["crates/platform-db/", "crates/platform-infra/", "crates/platform-infrastructure/"]
    );
    assert_eq!(
        config::http_owner_paths(&env),
        [
            "crates/platform-http/src/",
            "crates/platform-observability/src/telemetry.rs",
            "apps/"
        ]
    );
    assert_eq!(
        config::repo_source_roots(&env),
        ["apps/", "crates/", "tools/rust-lints/fixtures/"]
    );
    assert_eq!(config::label(&env), "platform");
    assert_eq!(config::fixture_path_prefix(&env), "tools/rust-lints/fixtures/");
    assert_eq!(config::exception_marker(&env), "rust-lints-file-length-exception");
    assert_eq!(config::dynamic_sql_marker(&env), "rust-lints-dynamic-sql");
    assert_eq!(config::file_length_exceptions_path(&env), None);
    assert_eq!(config::max_file_lines(&env), None);
    assert!(!config::http_wrapper_enabled(&env));
    assert!(!config::blocking_tokio_enabled(&env));
    assert!(!config::require_sql_marker_enabled(&env));
    assert!(!config::strict_sqlx_enabled(&env));
}

#[test]
fn a_gate_is_on_once_its_variable_is_set_to_anything() {
    let mut env = Environment::new();
    env.set_var("RUST_LINTS_BOOL_PARAMS", Some(""));
    env.set_var("RUST_LINTS_STRICT_SQLX", None);
    assert!(config::bool_params_enabled(&env));
    assert!(config::strict_sqlx_enabled(&env));
    assert!(!config::unbounded_channel_enabled(&env));
}

#[test]
fn texts_that_are_not_unicode_count_as_unset() {
    let mut env = Environment::new();
    env.set_var("RUST_LINTS_LABEL", None);
    env.set_var("RUST_LINTS_SQLX_OWNER_PATHS", None);
    env.set_var("RUST_LINTS_SEAM_CRATES", Some("crates/seam/"));
    assert_eq!(config::label(&env), "platform");
    assert_eq!(config::sqlx_owner_paths(&env), ["crates/seam/"]);
}

#[test]
fn the_last_value_of_a_variable_counts() {
    let mut env = env(&[("RUST_LINTS_LABEL", "old"), ("RUST_LINTS_LABEL", "new")]);
    assert_eq!(config::label(&env), "new");
    env.set_var("RUST_LINTS_LABEL", None);
    assert_eq!(config::label(&env), "platform");
    assert!(env.is_set("RUST_LINTS_LABEL"));
    assert_eq!(env.var("RUST_LINTS_LABEL"), None);
}

#[test]
fn lists_are_split_trimmed_and_without_blanks() {
    let env = env(&[("L", " a/ ,, b c/\t,\u{3000}"), ("E", ""), ("C", ",")]);
    assert_eq!(
        config::list_var(&env, "L"),
        Some(vec!["a/".to_owned(), "b c/".to_owned()])
    );
    assert_eq!(config::list_var(&env, "E"), Some(vec![]));
    assert_eq!(config::list_var(&env, "C"), Some(vec![]));
    assert_eq!(config::list_var(&env, "N"), None);
}

#[test]
fn seam_crates_serve_both_seams_behind_their_own_lists() {
    let both = env(&[("RUST_LINTS_SEAM_CRATES", "crates/seam/")]);
    assert_eq!(config::sqlx_owner_paths(&both), ["crates/seam/"]);
    assert_eq!(config::http_owner_paths(&both), ["crates/seam/"]);
    let own = env(&[
        ("RUST_LINTS_SEAM_CRATES", "crates/seam/"),
        ("RUST_LINTS_HTTP_OWNER_PATHS", "crates/http/"),
    ]);
    assert_eq!(config::sqlx_owner_paths(&own), ["crates/seam/"]);
    assert_eq!(config::http_owner_paths(&own), ["crates/http/"]);
    let empty = env(&[
        ("RUST_LINTS_SEAM_CRATES", "crates/seam/"),
        ("RUST_LINTS_SQLX_OWNER_PATHS", " , "),
    ]);
    assert!(config::sqlx_owner_paths(&empty).is_empty());
}

#[test]
fn roots_follow_the_fixture_path() {
    let fixture = env(&[("RUST_LINTS_FIXTURE_PATH", "fx/")]);
    assert_eq!(config::repo_source_roots(&fixture), ["apps/", "crates/", "fx/"]);
    let roots = env(&[("RUST_LINTS_REPO_SOURCE_ROOTS", "src/")]);
    assert_eq!(config::repo_source_roots(&roots), ["src/"]);
}

#[test]
fn line_caps_are_plain_decimal_numbers() {
    let cap = |text: &str| config::max_file_lines(&env(&[("RUST_LINTS_MAX_FILE_LINES", text)]));
    assert_eq!(cap("800"), Some(800));
    assert_eq!(cap("+007"), Some(7));
    assert_eq!(cap("0"), Some(0));
    for text in ["", "+", "-1", " 8", "8 ", "1_000", "0x10", "++1", "eight", "\u{0664}"] {
        assert_eq!(cap(text), None, "{text}");
    }
    let largest = usize::MAX.to_string();
    assert_eq!(cap(&largest), Some(usize::MAX));
    assert_eq!(cap(&format!("{largest}0")), None);
    for text in ["18446744073709551615", "18446744073709551616", "4294967296", "00000000000000000000001"] {
        assert_eq!(cap(text), text.parse::<usize>().ok(), "{text}");
    }
}
