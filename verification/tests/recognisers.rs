use rust_lints::text::char_is_white_space;
use rust_lints::tokens::{
    contains_direct_reqwest_client, contains_dynamic_sql_argument, contains_inline_sql_text,
    contains_sqlx_boundary_token, contains_static_sql_literal, is_blocking_function_call,
    is_blocking_method_name, is_blocking_path, is_blocking_quarantine_call, is_exempt_fn_name,
    is_fallible_conversion_name, is_sqlx_runtime_query, is_unbounded_channel_path,
    is_unwrap_or_family, string_literal_body, string_literal_starts_with_sql_marker,
};

#[test]
fn recognizes_sqlx_boundary_tokens() {
    assert!(contains_sqlx_boundary_token("sqlx::query(\"select 1\")"));
    assert!(contains_sqlx_boundary_token("let pool: PgPool = pool;"));
    assert!(contains_sqlx_boundary_token("PoolOptions::new()"));
    assert!(contains_sqlx_boundary_token("AssertSqlSafe(sql)"));
    assert!(!contains_sqlx_boundary_token("let value = 42;"));
}

#[test]
fn ignores_boundary_tokens_inside_literals_and_comments() {
    // A boundary word that appears only inside a string literal is a
    // documentation mention, not database-adapter usage.
    assert!(!contains_sqlx_boundary_token(
        "\"read-only exit-package checksum verification; no PgPool / durable write\""
    ));
    // The same holds when the literal is one argument of an enclosing call
    // (the whole-expression snippet still contains the string).
    assert!(!contains_sqlx_boundary_token(
        "row(command, exempt(E::NoDurableSideEffect), \"no PgPool / durable write\")"
    ));
    // Raw strings and comments are covered too.
    assert!(!contains_sqlx_boundary_token(
        "let note = r#\"emitted alongside sqlx::query in the writer\"#;"
    ));
    assert!(!contains_sqlx_boundary_token("// this row reaches no PgPool"));
    assert!(!contains_sqlx_boundary_token(
        "let n = 1; /* PgPool lives in platform-db */ let m = 2;"
    ));
    // Real code usage is still flagged even with an adjacent note string.
    assert!(contains_sqlx_boundary_token(
        "let pool: PgPool = get(); // returns the PgPool"
    ));
    assert!(contains_sqlx_boundary_token(
        "sqlx::query(\"select 1\").execute(&pool)"
    ));
    // A lifetime/label beginning with `'` must not swallow following code.
    assert!(contains_sqlx_boundary_token(
        "fn f<'a>(p: &'a PgPool) -> &'a PgPool { p }"
    ));
}

#[test]
fn recognizes_runtime_sqlx_query_constructors() {
    assert!(is_sqlx_runtime_query("sqlx::query(\"select 1\")"));
    assert!(is_sqlx_runtime_query(
        "sqlx::query_file_scalar(\"query.sql\")"
    ));
    assert!(!is_sqlx_runtime_query("sqlx::query!(\"select 1\")"));
}

#[test]
fn recognizes_bare_runtime_query_paths() {
    assert!(is_sqlx_runtime_query("sqlx::query"));
    assert!(is_sqlx_runtime_query("sqlx::query_as"));
    assert!(is_sqlx_runtime_query("sqlx::query_scalar"));
    assert!(is_sqlx_runtime_query("sqlx::query_file"));
    assert!(is_sqlx_runtime_query("sqlx::query_file_as"));
    assert!(is_sqlx_runtime_query("sqlx::query_file_scalar"));
    assert!(!is_sqlx_runtime_query("sqlx::query_unchecked"));
    assert!(!is_sqlx_runtime_query("query"));
    assert!(!is_sqlx_runtime_query("sqlx::query_scalar::<_, bool>"));
}

#[test]
fn recognizes_dynamic_sql_arguments() {
    assert!(contains_dynamic_sql_argument(
        "sqlx::query(format!(\"select * from {table}\"))"
    ));
    assert!(contains_dynamic_sql_argument("sqlx::query(query.as_str())"));
    assert!(!contains_dynamic_sql_argument(
        "sqlx::query(\"select id from workers\")"
    ));
}

#[test]
fn recognizes_dynamic_sql_variable_names() {
    for argument in ["sql", "&sql", "statement", "&statement", "query", "&query"] {
        assert!(contains_dynamic_sql_argument(&format!("sqlx::query({argument})")));
    }
    assert!(!contains_dynamic_sql_argument("sqlx::query(text)"));
}

#[test]
fn recognizes_static_sql_literals() {
    assert!(contains_static_sql_literal(
        "sqlx::query(\"select id from workers\")"
    ));
    assert!(contains_static_sql_literal(
        "sqlx::query_scalar::<_, bool>(\"SELECT EXISTS (SELECT 1 FROM elections)\")"
    ));
    assert!(!contains_static_sql_literal(
        "sqlx::query(AssertSqlSafe(format!(\"select * from {table}\")))"
    ));
}

#[test]
fn static_sql_needs_a_constructor_and_a_statement() {
    assert!(contains_static_sql_literal("sqlx::query(\n    \"UPDATE t\")"));
    assert!(contains_static_sql_literal("query_as::<_, Row>(\"delete from t\")"));
    assert!(contains_static_sql_literal("SQLX::Query(\"Select 1\")"));
    assert!(!contains_static_sql_literal("sqlx::query(\"begin\")"));
    assert!(!contains_static_sql_literal("\"select id from workers\""));
}

#[test]
fn recognizes_inline_sql_text() {
    assert!(contains_inline_sql_text(
        r#""SELECT election_id, status FROM elections""#
    ));
    assert!(contains_inline_sql_text(
        r#""CREATE OR REPLACE VIEW enrollment.open_windows AS SELECT 1""#
    ));
    assert!(!contains_inline_sql_text(
        r#""definition must start with SELECT or WITH""#
    ));
}

#[test]
fn recognizes_every_inline_sql_shape() {
    for text in [
        "insert into t",
        "update t set a = 1",
        "delete from t",
        "create schema s",
        "create materialized view v",
        "drop materialized view v",
        "drop view v",
        "alter materialized view v",
        "grant select on t",
        "GRANT SELECT ON T",
    ] {
        assert!(contains_inline_sql_text(text), "{text}");
    }
    assert!(!contains_inline_sql_text("update the docs"));
    assert!(!contains_inline_sql_text("from here on"));
}

#[test]
fn recognizes_sql_marker_at_literal_head() {
    assert!(string_literal_starts_with_sql_marker(
        r#""--sql
SELECT id FROM workers""#
    ));
    assert!(string_literal_starts_with_sql_marker(
        r##"r#"--sql
SELECT id FROM workers"#"##
    ));
    assert!(!string_literal_starts_with_sql_marker(
        r#""SELECT id FROM workers""#
    ));
}

#[test]
fn finds_the_body_of_a_literal() {
    assert_eq!(string_literal_body("\"abc\""), Some("abc\""));
    assert_eq!(string_literal_body("  r##\"a\u{e9}c\"##"), Some("a\u{e9}c\"##"));
    assert_eq!(string_literal_body("b\"abc\""), Some("abc\""));
    assert_eq!(string_literal_body("br\"abc\""), None);
    assert_eq!(string_literal_body("r###"), None);
    assert_eq!(string_literal_body("42"), None);
    assert_eq!(string_literal_body(""), None);
    assert!(string_literal_starts_with_sql_marker("\"\n   --sql\nselect\""));
    assert!(string_literal_starts_with_sql_marker("b\"--sql\""));
    assert!(!string_literal_starts_with_sql_marker("\"-- sql\""));
}

#[test]
fn recognizes_blocking_calls() {
    assert!(is_blocking_function_call("std::thread::sleep"));
    assert!(is_blocking_function_call("std::fs::read_to_string"));
    assert!(is_blocking_function_call(
        "tokio::runtime::Runtime::block_on"
    ));
    assert!(is_blocking_path("std::net::TcpStream::connect"));
    assert!(is_blocking_path("std::process::Command::output"));
    assert!(is_blocking_method_name("recv"));
    assert!(is_blocking_method_name("wait_with_output"));
    assert!(!is_blocking_function_call("tokio::time::sleep"));
    assert!(!is_blocking_path("std::process::id"));
    assert!(!is_blocking_method_name("try_recv"));
}

#[test]
fn blocking_callees_are_trimmed() {
    assert!(is_blocking_function_call("  block_on\n"));
    assert!(is_blocking_function_call("\u{3000}std::fs::read"));
    assert!(!is_blocking_path(" std::fs::read"));
    assert!(is_blocking_function_call("my::reqwest::blocking::get"));
    assert!(!is_blocking_function_call("block_on_all"));
    for path in [
        "std::process::Child::wait",
        "std::sync::mpsc::Receiver::recv",
        "std::sync::mpmc::channel",
        "futures::executor::block_on",
    ] {
        assert!(is_blocking_path(path), "{path}");
    }
    for method in ["block_on", "recv_timeout", "wait", "output"] {
        assert!(is_blocking_method_name(method), "{method}");
    }
}

#[test]
fn recognizes_blocking_quarantine_calls() {
    assert!(is_blocking_quarantine_call("tokio::task::spawn_blocking"));
    assert!(is_blocking_quarantine_call("spawn_blocking"));
    assert!(is_blocking_quarantine_call("tokio::task::block_in_place"));
    assert!(is_blocking_quarantine_call("std::thread::spawn"));
    assert!(!is_blocking_quarantine_call("tokio::spawn"));
}

#[test]
fn a_bare_thread_spawn_is_a_quarantine_only_alone() {
    assert!(is_blocking_quarantine_call("thread::spawn"));
    assert!(!is_blocking_quarantine_call("my::thread::spawn"));
}

#[test]
fn recognizes_direct_reqwest_client_construction() {
    assert!(contains_direct_reqwest_client(
        "reqwest::Client::builder().build()"
    ));
    assert!(contains_direct_reqwest_client(
        "reqwest::blocking::Client::new()"
    ));
    assert!(!contains_direct_reqwest_client(
        "OutboundHttpClient::builder()"
    ));
}

#[test]
fn recognizes_direct_reqwest_requests() {
    assert!(contains_direct_reqwest_client("reqwest::get(url)"));
    assert!(contains_direct_reqwest_client("reqwest::blocking::get(url)"));
    assert!(contains_direct_reqwest_client("reqwest::Client::new()"));
    assert!(contains_direct_reqwest_client("reqwest::blocking::Client::builder()"));
    assert!(!contains_direct_reqwest_client("reqwest::Url::parse(url)"));
}

#[test]
fn recognizes_silent_saturation_shapes() {
    // Outer call must be one of the unwrap_or family.
    assert!(is_unwrap_or_family("unwrap_or"));
    assert!(is_unwrap_or_family("unwrap_or_default"));
    assert!(is_unwrap_or_family("unwrap_or_else"));
    assert!(!is_unwrap_or_family("unwrap"));
    assert!(!is_unwrap_or_family("expect"));
    // Receiver must be a fallible conversion.
    assert!(is_fallible_conversion_name("try_from"));
    assert!(is_fallible_conversion_name("try_into"));
    assert!(!is_fallible_conversion_name("from"));
    assert!(!is_fallible_conversion_name("parse"));
}

#[test]
fn recognizes_unbounded_channel_paths() {
    assert!(is_unbounded_channel_path(
        "tokio::sync::mpsc::unbounded_channel"
    ));
    assert!(is_unbounded_channel_path(
        "futures::channel::mpsc::unbounded"
    ));
    assert!(is_unbounded_channel_path("crossbeam_channel::unbounded"));
    // A crate-prefixed re-export / fixture stand-in still matches on the
    // module-qualified suffix.
    assert!(is_unbounded_channel_path(
        "fixture_product_conversions::tokio::sync::mpsc::unbounded_channel"
    ));
    // A bounded constructor or an unrelated `unbounded`-named fn is fine.
    assert!(!is_unbounded_channel_path("tokio::sync::mpsc::channel"));
    assert!(!is_unbounded_channel_path("my_crate::unbounded"));
}

#[test]
fn channel_suffixes_need_a_path_boundary() {
    assert!(is_unbounded_channel_path("futures_channel::mpsc::unbounded"));
    assert!(is_unbounded_channel_path("crossbeam::channel::unbounded"));
    assert!(is_unbounded_channel_path("a::crossbeam_channel::unbounded"));
    assert!(!is_unbounded_channel_path("my_crossbeam_channel::unbounded"));
}

#[test]
fn skips_setter_style_bool_param_names() {
    assert!(is_exempt_fn_name("set_enabled"));
    assert!(is_exempt_fn_name("with_retries"));
    assert!(!is_exempt_fn_name("render"));
    assert!(!is_exempt_fn_name("settle")); // not a `set_` setter
}

#[test]
fn white_space_is_what_unicode_says() {
    for code in 0..=0x10ffffu32 {
        if let Some(c) = char::from_u32(code) {
            assert_eq!(char_is_white_space(c), c.is_whitespace(), "{code:x}");
        }
    }
}
