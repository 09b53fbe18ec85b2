use rust_lints::fixtures::db_seam::{
    dynamic_query_without_safety_note, inline_sql_without_marker, static_query_without_macro,
    static_scalar_without_macro, AssertSqlSafe,
};
use rust_lints::fixtures::policy_api::app_level_sql;
use rust_lints::fixtures::product_conversions::{
    checked_count, defaulting_count, lossy_string, render_level, render_report, saturating_count,
    spawn_bounded, spawn_unbounded, suppressed_bool_param, suppressed_saturation, truncating_len,
    Renderer,
};
use rust_lints::fixtures::product_core::query_from_core;
use rust_lints::fixtures::product_integration::direct_http_client;
use rust_lints::tokens::{contains_inline_sql_text, string_literal_starts_with_sql_marker};

fn assert_rendered(_strict: bool) {}

#[test]
fn renders() {
    assert_rendered(true);
}

#[test]
fn counts_saturate_default_or_are_checked() {
    assert_eq!(saturating_count(7), 7);
    assert_eq!(saturating_count(i32::MAX as usize), i32::MAX);
    assert_eq!(saturating_count(i32::MAX as usize + 1), i32::MAX);
    assert_eq!(suppressed_saturation(usize::MAX), i32::MAX);
    assert_eq!(suppressed_saturation(8), 8);
    assert_eq!(defaulting_count(u64::from(u32::MAX)), u32::MAX);
    assert_eq!(defaulting_count(u64::from(u32::MAX) + 1), 0);
    assert_eq!(truncating_len(65_535), 65_535);
    assert_eq!(truncating_len(65_536), u16::MAX);
    assert_eq!(truncating_len(3), 3);
    assert_eq!(checked_count(3), Some(3));
    assert_eq!(checked_count(i32::MAX as usize + 1), None);
}

#[test]
fn bytes_become_text_or_nothing() {
    assert_eq!(lossy_string(b"text".to_vec()), "text");
    assert_eq!(lossy_string("h\u{e9}\u{1F600}".as_bytes().to_vec()), "h\u{e9}\u{1F600}");
    assert_eq!(lossy_string(vec![0x66, 0xff]), "");
    assert_eq!(lossy_string(vec![0xed, 0xa0, 0x80]), "");
    assert_eq!(lossy_string(vec![]), "");
}

#[test]
fn the_inline_sql_case_is_one() {
    let literal = format!("\"{}\"", inline_sql_without_marker());
    assert_eq!(literal, "\"SELECT id FROM deductions\"");
    assert!(contains_inline_sql_text(&literal));
    assert!(!string_literal_starts_with_sql_marker(&literal));
}

#[test]
fn the_cases_without_a_result_run() {
    app_level_sql();
    static_query_without_macro();
    static_scalar_without_macro();
    dynamic_query_without_safety_note("workers");
    query_from_core();
    direct_http_client();
    spawn_unbounded();
    spawn_bounded();
    render_report(true);
    render_level(3);
    suppressed_bool_param(false);
    let mut renderer = Renderer;
    renderer.render(true);
    renderer.set_compact(false);
    let renderer = renderer.with_verbose(true);
    renderer.render(false);
    assert_eq!(AssertSqlSafe("select 1").0, "select 1");
}
