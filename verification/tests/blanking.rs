use rust_lints::blank::code_without_literals_and_comments;
use rust_lints::tokens::contains_sqlx_boundary_token;

fn check(snippet: &str, expected: &str) {
    let shown = code_without_literals_and_comments(snippet);
    assert_eq!(shown, expected);
    assert_eq!(shown.chars().count(), snippet.chars().count());
}

#[test]
fn plain_code_stays() {
    check("", "");
    check("let x = a - b * c;", "let x = a - b * c;");
    check("a / b", "a / b");
    check("row + bar # rust", "row + bar # rust");
}

#[test]
fn strings_are_blanked() {
    check("f(\"a b\", c)", "f(\"   \", c)");
    check("f(b\"ab\")", "f(b\"  \")");
    check(r#"f("a\"b")"#, r#"f("    ")"#);
    check(r#""\\" x"#, r#""  " x"#);
    check("\"open", "\"    ");
    check("\"open\\", "\"     ");
}

#[test]
fn raw_strings_are_blanked() {
    check("r\"a\\\" b", "r\"  \" b");
    check("r#\"a\"b\"# c", "r#\"   \"# c");
    check("br##\"a\"#\"## c", "br##\"   \"## c");
    check("r#\"open\"", "r#\"     ");
    check("r#type", "r#type");
}

#[test]
fn chars_are_blanked_and_lifetimes_are_not() {
    check("'a'", "' '");
    check("'''", "' '");
    check("'\\n' x", "'  ' x");
    check("'\\'' x", "'  ' x");
    check("'\\u{1F600}' x", "'         ' x");
    check("&'a str", "&'a str");
    check("'outer: loop {}", "'outer: loop {}");
    check("'\\", "' ");
    check("b'x'", "b' '");
    check("'", "'");
}

#[test]
fn line_comments_are_blanked_up_to_the_line_feed() {
    check("a // b\nc", "a //  \nc");
    check("//", "//");
    check("// \"x\" y", "//      ");
}

#[test]
fn block_comments_are_blanked_between_their_delimiters() {
    check("a /* b */ c", "a /*   */ c");
    check("/**/", "/**/");
    check("/*/", "/* ");
    check("a /* open", "a /*     ");
    check("/* a /* b */ c */ d", "/*             */ d");
    check("/* \n */x", "/*   */x");
}

#[test]
fn a_literal_leaves_the_verdict_to_the_code_around_it() {
    assert!(!contains_sqlx_boundary_token("f(\"PgPool \\\" PgPool\")"));
    assert!(contains_sqlx_boundary_token("f(\"quiet\"); PgPool"));
    assert!(contains_sqlx_boundary_token("PgPool; f(\"quiet\")"));
    assert!(contains_sqlx_boundary_token("/* a /* PgPool */ */ sqlx::x"));
    assert!(!contains_sqlx_boundary_token("/* a /* b */ PgPool */ x"));
    assert!(!contains_sqlx_boundary_token("'\"' + \"PgPool\""));
    assert!(!contains_sqlx_boundary_token("f(b\"PgPool\")"));
    assert!(!contains_sqlx_boundary_token("f(br##\"PgPool \"# PgPool\"##)"));
    assert!(contains_sqlx_boundary_token("a / PgPool"));
    assert!(!contains_sqlx_boundary_token("fn f<'a>(x: &'a str) { 'l: loop { g(a / b, \"PgPool\") } }"));
    assert!(!contains_sqlx_boundary_token("fn f<'a>(x: &'a str) {} // PgPool"));
    assert!(!contains_sqlx_boundary_token("f(\"a\", a / b, '\\u{41}', /* c */ 'x') // PgPool"));
    assert!(contains_sqlx_boundary_token("f(\"a\", '\\n', PgPool) // quiet"));
    assert!(contains_sqlx_boundary_token("'\\'' PgPool 'x'"));
}
