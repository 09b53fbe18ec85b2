//! Recognisers: what a source snippet, a path or a name stands for.

use vstd::prelude::*;
use vstd::string::*;

use crate::blank::{blanked, code_without_literals_and_comments};
use crate::text::{
    ascii_lower, char_is_white_space, chars_of, contains_text, ends_with, find_char, has_text,
    index_of, is_white_space, lemma_find_char, lemma_find_char_is, lowered, piece, starts_with,
    str_contains, str_ends_with, str_eq, str_starts_with, string_of, text_option, trim, trim_start,
    trimmed, trimmed_start,
};

verus! {

/// `code` names SQLx or a database adapter.
pub open spec fn names_database_adapter(code: Seq<char>) -> bool {
    ||| contains_text(code, "sqlx::"@)
    ||| contains_text(code, "PgPool"@)
    ||| contains_text(code, "PoolOptions"@)
    ||| contains_text(code, "sqlx::Postgres"@)
    ||| contains_text(code, "AssertSqlSafe"@)
}

/// `snippet` names SQLx or a database adapter in its code, not merely in a literal or a
/// comment.
pub open spec fn is_sqlx_boundary(snippet: Seq<char>) -> bool {
    names_database_adapter(blanked(snippet))
}

/// `snippet` hands SQL to a query constructor that is not a plain literal.
pub open spec fn has_dynamic_sql_argument(snippet: Seq<char>) -> bool {
    ||| contains_text(snippet, "format!("@)
    ||| contains_text(snippet, ".as_str()"@)
    ||| contains_text(snippet, "query(sql)"@)
    ||| contains_text(snippet, "query(&sql)"@)
    ||| contains_text(snippet, "query(statement)"@)
    ||| contains_text(snippet, "query(&statement)"@)
    ||| contains_text(snippet, "query(query)"@)
    ||| contains_text(snippet, "query(&query)"@)
}

/// Lower-case text that opens a query constructor the way a literal argument is written.
pub open spec fn opens_literal_query(lower: Seq<char>) -> bool {
    ||| contains_text(lower, "query(\""@)
    ||| contains_text(lower, "query(\n"@)
    ||| contains_text(lower, "query_scalar(\n"@)
    ||| contains_text(lower, "query_scalar::<"@)
    ||| contains_text(lower, "query_as(\n"@)
    ||| contains_text(lower, "query_as::<"@)
}

/// Lower-case text that holds the start of an SQL statement.
pub open spec fn opens_sql_statement(lower: Seq<char>) -> bool {
    ||| contains_text(lower, "select "@)
    ||| contains_text(lower, "insert into"@)
    ||| contains_text(lower, "update "@)
    ||| contains_text(lower, "delete from"@)
}

/// `snippet` calls a query constructor on a literal SQL statement.
pub open spec fn has_static_sql_literal(snippet: Seq<char>) -> bool {
    let lower = ascii_lower(snippet);
    opens_literal_query(lower) && opens_sql_statement(lower)
}

/// `snippet` reads as SQL.
pub open spec fn has_inline_sql_text(snippet: Seq<char>) -> bool {
    let lower = ascii_lower(snippet);
    ||| contains_text(lower, "select "@) && contains_text(lower, " from"@)
    ||| contains_text(lower, "insert into"@)
    ||| contains_text(lower, "update "@) && contains_text(lower, " set"@)
    ||| contains_text(lower, "delete from"@)
    ||| contains_text(lower, "create schema"@)
    ||| contains_text(lower, "create materialized view"@)
    ||| contains_text(lower, "create or replace view"@)
    ||| contains_text(lower, "drop materialized view"@)
    ||| contains_text(lower, "drop view"@)
    ||| contains_text(lower, "alter materialized view"@)
    ||| contains_text(lower, "grant select"@)
}

/// What stands behind the opening quote of the string literal that `snippet` is, up to the
/// end of the snippet: the literal may be a raw string or a byte string.
pub open spec fn literal_body(snippet: Seq<char>) -> Option<Seq<char>> {
    let t = trim_start(snippet);
    if t.len() == 0 {
        None
    } else if t[0] == 'r' {
        let quote = find_char(t, '"', 1);
        if quote < t.len() {
            Some(t.subrange(quote + 1, t.len() as int))
        } else {
            None
        }
    } else if t[0] == 'b' {
        if t.len() > 1 && t[1] == '"' {
            Some(t.subrange(2, t.len() as int))
        } else {
            None
        }
    } else if t[0] == '"' {
        Some(t.subrange(1, t.len() as int))
    } else {
        None
    }
}

/// The body of the literal begins with `--sql`, white space aside.
pub open spec fn has_sql_marker(snippet: Seq<char>) -> bool {
    literal_body(snippet) matches Some(body) && starts_with(trim_start(body), "--sql"@)
}

/// `snippet` is `name`, or calls it.
pub open spec fn is_or_calls(snippet: Seq<char>, name: Seq<char>) -> bool {
    snippet == name || contains_text(snippet, name + "("@)
}

/// `snippet` names one of SQLx's run-time query constructors.
pub open spec fn is_runtime_query(snippet: Seq<char>) -> bool {
    ||| is_or_calls(snippet, "sqlx::query"@)
    ||| is_or_calls(snippet, "sqlx::query_as"@)
    ||| is_or_calls(snippet, "sqlx::query_scalar"@)
    ||| is_or_calls(snippet, "sqlx::query_file"@)
    ||| is_or_calls(snippet, "sqlx::query_file_as"@)
    ||| is_or_calls(snippet, "sqlx::query_file_scalar"@)
}

/// `snippet` makes an HTTP client or request with reqwest itself.
pub open spec fn has_direct_reqwest_client(snippet: Seq<char>) -> bool {
    ||| contains_text(snippet, "reqwest::Client::new"@)
    ||| contains_text(snippet, "reqwest::Client::builder"@)
    ||| contains_text(snippet, "reqwest::blocking::Client::new"@)
    ||| contains_text(snippet, "reqwest::blocking::Client::builder"@)
    ||| contains_text(snippet, "reqwest::get"@)
    ||| contains_text(snippet, "reqwest::blocking::get"@)
}

/// `snippet` hands work to a thread that may block.
pub open spec fn is_quarantine_call(snippet: Seq<char>) -> bool {
    ||| contains_text(snippet, "spawn_blocking"@)
    ||| contains_text(snippet, "block_in_place"@)
    ||| contains_text(snippet, "std::thread::spawn"@)
    ||| snippet == "thread::spawn"@
}

/// `path` names a function that blocks its thread.
pub open spec fn blocking_path(path: Seq<char>) -> bool {
    ||| starts_with(path, "std::thread::sleep"@)
    ||| starts_with(path, "std::fs::"@)
    ||| starts_with(path, "std::net::"@)
    ||| starts_with(path, "std::process::Command"@)
    ||| starts_with(path, "std::process::Child"@)
    ||| starts_with(path, "std::sync::mpsc::"@)
    ||| starts_with(path, "std::sync::mpmc::"@)
    ||| contains_text(path, "reqwest::blocking"@)
    ||| ends_with(path, "::block_on"@)
}

/// `snippet`, white space aside, names a function that blocks its thread.
pub open spec fn blocking_function_call(snippet: Seq<char>) -> bool {
    let callee = trim(snippet);
    ||| blocking_path(callee)
    ||| contains_text(callee, "reqwest::blocking"@)
    ||| callee == "block_on"@
    ||| ends_with(callee, "::block_on"@)
}

/// The names of methods that block their thread.
pub open spec fn blocking_method_name(name: Seq<char>) -> bool {
    ||| name == "block_on"@
    ||| name == "recv"@
    ||| name == "recv_timeout"@
    ||| name == "wait"@
    ||| name == "wait_with_output"@
    ||| name == "output"@
}

/// The methods that put a value in place of a conversion's error.
pub open spec fn unwrap_or_name(name: Seq<char>) -> bool {
    name == "unwrap_or"@ || name == "unwrap_or_default"@ || name == "unwrap_or_else"@
}

/// The names of conversions that can fail.
pub open spec fn fallible_conversion_name(name: Seq<char>) -> bool {
    name == "try_from"@ || name == "try_into"@
}

/// The names of arithmetic that clamps where it would overflow.
pub open spec fn saturating_name(name: Seq<char>) -> bool {
    starts_with(name, "saturating_"@)
}

/// The index just past the last `::` that ends at index `end` of `path` or before, or zero.
pub open spec fn segment_start(path: Seq<char>, end: int) -> int
    decreases end,
{
    if end < 2 {
        0
    } else if path[end - 2] == ':' && path[end - 1] == ':' {
        end
    } else {
        segment_start(path, end - 1)
    }
}

/// The last segment of the path `path`: what stands behind its last `::`.
pub open spec fn path_name(path: Seq<char>) -> Seq<char> {
    path.skip(segment_start(path, path.len() as int))
}

/// What follows `word` at the start of `s`, white space aside, if `s` begins with it.
pub open spec fn behind(s: Seq<char>, word: Seq<char>) -> Option<Seq<char>> {
    if starts_with(s, word) {
        Some(trim_start(s.skip(word.len() as int)))
    } else {
        None
    }
}

/// `s` begins with `crate` and the bracket that closes a visibility.
pub open spec fn closes_at_crate(s: Seq<char>) -> bool {
    behind(s, "crate"@) matches Some(rest) && starts_with(rest, ")"@)
}

/// `source` begins with the visibility `pub(crate)`, or with `pub(in crate)`, which is the
/// same; white space may stand between the tokens.
pub open spec fn says_pub_crate(source: Seq<char>) -> bool {
    behind(source, "pub"@) matches Some(open) && (behind(open, "("@) matches Some(scope) && (
    closes_at_crate(scope) || (scope.len() > 2 && is_white_space(scope[2]) && (behind(
        scope,
        "in"@,
    ) matches Some(path) && closes_at_crate(path)))))
}

/// `path` is `target`, or ends in it behind a `::`.
pub open spec fn is_or_ends_in(path: Seq<char>, target: Seq<char>) -> bool {
    path == target || ends_with(path, "::"@ + target)
}

/// `path` is that of a channel constructor without a bound.
pub open spec fn unbounded_channel_path(path: Seq<char>) -> bool {
    ||| is_or_ends_in(path, "tokio::sync::mpsc::unbounded_channel"@)
    ||| is_or_ends_in(path, "futures::channel::mpsc::unbounded"@)
    ||| is_or_ends_in(path, "futures_channel::mpsc::unbounded"@)
    ||| is_or_ends_in(path, "crossbeam_channel::unbounded"@)
    ||| is_or_ends_in(path, "crossbeam::channel::unbounded"@)
}

/// `name` is that of a setter.
pub open spec fn exempt_fn_name(name: Seq<char>) -> bool {
    starts_with(name, "set_"@) || starts_with(name, "with_"@)
}

/// Whether `snippet` names SQLx or a database adapter in its code.
///
/// A word inside a string or character literal or a comment is a mention, not a use, and
/// does not count.
pub fn contains_sqlx_boundary_token(snippet: &str) -> (r: bool)
    ensures
        r == is_sqlx_boundary(snippet@),
{
    let code = code_without_literals_and_comments(snippet);
    let chars = chars_of(code.as_str());
    let c: &[char] = chars.as_slice();
    has_text(c, "sqlx::") || has_text(c, "PgPool") || has_text(c, "PoolOptions") || has_text(
        c,
        "sqlx::Postgres",
    ) || has_text(c, "AssertSqlSafe")
}

/// Whether `snippet` hands SQL that is not a plain literal to a query constructor.
pub fn contains_dynamic_sql_argument(snippet: &str) -> (r: bool)
    ensures
        r == has_dynamic_sql_argument(snippet@),
{
    let chars = chars_of(snippet);
    let c: &[char] = chars.as_slice();
    has_text(c, "format!(") || has_text(c, ".as_str()") || has_text(c, "query(sql)") || has_text(
        c,
        "query(&sql)",
    ) || has_text(c, "query(statement)") || has_text(c, "query(&statement)") || has_text(
        c,
        "query(query)",
    ) || has_text(c, "query(&query)")
}

/// Whether `snippet` calls a query constructor on a literal SQL statement. Letter case does
/// not matter.
pub fn contains_static_sql_literal(snippet: &str) -> (r: bool)
    ensures
        r == has_static_sql_literal(snippet@),
{
    let chars = lowered(snippet);
    let c: &[char] = chars.as_slice();
    (has_text(c, "query(\"") || has_text(c, "query(\n") || has_text(c, "query_scalar(\n")
        || has_text(c, "query_scalar::<") || has_text(c, "query_as(\n") || has_text(
        c,
        "query_as::<",
    )) && (has_text(c, "select ") || has_text(c, "insert into") || has_text(c, "update ")
        || has_text(c, "delete from"))
}

/// Whether `snippet` reads as SQL. Letter case does not matter.
pub fn contains_inline_sql_text(snippet: &str) -> (r: bool)
    ensures
        r == has_inline_sql_text(snippet@),
{
    let chars = lowered(snippet);
    let c: &[char] = chars.as_slice();
    (has_text(c, "select ") && has_text(c, " from")) || has_text(c, "insert into") || (has_text(
        c,
        "update ",
    ) && has_text(c, " set")) || has_text(c, "delete from") || has_text(c, "create schema")
        || has_text(c, "create materialized view") || has_text(c, "create or replace view")
        || has_text(c, "drop materialized view") || has_text(c, "drop view") || has_text(
        c,
        "alter materialized view",
    ) || has_text(c, "grant select")
}

/// Whether the string literal `snippet` begins with the `--sql` marker.
pub fn string_literal_starts_with_sql_marker(snippet: &str) -> (r: bool)
    ensures
        r == has_sql_marker(snippet@),
{
    match string_literal_body(snippet) {
        Some(body) => {
            let chars = chars_of(body);
            let from: usize = trimmed_start(chars.as_slice());
            let text = body.substring_char(from, chars.len());
            str_starts_with(text, "--sql")
        },
        None => false,
    }
}

/// What stands behind the opening quote of the string literal `snippet`, if it is one.
pub fn string_literal_body(snippet: &str) -> (r: Option<&str>)
    ensures
        r is Some <==> literal_body(snippet@) is Some,
        r matches Some(body) ==> literal_body(snippet@) == Some(body@),
{
    let chars = chars_of(snippet);
    let from: usize = trimmed_start(chars.as_slice());
    let len: usize = chars.len();
    let ghost t = trim_start(snippet@);
    if from == len {
        return None;
    }
    if chars[from] == 'r' {
        let quote: usize = index_of(chars.as_slice(), '"', from + 1);
        proof {
            lemma_find_char(snippet@, '"', from + 1);
            lemma_find_char_is(t, '"', 1, quote - from);
        }
        if quote == len {
            return None;
        }
        let body = snippet.substring_char(quote + 1, len);
        proof {
            assert(body@ =~= t.subrange(quote - from + 1, t.len() as int));
        }
        return Some(body);
    }
    if chars[from] == 'b' {
        if len - from > 1 && chars[from + 1] == '"' {
            let body = snippet.substring_char(from + 2, len);
            proof {
                assert(body@ =~= t.subrange(2, t.len() as int));
            }
            return Some(body);
        }
        return None;
    }
    if chars[from] == '"' {
        let body = snippet.substring_char(from + 1, len);
        proof {
            assert(body@ =~= t.subrange(1, t.len() as int));
        }
        return Some(body);
    }
    None
}

/// Whether `snippet` is `name`, or calls it.
fn names_or_calls(snippet: &str, name: &str) -> (r: bool)
    ensures
        r == is_or_calls(snippet@, name@),
{
    let mut call = name.to_owned();
    call.append("(");
    str_eq(snippet, name) || str_contains(snippet, call.as_str())
}

/// Whether `snippet` names one of SQLx's run-time query constructors, alone or in a call.
/// The checked macros are not among them.
pub fn is_sqlx_runtime_query(snippet: &str) -> (r: bool)
    ensures
        r == is_runtime_query(snippet@),
{
    names_or_calls(snippet, "sqlx::query") || names_or_calls(snippet, "sqlx::query_as")
        || names_or_calls(snippet, "sqlx::query_scalar") || names_or_calls(
        snippet,
        "sqlx::query_file",
    ) || names_or_calls(snippet, "sqlx::query_file_as") || names_or_calls(
        snippet,
        "sqlx::query_file_scalar",
    )
}

/// Whether `snippet` makes an HTTP client or request with reqwest itself.
pub fn contains_direct_reqwest_client(snippet: &str) -> (r: bool)
    ensures
        r == has_direct_reqwest_client(snippet@),
{
    let chars = chars_of(snippet);
    let c: &[char] = chars.as_slice();
    has_text(c, "reqwest::Client::new") || has_text(c, "reqwest::Client::builder") || has_text(
        c,
        "reqwest::blocking::Client::new",
    ) || has_text(c, "reqwest::blocking::Client::builder") || has_text(c, "reqwest::get")
        || has_text(c, "reqwest::blocking::get")
}

/// Whether `snippet` hands work to a thread that may block.
pub fn is_blocking_quarantine_call(snippet: &str) -> (r: bool)
    ensures
        r == is_quarantine_call(snippet@),
{
    let chars = chars_of(snippet);
    let c: &[char] = chars.as_slice();
    has_text(c, "spawn_blocking") || has_text(c, "block_in_place") || has_text(
        c,
        "std::thread::spawn",
    ) || str_eq(snippet, "thread::spawn")
}

/// Whether the callee `snippet` names a function that blocks its thread.
pub fn is_blocking_function_call(snippet: &str) -> (r: bool)
    ensures
        r == blocking_function_call(snippet@),
{
    let chars = chars_of(snippet);
    let callee_chars = trimmed(chars.as_slice());
    let callee = string_of(callee_chars.as_slice());
    is_blocking_path(callee.as_str()) || has_text(callee_chars.as_slice(), "reqwest::blocking")
        || str_eq(callee.as_str(), "block_on") || str_ends_with(callee.as_str(), "::block_on")
}

/// Whether `path` is that of a function that blocks its thread.
pub fn is_blocking_path(path: &str) -> (r: bool)
    ensures
        r == blocking_path(path@),
{
    str_starts_with(path, "std::thread::sleep") || str_starts_with(path, "std::fs::")
        || str_starts_with(path, "std::net::") || str_starts_with(path, "std::process::Command")
        || str_starts_with(path, "std::process::Child") || str_starts_with(
        path,
        "std::sync::mpsc::",
    ) || str_starts_with(path, "std::sync::mpmc::") || str_contains(path, "reqwest::blocking")
        || str_ends_with(path, "::block_on")
}

/// Whether a method of this name blocks its thread.
pub fn is_blocking_method_name(method_name: &str) -> (r: bool)
    ensures
        r == blocking_method_name(method_name@),
{
    str_eq(method_name, "block_on") || str_eq(method_name, "recv") || str_eq(
        method_name,
        "recv_timeout",
    ) || str_eq(method_name, "wait") || str_eq(method_name, "wait_with_output") || str_eq(
        method_name,
        "output",
    )
}

/// Whether the method is one of the `unwrap_or` family, which silently discards the error
/// of a conversion.
pub fn is_unwrap_or_family(method_name: &str) -> (r: bool)
    ensures
        r == unwrap_or_name(method_name@),
{
    str_eq(method_name, "unwrap_or") || str_eq(method_name, "unwrap_or_default") || str_eq(
        method_name,
        "unwrap_or_else",
    )
}

/// Whether `name` is that of a conversion that can fail.
pub fn is_fallible_conversion_name(name: &str) -> (r: bool)
    ensures
        r == fallible_conversion_name(name@),
{
    str_eq(name, "try_from") || str_eq(name, "try_into")
}

/// Whether `name` is that of arithmetic that clamps where it would overflow.
pub fn is_saturating_name(name: &str) -> (r: bool)
    ensures
        r == saturating_name(name@),
{
    str_starts_with(name, "saturating_")
}

/// The last segment of the path `path`: `saturating_add` in `u32::saturating_add`.
pub fn last_path_name(path: &str) -> (r: &str)
    ensures
        r@ == path_name(path@),
{
    let chars = chars_of(path);
    let mut i: usize = chars.len();
    while i >= 2 && !(chars[i - 2] == ':' && chars[i - 1] == ':')
        invariant
            chars@ == path@,
            0 <= i <= chars@.len(),
            segment_start(path@, path@.len() as int) == segment_start(path@, i as int),
        decreases i,
    {
        i = i - 1;
    }
    let start: usize = if i >= 2 {
        i
    } else {
        0
    };
    let name = path.substring_char(start, chars.len());
    proof {
        assert(name@ =~= path@.skip(start as int));
    }
    name
}

/// What follows `word` at the start of `s`, white space aside, if `s` begins with it.
fn text_behind<'a>(s: &'a str, word: &str) -> (r: Option<&'a str>)
    ensures
        text_option(r) == behind(s@, word@),
{
    if !str_starts_with(s, word) {
        return None;
    }
    let chars = chars_of(s);
    let from: usize = chars_of(word).len();
    let rest = piece(chars.as_slice(), from, chars.len());
    let skipped: usize = trimmed_start(rest.as_slice());
    let text = s.substring_char(from + skipped, chars.len());
    proof {
        assert(rest@ =~= s@.skip(from as int));
        assert(text@ =~= rest@.subrange(skipped as int, rest@.len() as int));
    }
    Some(text)
}

/// Whether `s` begins with `crate` and the bracket that closes a visibility.
fn ends_at_crate(s: &str) -> (r: bool)
    ensures
        r == closes_at_crate(s@),
{
    match text_behind(s, "crate") {
        Some(rest) => str_starts_with(rest, ")"),
        None => false,
    }
}

/// Whether `source` begins with the visibility `pub(crate)` or `pub(in crate)`, however its
/// tokens are spaced.
pub fn is_written_pub_crate(source: &str) -> (r: bool)
    ensures
        r == says_pub_crate(source@),
{
    let Some(open) = text_behind(source, "pub") else {
        return false;
    };
    let Some(scope) = text_behind(open, "(") else {
        return false;
    };
    if ends_at_crate(scope) {
        return true;
    }
    let chars = chars_of(scope);
    if chars.len() <= 2 || !char_is_white_space(chars[2]) {
        return false;
    }
    match text_behind(scope, "in") {
        Some(path) => ends_at_crate(path),
        None => false,
    }
}

/// Whether `path` is `target`, or ends in it behind a `::`.
fn names_or_ends_in(path: &str, target: &str) -> (r: bool)
    ensures
        r == is_or_ends_in(path@, target@),
{
    let mut suffix = "::".to_owned();
    suffix.append(target);
    str_eq(path, target) || str_ends_with(path, suffix.as_str())
}

/// Whether `path` is that of a channel constructor without a bound.
///
/// The comparison is on the module-qualified suffix: a re-export, whose path has a crate's
/// name in front, still matches, and an unrelated function that merely has the same last
/// segment does not.
pub fn is_unbounded_channel_path(path: &str) -> (r: bool)
    ensures
        r == unbounded_channel_path(path@),
{
    names_or_ends_in(path, "tokio::sync::mpsc::unbounded_channel") || names_or_ends_in(
        path,
        "futures::channel::mpsc::unbounded",
    ) || names_or_ends_in(path, "futures_channel::mpsc::unbounded") || names_or_ends_in(
        path,
        "crossbeam_channel::unbounded",
    ) || names_or_ends_in(path, "crossbeam::channel::unbounded")
}

/// Whether a function of this name reads well at its call sites with a flag: a setter.
pub fn is_exempt_fn_name(name: &str) -> (r: bool)
    ensures
        r == exempt_fn_name(name@),
{
    str_starts_with(name, "set_") || str_starts_with(name, "with_")
}

} // verus!
