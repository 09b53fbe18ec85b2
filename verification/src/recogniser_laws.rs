//! What the recognisers promise of their answers.
//!
//! Each law speaks of a call: of every answer `r` that the recogniser may give to the text.

use vstd::prelude::*;
use vstd::string::*;

use crate::blank::code_without_literals_and_comments;
use crate::pass_laws::lemma_trim_start;
use crate::text::{
    ascii_lower, contains_text, ends_with, is_white_space, lemma_find_char, lemma_find_char_is,
    occurs_at, starts_with, trim, trim_start,
};
use crate::text_laws::{all_white, law_text_begins, law_text_ends};
use crate::tokens::{
    behind, blocking_path, closes_at_crate, contains_direct_reqwest_client,
    contains_dynamic_sql_argument, contains_inline_sql_text, contains_sqlx_boundary_token,
    contains_static_sql_literal, has_direct_reqwest_client, has_dynamic_sql_argument,
    has_inline_sql_text, has_static_sql_literal, is_blocking_function_call, is_blocking_method_name,
    is_blocking_path, is_blocking_quarantine_call, is_exempt_fn_name, is_fallible_conversion_name,
    is_runtime_query, is_saturating_name, is_sqlx_runtime_query, is_unbounded_channel_path,
    is_unwrap_or_family, is_written_pub_crate, last_path_name, literal_body, names_database_adapter,
    segment_start, string_literal_body, string_literal_starts_with_sql_marker,
    unbounded_channel_path,
};

verus! {

/// The code names a database: one of the words by which SQLx, its pools and its safety marker
/// are known.
pub open spec fn names_a_database(code: Seq<char>) -> bool {
    contains_text(code, "sqlx::"@) || contains_text(code, "PgPool"@) || contains_text(
        code,
        "PoolOptions"@,
    ) || contains_text(code, "AssertSqlSafe"@)
}

/// `s` calls `query` on the variable `name` or on a reference to it.
pub open spec fn queries_variable(s: Seq<char>, name: Seq<char>) -> bool {
    contains_text(s, "query("@ + name + ")"@) || contains_text(s, "query(&"@ + name + ")"@)
}

/// `s` builds its SQL: it formats a text, hands on a string's contents, or queries a variable.
pub open spec fn builds_its_sql(s: Seq<char>) -> bool {
    contains_text(s, "format!("@) || contains_text(s, ".as_str()"@) || queries_variable(s, "sql"@)
        || queries_variable(s, "statement"@) || queries_variable(s, "query"@)
}

/// In lower case, `s` calls a query constructor the way it is called on a literal: with the
/// literal or a line break behind the bracket, or with type arguments.
pub open spec fn queries_a_literal(s: Seq<char>) -> bool {
    let lower = ascii_lower(s);
    contains_text(lower, "query("@ + seq!['"']) || contains_text(lower, "query("@ + seq!['\n'])
        || contains_text(lower, "query_scalar("@ + seq!['\n']) || contains_text(
        lower,
        "query_as("@ + seq!['\n'],
    ) || contains_text(lower, "query_scalar"@ + "::<"@) || contains_text(
        lower,
        "query_as"@ + "::<"@,
    )
}

/// In lower case, `s` holds the first words of an SQL statement on rows.
pub open spec fn holds_a_statement(s: Seq<char>) -> bool {
    let lower = ascii_lower(s);
    contains_text(lower, "select "@) || contains_text(lower, "insert into"@) || contains_text(
        lower,
        "update "@,
    ) || contains_text(lower, "delete from"@)
}

/// In lower case, `s` reads as SQL on rows, on views, on schemas or on grants.
pub open spec fn reads_as_sql(s: Seq<char>) -> bool {
    let lower = ascii_lower(s);
    ||| contains_text(lower, "select "@) && contains_text(lower, " from"@)
    ||| contains_text(lower, "update "@) && contains_text(lower, " set"@)
    ||| contains_text(lower, "insert into"@)
    ||| contains_text(lower, "delete from"@)
    ||| contains_text(lower, "create schema"@)
    ||| contains_text(lower, "grant select"@)
    ||| contains_text(lower, "drop view"@)
    ||| contains_text(lower, "create or replace view"@)
    ||| contains_text(lower, "create "@ + "materialized view"@)
    ||| contains_text(lower, "drop "@ + "materialized view"@)
    ||| contains_text(lower, "alter "@ + "materialized view"@)
}

/// `s` is the constructor `sqlx::query` with `ending`, or calls it.
pub open spec fn is_constructor(s: Seq<char>, ending: Seq<char>) -> bool {
    s == "sqlx::query"@ + ending || contains_text(s, "sqlx::query"@ + ending + "("@)
}

/// `s` is one of SQLx's run-time query constructors, or calls one.
pub open spec fn is_any_constructor(s: Seq<char>) -> bool {
    is_constructor(s, ""@) || is_constructor(s, "_as"@) || is_constructor(s, "_scalar"@)
        || is_constructor(s, "_file"@) || is_constructor(s, "_file_as"@) || is_constructor(
        s,
        "_file_scalar"@,
    )
}

/// `s` makes a client or a request with the part `part` of reqwest.
pub open spec fn reaches_out(s: Seq<char>, part: Seq<char>) -> bool {
    contains_text(s, part + "Client::new"@) || contains_text(s, part + "Client::builder"@)
        || contains_text(s, part + "get"@)
}

/// `s` hands work to a thread that may block: it speaks of `spawn_blocking` or
/// `block_in_place`, or spawns a thread of its own.
pub open spec fn leaves_the_worker(s: Seq<char>) -> bool {
    contains_text(s, "spawn_blocking"@) || contains_text(s, "block_in_place"@) || contains_text(
        s,
        "std::thread::spawn"@,
    ) || s == "thread::spawn"@
}

/// The path leads to something in std that blocks, to the blocking half of reqwest, or to a
/// function `block_on`.
pub open spec fn leads_to_blocking(path: Seq<char>) -> bool {
    ||| starts_with(path, "std::thread::sleep"@)
    ||| starts_with(path, "std::fs::"@)
    ||| starts_with(path, "std::net::"@)
    ||| starts_with(path, "std::process::"@ + "Command"@)
    ||| starts_with(path, "std::process::"@ + "Child"@)
    ||| starts_with(path, "std::sync::"@ + "mpsc::"@)
    ||| starts_with(path, "std::sync::"@ + "mpmc::"@)
    ||| contains_text(path, "reqwest::blocking"@)
    ||| ends_with(path, "::block_on"@)
}

/// A method of this name waits: for a future, for a message or for a process.
pub open spec fn waits(name: Seq<char>) -> bool {
    name == "block_on"@ || name == "recv"@ || name == "recv_timeout"@ || name == "wait"@ || name
        == "wait_with_output"@ || name == "output"@
}

/// The path is `target`, as it stands or below other modules.
pub open spec fn is_at_or_below(path: Seq<char>, target: Seq<char>) -> bool {
    path == target || exists|front: Seq<char>| path == #[trigger] (front + "::"@ + target)
}

/// The path is that of a constructor of channels without a bound.
pub open spec fn makes_channels_without_bound(path: Seq<char>) -> bool {
    ||| is_at_or_below(path, "tokio::sync::mpsc::unbounded_channel"@)
    ||| is_at_or_below(path, "futures::channel::mpsc::unbounded"@)
    ||| is_at_or_below(path, "futures_channel::mpsc::unbounded"@)
    ||| is_at_or_below(path, "crossbeam_channel::unbounded"@)
    ||| is_at_or_below(path, "crossbeam::channel::unbounded"@)
}

proof fn lemma_contains_head(s: Seq<char>, t: Seq<char>, head: Seq<char>)
    requires
        contains_text(s, t),
        starts_with(t, head),
    ensures
        contains_text(s, head),
{
    let i = choose|i: int| occurs_at(s, t, i);
    assert(s.subrange(i, i + head.len()) =~= s.subrange(i, i + t.len()).subrange(
        0,
        head.len() as int,
    ));
    assert(occurs_at(s, head, i));
}

/// The two ways to say that code names a database agree.
pub proof fn lemma_database_name(code: Seq<char>)
    ensures
        names_database_adapter(code) <==> names_a_database(code),
{
    if contains_text(code, "sqlx::Postgres"@) {
        reveal_strlit("sqlx::Postgres");
        reveal_strlit("sqlx::");
        assert("sqlx::Postgres"@.subrange(0, 6) =~= "sqlx::"@);
        lemma_contains_head(code, "sqlx::Postgres"@, "sqlx::"@);
    }
}

/// A snippet uses a database exactly if what is left of it without literals and comments names
/// one.
pub proof fn law_database_use_is_in_the_code(snippet: &str, code: String, r: bool)
    requires
        call_ensures(contains_sqlx_boundary_token, (snippet,), r),
        call_ensures(code_without_literals_and_comments, (snippet,), code),
    ensures
        r <==> names_a_database(code@),
{
    lemma_database_name(code@);
}

/// The two ways to say that SQL is dynamic agree.
pub proof fn lemma_dynamic_sql(s: Seq<char>)
    ensures
        has_dynamic_sql_argument(s) <==> builds_its_sql(s),
{
    reveal_strlit("query(");
    reveal_strlit("query(&");
    reveal_strlit(")");
    reveal_strlit("sql");
    reveal_strlit("statement");
    reveal_strlit("query");
    reveal_strlit("query(sql)");
    reveal_strlit("query(&sql)");
    reveal_strlit("query(statement)");
    reveal_strlit("query(&statement)");
    reveal_strlit("query(query)");
    reveal_strlit("query(&query)");
    assert("query("@ + "sql"@ + ")"@ =~= "query(sql)"@);
    assert("query(&"@ + "sql"@ + ")"@ =~= "query(&sql)"@);
    assert("query("@ + "statement"@ + ")"@ =~= "query(statement)"@);
    assert("query(&"@ + "statement"@ + ")"@ =~= "query(&statement)"@);
    assert("query("@ + "query"@ + ")"@ =~= "query(query)"@);
    assert("query(&"@ + "query"@ + ")"@ =~= "query(&query)"@);
}

/// A snippet hands over dynamic SQL exactly if it builds its SQL.
pub proof fn law_dynamic_sql_is_built(snippet: &str, r: bool)
    requires
        call_ensures(contains_dynamic_sql_argument, (snippet,), r),
    ensures
        r <==> builds_its_sql(snippet@),
{
    lemma_dynamic_sql(snippet@);
}

/// The two ways to say that a query is static agree.
pub proof fn lemma_static_query(s: Seq<char>)
    ensures
        has_static_sql_literal(s) <==> queries_a_literal(s) && holds_a_statement(s),
{
    reveal_strlit("query(");
    reveal_strlit("query_scalar(");
    reveal_strlit("query_as(");
    reveal_strlit("query_scalar");
    reveal_strlit("query_as");
    reveal_strlit("::<");
    reveal_strlit("query(\"");
    reveal_strlit("query(\n");
    reveal_strlit("query_scalar(\n");
    reveal_strlit("query_as(\n");
    reveal_strlit("query_scalar::<");
    reveal_strlit("query_as::<");
    assert("query("@ + seq!['"'] =~= "query(\""@);
    assert("query("@ + seq!['\n'] =~= "query(\n"@);
    assert("query_scalar("@ + seq!['\n'] =~= "query_scalar(\n"@);
    assert("query_as("@ + seq!['\n'] =~= "query_as(\n"@);
    assert("query_scalar"@ + "::<"@ =~= "query_scalar::<"@);
    assert("query_as"@ + "::<"@ =~= "query_as::<"@);
}

/// A snippet is a static query exactly if it queries a literal and holds a statement.
pub proof fn law_static_queries_hold_statements(snippet: &str, r: bool)
    requires
        call_ensures(contains_static_sql_literal, (snippet,), r),
    ensures
        r <==> queries_a_literal(snippet@) && holds_a_statement(snippet@),
{
    lemma_static_query(snippet@);
}

/// The two ways to say that a text is SQL agree.
pub proof fn lemma_inline_sql(s: Seq<char>)
    ensures
        has_inline_sql_text(s) <==> reads_as_sql(s),
{
    reveal_strlit("create ");
    reveal_strlit("drop ");
    reveal_strlit("alter ");
    reveal_strlit("materialized view");
    reveal_strlit("create materialized view");
    reveal_strlit("drop materialized view");
    reveal_strlit("alter materialized view");
    assert("create "@ + "materialized view"@ =~= "create materialized view"@);
    assert("drop "@ + "materialized view"@ =~= "drop materialized view"@);
    assert("alter "@ + "materialized view"@ =~= "alter materialized view"@);
}

/// A text is taken for SQL exactly if it reads as SQL.
pub proof fn law_sql_is_recognised(snippet: &str, r: bool)
    requires
        call_ensures(contains_inline_sql_text, (snippet,), r),
    ensures
        r <==> reads_as_sql(snippet@),
{
    lemma_inline_sql(snippet@);
}

/// `opening` opens a string literal whose body can be told: a quote, a `b` and a quote, or an
/// `r` with the first quote behind it.
pub open spec fn opens_a_body(opening: Seq<char>) -> bool {
    ||| opening == seq!['"']
    ||| opening == seq!['b', '"']
    ||| opening.len() >= 2 && opening[0] == 'r' && opening.last() == '"' && forall|j: int|
        1 <= j < opening.len() - 1 ==> #[trigger] opening[j] != '"'
}

proof fn lemma_body(t: Seq<char>, opening: Seq<char>, body: Seq<char>)
    requires
        opens_a_body(opening),
        t == opening + body,
        trim_start(t) == t,
    ensures
        literal_body(t) == Some(body),
{
    let n = opening.len() as int;
    assert(t[0] == opening[0]);
    assert(t[n - 1] == opening[n - 1]);
    if opening[0] == 'r' {
        assert forall|j: int| 1 <= j < n - 1 implies t[j] != '"' by {
            assert(t[j] == opening[j]);
        }
        lemma_find_char_is(t, '"', 1, n - 1);
    }
    assert(t.subrange(n, t.len() as int) =~= body);
}

/// The body of a literal is what stands behind its opening, and only what opens as a literal
/// has one. White space before the literal does not matter.
pub proof fn law_body_stands_behind_the_opening(snippet: &str, r: Option<&str>)
    requires
        call_ensures(string_literal_body, (snippet,), r),
    ensures
        forall|opening: Seq<char>, body: Seq<char>|
            opens_a_body(opening) && trim_start(snippet@) == #[trigger] (opening + body) ==> (
            r matches Some(found) && found@ == body),
        r matches Some(found) ==> exists|opening: Seq<char>|
            opens_a_body(opening) && trim_start(snippet@) == #[trigger] (opening + found@),
{
    let t = trim_start(snippet@);
    lemma_trim_start_twice(snippet@);
    assert forall|opening: Seq<char>, body: Seq<char>|
        opens_a_body(opening) && t == #[trigger] (opening + body) implies (r matches Some(found)
        && found@ == body) by {
        lemma_body(t, opening, body);
    }
    if let Some(found) = r {
        let opening = t.subrange(0, t.len() - found@.len());
        if t[0] == 'r' {
            lemma_find_char(t, '"', 1);
        }
        assert(t =~= opening + found@);
        if t[0] == '"' {
            assert(opening =~= seq!['"']);
        } else if t[0] == 'b' {
            assert(opening =~= seq!['b', '"']);
        }
        assert(opens_a_body(opening));
    }
}

proof fn lemma_trim_start_twice(s: Seq<char>)
    ensures
        trim_start(trim_start(s)) == trim_start(s),
        trim_start(s).len() > 0 ==> !is_white_space(trim_start(s)[0]),
    decreases s.len(),
{
    if s.len() > 0 && is_white_space(s[0]) {
        lemma_trim_start_twice(s.subrange(1, s.len() as int));
    }
}

/// A literal carries the marker exactly if its body, white space aside, begins with `--sql`.
pub proof fn law_marker_begins_the_body(snippet: &str, body: Option<&str>, r: bool)
    requires
        call_ensures(string_literal_starts_with_sql_marker, (snippet,), r),
        call_ensures(string_literal_body, (snippet,), body),
    ensures
        r <==> (body matches Some(text) && starts_with(trim_start(text@), "--sql"@)),
{
}

/// The two ways to name a query constructor agree.
pub proof fn lemma_query_constructors(s: Seq<char>)
    ensures
        is_runtime_query(s) <==> is_any_constructor(s),
{
    reveal_strlit("");
    reveal_strlit("_as");
    reveal_strlit("_scalar");
    reveal_strlit("_file");
    reveal_strlit("_file_as");
    reveal_strlit("_file_scalar");
    reveal_strlit("sqlx::query");
    reveal_strlit("sqlx::query_as");
    reveal_strlit("sqlx::query_scalar");
    reveal_strlit("sqlx::query_file");
    reveal_strlit("sqlx::query_file_as");
    reveal_strlit("sqlx::query_file_scalar");
    assert("sqlx::query"@ + ""@ =~= "sqlx::query"@);
    assert("sqlx::query"@ + "_as"@ =~= "sqlx::query_as"@);
    assert("sqlx::query"@ + "_scalar"@ =~= "sqlx::query_scalar"@);
    assert("sqlx::query"@ + "_file"@ =~= "sqlx::query_file"@);
    assert("sqlx::query"@ + "_file_as"@ =~= "sqlx::query_file_as"@);
    assert("sqlx::query"@ + "_file_scalar"@ =~= "sqlx::query_file_scalar"@);
}

/// A snippet names a query constructor exactly if it is one or calls one.
pub proof fn law_query_constructors_are_six(snippet: &str, r: bool)
    requires
        call_ensures(is_sqlx_runtime_query, (snippet,), r),
    ensures
        r <==> is_any_constructor(snippet@),
{
    lemma_query_constructors(snippet@);
}

/// The two ways to say that a snippet reaches out agree.
pub proof fn lemma_clients(s: Seq<char>)
    ensures
        has_direct_reqwest_client(s) <==> reaches_out(s, "reqwest::"@) || reaches_out(s, "reqwest::blocking::"@),
{
    reveal_strlit("reqwest::");
    reveal_strlit("reqwest::blocking::");
    reveal_strlit("Client::new");
    reveal_strlit("Client::builder");
    reveal_strlit("get");
    reveal_strlit("reqwest::Client::new");
    reveal_strlit("reqwest::Client::builder");
    reveal_strlit("reqwest::get");
    reveal_strlit("reqwest::blocking::Client::new");
    reveal_strlit("reqwest::blocking::Client::builder");
    reveal_strlit("reqwest::blocking::get");
    assert("reqwest::"@ + "Client::new"@ =~= "reqwest::Client::new"@);
    assert("reqwest::"@ + "Client::builder"@ =~= "reqwest::Client::builder"@);
    assert("reqwest::"@ + "get"@ =~= "reqwest::get"@);
    assert("reqwest::blocking::"@ + "Client::new"@ =~= "reqwest::blocking::Client::new"@);
    assert("reqwest::blocking::"@ + "Client::builder"@ =~= "reqwest::blocking::Client::builder"@);
    assert("reqwest::blocking::"@ + "get"@ =~= "reqwest::blocking::get"@);
}

/// A snippet reaches out by itself exactly if it makes a client or a request with reqwest, in
/// its asynchronous or in its blocking half.
pub proof fn law_clients_are_made_with_reqwest(snippet: &str, r: bool)
    requires
        call_ensures(contains_direct_reqwest_client, (snippet,), r),
    ensures
        r <==> reaches_out(snippet@, "reqwest::"@) || reaches_out(
            snippet@,
            "reqwest::blocking::"@,
        ),
{
    lemma_clients(snippet@);
}

/// A callee quarantines what it is given exactly if it leaves the worker.
pub proof fn law_quarantine_leaves_the_worker(snippet: &str, r: bool)
    requires
        call_ensures(is_blocking_quarantine_call, (snippet,), r),
    ensures
        r <==> leaves_the_worker(snippet@),
{
}

/// The two ways to say that a path leads to blocking agree.
pub proof fn lemma_blocking_path(path: Seq<char>)
    ensures
        blocking_path(path) <==> leads_to_blocking(path),
{
    reveal_strlit("std::process::");
    reveal_strlit("Command");
    reveal_strlit("Child");
    reveal_strlit("std::sync::");
    reveal_strlit("mpsc::");
    reveal_strlit("mpmc::");
    reveal_strlit("std::process::Command");
    reveal_strlit("std::process::Child");
    reveal_strlit("std::sync::mpsc::");
    reveal_strlit("std::sync::mpmc::");
    assert("std::process::"@ + "Command"@ =~= "std::process::Command"@);
    assert("std::process::"@ + "Child"@ =~= "std::process::Child"@);
    assert("std::sync::"@ + "mpsc::"@ =~= "std::sync::mpsc::"@);
    assert("std::sync::"@ + "mpmc::"@ =~= "std::sync::mpmc::"@);
}

/// A path is that of something that blocks exactly if it leads to blocking.
pub proof fn law_blocking_paths(path: &str, r: bool)
    requires
        call_ensures(is_blocking_path, (path,), r),
    ensures
        r <==> leads_to_blocking(path@),
{
    lemma_blocking_path(path@);
}

/// A callee blocks exactly if, white space aside, it leads to blocking or is `block_on`.
pub proof fn law_blocking_callees(snippet: &str, r: bool)
    requires
        call_ensures(is_blocking_function_call, (snippet,), r),
    ensures
        r <==> leads_to_blocking(trim(snippet@)) || trim(snippet@) == "block_on"@,
{
    lemma_blocking_path(trim(snippet@));
}

/// A method blocks by its name exactly if it waits.
pub proof fn law_blocking_methods_wait(name: &str, r: bool)
    requires
        call_ensures(is_blocking_method_name, (name,), r),
    ensures
        r <==> waits(name@),
{
}

/// The methods that swallow an error are `unwrap_or`, alone or with `_default` or `_else`.
pub proof fn law_swallowing_methods(name: &str, r: bool)
    requires
        call_ensures(is_unwrap_or_family, (name,), r),
    ensures
        r <==> name@ == "unwrap_or"@ || name@ == "unwrap_or"@ + "_default"@ || name@
            == "unwrap_or"@ + "_else"@,
{
    reveal_strlit("unwrap_or");
    reveal_strlit("_default");
    reveal_strlit("_else");
    reveal_strlit("unwrap_or_default");
    reveal_strlit("unwrap_or_else");
    assert("unwrap_or"@ + "_default"@ =~= "unwrap_or_default"@);
    assert("unwrap_or"@ + "_else"@ =~= "unwrap_or_else"@);
}

/// The conversions that can fail are `try_from` and `try_into`.
pub proof fn law_fallible_conversions(name: &str, r: bool)
    requires
        call_ensures(is_fallible_conversion_name, (name,), r),
    ensures
        r <==> name@ == "try_"@ + "from"@ || name@ == "try_"@ + "into"@,
{
    reveal_strlit("try_");
    reveal_strlit("from");
    reveal_strlit("into");
    reveal_strlit("try_from");
    reveal_strlit("try_into");
    assert("try_"@ + "from"@ =~= "try_from"@);
    assert("try_"@ + "into"@ =~= "try_into"@);
}

/// Saturating arithmetic is what is named `saturating_` and something.
pub proof fn law_saturating_names(name: &str, r: bool)
    requires
        call_ensures(is_saturating_name, (name,), r),
    ensures
        r <==> exists|rest: Seq<char>| name@ == #[trigger] ("saturating_"@ + rest),
{
    law_text_begins(name@, "saturating_"@);
}

/// The setters are what is named `set_` or `with_` and something.
pub proof fn law_setter_names(name: &str, r: bool)
    requires
        call_ensures(is_exempt_fn_name, (name,), r),
    ensures
        r <==> exists|rest: Seq<char>|
            name@ == #[trigger] ("set_"@ + rest) || name@ == "with_"@ + rest,
{
    law_text_begins(name@, "set_"@);
    law_text_begins(name@, "with_"@);
    if exists|rest: Seq<char>| name@ == #[trigger] ("with_"@ + rest) {
        let rest = choose|rest: Seq<char>| name@ == #[trigger] ("with_"@ + rest);
        let other = "set_"@ + rest;
        assert(name@ == "set_"@ + rest || name@ == "with_"@ + rest);
    }
}

/// The last segment of a path has no `::` in it, and is the whole path or stands behind a `::`.
pub proof fn law_last_segment_ends_the_path(path: &str, r: &str)
    requires
        call_ensures(last_path_name, (path,), r),
    ensures
        !contains_text(r@, "::"@),
        path@ == r@ || ends_with(path@, "::"@ + r@),
{
    let s = path@;
    let n = s.len() as int;
    lemma_last_separator(s, n);
    let k = segment_start(s, n);
    reveal_strlit("::");
    if contains_text(r@, "::"@) {
        let i = choose|i: int| occurs_at(r@, "::"@, i);
        assert(r@.subrange(i, i + 2)[0] == ':' && r@.subrange(i, i + 2)[1] == ':');
        assert(s[k + i] == ':' && s[k + i + 1] == ':');
        assert(false);
    }
    if k == 0 {
        assert(r@ =~= s);
    } else {
        assert(s.subrange(k - 2, n) =~= "::"@ + r@);
    }
}

proof fn lemma_last_separator(s: Seq<char>, end: int)
    requires
        0 <= end <= s.len(),
    ensures
        0 <= segment_start(s, end) <= end,
        segment_start(s, end) > 0 ==> segment_start(s, end) >= 2 && s[segment_start(s, end) - 2]
            == ':' && s[segment_start(s, end) - 1] == ':',
        forall|j: int| segment_start(s, end) <= j < end - 1 ==> !(#[trigger] s[j] == ':' && s[j + 1]
            == ':'),
    decreases end,
{
    if end >= 2 && !(s[end - 2] == ':' && s[end - 1] == ':') {
        lemma_last_separator(s, end - 1);
    }
}

proof fn lemma_at_or_below(path: Seq<char>, target: Seq<char>)
    ensures
        (path == target || ends_with(path, "::"@ + target)) <==> is_at_or_below(path, target),
{
    let t = "::"@ + target;
    law_text_ends(path, t);
    if ends_with(path, t) {
        let front = choose|a: Seq<char>| path == #[trigger] (a + t);
        assert(path =~= front + "::"@ + target);
    }
    if path != target && is_at_or_below(path, target) {
        let front = choose|front: Seq<char>| path == #[trigger] (front + "::"@ + target);
        assert(path =~= front + t);
    }
}

/// The two ways to say that a channel has no bound agree.
pub proof fn lemma_unbounded_channels(path: Seq<char>)
    ensures
        unbounded_channel_path(path) <==> makes_channels_without_bound(path),
{
    lemma_at_or_below(path, "tokio::sync::mpsc::unbounded_channel"@);
    lemma_at_or_below(path, "futures::channel::mpsc::unbounded"@);
    lemma_at_or_below(path, "futures_channel::mpsc::unbounded"@);
    lemma_at_or_below(path, "crossbeam_channel::unbounded"@);
    lemma_at_or_below(path, "crossbeam::channel::unbounded"@);
}

/// A path is that of a channel without a bound exactly if it is one of the known constructors,
/// as it stands or below other modules.
pub proof fn law_unbounded_channels(path: &str, r: bool)
    requires
        call_ensures(is_unbounded_channel_path, (path,), r),
    ensures
        r <==> makes_channels_without_bound(path@),
{
    lemma_unbounded_channels(path@);
}

/// What can stand between the bracket and `crate` in a visibility: nothing, or `in` with white
/// space behind it.
pub open spec fn is_in(mid: Seq<char>) -> bool {
    mid.len() == 0 || (mid.len() > 2 && mid.subrange(0, 2) == "in"@ && all_white(
        mid.subrange(2, mid.len() as int),
    ))
}

/// A source text that begins with the visibility `pub(crate)` or `pub(in crate)`, with the
/// white space `a`, `b` and `c` between its tokens.
pub open spec fn crate_wide(
    a: Seq<char>,
    b: Seq<char>,
    mid: Seq<char>,
    c: Seq<char>,
    rest: Seq<char>,
) -> Seq<char> {
    "pub"@ + (a + ("("@ + (b + (mid + ("crate"@ + (c + (")"@ + rest)))))))
}

proof fn lemma_behind(s: Seq<char>, word: Seq<char>, w: Seq<char>, t: Seq<char>)
    requires
        s == word + (w + t),
        all_white(w),
        t.len() > 0,
        !is_white_space(t[0]),
    ensures
        behind(s, word) == Some(t),
{
    assert(s.subrange(0, word.len() as int) =~= word);
    assert(s.skip(word.len() as int) =~= w + t);
    lemma_trim_start(w, t);
}

proof fn lemma_behind_back(s: Seq<char>, word: Seq<char>) -> (w: Seq<char>)
    requires
        behind(s, word) is Some,
    ensures
        all_white(w),
        s == word + (w + behind(s, word)->0),
{
    let rest = s.skip(word.len() as int);
    let t = trim_start(rest);
    let w = lemma_white_head(rest);
    assert(s =~= s.subrange(0, word.len() as int) + rest);
    w
}

proof fn lemma_white_head(s: Seq<char>) -> (w: Seq<char>)
    ensures
        all_white(w),
        s == w + trim_start(s),
    decreases s.len(),
{
    if s.len() > 0 && is_white_space(s[0]) {
        let rest = s.subrange(1, s.len() as int);
        let v = lemma_white_head(rest);
        let w = seq![s[0]] + v;
        assert(s =~= seq![s[0]] + rest);
        assert(s =~= w + trim_start(s));
        assert forall|j: int| 0 <= j < w.len() implies is_white_space(#[trigger] w[j]) by {
            if j > 0 {
                assert(w[j] == v[j - 1]);
            }
        }
        w
    } else {
        assert(s =~= Seq::<char>::empty() + s);
        Seq::empty()
    }
}

/// A visibility is crate-wide as it is written exactly if it is `pub(crate)` or
/// `pub(in crate)`, however its tokens are spaced.
pub proof fn law_crate_wide_visibility(source: &str, r: bool)
    requires
        call_ensures(is_written_pub_crate, (source,), r),
    ensures
        r <==> exists|a: Seq<char>, b: Seq<char>, mid: Seq<char>, c: Seq<char>, rest: Seq<char>|
            all_white(a) && all_white(b) && is_in(mid) && all_white(c) && source@
                == #[trigger] crate_wide(a, b, mid, c, rest),
{
    reveal_strlit("pub");
    reveal_strlit("(");
    reveal_strlit("in");
    reveal_strlit("crate");
    reveal_strlit(")");
    let s = source@;
    if r {
        let open = behind(s, "pub"@)->0;
        let a = lemma_behind_back(s, "pub"@);
        let scope = behind(open, "("@)->0;
        let b = lemma_behind_back(open, "("@);
        let path = if closes_at_crate(scope) {
            scope
        } else {
            behind(scope, "in"@)->0
        };
        let mid = scope.subrange(0, scope.len() - path.len());
        if !closes_at_crate(scope) {
            let w = lemma_behind_back(scope, "in"@);
            assert(mid =~= "in"@ + w);
            assert(mid.subrange(0, 2) =~= "in"@);
            assert(mid.subrange(2, mid.len() as int) =~= w);
            if w.len() == 0 {
                assert(scope =~= "in"@ + path);
                assert(path[0] == scope[2]);
                assert(starts_with(path, "crate"@));
                assert(path.subrange(0, 5)[0] == 'c');
                assert(false);
            }
        }
        assert(scope =~= mid + path);
        let close = behind(path, "crate"@)->0;
        let c = lemma_behind_back(path, "crate"@);
        let rest = close.skip(1);
        assert(close =~= close.subrange(0, 1) + rest);
        assert(s == crate_wide(a, b, mid, c, rest));
    }
    if exists|a: Seq<char>, b: Seq<char>, mid: Seq<char>, c: Seq<char>, rest: Seq<char>|
        all_white(a) && all_white(b) && is_in(mid) && all_white(c) && s == #[trigger] crate_wide(
            a,
            b,
            mid,
            c,
            rest,
        ) {
        let (a, b, mid, c, rest) = choose|
            a: Seq<char>,
            b: Seq<char>,
            mid: Seq<char>,
            c: Seq<char>,
            rest: Seq<char>,
        |
            all_white(a) && all_white(b) && is_in(mid) && all_white(c) && s == #[trigger] crate_wide(
                a,
                b,
                mid,
                c,
                rest,
            );
        let close = ")"@ + rest;
        let path = "crate"@ + (c + close);
        let scope = mid + path;
        let open = "("@ + (b + scope);
        assert(close[0] == ')');
        lemma_behind(path, "crate"@, c, close);
        assert(close.subrange(0, 1) =~= ")"@);
        assert(path[0] == 'c');
        assert(scope[0] == 'c' || scope[0] == 'i') by {
            if mid.len() > 0 {
                assert(scope[0] == mid[0]);
                assert(mid.subrange(0, 2)[0] == mid[0]);
            } else {
                assert(scope[0] == path[0]);
            }
        }
        lemma_behind(s, "pub"@, a, open);
        lemma_behind(open, "("@, b, scope);
        if mid.len() > 0 {
            let w = mid.subrange(2, mid.len() as int);
            assert(mid =~= mid.subrange(0, 2) + w);
            assert(scope =~= "in"@ + (w + path));
            lemma_behind(scope, "in"@, w, path);
            assert(scope[2] == w[0]);
        } else {
            assert(scope =~= path);
        }
    }
}

} // verus!
