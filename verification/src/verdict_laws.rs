//! What the passes promise of their verdicts.
//!
//! Each law speaks of calls: of every verdict `r` that a pass may give on its arguments. It
//! says for which arguments there is a finding, in terms of the place, the source text and the
//! variables that are set, and for which there is none.

use vstd::prelude::*;
use vstd::string::*;

use crate::blank::code_without_literals_and_comments;
use crate::config::{
    dynamic_sql_marker, fixture_path_prefix, http_owner_paths, label, sqlx_owner_paths, Environment,
};
use crate::diag::{as_list, diag_option, diag_views, DiagView, RustLintsPolicyDiag};
use crate::hir::{
    Attribute, ClosureKind, CoroutineDesugaring, CoroutineKind, Expr, ExprKind, FnKind, Function,
    HirTy, Item, ItemKind, Node, NodeExpr, QPath, Reach, Receiver, ReceiverKind, Site, Ty, TyKind,
    UseKind,
};
use crate::passes::{
    any_marks_test, async_at, attrs_mark_test, blocks, check_blocking_call_in_async_context,
    check_bool_param_on_public_fn, check_dynamic_sqlx_safety, check_expr, check_fn,
    check_inline_sql_marker, check_item, check_outbound_http_wrapper,
    check_silent_numeric_saturation, check_sqlx_boundary, check_strict_compile_time_sqlx, check_ty,
    check_unbounded_channel, check_wildcard_import, closure_is_async,
    closure_is_blocking_quarantine, conversion_result_ok_type_is_numeric, decl_has_bool_input,
    fn_is_publicly_reachable, fn_kind_name, fn_reach, hir_ty_is_bool,
    in_async_context_without_blocking_quarantine, is_blocking_call, is_bool, is_in_test_context,
    is_saturating_arithmetic, is_test_node, last_path_segment, marks_test, on_async_worker,
    quarantined_at, receiver_is_fallible_conversion, ty_is_numeric_primitive,
};
use crate::paths::normalized;
use crate::recogniser_laws::{
    builds_its_sql, holds_a_statement, is_any_constructor, leads_to_blocking, leaves_the_worker,
    lemma_blocking_path, lemma_clients, lemma_database_name, lemma_dynamic_sql, lemma_inline_sql,
    lemma_query_constructors, lemma_static_query, lemma_unbounded_channels,
    makes_channels_without_bound, names_a_database, queries_a_literal, reaches_out, reads_as_sql,
    waits,
};
use crate::sites::{
    has_dynamic_sql_note, in_http_owner_path, in_lint_fixture_path, in_non_production_target,
    in_path, in_sqlx_owner_path, note_start, site_in, site_in_any,
};
use crate::text::{contains_text, lines_of, starts_with, texts, trim, trim_start};
use crate::tokens::{
    blocking_function_call, is_written_pub_crate, last_path_name, string_literal_body,
};

verus! {

/// The file of the site, in its normal form, has `part` in its path.
pub open spec fn below(site: Site, part: Seq<char>) -> bool {
    site.path matches Some(path) && contains_text(normalized(path@), part)
}

/// The file of the site has one of `parts` in its path.
pub open spec fn below_any(site: Site, parts: Seq<String>) -> bool {
    exists|i: int| 0 <= i < parts.len() && below(site, (#[trigger] parts[i])@)
}

/// The site is shipped: it is not built for tests, and it is not below a directory `examples`.
pub open spec fn is_shipped(site: Site) -> bool {
    !site.test_crate && !(site.path matches Some(path) && (contains_text(
        normalized(path@),
        "/examples/"@,
    ) || starts_with(normalized(path@), "examples/"@)))
}

/// There is a finding with these texts if `owed`, and none otherwise.
pub open spec fn reports(
    r: Option<RustLintsPolicyDiag>,
    owed: bool,
    message: Seq<char>,
    help: Seq<char>,
) -> bool {
    &&& r is Some <==> owed
    &&& r matches Some(finding) ==> finding.message@ == message && finding.help@ == help
}

/// The environments hold the same under this name.
pub open spec fn agree_on(a: Environment, b: Environment, name: Seq<char>) -> bool {
    a@.contains_key(name) == b@.contains_key(name) && (a@.contains_key(name) ==> a@[name]
        == b@[name])
}

/// Two verdicts say the same.
pub open spec fn same_verdict(
    r: Option<RustLintsPolicyDiag>,
    q: Option<RustLintsPolicyDiag>,
) -> bool {
    match (r, q) {
        (Some(x), Some(y)) => x.message@ == y.message@ && x.help@ == y.help@,
        (None, None) => true,
        _ => false,
    }
}

proof fn lemma_below_any(site: Site, parts: Vec<String>)
    ensures
        site_in_any(site, texts(parts@)) <==> below_any(site, parts@),
{
    let all = texts(parts@);
    if site_in_any(site, all) {
        let i = choose|i: int|
            0 <= i < all.len() && site_in(site, #[trigger] all[i]);
        assert(below(site, parts@[i]@));
    }
    if below_any(site, parts@) {
        let i = choose|i: int| 0 <= i < parts@.len() && below(site, (#[trigger] parts@[i])@);
        assert(all[i] == parts@[i]@);
        assert(site_in(site, all[i]));
    }
}

// ---------------------------------------------------------------------------
// Places
// ---------------------------------------------------------------------------

/// Where a site is: in a path, in a seam, in the fixtures, in what is not shipped.
pub proof fn law_places(
    env: &Environment,
    site: &Site,
    needle: &str,
    sqlx: Vec<String>,
    http: Vec<String>,
    fixtures: String,
    in_needle: bool,
    in_sqlx: bool,
    in_http: bool,
    in_fixtures: bool,
    unshipped: bool,
)
    requires
        call_ensures(sqlx_owner_paths, (env,), sqlx),
        call_ensures(http_owner_paths, (env,), http),
        call_ensures(fixture_path_prefix, (env,), fixtures),
        call_ensures(in_path, (site, needle), in_needle),
        call_ensures(in_sqlx_owner_path, (env, site), in_sqlx),
        call_ensures(in_http_owner_path, (env, site), in_http),
        call_ensures(in_lint_fixture_path, (env, site), in_fixtures),
        call_ensures(in_non_production_target, (site,), unshipped),
    ensures
        in_needle <==> below(*site, needle@),
        in_sqlx <==> below_any(*site, sqlx@),
        in_http <==> below_any(*site, http@),
        in_fixtures <==> below(*site, fixtures@),
        unshipped <==> !is_shipped(*site),
{
    lemma_below_any(*site, sqlx);
    lemma_below_any(*site, http);
}

/// A note is found exactly if the file could be read and one of its lines, the one of the site
/// or one of the four above it, holds the configured keyword with a colon and a space.
pub proof fn law_notes_stand_close_above(
    env: &Environment,
    site: &Site,
    keyword: String,
    r: bool,
)
    requires
        call_ensures(dynamic_sql_marker, (env,), keyword),
        call_ensures(has_dynamic_sql_note, (env, site), r),
    ensures
        r <==> site.path is Some && (site.source matches Some(source) && exists|number: int|
            site.line - 4 <= number <= site.line && 1 <= number <= lines_of(source@).len()
                && contains_text(
                #[trigger] lines_of(source@)[number - 1],
                keyword@ + ": "@,
            )),
{
    let want = keyword@ + ": "@;
    if let Some(source) = site.source {
        let all = lines_of(source@);
        if r {
            let j = choose|j: int|
                note_start(site.line as int) <= j < site.line && j < all.len()
                    && contains_text(#[trigger] all[j], want);
            let number = j + 1;
            assert(contains_text(all[number - 1], want));
            assert(site.line - 4 <= number <= site.line && 1 <= number <= all.len());
        }
        if site.path is Some && exists|number: int|
            site.line - 4 <= number <= site.line && 1 <= number <= all.len() && contains_text(
                #[trigger] all[number - 1],
                want,
            ) {
            let number = choose|number: int|
                site.line - 4 <= number <= site.line && 1 <= number <= all.len() && contains_text(
                    #[trigger] all[number - 1],
                    want,
                );
            let j = number - 1;
            assert(contains_text(all[j], want));
            assert(note_start(site.line as int) <= j < site.line);
        }
    }
}

// ---------------------------------------------------------------------------
// SQL
// ---------------------------------------------------------------------------

/// The SQL-seam pass reports a snippet exactly if it is shipped, in none of the owners of the
/// seam and not in the fixtures, and its code names a database.
pub proof fn law_sql_outside_the_seam_is_reported(
    env: &Environment,
    site: &Site,
    snippet: &str,
    owners: Vec<String>,
    fixtures: String,
    code: String,
    r: Option<RustLintsPolicyDiag>,
)
    requires
        call_ensures(check_sqlx_boundary, (env, site, snippet), r),
        call_ensures(sqlx_owner_paths, (env,), owners),
        call_ensures(fixture_path_prefix, (env,), fixtures),
        call_ensures(code_without_literals_and_comments, (snippet,), code),
    ensures
        reports(
            r,
            is_shipped(*site) && !below_any(*site, owners@) && !below(*site, fixtures@)
                && names_a_database(code@),
            "SQLx and database adapter APIs must stay in reviewed database infrastructure paths"@,
            "move SQL and pool usage behind a reviewed database, storage, audit, or infrastructure crate boundary"@,
        ),
{
    lemma_below_any(*site, owners);
    lemma_database_name(code@);
}

/// The verdict of the SQL-seam pass hangs on the owners of the seam and the fixtures alone: no
/// other variable, and no other seam, changes it.
pub proof fn law_sql_seam_reads_three_variables(
    a: &Environment,
    b: &Environment,
    site: &Site,
    snippet: &str,
    r: Option<RustLintsPolicyDiag>,
    q: Option<RustLintsPolicyDiag>,
)
    requires
        call_ensures(check_sqlx_boundary, (a, site, snippet), r),
        call_ensures(check_sqlx_boundary, (b, site, snippet), q),
        agree_on(*a, *b, "RUST_LINTS_SQLX_OWNER_PATHS"@),
        agree_on(*a, *b, "RUST_LINTS_SEAM_CRATES"@),
        agree_on(*a, *b, "RUST_LINTS_FIXTURE_PATH"@),
    ensures
        same_verdict(r, q),
{
}

/// The dynamic-SQL pass reports a snippet exactly if it is shipped and in an owner of the
/// seam, builds its SQL, is no static query, is not asserted to be safe and has no note.
pub proof fn law_dynamic_sql_is_reported(
    env: &Environment,
    site: &Site,
    snippet: &str,
    owners: Vec<String>,
    note: bool,
    r: Option<RustLintsPolicyDiag>,
)
    requires
        call_ensures(check_dynamic_sqlx_safety, (env, site, snippet), r),
        call_ensures(sqlx_owner_paths, (env,), owners),
        call_ensures(has_dynamic_sql_note, (env, site), note),
    ensures
        reports(
            r,
            is_shipped(*site) && below_any(*site, owners@) && builds_its_sql(snippet@) && !(
            queries_a_literal(snippet@) && holds_a_statement(snippet@)) && !contains_text(
                snippet@,
                "AssertSqlSafe"@,
            ) && !note,
            "dynamic SQLx query constructors must cross a documented SQL safety boundary"@,
            "validate identifiers and SQL shape before calling sqlx::query with dynamic SQL"@,
        ),
{
    lemma_below_any(*site, owners);
    lemma_static_query(snippet@);
    lemma_dynamic_sql(snippet@);
}

/// The verdict of the dynamic-SQL pass hangs on the owners of the seam and the keyword of the
/// notes alone.
pub proof fn law_dynamic_sql_reads_three_variables(
    a: &Environment,
    b: &Environment,
    site: &Site,
    snippet: &str,
    r: Option<RustLintsPolicyDiag>,
    q: Option<RustLintsPolicyDiag>,
)
    requires
        call_ensures(check_dynamic_sqlx_safety, (a, site, snippet), r),
        call_ensures(check_dynamic_sqlx_safety, (b, site, snippet), q),
        agree_on(*a, *b, "RUST_LINTS_SQLX_OWNER_PATHS"@),
        agree_on(*a, *b, "RUST_LINTS_SEAM_CRATES"@),
        agree_on(*a, *b, "RUST_LINTS_DYNAMIC_SQL_MARKER"@),
    ensures
        same_verdict(r, q),
{
}

/// The compile-time-SQLx pass reports a snippet exactly if it is on, the snippet is shipped, is
/// a static query and is not asserted to be safe, wherever it stands.
pub proof fn law_static_queries_are_reported(
    env: &Environment,
    site: &Site,
    snippet: &str,
    r: Option<RustLintsPolicyDiag>,
)
    requires
        call_ensures(check_strict_compile_time_sqlx, (env, site, snippet), r),
    ensures
        reports(
            r,
            env@.contains_key("RUST_LINTS_STRICT_SQLX"@) && is_shipped(*site) && queries_a_literal(
                snippet@,
            ) && holds_a_statement(snippet@) && !contains_text(snippet@, "AssertSqlSafe"@),
            "static SQLx queries should use compile-time checked macros"@,
            "prefer sqlx::query!, query_as!, or query_scalar! once SQLx offline metadata covers this query"@,
        ),
{
    lemma_static_query(snippet@);
}

/// The inline-SQL-marker pass reports a literal exactly if it is on, the literal is shipped,
/// reads as SQL and has no body that begins, white space aside, with `--sql`. It asks neither
/// for the seams nor for the fixtures.
pub proof fn law_unmarked_sql_is_reported(
    env: &Environment,
    site: &Site,
    snippet: &str,
    kind: &ExprKind,
    body: Option<&str>,
    r: Option<RustLintsPolicyDiag>,
)
    requires
        call_ensures(check_inline_sql_marker, (env, site, snippet, kind), r),
        call_ensures(string_literal_body, (snippet,), body),
    ensures
        reports(
            r,
            env@.contains_key("RUST_LINTS_REQUIRE_SQL_MARKER"@) && is_shipped(*site) && *kind is Lit
                && reads_as_sql(snippet@) && !(body matches Some(text) && starts_with(
                trim_start(text@),
                "--sql"@,
            )),
            "inline SQL string literals must start with --sql"@,
            "prefix SQL literals with --sql so editor SQL highlighting works consistently"@,
        ),
{
    lemma_inline_sql(snippet@);
}

/// The verdicts of the two gated SQL passes hang on their own gates alone.
pub proof fn law_gated_sql_passes_read_one_variable(
    a: &Environment,
    b: &Environment,
    site: &Site,
    snippet: &str,
    kind: &ExprKind,
    strict_a: Option<RustLintsPolicyDiag>,
    strict_b: Option<RustLintsPolicyDiag>,
    inline_a: Option<RustLintsPolicyDiag>,
    inline_b: Option<RustLintsPolicyDiag>,
)
    requires
        call_ensures(check_strict_compile_time_sqlx, (a, site, snippet), strict_a),
        call_ensures(check_strict_compile_time_sqlx, (b, site, snippet), strict_b),
        call_ensures(check_inline_sql_marker, (a, site, snippet, kind), inline_a),
        call_ensures(check_inline_sql_marker, (b, site, snippet, kind), inline_b),
    ensures
        a@.contains_key("RUST_LINTS_STRICT_SQLX"@) == b@.contains_key("RUST_LINTS_STRICT_SQLX"@)
            ==> same_verdict(strict_a, strict_b),
        a@.contains_key("RUST_LINTS_REQUIRE_SQL_MARKER"@) == b@.contains_key(
            "RUST_LINTS_REQUIRE_SQL_MARKER"@,
        ) ==> same_verdict(inline_a, inline_b),
{
}

// ---------------------------------------------------------------------------
// Outbound HTTP and wildcard imports
// ---------------------------------------------------------------------------

/// The outbound-HTTP pass reports a snippet exactly if it is on, the snippet is in none of the
/// owners of the HTTP seam and not in the fixtures, and it makes a client or a request. The
/// message names the platform.
pub proof fn law_outbound_http_is_reported(
    env: &Environment,
    site: &Site,
    snippet: &str,
    owners: Vec<String>,
    fixtures: String,
    platform: String,
    r: Option<RustLintsPolicyDiag>,
)
    requires
        call_ensures(check_outbound_http_wrapper, (env, site, snippet), r),
        call_ensures(http_owner_paths, (env,), owners),
        call_ensures(fixture_path_prefix, (env,), fixtures),
        call_ensures(label, (env,), platform),
    ensures
        reports(
            r,
            env@.contains_key("RUST_LINTS_HTTP_WRAPPER"@) && !below_any(*site, owners@) && !below(
                *site,
                fixtures@,
            ) && (reaches_out(snippet@, "reqwest::"@) || reaches_out(
                snippet@,
                "reqwest::blocking::"@,
            )),
            "outbound HTTP clients must go through reviewed "@ + platform@ + " wrappers"@,
            "move runtime HTTP calls behind wrapper paths so URL policy, redirects, PII/PHI-safe logging, retry behavior, and evidence redaction stay enforced"@,
        ),
{
    lemma_below_any(*site, owners);
    lemma_clients(snippet@);
}

/// The verdict of the outbound-HTTP pass hangs on five variables alone.
pub proof fn law_outbound_http_reads_five_variables(
    a: &Environment,
    b: &Environment,
    site: &Site,
    snippet: &str,
    r: Option<RustLintsPolicyDiag>,
    q: Option<RustLintsPolicyDiag>,
)
    requires
        call_ensures(check_outbound_http_wrapper, (a, site, snippet), r),
        call_ensures(check_outbound_http_wrapper, (b, site, snippet), q),
        a@.contains_key("RUST_LINTS_HTTP_WRAPPER"@) == b@.contains_key("RUST_LINTS_HTTP_WRAPPER"@),
        agree_on(*a, *b, "RUST_LINTS_HTTP_OWNER_PATHS"@),
        agree_on(*a, *b, "RUST_LINTS_SEAM_CRATES"@),
        agree_on(*a, *b, "RUST_LINTS_FIXTURE_PATH"@),
        agree_on(*a, *b, "RUST_LINTS_LABEL"@),
    ensures
        same_verdict(r, q),
{
}

/// The wildcard-import pass reports an item exactly if it is an import of everything.
pub proof fn law_wildcard_imports_are_reported(item: &Item, r: Option<RustLintsPolicyDiag>)
    requires
        call_ensures(check_wildcard_import, (item,), r),
    ensures
        reports(
            r,
            item.kind == ItemKind::Use(UseKind::Glob),
            "wildcard imports are not allowed"@,
            "replace wildcard imports with explicitly named imports or re-exports"@,
        ),
{
}

// ---------------------------------------------------------------------------
// Blocking calls in async code
// ---------------------------------------------------------------------------

/// The node is the body of an `async` or `async gen` block, function or closure.
pub open spec fn is_async_body(node: Node) -> bool {
    ||| node == Node::Expr(
        NodeExpr::Closure(
            ClosureKind::Coroutine(CoroutineKind::Desugared(CoroutineDesugaring::Async)),
        ),
    )
    ||| node == Node::Expr(
        NodeExpr::Closure(
            ClosureKind::Coroutine(CoroutineKind::Desugared(CoroutineDesugaring::AsyncGen)),
        ),
    )
    ||| node == Node::Expr(
        NodeExpr::Closure(ClosureKind::CoroutineClosure(CoroutineDesugaring::Async)),
    )
    ||| node == Node::Expr(
        NodeExpr::Closure(ClosureKind::CoroutineClosure(CoroutineDesugaring::AsyncGen)),
    )
}

/// The node is a closure of any kind.
pub open spec fn is_closure(node: Node) -> bool {
    node matches Node::Expr(NodeExpr::Closure(_))
}

/// The node is a call, or a method call, that takes its arguments off the async workers.
pub open spec fn takes_off_the_worker(node: Node) -> bool {
    ||| (node matches Node::Expr(NodeExpr::Call(callee)) && leaves_the_worker(callee@))
    ||| (node matches Node::Expr(NodeExpr::MethodCall(method)) && leaves_the_worker(method@))
}

/// The node at `i` is a closure whose parent takes it off the async workers.
pub open spec fn taken_off_at(nodes: Seq<Node>, i: int) -> bool {
    is_closure(nodes[i]) && i + 1 < nodes.len() && takes_off_the_worker(nodes[i + 1])
}

/// A closure is async exactly if it is the body of async code.
pub proof fn law_async_closures(kind: &ClosureKind, r: bool)
    requires
        call_ensures(closure_is_async, (kind,), r),
    ensures
        r <==> is_async_body(Node::Expr(NodeExpr::Closure(*kind))),
{
}

/// A closure is quarantined exactly if its parent takes it off the async workers.
pub proof fn law_quarantined_closures(nodes: &Vec<Node>, i: usize, r: bool)
    requires
        call_ensures(closure_is_blocking_quarantine, (nodes, i), r),
        i < nodes@.len(),
        is_closure(nodes@[i as int]),
    ensures
        r <==> taken_off_at(nodes@, i as int),
{
}

/// Code runs on an async worker exactly if, going outwards, an async body comes that nothing
/// up to it, itself among it, is taken off the workers.
pub proof fn law_async_context(nodes: &Vec<Node>, r: bool)
    requires
        call_ensures(in_async_context_without_blocking_quarantine, (nodes,), r),
    ensures
        r <==> exists|i: int|
            0 <= i < nodes@.len() && is_async_body(#[trigger] nodes@[i]) && forall|j: int|
                0 <= j <= i ==> !#[trigger] taken_off_at(nodes@, j),
{
    lemma_async_context(nodes@);
}

spec fn runs_on_worker(nodes: Seq<Node>) -> bool {
    exists|i: int|
        0 <= i < nodes.len() && is_async_body(#[trigger] nodes[i]) && forall|j: int|
            0 <= j <= i ==> !#[trigger] taken_off_at(nodes, j)
}

proof fn lemma_async_context(nodes: Seq<Node>)
    ensures
        on_async_worker(nodes) <==> runs_on_worker(nodes),
{
    assert forall|i: int| 0 <= i < nodes.len() implies #[trigger] async_at(nodes, i)
        == is_async_body(nodes[i]) by {}
    assert forall|i: int| 0 <= i < nodes.len() implies #[trigger] quarantined_at(nodes, i)
        == taken_off_at(nodes, i) by {}
    if on_async_worker(nodes) {
        let i = choose|i: int|
            0 <= i < nodes.len() && #[trigger] async_at(nodes, i) && forall|j: int|
                0 <= j <= i ==> !#[trigger] quarantined_at(nodes, j);
        assert(is_async_body(nodes[i]));
        assert forall|j: int| 0 <= j <= i implies !#[trigger] taken_off_at(nodes, j) by {
            assert(!quarantined_at(nodes, j));
        }
    }
    if runs_on_worker(nodes) {
        let i = choose|i: int|
            0 <= i < nodes.len() && is_async_body(#[trigger] nodes[i]) && forall|j: int|
                0 <= j <= i ==> !#[trigger] taken_off_at(nodes, j);
        assert(async_at(nodes, i));
        assert forall|j: int| 0 <= j <= i implies !#[trigger] quarantined_at(nodes, j) by {
            assert(!taken_off_at(nodes, j));
        }
    }
}

/// The call blocks: by what its callee is written as, by the path of its definition, by its
/// method's name, or because a method call goes through the blocking half of reqwest.
pub open spec fn call_blocks(expr: Expr) -> bool {
    match expr.kind {
        ExprKind::Call(callee) => leads_to_blocking(trim(callee.snippet@)) || trim(callee.snippet@)
            == "block_on"@ || (callee.def_path matches Some(path) && leads_to_blocking(path@)),
        ExprKind::MethodCall(call) => waits(call.name@) || contains_text(
            expr.snippet@,
            "reqwest::blocking"@,
        ) || (call.def_path matches Some(path) && leads_to_blocking(path@)),
        _ => false,
    }
}

proof fn lemma_blocking_callee(callee: Seq<char>)
    ensures
        blocking_function_call(callee) <==> leads_to_blocking(trim(callee)) || trim(
            callee,
        ) == "block_on"@,
{
    lemma_blocking_path(trim(callee));
}

proof fn lemma_call_blocks(expr: Expr)
    ensures
        blocks(expr) <==> call_blocks(expr),
{
    match expr.kind {
        ExprKind::Call(callee) => {
            lemma_blocking_callee(callee.snippet@);
            if let Some(path) = callee.def_path {
                lemma_blocking_path(path@);
            }
        },
        ExprKind::MethodCall(call) => {
            if let Some(path) = call.def_path {
                lemma_blocking_path(path@);
            }
        },
        _ => {},
    }
}

/// An expression is a blocking call exactly if it is a call that blocks.
pub proof fn law_blocking_calls(expr: &Expr, r: bool)
    requires
        call_ensures(is_blocking_call, (expr,), r),
    ensures
        r <==> call_blocks(*expr),
{
    lemma_call_blocks(*expr);
}

/// The blocking-in-async pass reports a call exactly if it is on, the call blocks, and going
/// outwards an async body comes before anything that is taken off the workers.
pub proof fn law_blocking_on_workers_is_reported(
    env: &Environment,
    expr: &Expr,
    r: Option<RustLintsPolicyDiag>,
)
    requires
        call_ensures(check_blocking_call_in_async_context, (env, expr), r),
    ensures
        reports(
            r,
            env@.contains_key("RUST_LINTS_BLOCKING_TOKIO"@) && call_blocks(*expr) && exists|i: int|
                0 <= i < expr.ancestors@.len() && is_async_body(#[trigger] expr.ancestors@[i])
                    && forall|j: int|
                    0 <= j <= i ==> !#[trigger] taken_off_at(expr.ancestors@, j),
            "blocking calls must not run on Tokio async worker threads"@,
            "move blocking work behind tokio::task::spawn_blocking or replace it with Tokio async APIs"@,
        ),
{
    lemma_async_context(expr.ancestors@);
    lemma_call_blocks(*expr);
}

/// A blocking call whose innermost closure is an async body is reported, unless the parent of
/// that body takes it off the workers: spawning a task does not.
pub proof fn law_blocking_in_a_task_is_reported(
    env: &Environment,
    expr: &Expr,
    i: int,
    r: Option<RustLintsPolicyDiag>,
)
    requires
        call_ensures(check_blocking_call_in_async_context, (env, expr), r),
        env@.contains_key("RUST_LINTS_BLOCKING_TOKIO"@),
        call_blocks(*expr),
        0 <= i < expr.ancestors@.len(),
        is_async_body(expr.ancestors@[i]),
        i + 1 < expr.ancestors@.len() ==> !takes_off_the_worker(expr.ancestors@[i + 1]),
        forall|j: int| 0 <= j < i ==> !is_closure(#[trigger] expr.ancestors@[j]),
    ensures
        r is Some,
{
    law_blocking_on_workers_is_reported(env, expr, r);
    let nodes = expr.ancestors@;
    assert forall|j: int| 0 <= j <= i implies !#[trigger] taken_off_at(nodes, j) by {
        if j < i {
            assert(!is_closure(nodes[j]));
        }
    }
    assert(is_async_body(nodes[i]));
}

// ---------------------------------------------------------------------------
// Silent saturation and unbounded channels
// ---------------------------------------------------------------------------

/// The expression is a conversion that can fail: `try_from` or `try_into`, as a method or as
/// the last segment of the path that is called.
pub open spec fn may_fail_to_convert(kind: ReceiverKind) -> bool {
    match kind {
        ReceiverKind::MethodCall(name) => name@ == "try_from"@ || name@ == "try_into"@,
        ReceiverKind::Call(Some(QPath::TypeRelative(name))) => name@ == "try_from"@ || name@
            == "try_into"@,
        ReceiverKind::Call(Some(QPath::Resolved(names))) => names@.len() > 0 && (names@[names@.len()
            - 1]@ == "try_from"@ || names@[names@.len() - 1]@ == "try_into"@),
        _ => false,
    }
}

/// The type is `Result`, with a primitive number where there is no error.
pub open spec fn may_hold_a_number(ty: Ty) -> bool {
    ty matches Ty::Adt(adt) && adt.is_result && adt.type_args@.len() > 0 && (adt.type_args@[0]
        == Ty::Int || adt.type_args@[0] == Ty::Uint || adt.type_args@[0] == Ty::Float)
}

/// The expression swallows the error of a numeric conversion.
pub open spec fn swallows_a_conversion(expr: Expr) -> bool {
    expr.kind matches ExprKind::MethodCall(call) && (call.name@ == "unwrap_or"@ || call.name@
        == "unwrap_or_default"@ || call.name@ == "unwrap_or_else"@) && may_fail_to_convert(
        call.receiver.kind,
    ) && may_hold_a_number(call.receiver.ty)
}

/// The parts by which a swallowed conversion is recognised.
pub proof fn law_conversions(
    receiver: &Receiver,
    path: &QPath,
    ty: &Ty,
    fails: bool,
    numeric: bool,
    primitive: bool,
    segment: Option<&str>,
)
    requires
        call_ensures(receiver_is_fallible_conversion, (receiver,), fails),
        call_ensures(conversion_result_ok_type_is_numeric, (receiver,), numeric),
        call_ensures(ty_is_numeric_primitive, (ty,), primitive),
        call_ensures(last_path_segment, (path,), segment),
    ensures
        fails <==> may_fail_to_convert(receiver.kind),
        numeric <==> may_hold_a_number(receiver.ty),
        primitive <==> *ty == Ty::Int || *ty == Ty::Uint || *ty == Ty::Float,
        match path {
            QPath::TypeRelative(name) => segment matches Some(text) && text@ == name@,
            QPath::Resolved(names) => if names@.len() == 0 {
                segment is None
            } else {
                segment matches Some(text) && text@ == names@[names@.len() - 1]@
            },
        },
{
}

/// The expression is arithmetic by the name of what it calls: `saturating_` and something, as a
/// method or as the last segment of the path of the definition.
pub open spec fn clamps(expr: Expr, last: Seq<char>) -> bool {
    match expr.kind {
        ExprKind::MethodCall(call) => starts_with(call.name@, "saturating_"@),
        ExprKind::Call(callee) => callee.def_path is Some && starts_with(last, "saturating_"@),
        _ => false,
    }
}

/// The silent-saturation pass reports an expression exactly if it is on, and the expression
/// swallows a numeric conversion or is saturating arithmetic; the message says which.
pub proof fn law_saturation_is_reported(
    env: &Environment,
    expr: &Expr,
    path: &str,
    last: &str,
    arithmetic: bool,
    r: Option<RustLintsPolicyDiag>,
)
    requires
        call_ensures(check_silent_numeric_saturation, (env, expr), r),
        call_ensures(is_saturating_arithmetic, (expr,), arithmetic),
        expr.kind matches ExprKind::Call(callee) ==> (callee.def_path matches Some(text)
            ==> path@ == text@),
        call_ensures(last_path_name, (path,), last),
    ensures
        arithmetic <==> clamps(*expr, last@),
        r is Some <==> env@.contains_key("RUST_LINTS_SILENT_SATURATION"@) && (swallows_a_conversion(
            *expr,
        ) || clamps(*expr, last@)),
        swallows_a_conversion(*expr) ==> (r matches Some(finding) ==> finding.message@
            == "numeric conversion silently saturates/substitutes a default on overflow — reject or handle the out-of-range value explicitly"@
            && finding.help@
            == "match on the TryFrom/TryInto result and surface the out-of-range case instead of falling back to a saturated or default value"@),
        clamps(*expr, last@) ==> (r matches Some(finding) ==> finding.message@
            == "saturating arithmetic silently clamps on overflow — it needs a documented business rule"@
            && finding.help@
            == "handle the overflow explicitly, or allow rust_lints_policy_checks here with the business rule as the reason"@),
{
    if swallows_a_conversion(*expr) {
        reveal_strlit("unwrap_or");
        reveal_strlit("unwrap_or_default");
        reveal_strlit("unwrap_or_else");
        reveal_strlit("saturating_");
        let name = expr.kind->MethodCall_0.name@;
        if starts_with(name, "saturating_"@) {
            assert(name.subrange(0, 11)[0] == name[0]);
            assert(false);
        }
    }
}

/// The unbounded-channel pass reports an expression exactly if it is on, and the expression
/// calls something whose path is known to be that of a channel without a bound.
pub proof fn law_unbounded_channels_are_reported(
    env: &Environment,
    expr: &Expr,
    r: Option<RustLintsPolicyDiag>,
)
    requires
        call_ensures(check_unbounded_channel, (env, expr), r),
    ensures
        reports(
            r,
            env@.contains_key("RUST_LINTS_UNBOUNDED_CHANNEL"@) && (expr.kind matches ExprKind::Call(
                callee,
            ) && (callee.def_path matches Some(path) && makes_channels_without_bound(path@))),
            "unbounded channel has no backpressure bound — use a bounded channel sized to the workload"@,
            "replace the unbounded constructor with a bounded channel (e.g. tokio::sync::mpsc::channel(cap)) sized to the workload"@,
        ),
{
    if let ExprKind::Call(callee) = expr.kind {
        if let Some(path) = callee.def_path {
            lemma_unbounded_channels(path@);
        }
    }
}

// ---------------------------------------------------------------------------
// Boolean parameters
// ---------------------------------------------------------------------------

/// The attribute is `#[test]`, or `#[cfg(..)]` with an entry `test`.
pub open spec fn is_for_tests(attr: Attribute) -> bool {
    attr.name@ == "test"@ || (attr.name@ == "cfg"@ && exists|k: int|
        0 <= k < attr.nested@.len() && (#[trigger] attr.nested@[k])@ == "test"@)
}

/// One of the attributes is for tests.
pub open spec fn one_is_for_tests(attrs: Seq<Attribute>) -> bool {
    exists|k: int| 0 <= k < attrs.len() && is_for_tests(#[trigger] attrs[k])
}

/// The node is an item of some kind with an attribute for tests.
pub open spec fn is_test_item(node: Node) -> bool {
    match node {
        Node::Item(attrs) => one_is_for_tests(attrs@),
        Node::ImplItem(attrs) => one_is_for_tests(attrs@),
        Node::TraitItem(attrs) => one_is_for_tests(attrs@),
        _ => false,
    }
}

/// The type is written as the one word `bool`.
pub open spec fn is_written_bool(ty: TyKind) -> bool {
    ty matches TyKind::Path(QPath::Resolved(names)) && names@.len() == 1 && names@[0]@ == "bool"@
}

proof fn lemma_for_tests(attr: Attribute)
    ensures
        marks_test(attr) <==> is_for_tests(attr),
{
    let all = texts(attr.nested@);
    if all.contains("test"@) {
        let k = choose|k: int| 0 <= k < all.len() && all[k] == "test"@;
        assert(attr.nested@[k]@ == "test"@);
    }
    if exists|k: int| 0 <= k < attr.nested@.len() && (#[trigger] attr.nested@[k])@ == "test"@ {
        let k = choose|k: int|
            0 <= k < attr.nested@.len() && (#[trigger] attr.nested@[k])@ == "test"@;
        assert(all[k] == "test"@);
    }
}

proof fn lemma_one_for_tests(attrs: Seq<Attribute>)
    ensures
        any_marks_test(attrs) <==> one_is_for_tests(attrs),
{
    assert forall|k: int| 0 <= k < attrs.len() implies marks_test(#[trigger] attrs[k])
        == is_for_tests(attrs[k]) by {
        lemma_for_tests(attrs[k]);
    }
}

proof fn lemma_test_item(node: Node)
    ensures
        is_test_node(node) <==> is_test_item(node),
{
    match node {
        Node::Item(attrs) => {
            lemma_one_for_tests(attrs@);
        },
        Node::ImplItem(attrs) => {
            lemma_one_for_tests(attrs@);
        },
        Node::TraitItem(attrs) => {
            lemma_one_for_tests(attrs@);
        },
        _ => {},
    }
}

/// Test items are known by their attributes, and by those of the items around them.
pub proof fn law_test_items(
    attrs: &Vec<Attribute>,
    nodes: &Vec<Node>,
    marked: bool,
    in_tests: bool,
)
    requires
        call_ensures(attrs_mark_test, (attrs,), marked),
        call_ensures(is_in_test_context, (nodes,), in_tests),
    ensures
        marked <==> one_is_for_tests(attrs@),
        in_tests <==> exists|k: int| 0 <= k < nodes@.len() && is_test_item(#[trigger] nodes@[k]),
{
    lemma_one_for_tests(attrs@);
    assert forall|k: int| 0 <= k < nodes@.len() implies is_test_node(#[trigger] nodes@[k])
        == is_test_item(nodes@[k]) by {
        lemma_test_item(nodes@[k]);
    }
}

/// The parts by which a public function with a flag is recognised.
pub proof fn law_flags(
    ty: &TyKind,
    inputs: &Vec<TyKind>,
    kind: &FnKind,
    reach: &Reach,
    source: &str,
    reachable: bool,
    module_reachable: bool,
    is_flag: bool,
    has_flag: bool,
    name: Option<&str>,
    public: bool,
    computed: Reach,
    written: bool,
)
    requires
        call_ensures(hir_ty_is_bool, (ty,), is_flag),
        call_ensures(decl_has_bool_input, (inputs,), has_flag),
        call_ensures(fn_kind_name, (kind,), name),
        call_ensures(fn_is_publicly_reachable, (reach,), public),
        call_ensures(fn_reach, (reachable, source, module_reachable), computed),
        call_ensures(is_written_pub_crate, (source,), written),
    ensures
        is_flag <==> is_written_bool(*ty),
        has_flag <==> exists|k: int|
            0 <= k < inputs@.len() && is_written_bool(#[trigger] inputs@[k]),
        match kind {
            FnKind::ItemFn(text) => name matches Some(found) && found@ == text@,
            FnKind::Method(text) => name matches Some(found) && found@ == text@,
            FnKind::Closure => name is None,
        },
        public <==> *reach == Reach::Public || *reach == Reach::Crate,
        computed == Reach::Public <==> reachable,
        computed == Reach::Crate <==> !reachable && module_reachable && written,
        computed == Reach::Private <==> !reachable && !(module_reachable && written),
{
    assert forall|k: int| 0 <= k < inputs@.len() implies is_bool(
        #[trigger] inputs@[k],
    ) == is_written_bool(inputs@[k]) by {}
}

/// The function is in no build for tests, has a name that is no setter's, is not for tests and
/// neither is an item around it, is part of the crate's surface, and takes a `bool`.
pub open spec fn takes_a_flag(function: Function) -> bool {
    &&& !function.test_crate
    &&& match function.kind {
        FnKind::ItemFn(name) => !starts_with(name@, "set_"@) && !starts_with(name@, "with_"@),
        FnKind::Method(name) => !starts_with(name@, "set_"@) && !starts_with(name@, "with_"@),
        FnKind::Closure => false,
    }
    &&& forall|k: int|
        0 <= k < function.nodes@.len() ==> !is_test_item(#[trigger] function.nodes@[k])
    &&& function.reach == Reach::Public || function.reach == Reach::Crate
    &&& exists|k: int|
        0 <= k < function.inputs@.len() && is_written_bool(#[trigger] function.inputs@[k])
}

/// The boolean-parameter pass reports a function exactly if it is on, the build is not one for
/// tests, the function has a name that is no setter's, neither it nor an item around it is for
/// tests, it can be reached in the crate's surface, and one of its parameters is a `bool`.
pub proof fn law_flags_on_public_functions_are_reported(
    env: &Environment,
    function: &Function,
    r: Option<RustLintsPolicyDiag>,
)
    requires
        call_ensures(check_bool_param_on_public_fn, (env, function), r),
    ensures
        reports(
            r,
            env@.contains_key("RUST_LINTS_BOOL_PARAMS"@) && takes_a_flag(*function),
            "boolean parameter is blind at call sites — use a named two-variant enum"@,
            "replace the bool parameter with a named two-variant enum so call sites read self-documentingly"@,
        ),
{
    let nodes = function.nodes@;
    let inputs = function.inputs@;
    assert forall|k: int| 0 <= k < nodes.len() implies is_test_node(#[trigger] nodes[k])
        == is_test_item(nodes[k]) by {
        lemma_test_item(nodes[k]);
    }
    assert forall|k: int| 0 <= k < inputs.len() implies is_bool(#[trigger] inputs[k])
        == is_written_bool(inputs[k]) by {}
}

// ---------------------------------------------------------------------------
// All passes
// ---------------------------------------------------------------------------

/// What a verdict adds to a list of findings: the two texts of its finding, if there is one.
pub open spec fn added(r: Option<RustLintsPolicyDiag>) -> Seq<(Seq<char>, Seq<char>)> {
    match r {
        Some(finding) => seq![(finding.message@, finding.help@)],
        None => Seq::empty(),
    }
}

/// The two texts of each finding.
pub open spec fn both_texts(list: Seq<RustLintsPolicyDiag>) -> Seq<(Seq<char>, Seq<char>)> {
    list.map_values(|d: RustLintsPolicyDiag| (d.message@, d.help@))
}

spec fn view_texts(parts: Seq<DiagView>) -> Seq<(Seq<char>, Seq<char>)> {
    parts.map_values(|d: DiagView| (d.message, d.help))
}

proof fn lemma_both_texts(list: Seq<RustLintsPolicyDiag>, parts: Seq<DiagView>)
    requires
        diag_views(list) == parts,
    ensures
        both_texts(list) == view_texts(parts),
{
    assert forall|k: int| 0 <= k < list.len() implies both_texts(list)[k] == (
        parts[k].message,
        parts[k].help,
    ) by {
        assert(parts[k] == list[k]@);
    }
    assert(both_texts(list) =~= view_texts(parts));
}

proof fn lemma_view_texts_of_two(a: Seq<DiagView>, b: Seq<DiagView>)
    ensures
        view_texts(a + b) == view_texts(a) + view_texts(b),
{
    assert(view_texts(a + b) =~= view_texts(a) + view_texts(b));
}

proof fn lemma_added(r: Option<RustLintsPolicyDiag>)
    ensures
        view_texts(as_list(diag_option(r))) == added(r),
{
    assert(view_texts(as_list(diag_option(r))) =~= added(r));
}

/// Of an item, the wildcard-import pass and the SQL-seam pass report, in this order, and no
/// other pass.
pub proof fn law_item_findings(
    env: &Environment,
    item: &Item,
    snippet: &str,
    wildcard: Option<RustLintsPolicyDiag>,
    seam: Option<RustLintsPolicyDiag>,
    r: Vec<RustLintsPolicyDiag>,
)
    requires
        snippet@ == item.snippet@,
        call_ensures(check_wildcard_import, (item,), wildcard),
        call_ensures(check_sqlx_boundary, (env, &item.site, snippet), seam),
        call_ensures(check_item, (env, item), r),
    ensures
        both_texts(r@) == added(wildcard) + added(seam),
{
    lemma_both_texts(r@, diag_views(r@));
    assert(both_texts(r@) =~= added(wildcard) + added(seam));
}

/// Of a type, the SQL-seam pass reports, if the type is written as a path.
pub proof fn law_type_findings(
    env: &Environment,
    ty: &HirTy,
    snippet: &str,
    seam: Option<RustLintsPolicyDiag>,
    r: Vec<RustLintsPolicyDiag>,
)
    requires
        snippet@ == ty.snippet@,
        call_ensures(check_sqlx_boundary, (env, &ty.site, snippet), seam),
        call_ensures(check_ty, (env, ty), r),
    ensures
        ty.kind is Path ==> both_texts(r@) == added(seam),
        ty.kind is Other ==> r@.len() == 0,
{
    lemma_both_texts(r@, diag_views(r@));
    if ty.kind is Path {
        assert(both_texts(r@) =~= added(seam));
    } else {
        assert(diag_views(r@).len() == 0);
    }
}

/// Of a function, the boolean-parameter pass reports.
pub proof fn law_function_findings(
    env: &Environment,
    function: &Function,
    flag: Option<RustLintsPolicyDiag>,
    r: Vec<RustLintsPolicyDiag>,
)
    requires
        call_ensures(check_bool_param_on_public_fn, (env, function), flag),
        call_ensures(check_fn, (env, function), r),
    ensures
        both_texts(r@) == added(flag),
{
    lemma_both_texts(r@, diag_views(r@));
    assert(both_texts(r@) =~= added(flag));
}

/// Of an expression, six passes report in this order; after them, of a call of a query
/// constructor, the dynamic-SQL pass and the compile-time-SQLx pass.
pub proof fn law_expression_findings(
    env: &Environment,
    expr: &Expr,
    snippet: &str,
    seam: Option<RustLintsPolicyDiag>,
    http: Option<RustLintsPolicyDiag>,
    inline: Option<RustLintsPolicyDiag>,
    blocking: Option<RustLintsPolicyDiag>,
    saturation: Option<RustLintsPolicyDiag>,
    channel: Option<RustLintsPolicyDiag>,
    dynamic: Option<RustLintsPolicyDiag>,
    strict: Option<RustLintsPolicyDiag>,
    r: Vec<RustLintsPolicyDiag>,
)
    requires
        snippet@ == expr.snippet@,
        call_ensures(check_sqlx_boundary, (env, &expr.site, snippet), seam),
        call_ensures(check_outbound_http_wrapper, (env, &expr.site, snippet), http),
        call_ensures(check_inline_sql_marker, (env, &expr.site, snippet, &expr.kind), inline),
        call_ensures(check_blocking_call_in_async_context, (env, expr), blocking),
        call_ensures(check_silent_numeric_saturation, (env, expr), saturation),
        call_ensures(check_unbounded_channel, (env, expr), channel),
        call_ensures(check_dynamic_sqlx_safety, (env, &expr.site, snippet), dynamic),
        call_ensures(check_strict_compile_time_sqlx, (env, &expr.site, snippet), strict),
        call_ensures(check_expr, (env, expr), r),
    ensures
        both_texts(r@) == added(seam) + added(http) + added(inline) + added(blocking) + added(
            saturation,
        ) + added(channel) + (if expr.kind matches ExprKind::Call(callee) && is_any_constructor(
            callee.snippet@,
        ) {
            added(dynamic) + added(strict)
        } else {
            Seq::empty()
        }),
{
    if let ExprKind::Call(callee) = expr.kind {
        lemma_query_constructors(callee.snippet@);
    }
    lemma_both_texts(r@, diag_views(r@));
    let none = Seq::<DiagView>::empty();
    let runtime = expr.kind matches ExprKind::Call(callee) && is_any_constructor(callee.snippet@);
    let a = as_list(diag_option(seam));
    let b = as_list(diag_option(http));
    let c = as_list(diag_option(inline));
    let d = as_list(diag_option(blocking));
    let e = as_list(diag_option(saturation));
    let f = as_list(diag_option(channel));
    let g = if runtime {
        as_list(diag_option(dynamic))
    } else {
        none
    };
    let h = if runtime {
        as_list(diag_option(strict))
    } else {
        none
    };
    assert(diag_views(r@) == a + b + c + d + e + f + g + h);
    lemma_view_texts_of_two(a, b);
    lemma_view_texts_of_two(a + b, c);
    lemma_view_texts_of_two(a + b + c, d);
    lemma_view_texts_of_two(a + b + c + d, e);
    lemma_view_texts_of_two(a + b + c + d + e, f);
    lemma_view_texts_of_two(a + b + c + d + e + f, g);
    lemma_view_texts_of_two(a + b + c + d + e + f + g, h);
    lemma_added(seam);
    lemma_added(http);
    lemma_added(inline);
    lemma_added(blocking);
    lemma_added(saturation);
    lemma_added(channel);
    lemma_added(dynamic);
    lemma_added(strict);
    let six = added(seam) + added(http) + added(inline) + added(blocking) + added(saturation)
        + added(channel);
    if runtime {
        assert(six + added(dynamic) + added(strict) =~= six + (added(dynamic) + added(strict)));
    } else {
        assert(view_texts(none) =~= Seq::empty());
        assert(six + view_texts(none) + view_texts(none) =~= six + Seq::empty());
    }
}

} // verus!
