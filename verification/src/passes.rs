//! The policy passes over items, types, expressions and functions.

use vstd::prelude::*;
use vstd::string::*;

use crate::config::{
    blocking_tokio_enabled, bool_params_enabled, http_wrapper_enabled, label, platform_label,
    require_sql_marker_enabled, silent_saturation_enabled, strict_sqlx_enabled,
    unbounded_channel_enabled, EnvView, Environment,
};
use crate::diag::{
    as_list, diag_option, diag_views, finding, push_finding, DiagView, RustLintsPolicyDiag,
};
use crate::hir::{
    Attribute, ClosureKind, CoroutineDesugaring, CoroutineKind, Expr, ExprKind, FnKind, Function,
    HirTy, Item, ItemKind, Node, NodeExpr, QPath, Reach, Receiver, ReceiverKind, Site, Ty, TyKind,
    UseKind,
};
use crate::sites::{
    has_dynamic_sql_note, has_note, in_http_owner_path, in_lint_fixture_path,
    in_non_production_target, in_sqlx_owner_path, is_fixture, is_non_production, owns_http,
    owns_sqlx,
};
use crate::text::{contains_text, str_contains, str_eq, text_option, texts};
use crate::tokens::{
    blocking_function_call, blocking_method_name, blocking_path, contains_direct_reqwest_client,
    contains_dynamic_sql_argument, contains_inline_sql_text, contains_sqlx_boundary_token,
    contains_static_sql_literal, exempt_fn_name, fallible_conversion_name,
    has_direct_reqwest_client, has_dynamic_sql_argument, has_inline_sql_text, has_sql_marker,
    has_static_sql_literal, is_blocking_function_call, is_blocking_method_name, is_blocking_path,
    is_blocking_quarantine_call, is_exempt_fn_name, is_fallible_conversion_name,
    is_quarantine_call, is_runtime_query, is_saturating_name, is_sqlx_boundary,
    is_sqlx_runtime_query, is_unbounded_channel_path, is_unwrap_or_family, is_written_pub_crate,
    last_path_name, path_name, saturating_name, says_pub_crate,
    string_literal_starts_with_sql_marker, unbounded_channel_path, unwrap_or_name,
};

verus! {

/// The finding where `fires` holds, and none elsewhere.
pub open spec fn report_if(fires: bool, diag: DiagView) -> Option<DiagView> {
    if fires {
        Some(diag)
    } else {
        None
    }
}

// ---------------------------------------------------------------------------
// Outbound HTTP
// ---------------------------------------------------------------------------

/// The finding of the outbound-HTTP-wrapper pass.
pub open spec fn outbound_http_diag(env: EnvView) -> DiagView {
    DiagView {
        message: "outbound HTTP clients must go through reviewed "@ + platform_label(env)
            + " wrappers"@,
        help: "move runtime HTTP calls behind wrapper paths so URL policy, redirects, PII/PHI-safe logging, retry behavior, and evidence redaction stay enforced"@,
    }
}

/// The outbound-HTTP-wrapper pass fires: it is on, and code outside the HTTP seam and the
/// fixtures makes a client itself.
pub open spec fn outbound_http_fires(env: EnvView, site: Site, snippet: Seq<char>) -> bool {
    &&& env.contains_key("RUST_LINTS_HTTP_WRAPPER"@)
    &&& !owns_http(env, site)
    &&& !is_fixture(env, site)
    &&& has_direct_reqwest_client(snippet)
}

/// Pass: outbound HTTP goes through the reviewed wrappers.
pub fn check_outbound_http_wrapper(env: &Environment, site: &Site, snippet: &str) -> (r: Option<
    RustLintsPolicyDiag,
>)
    ensures
        diag_option(r) == report_if(
            outbound_http_fires(env@, *site, snippet@),
            outbound_http_diag(env@),
        ),
{
    if !http_wrapper_enabled(env) || in_http_owner_path(env, site) || in_lint_fixture_path(
        env,
        site,
    ) {
        return None;
    }
    if contains_direct_reqwest_client(snippet) {
        let mut message = "outbound HTTP clients must go through reviewed ".to_owned();
        let platform = label(env);
        message.append(platform.as_str());
        message.append(" wrappers");
        return Some(
            finding(
                message.as_str(),
                "move runtime HTTP calls behind wrapper paths so URL policy, redirects, PII/PHI-safe logging, retry behavior, and evidence redaction stay enforced",
            ),
        );
    }
    None
}

// ---------------------------------------------------------------------------
// SQL
// ---------------------------------------------------------------------------

/// The finding of the inline-SQL-marker pass.
pub open spec fn inline_sql_diag() -> DiagView {
    DiagView {
        message: "inline SQL string literals must start with --sql"@,
        help: "prefix SQL literals with --sql so editor SQL highlighting works consistently"@,
    }
}

/// The inline-SQL-marker pass fires: it is on, and a literal in production code reads as SQL
/// and does not begin with the marker.
pub open spec fn inline_sql_fires(
    env: EnvView,
    site: Site,
    snippet: Seq<char>,
    kind: ExprKind,
) -> bool {
    &&& env.contains_key("RUST_LINTS_REQUIRE_SQL_MARKER"@)
    &&& !is_non_production(site)
    &&& kind is Lit
    &&& has_inline_sql_text(snippet)
    &&& !has_sql_marker(snippet)
}

/// Pass: inline SQL literals start with `--sql`.
pub fn check_inline_sql_marker(
    env: &Environment,
    site: &Site,
    snippet: &str,
    expr_kind: &ExprKind,
) -> (r: Option<RustLintsPolicyDiag>)
    ensures
        diag_option(r) == report_if(
            inline_sql_fires(env@, *site, snippet@, *expr_kind),
            inline_sql_diag(),
        ),
{
    if !require_sql_marker_enabled(env) {
        return None;
    }
    if in_non_production_target(site) {
        return None;
    }
    if !matches!(expr_kind, ExprKind::Lit) {
        return None;
    }
    if contains_inline_sql_text(snippet) && !string_literal_starts_with_sql_marker(snippet) {
        return Some(
            finding(
                "inline SQL string literals must start with --sql",
                "prefix SQL literals with --sql so editor SQL highlighting works consistently",
            ),
        );
    }
    None
}

/// The finding of the SQL-seam pass.
pub open spec fn sqlx_boundary_diag() -> DiagView {
    DiagView {
        message: "SQLx and database adapter APIs must stay in reviewed database infrastructure paths"@,
        help: "move SQL and pool usage behind a reviewed database, storage, audit, or infrastructure crate boundary"@,
    }
}

/// The SQL-seam pass fires: production code outside the database seam and the fixtures names
/// a database adapter.
pub open spec fn sqlx_boundary_fires(env: EnvView, site: Site, snippet: Seq<char>) -> bool {
    &&& !owns_sqlx(env, site)
    &&& !is_fixture(env, site)
    &&& !is_non_production(site)
    &&& is_sqlx_boundary(snippet)
}

/// Pass: SQLx and database adapters stay behind the database seam.
pub fn check_sqlx_boundary(env: &Environment, site: &Site, snippet: &str) -> (r: Option<
    RustLintsPolicyDiag,
>)
    ensures
        diag_option(r) == report_if(
            sqlx_boundary_fires(env@, *site, snippet@),
            sqlx_boundary_diag(),
        ),
{
    if in_sqlx_owner_path(env, site) || in_lint_fixture_path(env, site) || in_non_production_target(
        site,
    ) {
        return None;
    }
    if contains_sqlx_boundary_token(snippet) {
        return Some(
            finding(
                "SQLx and database adapter APIs must stay in reviewed database infrastructure paths",
                "move SQL and pool usage behind a reviewed database, storage, audit, or infrastructure crate boundary",
            ),
        );
    }
    None
}

/// The finding of the dynamic-SQLx pass.
pub open spec fn dynamic_sqlx_diag() -> DiagView {
    DiagView {
        message: "dynamic SQLx query constructors must cross a documented SQL safety boundary"@,
        help: "validate identifiers and SQL shape before calling sqlx::query with dynamic SQL"@,
    }
}

/// The dynamic-SQLx pass fires: production code in the database seam hands dynamic SQL to a
/// query constructor, neither asserted to be safe nor with a note by it.
pub open spec fn dynamic_sqlx_fires(env: EnvView, site: Site, snippet: Seq<char>) -> bool {
    &&& owns_sqlx(env, site)
    &&& !is_non_production(site)
    &&& !has_static_sql_literal(snippet)
    &&& has_dynamic_sql_argument(snippet)
    &&& !contains_text(snippet, "AssertSqlSafe"@)
    &&& !has_note(env, site)
}

/// Pass: dynamic SQL crosses a documented safety boundary.
pub fn check_dynamic_sqlx_safety(env: &Environment, site: &Site, snippet: &str) -> (r: Option<
    RustLintsPolicyDiag,
>)
    ensures
        diag_option(r) == report_if(
            dynamic_sqlx_fires(env@, *site, snippet@),
            dynamic_sqlx_diag(),
        ),
{
    if !in_sqlx_owner_path(env, site) || in_non_production_target(site) {
        return None;
    }
    if contains_static_sql_literal(snippet) {
        return None;
    }
    if contains_dynamic_sql_argument(snippet) && !str_contains(snippet, "AssertSqlSafe")
        && !has_dynamic_sql_note(env, site) {
        return Some(
            finding(
                "dynamic SQLx query constructors must cross a documented SQL safety boundary",
                "validate identifiers and SQL shape before calling sqlx::query with dynamic SQL",
            ),
        );
    }
    None
}

/// The finding of the compile-time-SQLx pass.
pub open spec fn strict_sqlx_diag() -> DiagView {
    DiagView {
        message: "static SQLx queries should use compile-time checked macros"@,
        help: "prefer sqlx::query!, query_as!, or query_scalar! once SQLx offline metadata covers this query"@,
    }
}

/// The compile-time-SQLx pass fires: it is on, and production code hands a literal statement
/// to a run-time constructor.
pub open spec fn strict_sqlx_fires(env: EnvView, site: Site, snippet: Seq<char>) -> bool {
    &&& env.contains_key("RUST_LINTS_STRICT_SQLX"@)
    &&& !is_non_production(site)
    &&& !contains_text(snippet, "AssertSqlSafe"@)
    &&& has_static_sql_literal(snippet)
}

/// Pass: static queries use the macros that are checked at compile time.
pub fn check_strict_compile_time_sqlx(env: &Environment, site: &Site, snippet: &str) -> (r: Option<
    RustLintsPolicyDiag,
>)
    ensures
        diag_option(r) == report_if(strict_sqlx_fires(env@, *site, snippet@), strict_sqlx_diag()),
{
    if !strict_sqlx_enabled(env) {
        return None;
    }
    if in_non_production_target(site) {
        return None;
    }
    if str_contains(snippet, "AssertSqlSafe") {
        return None;
    }
    if contains_static_sql_literal(snippet) {
        return Some(
            finding(
                "static SQLx queries should use compile-time checked macros",
                "prefer sqlx::query!, query_as!, or query_scalar! once SQLx offline metadata covers this query",
            ),
        );
    }
    None
}

// ---------------------------------------------------------------------------
// Wildcard imports
// ---------------------------------------------------------------------------

/// The finding of the wildcard-import pass.
pub open spec fn wildcard_diag() -> DiagView {
    DiagView {
        message: "wildcard imports are not allowed"@,
        help: "replace wildcard imports with explicitly named imports or re-exports"@,
    }
}

/// The item is a wildcard import.
pub open spec fn is_wildcard_import(item: Item) -> bool {
    item.kind matches ItemKind::Use(kind) && kind is Glob
}

/// Pass: no wildcard imports.
pub fn check_wildcard_import(item: &Item) -> (r: Option<RustLintsPolicyDiag>)
    ensures
        diag_option(r) == report_if(is_wildcard_import(*item), wildcard_diag()),
{
    if !matches!(item.kind, ItemKind::Use(UseKind::Glob)) {
        return None;
    }
    Some(
        finding(
            "wildcard imports are not allowed",
            "replace wildcard imports with explicitly named imports or re-exports",
        ),
    )
}

// ---------------------------------------------------------------------------
// Blocking calls in async code
// ---------------------------------------------------------------------------

/// The closure is the body of async code.
pub open spec fn is_async(kind: ClosureKind) -> bool {
    match kind {
        ClosureKind::Coroutine(CoroutineKind::Desugared(d)) => !(d is Gen),
        ClosureKind::CoroutineClosure(d) => !(d is Gen),
        _ => false,
    }
}

/// The node hands its arguments to a thread that may block.
pub open spec fn is_quarantine(node: Node) -> bool {
    match node {
        Node::Expr(NodeExpr::Call(callee)) => is_quarantine_call(callee@),
        Node::Expr(NodeExpr::MethodCall(method)) => is_quarantine_call(method@),
        _ => false,
    }
}

/// The node at index `i`, counted from the inside out, is the body of async code.
pub open spec fn async_at(nodes: Seq<Node>, i: int) -> bool {
    nodes[i] matches Node::Expr(NodeExpr::Closure(kind)) && is_async(kind)
}

/// The node at index `i` is a closure that is handed to a thread that may block.
pub open spec fn quarantined_at(nodes: Seq<Node>, i: int) -> bool {
    &&& nodes[i] matches Node::Expr(NodeExpr::Closure(_))
    &&& i + 1 < nodes.len()
    &&& is_quarantine(nodes[i + 1])
}

/// Going outwards, async code comes before any closure that may block: code inside the nodes
/// runs on an async worker thread.
pub open spec fn on_async_worker(nodes: Seq<Node>) -> bool {
    exists|i: int|
        0 <= i < nodes.len() && #[trigger] async_at(nodes, i) && forall|j: int|
            0 <= j <= i ==> !#[trigger] quarantined_at(nodes, j)
}

/// The definition is known, and its path names a function that blocks.
pub open spec fn known_to_block(def_path: Option<String>) -> bool {
    def_path matches Some(path) && blocking_path(path@)
}

/// The expression blocks its thread.
pub open spec fn blocks(expr: Expr) -> bool {
    match expr.kind {
        ExprKind::Call(callee) => blocking_function_call(callee.snippet@) || known_to_block(
            callee.def_path,
        ),
        ExprKind::MethodCall(call) => blocking_method_name(call.name@) || known_to_block(
            call.def_path,
        ) || contains_text(expr.snippet@, "reqwest::blocking"@),
        _ => false,
    }
}

/// The finding of the blocking-in-async pass.
pub open spec fn blocking_diag() -> DiagView {
    DiagView {
        message: "blocking calls must not run on Tokio async worker threads"@,
        help: "move blocking work behind tokio::task::spawn_blocking or replace it with Tokio async APIs"@,
    }
}

/// The blocking-in-async pass fires: it is on, and a call on an async worker thread blocks.
pub open spec fn blocking_fires(env: EnvView, expr: Expr) -> bool {
    &&& env.contains_key("RUST_LINTS_BLOCKING_TOKIO"@)
    &&& on_async_worker(expr.ancestors@)
    &&& blocks(expr)
}

/// Whether the closure is the body of async code.
pub fn closure_is_async(kind: &ClosureKind) -> (r: bool)
    ensures
        r == is_async(*kind),
{
    matches!(
        kind,
        ClosureKind::Coroutine(CoroutineKind::Desugared(
            CoroutineDesugaring::Async | CoroutineDesugaring::AsyncGen,
        )) | ClosureKind::CoroutineClosure(
            CoroutineDesugaring::Async | CoroutineDesugaring::AsyncGen,
        )
    )
}

/// Whether the closure at index `i` is handed to a thread that may block.
pub fn closure_is_blocking_quarantine(nodes: &Vec<Node>, i: usize) -> (r: bool)
    requires
        i < nodes@.len(),
        nodes@[i as int] matches Node::Expr(NodeExpr::Closure(_)),
    ensures
        r == quarantined_at(nodes@, i as int),
{
    if nodes.len() - i < 2 {
        return false;
    }
    match &nodes[i + 1] {
        Node::Expr(NodeExpr::Call(callee)) => is_blocking_quarantine_call(callee.as_str()),
        Node::Expr(NodeExpr::MethodCall(method)) => is_blocking_quarantine_call(method.as_str()),
        _ => false,
    }
}

/// Whether code inside these nodes, counted from the inside out, runs on an async worker
/// thread.
pub fn in_async_context_without_blocking_quarantine(nodes: &Vec<Node>) -> (r: bool)
    ensures
        r == on_async_worker(nodes@),
{
    let mut i: usize = 0;
    while i < nodes.len()
        invariant
            0 <= i <= nodes@.len(),
            forall|j: int| 0 <= j < i ==> !#[trigger] quarantined_at(nodes@, j),
            forall|j: int| 0 <= j < i ==> !#[trigger] async_at(nodes@, j),
        decreases nodes@.len() - i,
    {
        if let Node::Expr(NodeExpr::Closure(kind)) = &nodes[i] {
            if closure_is_blocking_quarantine(nodes, i) {
                return false;
            }
            if closure_is_async(kind) {
                proof {
                    assert(async_at(nodes@, i as int));
                }
                return true;
            }
        }
        i = i + 1;
    }
    false
}

/// Whether the definition is known, and its path names a function that blocks.
fn def_path_blocks(def_path: &Option<String>) -> (r: bool)
    ensures
        r == known_to_block(*def_path),
{
    match def_path {
        Some(path) => is_blocking_path(path.as_str()),
        None => false,
    }
}

/// Whether the expression blocks its thread.
pub fn is_blocking_call(expr: &Expr) -> (r: bool)
    ensures
        r == blocks(*expr),
{
    match &expr.kind {
        ExprKind::Call(callee) => is_blocking_function_call(callee.snippet.as_str())
            || def_path_blocks(&callee.def_path),
        ExprKind::MethodCall(call) => is_blocking_method_name(call.name.as_str())
            || def_path_blocks(&call.def_path) || str_contains(
            expr.snippet.as_str(),
            "reqwest::blocking",
        ),
        _ => false,
    }
}

/// Pass: no blocking calls on async worker threads.
pub fn check_blocking_call_in_async_context(env: &Environment, expr: &Expr) -> (r: Option<
    RustLintsPolicyDiag,
>)
    ensures
        diag_option(r) == report_if(blocking_fires(env@, *expr), blocking_diag()),
{
    if !blocking_tokio_enabled(env) {
        return None;
    }
    if !in_async_context_without_blocking_quarantine(&expr.ancestors) {
        return None;
    }
    if is_blocking_call(expr) {
        return Some(
            finding(
                "blocking calls must not run on Tokio async worker threads",
                "move blocking work behind tokio::task::spawn_blocking or replace it with Tokio async APIs",
            ),
        );
    }
    None
}

// ---------------------------------------------------------------------------
// Silent numeric saturation
// ---------------------------------------------------------------------------

/// The last segment of a path.
pub open spec fn last_segment(path: QPath) -> Option<Seq<char>> {
    match path {
        QPath::Resolved(segments) => if segments@.len() > 0 {
            Some(segments@.last()@)
        } else {
            None
        },
        QPath::TypeRelative(segment) => Some(segment@),
    }
}

/// The expression is a conversion that can fail.
pub open spec fn is_fallible_conversion(kind: ReceiverKind) -> bool {
    match kind {
        ReceiverKind::MethodCall(method) => fallible_conversion_name(method@),
        ReceiverKind::Call(Some(path)) => last_segment(path) matches Some(name)
            && fallible_conversion_name(name),
        _ => false,
    }
}

/// A primitive integer or float.
pub open spec fn is_numeric(ty: Ty) -> bool {
    ty is Int || ty is Uint || ty is Float
}

/// `Result` with a primitive number as its `Ok` type.
pub open spec fn is_numeric_result(ty: Ty) -> bool {
    ty matches Ty::Adt(adt) && adt.is_result && adt.type_args@.len() > 0 && is_numeric(
        adt.type_args@[0],
    )
}

/// The expression puts a value in place of the error of a numeric conversion.
pub open spec fn saturates_silently(expr: Expr) -> bool {
    expr.kind matches ExprKind::MethodCall(call) && unwrap_or_name(call.name@)
        && is_fallible_conversion(call.receiver.kind) && is_numeric_result(call.receiver.ty)
}

/// The expression is arithmetic that clamps where it would overflow: a call, in method or in
/// function form, of something named `saturating_*`.
pub open spec fn saturates_by_name(expr: Expr) -> bool {
    match expr.kind {
        ExprKind::MethodCall(call) => saturating_name(call.name@),
        ExprKind::Call(callee) => callee.def_path matches Some(path) && saturating_name(
            path_name(path@),
        ),
        _ => false,
    }
}

/// The finding of the silent-saturation pass on arithmetic.
pub open spec fn saturating_arithmetic_diag() -> DiagView {
    DiagView {
        message: "saturating arithmetic silently clamps on overflow — it needs a documented business rule"@,
        help: "handle the overflow explicitly, or allow rust_lints_policy_checks here with the business rule as the reason"@,
    }
}

/// The finding of the silent-saturation pass on a conversion.
pub open spec fn saturating_conversion_diag() -> DiagView {
    DiagView {
        message: "numeric conversion silently saturates/substitutes a default on overflow — reject or handle the out-of-range value explicitly"@,
        help: "match on the TryFrom/TryInto result and surface the out-of-range case instead of falling back to a saturated or default value"@,
    }
}

/// The finding of the silent-saturation pass on the expression.
pub open spec fn saturation_diag(expr: Expr) -> DiagView {
    if saturates_by_name(expr) {
        saturating_arithmetic_diag()
    } else {
        saturating_conversion_diag()
    }
}

/// The silent-saturation pass fires.
pub open spec fn saturation_fires(env: EnvView, expr: Expr) -> bool {
    env.contains_key("RUST_LINTS_SILENT_SATURATION"@) && (saturates_silently(expr)
        || saturates_by_name(expr))
}

/// Pass: no numeric conversion whose error is silently swallowed, and no `saturating_*`
/// arithmetic without a documented business rule.
///
/// Such code compiles cleanly and quietly corrupts a persisted value when the input is out of
/// range. On conversions the pass goes by the resolved `Ok` type, which keeps it off
/// conversions into other types. A business rule is documented where the finding is
/// suppressed, as the reason of the `allow` attribute.
pub fn check_silent_numeric_saturation(env: &Environment, expr: &Expr) -> (r: Option<
    RustLintsPolicyDiag,
>)
    ensures
        diag_option(r) == report_if(saturation_fires(env@, *expr), saturation_diag(*expr)),
{
    if !silent_saturation_enabled(env) {
        return None;
    }
    if is_saturating_arithmetic(expr) {
        return Some(
            finding(
                "saturating arithmetic silently clamps on overflow — it needs a documented business rule",
                "handle the overflow explicitly, or allow rust_lints_policy_checks here with the business rule as the reason",
            ),
        );
    }
    let ExprKind::MethodCall(call) = &expr.kind else {
        return None;
    };
    if !is_unwrap_or_family(call.name.as_str()) {
        return None;
    }
    if !receiver_is_fallible_conversion(&call.receiver) {
        return None;
    }
    if !conversion_result_ok_type_is_numeric(&call.receiver) {
        return None;
    }
    Some(
        finding(
            "numeric conversion silently saturates/substitutes a default on overflow — reject or handle the out-of-range value explicitly",
            "match on the TryFrom/TryInto result and surface the out-of-range case instead of falling back to a saturated or default value",
        ),
    )
}

/// Whether the expression calls something named `saturating_*`, as a method or by a path.
pub fn is_saturating_arithmetic(expr: &Expr) -> (r: bool)
    ensures
        r == saturates_by_name(*expr),
{
    match &expr.kind {
        ExprKind::MethodCall(call) => is_saturating_name(call.name.as_str()),
        ExprKind::Call(callee) => match &callee.def_path {
            Some(path) => is_saturating_name(last_path_name(path.as_str())),
            None => false,
        },
        _ => false,
    }
}

/// Whether the receiver is a `try_from` or `try_into` call, in function or method form.
pub fn receiver_is_fallible_conversion(receiver: &Receiver) -> (r: bool)
    ensures
        r == is_fallible_conversion(receiver.kind),
{
    match &receiver.kind {
        ReceiverKind::MethodCall(method) => is_fallible_conversion_name(method.as_str()),
        ReceiverKind::Call(Some(path)) => match last_path_segment(path) {
            Some(name) => is_fallible_conversion_name(name),
            None => false,
        },
        _ => false,
    }
}

/// The last segment of a path: `try_from` in `i32::try_from`.
pub fn last_path_segment(path: &QPath) -> (r: Option<&str>)
    ensures
        text_option(r) == last_segment(*path),
{
    match path {
        QPath::Resolved(segments) => if segments.len() > 0 {
            Some(segments[segments.len() - 1].as_str())
        } else {
            None
        },
        QPath::TypeRelative(segment) => Some(segment.as_str()),
    }
}

/// Whether the receiver is a `Result` whose `Ok` type is a primitive integer or float.
pub fn conversion_result_ok_type_is_numeric(receiver: &Receiver) -> (r: bool)
    ensures
        r == is_numeric_result(receiver.ty),
{
    let Ty::Adt(adt) = &receiver.ty else {
        return false;
    };
    if !adt.is_result {
        return false;
    }
    if adt.type_args.len() == 0 {
        return false;
    }
    ty_is_numeric_primitive(&adt.type_args[0])
}

/// Whether the type is a primitive integer or float.
pub fn ty_is_numeric_primitive(ty: &Ty) -> (r: bool)
    ensures
        r == is_numeric(*ty),
{
    matches!(ty, Ty::Int | Ty::Uint | Ty::Float)
}

// ---------------------------------------------------------------------------
// Unbounded channels
// ---------------------------------------------------------------------------

/// The finding of the unbounded-channel pass.
pub open spec fn channel_diag() -> DiagView {
    DiagView {
        message: "unbounded channel has no backpressure bound — use a bounded channel sized to the workload"@,
        help: "replace the unbounded constructor with a bounded channel (e.g. tokio::sync::mpsc::channel(cap)) sized to the workload"@,
    }
}

/// The expression calls a channel constructor without a bound.
pub open spec fn makes_unbounded_channel(expr: Expr) -> bool {
    expr.kind matches ExprKind::Call(callee) && (callee.def_path matches Some(path)
        && unbounded_channel_path(path@))
}

/// The unbounded-channel pass fires.
pub open spec fn channel_fires(env: EnvView, expr: Expr) -> bool {
    env.contains_key("RUST_LINTS_UNBOUNDED_CHANNEL"@) && makes_unbounded_channel(expr)
}

/// Pass: no channel without a backpressure bound, by the full path of its constructor.
pub fn check_unbounded_channel(env: &Environment, expr: &Expr) -> (r: Option<RustLintsPolicyDiag>)
    ensures
        diag_option(r) == report_if(channel_fires(env@, *expr), channel_diag()),
{
    if !unbounded_channel_enabled(env) {
        return None;
    }
    let ExprKind::Call(callee) = &expr.kind else {
        return None;
    };
    let Some(path) = &callee.def_path else {
        return None;
    };
    if !is_unbounded_channel_path(path.as_str()) {
        return None;
    }
    Some(
        finding(
            "unbounded channel has no backpressure bound — use a bounded channel sized to the workload",
            "replace the unbounded constructor with a bounded channel (e.g. tokio::sync::mpsc::channel(cap)) sized to the workload",
        ),
    )
}

// ---------------------------------------------------------------------------
// Boolean parameters
// ---------------------------------------------------------------------------

/// The name of a function; a closure has none.
pub open spec fn fn_name(kind: FnKind) -> Option<Seq<char>> {
    match kind {
        FnKind::ItemFn(name) => Some(name@),
        FnKind::Method(name) => Some(name@),
        FnKind::Closure => None,
    }
}

/// The type is written `bool`.
pub open spec fn is_bool(ty: TyKind) -> bool {
    ty matches TyKind::Path(QPath::Resolved(segments)) && segments@.len() == 1 && segments@[0]@
        == "bool"@
}

/// One of the types is written `bool`.
pub open spec fn any_bool(inputs: Seq<TyKind>) -> bool {
    exists|i: int| 0 <= i < inputs.len() && is_bool(#[trigger] inputs[i])
}

/// The attribute is `#[test]`, or a `#[cfg(..)]` that names `test`.
pub open spec fn marks_test(attr: Attribute) -> bool {
    attr.name@ == "test"@ || (attr.name@ == "cfg"@ && texts(attr.nested@).contains("test"@))
}

/// One of the attributes marks a test.
pub open spec fn any_marks_test(attrs: Seq<Attribute>) -> bool {
    exists|i: int| 0 <= i < attrs.len() && marks_test(#[trigger] attrs[i])
}

/// The node is an item with an attribute that marks a test.
pub open spec fn is_test_node(node: Node) -> bool {
    match node {
        Node::Item(attrs) => any_marks_test(attrs@),
        Node::ImplItem(attrs) => any_marks_test(attrs@),
        Node::TraitItem(attrs) => any_marks_test(attrs@),
        _ => false,
    }
}

/// One of the nodes is a test item.
pub open spec fn in_tests(nodes: Seq<Node>) -> bool {
    exists|i: int| 0 <= i < nodes.len() && is_test_node(#[trigger] nodes[i])
}

/// How far a function can be reached: whether effective visibility lets it be reached from
/// outside, its source text, and whether its module can be reached from outside.
pub open spec fn reach_from(reachable: bool, source: Seq<char>, module_reachable: bool) -> Reach {
    if reachable {
        Reach::Public
    } else if module_reachable && says_pub_crate(source) {
        Reach::Crate
    } else {
        Reach::Private
    }
}

/// The function is part of the surface that is audited: `pub` or `pub(crate)`, in a public
/// path.
pub open spec fn is_public(reach: Reach) -> bool {
    !(reach is Private)
}

/// The finding of the boolean-parameter pass.
pub open spec fn bool_param_diag() -> DiagView {
    DiagView {
        message: "boolean parameter is blind at call sites — use a named two-variant enum"@,
        help: "replace the bool parameter with a named two-variant enum so call sites read self-documentingly"@,
    }
}

/// The boolean-parameter pass fires: it is on, and a named function that others can reach, no
/// setter and no part of the tests, takes a `bool`.
pub open spec fn bool_param_fires(env: EnvView, function: Function) -> bool {
    &&& env.contains_key("RUST_LINTS_BOOL_PARAMS"@)
    &&& !function.test_crate
    &&& fn_name(function.kind) matches Some(name) && !exempt_fn_name(name)
    &&& !in_tests(function.nodes@)
    &&& is_public(function.reach)
    &&& any_bool(function.inputs@)
}

/// Pass: no boolean parameter on a public function.
///
/// `f(true, false)` is blind at the call site. Test items and setters are skipped. A test
/// build is skipped altogether: it is not the public surface, and its `cfg` attributes have
/// already been taken out.
pub fn check_bool_param_on_public_fn(env: &Environment, function: &Function) -> (r: Option<
    RustLintsPolicyDiag,
>)
    ensures
        diag_option(r) == report_if(bool_param_fires(env@, *function), bool_param_diag()),
{
    if !bool_params_enabled(env) {
        return None;
    }
    if function.test_crate {
        return None;
    }
    let Some(name) = fn_kind_name(&function.kind) else {
        return None;
    };
    if is_exempt_fn_name(name) {
        return None;
    }
    if is_in_test_context(&function.nodes) {
        return None;
    }
    if !fn_is_publicly_reachable(&function.reach) {
        return None;
    }
    if !decl_has_bool_input(&function.inputs) {
        return None;
    }
    Some(
        finding(
            "boolean parameter is blind at call sites — use a named two-variant enum",
            "replace the bool parameter with a named two-variant enum so call sites read self-documentingly",
        ),
    )
}

/// The name of a function; a closure has none.
pub fn fn_kind_name(kind: &FnKind) -> (r: Option<&str>)
    ensures
        text_option(r) == fn_name(*kind),
{
    match kind {
        FnKind::ItemFn(name) => Some(name.as_str()),
        FnKind::Method(name) => Some(name.as_str()),
        FnKind::Closure => None,
    }
}

/// How far a function can be reached.
///
/// Effective visibility decides, not the written one: a `pub` function in a private module
/// cannot be reached. At the crate's root it does not tell `pub(crate)` from private, so that
/// is read off the source.
pub fn fn_reach(reachable: bool, source: &str, module_reachable: bool) -> (r: Reach)
    ensures
        r == reach_from(reachable, source@, module_reachable),
{
    if reachable {
        Reach::Public
    } else if module_reachable && is_written_pub_crate(source) {
        Reach::Crate
    } else {
        Reach::Private
    }
}

/// Whether the function is part of the surface that is audited.
pub fn fn_is_publicly_reachable(reach: &Reach) -> (r: bool)
    ensures
        r == is_public(*reach),
{
    matches!(reach, Reach::Public | Reach::Crate)
}

/// Whether any of the parameters is written as `bool`.
pub fn decl_has_bool_input(inputs: &Vec<TyKind>) -> (r: bool)
    ensures
        r == any_bool(inputs@),
{
    let mut i: usize = 0;
    while i < inputs.len()
        invariant
            0 <= i <= inputs@.len(),
            forall|j: int| 0 <= j < i ==> !is_bool(#[trigger] inputs@[j]),
        decreases inputs@.len() - i,
    {
        if hir_ty_is_bool(&inputs[i]) {
            return true;
        }
        i = i + 1;
    }
    false
}

/// Whether the type is written as the single-segment path `bool`.
pub fn hir_ty_is_bool(ty: &TyKind) -> (r: bool)
    ensures
        r == is_bool(*ty),
{
    let TyKind::Path(QPath::Resolved(segments)) = ty else {
        return false;
    };
    segments.len() == 1 && str_eq(segments[0].as_str(), "bool")
}

/// Whether one of the nodes is an item with an attribute that marks a test.
pub fn is_in_test_context(nodes: &Vec<Node>) -> (r: bool)
    ensures
        r == in_tests(nodes@),
{
    let mut i: usize = 0;
    while i < nodes.len()
        invariant
            0 <= i <= nodes@.len(),
            forall|j: int| 0 <= j < i ==> !is_test_node(#[trigger] nodes@[j]),
        decreases nodes@.len() - i,
    {
        let marked = match &nodes[i] {
            Node::Item(attrs) => attrs_mark_test(attrs),
            Node::ImplItem(attrs) => attrs_mark_test(attrs),
            Node::TraitItem(attrs) => attrs_mark_test(attrs),
            _ => false,
        };
        if marked {
            return true;
        }
        i = i + 1;
    }
    false
}

/// Whether the list names `test`.
fn names_test(nested: &Vec<String>) -> (r: bool)
    ensures
        r == texts(nested@).contains("test"@),
{
    let ghost all = texts(nested@);
    let mut i: usize = 0;
    while i < nested.len()
        invariant
            all == texts(nested@),
            0 <= i <= nested@.len(),
            forall|j: int| 0 <= j < i ==> #[trigger] all[j] != "test"@,
        decreases nested@.len() - i,
    {
        proof {
            assert(all[i as int] == nested@[i as int]@);
        }
        if str_eq(nested[i].as_str(), "test") {
            return true;
        }
        i = i + 1;
    }
    false
}

/// Whether one of the attributes is `#[test]` or a `#[cfg(..)]` that names `test`.
pub fn attrs_mark_test(attrs: &Vec<Attribute>) -> (r: bool)
    ensures
        r == any_marks_test(attrs@),
{
    let mut i: usize = 0;
    while i < attrs.len()
        invariant
            0 <= i <= attrs@.len(),
            forall|j: int| 0 <= j < i ==> !marks_test(#[trigger] attrs@[j]),
        decreases attrs@.len() - i,
    {
        let attr = &attrs[i];
        if str_eq(attr.name.as_str(), "test") || (str_eq(attr.name.as_str(), "cfg") && names_test(
            &attr.nested,
        )) {
            return true;
        }
        i = i + 1;
    }
    false
}

// ---------------------------------------------------------------------------
// All passes
// ---------------------------------------------------------------------------

/// What the passes report of an item, in order.
pub open spec fn item_diags(env: EnvView, item: Item) -> Seq<DiagView> {
    as_list(report_if(is_wildcard_import(item), wildcard_diag())) + as_list(
        report_if(sqlx_boundary_fires(env, item.site, item.snippet@), sqlx_boundary_diag()),
    )
}

/// What the passes report of a written type.
pub open spec fn ty_diags(env: EnvView, ty: HirTy) -> Seq<DiagView> {
    as_list(
        report_if(
            ty.kind is Path && sqlx_boundary_fires(env, ty.site, ty.snippet@),
            sqlx_boundary_diag(),
        ),
    )
}

/// The expression calls one of SQLx's run-time query constructors.
pub open spec fn calls_runtime_query(expr: Expr) -> bool {
    expr.kind matches ExprKind::Call(callee) && is_runtime_query(callee.snippet@)
}

/// What the passes report of an expression, in order.
pub open spec fn expr_diags(env: EnvView, expr: Expr) -> Seq<DiagView> {
    let site = expr.site;
    let snippet = expr.snippet@;
    let runtime = calls_runtime_query(expr);
    as_list(report_if(sqlx_boundary_fires(env, site, snippet), sqlx_boundary_diag())) + as_list(
        report_if(outbound_http_fires(env, site, snippet), outbound_http_diag(env)),
    ) + as_list(
        report_if(inline_sql_fires(env, site, snippet, expr.kind), inline_sql_diag()),
    ) + as_list(report_if(blocking_fires(env, expr), blocking_diag())) + as_list(
        report_if(saturation_fires(env, expr), saturation_diag(expr)),
    ) + as_list(report_if(channel_fires(env, expr), channel_diag())) + as_list(
        report_if(runtime && dynamic_sqlx_fires(env, site, snippet), dynamic_sqlx_diag()),
    ) + as_list(report_if(runtime && strict_sqlx_fires(env, site, snippet), strict_sqlx_diag()))
}

/// What the passes report of a function.
pub open spec fn fn_diags(env: EnvView, function: Function) -> Seq<DiagView> {
    as_list(report_if(bool_param_fires(env, function), bool_param_diag()))
}

/// All that the passes report of an item.
pub fn check_item(env: &Environment, item: &Item) -> (r: Vec<RustLintsPolicyDiag>)
    ensures
        diag_views(r@) == item_diags(env@, *item),
{
    let mut list: Vec<RustLintsPolicyDiag> = Vec::new();
    push_finding(&mut list, check_wildcard_import(item));
    push_finding(&mut list, check_sqlx_boundary(env, &item.site, item.snippet.as_str()));
    proof {
        assert(diag_views(list@) =~= item_diags(env@, *item));
    }
    list
}

/// All that the passes report of a written type.
pub fn check_ty(env: &Environment, ty: &HirTy) -> (r: Vec<RustLintsPolicyDiag>)
    ensures
        diag_views(r@) == ty_diags(env@, *ty),
{
    let mut list: Vec<RustLintsPolicyDiag> = Vec::new();
    if matches!(ty.kind, TyKind::Path(_)) {
        push_finding(&mut list, check_sqlx_boundary(env, &ty.site, ty.snippet.as_str()));
    }
    proof {
        assert(diag_views(list@) =~= ty_diags(env@, *ty));
    }
    list
}

/// All that the passes report of an expression.
pub fn check_expr(env: &Environment, expr: &Expr) -> (r: Vec<RustLintsPolicyDiag>)
    ensures
        diag_views(r@) == expr_diags(env@, *expr),
{
    let site = &expr.site;
    let snippet = expr.snippet.as_str();
    let mut list: Vec<RustLintsPolicyDiag> = Vec::new();
    push_finding(&mut list, check_sqlx_boundary(env, site, snippet));
    push_finding(&mut list, check_outbound_http_wrapper(env, site, snippet));
    push_finding(&mut list, check_inline_sql_marker(env, site, snippet, &expr.kind));
    push_finding(&mut list, check_blocking_call_in_async_context(env, expr));
    push_finding(&mut list, check_silent_numeric_saturation(env, expr));
    push_finding(&mut list, check_unbounded_channel(env, expr));
    if let ExprKind::Call(callee) = &expr.kind {
        if is_sqlx_runtime_query(callee.snippet.as_str()) {
            push_finding(&mut list, check_dynamic_sqlx_safety(env, site, snippet));
            push_finding(&mut list, check_strict_compile_time_sqlx(env, site, snippet));
        }
    }
    proof {
        assert(diag_views(list@) =~= expr_diags(env@, *expr));
    }
    list
}

/// All that the passes report of a function.
pub fn check_fn(env: &Environment, function: &Function) -> (r: Vec<RustLintsPolicyDiag>)
    ensures
        diag_views(r@) == fn_diags(env@, *function),
{
    let mut list: Vec<RustLintsPolicyDiag> = Vec::new();
    push_finding(&mut list, check_bool_param_on_public_fn(env, function));
    proof {
        assert(diag_views(list@) =~= fn_diags(env@, *function));
    }
    list
}

} // verus!
