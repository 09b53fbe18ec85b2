use rust_lints::config::Environment;
use rust_lints::hir::{
    AdtTy, Attribute, Callee, ClosureKind, CoroutineDesugaring, CoroutineKind, Expr, ExprKind,
    FnKind, Function, HirTy, Item, ItemKind, MethodCall, Node, NodeExpr, QPath, Reach, Receiver,
    ReceiverKind, Site, Ty, TyKind, UseKind,
};
use rust_lints::passes::{
    check_bool_param_on_public_fn, check_dynamic_sqlx_safety, check_expr, check_fn,
    check_inline_sql_marker, check_item, check_outbound_http_wrapper, check_sqlx_boundary,
    check_strict_compile_time_sqlx, check_ty, closure_is_async, fn_is_publicly_reachable, fn_reach,
    in_async_context_without_blocking_quarantine, is_in_test_context, last_path_segment,
};
use rust_lints::tokens::last_path_name;
use rust_lints::sites::{has_dynamic_sql_note, in_non_production_target, in_path};

const GATES: [&str; 7] = [
    "RUST_LINTS_HTTP_WRAPPER",
    "RUST_LINTS_BLOCKING_TOKIO",
    "RUST_LINTS_REQUIRE_SQL_MARKER",
    "RUST_LINTS_STRICT_SQLX",
    "RUST_LINTS_SILENT_SATURATION",
    "RUST_LINTS_UNBOUNDED_CHANNEL",
    "RUST_LINTS_BOOL_PARAMS",
];

const BOUNDARY: &str =
    "SQLx and database adapter APIs must stay in reviewed database infrastructure paths";
const DYNAMIC: &str = "dynamic SQLx query constructors must cross a documented SQL safety boundary";
const STRICT: &str = "static SQLx queries should use compile-time checked macros";
const INLINE: &str = "inline SQL string literals must start with --sql";
const BLOCKING: &str = "blocking calls must not run on Tokio async worker threads";
const CHANNEL: &str =
    "unbounded channel has no backpressure bound — use a bounded channel sized to the workload";
const SATURATION: &str = "numeric conversion silently saturates/substitutes a default on overflow — reject or handle the out-of-range value explicitly";
const SATURATING: &str =
    "saturating arithmetic silently clamps on overflow — it needs a documented business rule";
const BOOL_PARAM: &str =
    "boolean parameter is blind at call sites — use a named two-variant enum";

fn all_gates() -> Environment {
    let mut env = Environment::new();
    for gate in GATES {
        env.set_var(gate, Some("1"));
    }
    env
}

fn site(path: &str) -> Site {
    Site {
        path: Some(path.to_owned()),
        test_crate: false,
        line: 1,
        source: None,
    }
}

fn product() -> Site {
    site("crates/product-core/src/lib.rs")
}

fn seam() -> Site {
    site("crates/platform-db/src/lib.rs")
}

fn expr(kind: ExprKind, snippet: &str, ancestors: Vec<Node>, site: Site) -> Expr {
    Expr {
        kind,
        snippet: snippet.to_owned(),
        ancestors,
        site,
    }
}

fn call(callee: &str, def_path: Option<&str>) -> ExprKind {
    ExprKind::Call(Callee {
        snippet: callee.to_owned(),
        def_path: def_path.map(|path| path.to_owned()),
    })
}

fn messages(env: &Environment, expr: &Expr) -> Vec<String> {
    check_expr(env, expr).into_iter().map(|found| found.message).collect()
}

#[test]
fn sql_outside_the_seam_is_reported() {
    let env = Environment::new();
    let snippet = "sqlx::query(\"SELECT id FROM workers\")";
    let found = check_sqlx_boundary(&env, &product(), snippet).unwrap();
    assert_eq!(found.message, BOUNDARY);
    assert_eq!(
        found.help,
        "move SQL and pool usage behind a reviewed database, storage, audit, or infrastructure crate boundary"
    );
    assert!(check_sqlx_boundary(&env, &seam(), snippet).is_none());
    assert!(check_sqlx_boundary(&env, &site("crates/product-core/../platform-db/a.rs"), snippet).is_none());
    assert!(check_sqlx_boundary(&env, &site("tools/rust-lints/fixtures/a.rs"), snippet).is_none());
    assert!(check_sqlx_boundary(&env, &site("crates/x/examples/a.rs"), snippet).is_none());
    assert!(check_sqlx_boundary(&env, &product(), "let value = 42;").is_none());
    let mut test_build = product();
    test_build.test_crate = true;
    assert!(check_sqlx_boundary(&env, &test_build, snippet).is_none());
    let mut nowhere = product();
    nowhere.path = None;
    assert!(check_sqlx_boundary(&env, &nowhere, snippet).is_some());
}

#[test]
fn sites_are_recognised_by_their_paths() {
    assert!(in_path(&site("/w/crates/a/../b/c.rs"), "crates/b/"));
    assert!(!in_path(&site("/w/crates/a/../b/c.rs"), "crates/a/"));
    assert!(in_path(&site("a.rs"), ""));
    assert!(in_non_production_target(&site("crates/x/examples/a.rs")));
    assert!(!in_non_production_target(&site("crates/examples.rs")));
    assert!(in_non_production_target(&site("examples/a.rs")));
    assert!(!in_non_production_target(&site("my-examples/a.rs")));
}

#[test]
fn outbound_http_goes_through_wrappers() {
    let mut env = all_gates();
    env.set_var("RUST_LINTS_LABEL", Some("orders platform"));
    let snippet = "reqwest::Client::builder()";
    let found = check_outbound_http_wrapper(&env, &product(), snippet).unwrap();
    assert_eq!(
        found.message,
        "outbound HTTP clients must go through reviewed orders platform wrappers"
    );
    assert_eq!(
        found.help,
        "move runtime HTTP calls behind wrapper paths so URL policy, redirects, PII/PHI-safe logging, retry behavior, and evidence redaction stay enforced"
    );
    assert!(check_outbound_http_wrapper(&env, &site("apps/x/src/main.rs"), snippet).is_none());
    assert!(check_outbound_http_wrapper(&env, &site("tools/rust-lints/fixtures/a.rs"), snippet).is_none());
    assert!(check_outbound_http_wrapper(&env, &product(), "Outbound::builder()").is_none());
    assert!(check_outbound_http_wrapper(&Environment::new(), &product(), snippet).is_none());
}

#[test]
fn inline_sql_needs_its_marker() {
    let env = all_gates();
    let sql = "\"SELECT id FROM deductions\"";
    let found = check_inline_sql_marker(&env, &product(), sql, &ExprKind::Lit).unwrap();
    assert_eq!(found.message, INLINE);
    assert_eq!(
        found.help,
        "prefix SQL literals with --sql so editor SQL highlighting works consistently"
    );
    let marked = "\"--sql\nSELECT id FROM deductions\"";
    assert!(check_inline_sql_marker(&env, &product(), marked, &ExprKind::Lit).is_none());
    assert!(check_inline_sql_marker(&env, &product(), sql, &ExprKind::Other).is_none());
    assert!(check_inline_sql_marker(&env, &site("a/examples/b.rs"), sql, &ExprKind::Lit).is_none());
    assert!(check_inline_sql_marker(&Environment::new(), &product(), sql, &ExprKind::Lit).is_none());
}

#[test]
fn dynamic_sql_needs_a_note_or_an_assertion() {
    let env = Environment::new();
    let snippet = "sqlx::query(sql.as_str())";
    let found = check_dynamic_sqlx_safety(&env, &seam(), snippet).unwrap();
    assert_eq!(found.message, DYNAMIC);
    assert_eq!(
        found.help,
        "validate identifiers and SQL shape before calling sqlx::query with dynamic SQL"
    );
    assert!(check_dynamic_sqlx_safety(&env, &product(), snippet).is_none());
    assert!(check_dynamic_sqlx_safety(&env, &seam(), "sqlx::query(AssertSqlSafe(format!(\"x\")))").is_none());
    assert!(check_dynamic_sqlx_safety(&env, &seam(), "sqlx::query(\"select \", format!(\"x\"))").is_none());
    assert!(check_dynamic_sqlx_safety(&env, &seam(), "sqlx::query(text)").is_none());
    let mut noted = seam();
    noted.line = 2;
    noted.source = Some("// rust-lints-dynamic-sql: checked\nsqlx::query(sql.as_str())\n".to_owned());
    assert!(check_dynamic_sqlx_safety(&env, &noted, snippet).is_none());
}

#[test]
fn dynamic_sql_notes_stand_close_above() {
    let env = Environment::new();
    let note = "// rust-lints-dynamic-sql: why\n";
    let at = |line: usize, before: usize| {
        let mut site = seam();
        site.line = line;
        site.source = Some(format!("{}{note}{}", "\n".repeat(before), "x\n".repeat(20)));
        has_dynamic_sql_note(&env, &site)
    };
    // The note is on line 1.
    assert!(at(1, 0));
    assert!(at(5, 0));
    assert!(!at(6, 0));
    // The note is on line 4.
    assert!(!at(3, 3));
    assert!(at(4, 3));
    assert!(at(8, 3));
    assert!(!at(9, 3));
    assert!(!at(1000, 3));
    assert!(!at(0, 0));
    let mut nowhere = seam();
    nowhere.source = Some(note.to_owned());
    assert!(has_dynamic_sql_note(&env, &nowhere));
    nowhere.path = None;
    assert!(!has_dynamic_sql_note(&env, &nowhere));
    // The keyword needs its colon and a space.
    let mut bare = seam();
    bare.source = Some("// rust-lints-dynamic-sql:why".to_owned());
    assert!(!has_dynamic_sql_note(&env, &bare));
}

#[test]
fn static_queries_use_the_macros() {
    let env = all_gates();
    let snippet = "sqlx::query(\"SELECT id FROM workers\")";
    let found = check_strict_compile_time_sqlx(&env, &seam(), snippet).unwrap();
    assert_eq!(found.message, STRICT);
    assert_eq!(
        found.help,
        "prefer sqlx::query!, query_as!, or query_scalar! once SQLx offline metadata covers this query"
    );
    assert!(check_strict_compile_time_sqlx(&env, &seam(), "AssertSqlSafe query(\"select \"").is_none());
    assert!(check_strict_compile_time_sqlx(&env, &site("x/examples/y.rs"), snippet).is_none());
    assert!(check_strict_compile_time_sqlx(&Environment::new(), &seam(), snippet).is_none());
}

#[test]
fn wildcard_imports_are_reported() {
    let env = Environment::new();
    let item = |kind, snippet: &str| Item {
        kind,
        snippet: snippet.to_owned(),
        site: product(),
    };
    let found = check_item(&env, &item(ItemKind::Use(UseKind::Glob), "use sqlx::*;"));
    assert_eq!(found.len(), 2);
    assert_eq!(found[0].message, "wildcard imports are not allowed");
    assert_eq!(
        found[0].help,
        "replace wildcard imports with explicitly named imports or re-exports"
    );
    assert_eq!(found[1].message, BOUNDARY);
    assert!(check_item(&env, &item(ItemKind::Use(UseKind::Single), "use a::b;")).is_empty());
    assert!(check_item(&env, &item(ItemKind::Use(UseKind::ListStem), "use a::{b, c};")).is_empty());
    assert!(check_item(&env, &item(ItemKind::Other, "fn f() {}")).is_empty());
}

#[test]
fn written_types_are_checked_where_they_are_paths() {
    let env = Environment::new();
    let ty = |kind| HirTy {
        kind,
        snippet: "Option<PgPool>".to_owned(),
        site: product(),
    };
    let path = TyKind::Path(QPath::Resolved(vec!["Option".to_owned()]));
    assert_eq!(check_ty(&env, &ty(path)).len(), 1);
    assert!(check_ty(&env, &ty(TyKind::Other)).is_empty());
}

fn async_block() -> Node {
    Node::Expr(NodeExpr::Closure(ClosureKind::Coroutine(CoroutineKind::Desugared(
        CoroutineDesugaring::Async,
    ))))
}

fn closure() -> Node {
    Node::Expr(NodeExpr::Closure(ClosureKind::Closure))
}

fn spawn_blocking() -> Node {
    Node::Expr(NodeExpr::Call("tokio::task::spawn_blocking".to_owned()))
}

#[test]
fn async_bodies_are_told_apart() {
    assert!(closure_is_async(&ClosureKind::Coroutine(CoroutineKind::Desugared(CoroutineDesugaring::Async))));
    assert!(closure_is_async(&ClosureKind::Coroutine(CoroutineKind::Desugared(CoroutineDesugaring::AsyncGen))));
    assert!(!closure_is_async(&ClosureKind::Coroutine(CoroutineKind::Desugared(CoroutineDesugaring::Gen))));
    assert!(!closure_is_async(&ClosureKind::Coroutine(CoroutineKind::Coroutine)));
    assert!(closure_is_async(&ClosureKind::CoroutineClosure(CoroutineDesugaring::Async)));
    assert!(closure_is_async(&ClosureKind::CoroutineClosure(CoroutineDesugaring::AsyncGen)));
    assert!(!closure_is_async(&ClosureKind::CoroutineClosure(CoroutineDesugaring::Gen)));
    assert!(!closure_is_async(&ClosureKind::Closure));
}

#[test]
fn the_innermost_deciding_closure_counts() {
    let inside = in_async_context_without_blocking_quarantine;
    assert!(!inside(&vec![]));
    assert!(inside(&vec![Node::Other, async_block(), Node::Other]));
    assert!(inside(&vec![closure(), Node::Other, async_block()]));
    assert!(!inside(&vec![closure(), spawn_blocking(), async_block()]));
    assert!(!inside(&vec![
        closure(),
        Node::Expr(NodeExpr::MethodCall("spawn_blocking".to_owned())),
        async_block(),
    ]));
    // Async code inside the quarantine is async code again.
    assert!(inside(&vec![async_block(), Node::Other, closure(), spawn_blocking()]));
    // The quarantine is the closure's own parent.
    assert!(inside(&vec![closure(), Node::Other, spawn_blocking(), async_block()]));
    assert!(inside(&vec![spawn_blocking(), async_block()]));
    assert!(!inside(&vec![closure()]));
}

#[test]
fn blocking_calls_in_async_code_are_reported() {
    let env = all_gates();
    let read = || call("std::fs::read_to_string", Some("std::fs::read_to_string"));
    let snippet = "std::fs::read_to_string(\"synthetic-fixture.txt\")";
    let found = check_expr(&env, &expr(read(), snippet, vec![async_block()], product()));
    assert_eq!(found.len(), 1);
    assert_eq!(found[0].message, BLOCKING);
    assert_eq!(
        found[0].help,
        "move blocking work behind tokio::task::spawn_blocking or replace it with Tokio async APIs"
    );
    assert!(messages(&env, &expr(read(), snippet, vec![], product())).is_empty());
    let shielded = vec![closure(), spawn_blocking(), async_block()];
    assert!(messages(&env, &expr(read(), snippet, shielded, product())).is_empty());
    let ungated = Environment::new();
    assert!(messages(&ungated, &expr(read(), snippet, vec![async_block()], product())).is_empty());
    // An imported name is recognised by its definition.
    let imported = call("read_to_string", Some("std::fs::read_to_string"));
    assert_eq!(
        messages(&env, &expr(imported, "read_to_string(p)", vec![async_block()], product())),
        [BLOCKING]
    );
    let unknown = call("read_to_string", None);
    assert!(messages(&env, &expr(unknown, "read_to_string(p)", vec![async_block()], product())).is_empty());
}

fn method(name: &str, def_path: Option<&str>, receiver: Receiver) -> ExprKind {
    ExprKind::MethodCall(MethodCall {
        name: name.to_owned(),
        def_path: def_path.map(|path| path.to_owned()),
        receiver,
    })
}

fn plain_receiver() -> Receiver {
    Receiver {
        kind: ReceiverKind::Other,
        ty: Ty::Other,
    }
}

#[test]
fn blocking_methods_in_async_code_are_reported() {
    let env = all_gates();
    let report = |name: &str, def_path: Option<&str>, snippet: &str| {
        let kind = method(name, def_path, plain_receiver());
        messages(&env, &expr(kind, snippet, vec![async_block()], product()))
    };
    assert_eq!(report("recv", None, "rx.recv()"), [BLOCKING]);
    assert_eq!(report("status", Some("std::process::Command::status"), "c.status()"), [BLOCKING]);
    assert_eq!(report("send", None, "reqwest::blocking::Body::x().send()"), [BLOCKING]);
    assert!(report("send", Some("tokio::sync::mpsc::Sender::send"), "tx.send(1)").is_empty());
}

fn result_of(ok: Ty) -> Ty {
    Ty::Adt(AdtTy {
        is_result: true,
        type_args: vec![ok, Ty::Other],
    })
}

fn try_from_call() -> ReceiverKind {
    ReceiverKind::Call(Some(QPath::TypeRelative("try_from".to_owned())))
}

#[test]
fn silent_saturation_is_reported() {
    let env = all_gates();
    let report = |name: &str, kind: ReceiverKind, ty: Ty| {
        let kind = method(name, None, Receiver { kind, ty });
        messages(&env, &expr(kind, "i32::try_from(count).unwrap_or(i32::MAX)", vec![], product()))
    };
    assert_eq!(report("unwrap_or", try_from_call(), result_of(Ty::Int)), [SATURATION]);
    assert_eq!(report("unwrap_or_default", try_from_call(), result_of(Ty::Uint)), [SATURATION]);
    assert_eq!(report("unwrap_or_else", try_from_call(), result_of(Ty::Float)), [SATURATION]);
    let resolved = QPath::Resolved(vec!["TryFrom".to_owned(), "try_from".to_owned()]);
    assert_eq!(
        report("unwrap_or", ReceiverKind::Call(Some(resolved)), result_of(Ty::Int)),
        [SATURATION]
    );
    let method_form = ReceiverKind::MethodCall("try_into".to_owned());
    assert_eq!(report("unwrap_or_else", method_form, result_of(Ty::Uint)), [SATURATION]);
    // Conversions into other types, other receivers and handled errors pass.
    assert!(report("unwrap_or_default", try_from_call(), result_of(Ty::Other)).is_empty());
    assert!(report("unwrap_or", try_from_call(), Ty::Int).is_empty());
    let option = Ty::Adt(AdtTy { is_result: false, type_args: vec![Ty::Int] });
    assert!(report("unwrap_or", try_from_call(), option).is_empty());
    let bare = Ty::Adt(AdtTy { is_result: true, type_args: vec![] });
    assert!(report("unwrap_or", try_from_call(), bare).is_empty());
    assert!(report("unwrap", try_from_call(), result_of(Ty::Int)).is_empty());
    let parse = ReceiverKind::MethodCall("parse".to_owned());
    assert!(report("unwrap_or", parse, result_of(Ty::Int)).is_empty());
    assert!(report("unwrap_or", ReceiverKind::Call(None), result_of(Ty::Int)).is_empty());
    assert!(report("unwrap_or", ReceiverKind::Other, result_of(Ty::Int)).is_empty());
    let found = check_expr(
        &env,
        &expr(
            method("unwrap_or", None, Receiver { kind: try_from_call(), ty: result_of(Ty::Int) }),
            "x",
            vec![],
            product(),
        ),
    );
    assert_eq!(
        found[0].help,
        "match on the TryFrom/TryInto result and surface the out-of-range case instead of falling back to a saturated or default value"
    );
}

#[test]
fn saturating_arithmetic_is_reported() {
    let mut env = Environment::new();
    let add = || method("saturating_add", None, plain_receiver());
    let report = |env: &Environment, kind: ExprKind| {
        check_expr(env, &expr(kind, "x", vec![], product()))
    };
    assert!(report(&env, add()).is_empty());
    env.set_var("RUST_LINTS_SILENT_SATURATION", Some("1"));
    let found = report(&env, add());
    assert_eq!(found.len(), 1);
    assert_eq!(found[0].message, SATURATING);
    assert_eq!(
        found[0].help,
        "handle the overflow explicitly, or allow rust_lints_policy_checks here with the business rule as the reason"
    );
    let by_path = call("u32::saturating_sub", Some("core::num::<impl u32>::saturating_sub"));
    assert_eq!(report(&env, by_path)[0].message, SATURATING);
    assert_eq!(report(&env, call("f", Some("saturating_mul")))[0].message, SATURATING);
    assert!(report(&env, call("saturating_mul", None)).is_empty());
    assert!(report(&env, call("f", Some("saturating_ops::add"))).is_empty());
    assert!(report(&env, method("checked_add", None, plain_receiver())).is_empty());
    assert!(report(&env, method("non_saturating_add", None, plain_receiver())).is_empty());
}

#[test]
fn path_names() {
    for (path, name) in [("a::b::c", "c"), ("c", "c"), ("", ""), ("a::", ""), ("a:b", "a:b"), ("::", ""), (":::c", "c")] {
        assert_eq!(last_path_name(path), name, "{path}");
    }
}

#[test]
fn path_segments() {
    assert_eq!(last_path_segment(&QPath::TypeRelative("a".to_owned())), Some("a"));
    let path = QPath::Resolved(vec!["a".to_owned(), "b".to_owned()]);
    assert_eq!(last_path_segment(&path), Some("b"));
    assert_eq!(last_path_segment(&QPath::Resolved(vec![])), None);
}

#[test]
fn unbounded_channels_are_reported() {
    let env = all_gates();
    let path = "fixture_product_conversions::tokio::sync::mpsc::unbounded_channel";
    let kind = call("tokio::sync::mpsc::unbounded_channel", Some(path));
    let found = check_expr(&env, &expr(kind, "unbounded_channel()", vec![], product()));
    assert_eq!(found.len(), 1);
    assert_eq!(found[0].message, CHANNEL);
    assert_eq!(
        found[0].help,
        "replace the unbounded constructor with a bounded channel (e.g. tokio::sync::mpsc::channel(cap)) sized to the workload"
    );
    let bounded = call("channel", Some("tokio::sync::mpsc::channel"));
    assert!(messages(&env, &expr(bounded, "channel(64)", vec![], product())).is_empty());
    let unknown = call("tokio::sync::mpsc::unbounded_channel", None);
    assert!(messages(&env, &expr(unknown, "unbounded_channel()", vec![], product())).is_empty());
}

fn bool_ty() -> TyKind {
    TyKind::Path(QPath::Resolved(vec!["bool".to_owned()]))
}

fn function(name: &str, inputs: Vec<TyKind>) -> Function {
    Function {
        kind: FnKind::ItemFn(name.to_owned()),
        inputs,
        reach: Reach::Public,
        test_crate: false,
        nodes: vec![Node::Item(vec![])],
    }
}

#[test]
fn boolean_parameters_on_public_functions_are_reported() {
    let env = all_gates();
    let found = check_fn(&env, &function("render_report", vec![TyKind::Other, bool_ty()]));
    assert_eq!(found.len(), 1);
    assert_eq!(found[0].message, BOOL_PARAM);
    assert_eq!(
        found[0].help,
        "replace the bool parameter with a named two-variant enum so call sites read self-documentingly"
    );
    let quiet = |function: Function| check_bool_param_on_public_fn(&env, &function).is_none();
    assert!(quiet(function("set_compact", vec![bool_ty()])));
    assert!(quiet(function("with_verbose", vec![bool_ty()])));
    assert!(!quiet(function("settle", vec![bool_ty()])));
    assert!(quiet(function("render_level", vec![TyKind::Other])));
    assert!(quiet(function("render_level", vec![])));
    assert!(quiet(Function { reach: Reach::Private, ..function("private_render", vec![bool_ty()]) }));
    assert!(!quiet(Function { reach: Reach::Crate, ..function("render", vec![bool_ty()]) }));
    assert!(quiet(Function { test_crate: true, ..function("render", vec![bool_ty()]) }));
    assert!(quiet(Function { kind: FnKind::Closure, ..function("", vec![bool_ty()]) }));
    assert!(!quiet(Function {
        kind: FnKind::Method("render".to_owned()),
        ..function("", vec![bool_ty()])
    }));
    let nested = TyKind::Path(QPath::Resolved(vec!["core".to_owned(), "bool".to_owned()]));
    assert!(quiet(function("render", vec![nested])));
    assert!(quiet(function("render", vec![TyKind::Path(QPath::TypeRelative("bool".to_owned()))])));
    let mut tested = function("assert_rendered", vec![bool_ty()]);
    tested.nodes = vec![
        Node::Item(vec![]),
        Node::Item(vec![Attribute { name: "cfg".to_owned(), nested: vec!["test".to_owned()] }]),
    ];
    assert!(quiet(tested));
    assert!(check_fn(&Environment::new(), &function("render", vec![bool_ty()])).is_empty());
}

#[test]
fn reach_is_effective() {
    assert!(matches!(fn_reach(true, "pub fn f() {}", true), Reach::Public));
    assert!(matches!(fn_reach(true, "fn f() {}", false), Reach::Public));
    assert!(matches!(fn_reach(false, "pub(crate) fn f() {}", true), Reach::Crate));
    assert!(matches!(fn_reach(false, "pub(crate) fn f() {}", false), Reach::Private));
    assert!(matches!(fn_reach(false, "pub fn f() {}", true), Reach::Private));
    for written in ["pub (crate) fn f()", "pub(in crate) fn f()", "pub ( in\n crate ) fn f()", "pub( crate )fn f()"] {
        assert!(matches!(fn_reach(false, written, true), Reach::Crate), "{written}");
    }
    for written in ["pub(super) fn f()", "pub(in crate::a) fn f()", "pub(crate::a) fn f()", "pub(incrate) fn f()", "pub(in", "pub(", "pub", ""] {
        assert!(matches!(fn_reach(false, written, true), Reach::Private), "{written}");
    }
    assert!(matches!(fn_reach(false, "fn f() {}", true), Reach::Private));
    assert!(fn_is_publicly_reachable(&Reach::Public));
    assert!(fn_is_publicly_reachable(&Reach::Crate));
    assert!(!fn_is_publicly_reachable(&Reach::Private));
}

#[test]
fn test_attributes_are_recognised() {
    let attr = |name: &str, nested: &[&str]| Attribute {
        name: name.to_owned(),
        nested: nested.iter().map(|text| (*text).to_owned()).collect(),
    };
    assert!(is_in_test_context(&vec![Node::ImplItem(vec![attr("inline", &[]), attr("test", &[])])]));
    assert!(is_in_test_context(&vec![Node::TraitItem(vec![attr("cfg", &["unix", "test"])])]));
    assert!(!is_in_test_context(&vec![Node::Item(vec![attr("cfg", &["unix"])])]));
    assert!(!is_in_test_context(&vec![Node::Item(vec![attr("allow", &["test"])])]));
    assert!(!is_in_test_context(&vec![Node::Other, Node::Expr(NodeExpr::Other)]));
    assert!(!is_in_test_context(&vec![]));
}

#[test]
fn findings_come_in_order() {
    let mut env = all_gates();
    env.set_var("RUST_LINTS_SQLX_OWNER_PATHS", Some("crates/other/"));
    // A call in product code that breaks several rules at once.
    let snippet = "sqlx::query(\"select \", reqwest::get(u), std::fs::read(p))";
    let kind = call("sqlx::query(block_on", Some("a::crossbeam_channel::unbounded"));
    let found = messages(&env, &expr(kind, snippet, vec![async_block()], product()));
    assert_eq!(
        found,
        [
            BOUNDARY,
            "outbound HTTP clients must go through reviewed platform wrappers",
            CHANNEL,
            STRICT,
        ]
    );
}

#[test]
fn runtime_query_passes_look_at_query_calls_only() {
    let env = all_gates();
    let snippet = "sqlx::query(sql.as_str())";
    assert_eq!(
        messages(&env, &expr(call("sqlx::query", None), snippet, vec![], seam())),
        [DYNAMIC]
    );
    assert!(messages(&env, &expr(call("wrap", None), snippet, vec![], seam())).is_empty());
    assert!(messages(&env, &expr(ExprKind::Other, snippet, vec![], seam())).is_empty());
}

#[test]
fn with_no_gate_set_only_the_standing_passes_report() {
    let env = Environment::new();
    let snippet = "sqlx::query(\"select 1 from t\", reqwest::get(u))";
    let kind = call("sqlx::query", Some("tokio::sync::mpsc::unbounded_channel"));
    assert_eq!(
        messages(&env, &expr(kind, snippet, vec![async_block()], product())),
        [BOUNDARY]
    );
    let literal = expr(ExprKind::Lit, "\"select a from b\"", vec![], product());
    assert!(messages(&env, &literal).is_empty());
}
