//! What the passes promise as a whole.

use vstd::prelude::*;

use crate::config::{
    env_list, env_text, http_owners, list_entries, sqlx_owners, trimmed_entries, EnvView,
};
use crate::diag::{as_list, DiagView};
use crate::file_length::{
    file_key, inventory_name, is_documented, is_scanned, is_too_long, reported, seen_after,
    SourceFile,
};
use crate::hir::{Expr, ExprKind, Function, HirTy, Item, Site};
use crate::passes::{
    async_at, blocking_fires, bool_param_fires, calls_runtime_query, channel_fires,
    dynamic_sqlx_diag, dynamic_sqlx_fires, expr_diags, fn_diags, fn_name, in_tests,
    inline_sql_fires, is_numeric_result, is_wildcard_import, item_diags, on_async_worker,
    outbound_http_fires, quarantined_at, report_if, saturates_by_name, saturating_arithmetic_diag,
    saturation_diag, saturation_fires, sqlx_boundary_diag, sqlx_boundary_fires, strict_sqlx_fires,
    ty_diags, wildcard_diag,
};
use crate::sites::{has_note, is_fixture, is_non_production, owns_http, owns_sqlx};
use crate::text::{
    ascii_lower, contains_text, ends_with, is_white_space, lemma_find_char_is, lines_of, occurs_at,
    split_on, trim_end, trim_start,
};
use crate::tokens::{
    has_inline_sql_text, has_sql_marker, has_static_sql_literal, is_or_ends_in, literal_body,
    path_name, segment_start, unbounded_channel_path,
};

verus! {

/// None of the feature gates is set.
pub open spec fn no_gate_is_set(env: EnvView) -> bool {
    &&& !env.contains_key("RUST_LINTS_HTTP_WRAPPER"@)
    &&& !env.contains_key("RUST_LINTS_BLOCKING_TOKIO"@)
    &&& !env.contains_key("RUST_LINTS_REQUIRE_SQL_MARKER"@)
    &&& !env.contains_key("RUST_LINTS_STRICT_SQLX"@)
    &&& !env.contains_key("RUST_LINTS_SILENT_SATURATION"@)
    &&& !env.contains_key("RUST_LINTS_UNBOUNDED_CHANNEL"@)
    &&& !env.contains_key("RUST_LINTS_BOOL_PARAMS"@)
}

/// Each gated pass is silent unless its own variable is set, whatever else is.
pub proof fn law_each_gate_is_its_own(
    env: EnvView,
    site: Site,
    snippet: Seq<char>,
    expr: Expr,
    function: Function,
)
    ensures
        outbound_http_fires(env, site, snippet) ==> env.contains_key("RUST_LINTS_HTTP_WRAPPER"@),
        blocking_fires(env, expr) ==> env.contains_key("RUST_LINTS_BLOCKING_TOKIO"@),
        inline_sql_fires(env, site, snippet, expr.kind) ==> env.contains_key(
            "RUST_LINTS_REQUIRE_SQL_MARKER"@,
        ),
        strict_sqlx_fires(env, site, snippet) ==> env.contains_key("RUST_LINTS_STRICT_SQLX"@),
        saturation_fires(env, expr) ==> env.contains_key("RUST_LINTS_SILENT_SATURATION"@),
        channel_fires(env, expr) ==> env.contains_key("RUST_LINTS_UNBOUNDED_CHANNEL"@),
        bool_param_fires(env, function) ==> env.contains_key("RUST_LINTS_BOOL_PARAMS"@),
{
}

/// With no gate set, only the passes that are always active report: the SQL seam, wildcard
/// imports and dynamic SQLx.
pub proof fn law_gated_passes_are_off_by_default(
    env: EnvView,
    item: Item,
    expr: Expr,
    function: Function,
)
    requires
        no_gate_is_set(env),
    ensures
        expr_diags(env, expr) == as_list(
            report_if(
                sqlx_boundary_fires(env, expr.site, expr.snippet@),
                sqlx_boundary_diag(),
            ),
        ) + as_list(
            report_if(
                calls_runtime_query(expr) && dynamic_sqlx_fires(env, expr.site, expr.snippet@),
                dynamic_sqlx_diag(),
            ),
        ),
        item_diags(env, item) == as_list(report_if(is_wildcard_import(item), wildcard_diag()))
            + as_list(
            report_if(
                sqlx_boundary_fires(env, item.site, item.snippet@),
                sqlx_boundary_diag(),
            ),
        ),
        fn_diags(env, function) == Seq::<DiagView>::empty(),
{
    assert(expr_diags(env, expr) =~= as_list(
        report_if(sqlx_boundary_fires(env, expr.site, expr.snippet@), sqlx_boundary_diag()),
    ) + as_list(
        report_if(
            calls_runtime_query(expr) && dynamic_sqlx_fires(env, expr.site, expr.snippet@),
            dynamic_sqlx_diag(),
        ),
    ));
}

/// Code in the database seam may name database adapters: no pass over items, types or
/// expressions reports it for that.
pub proof fn law_seam_may_use_sqlx(env: EnvView, item: Item, ty: HirTy, expr: Expr)
    requires
        owns_sqlx(env, item.site),
        owns_sqlx(env, ty.site),
        owns_sqlx(env, expr.site),
    ensures
        !sqlx_boundary_fires(env, item.site, item.snippet@),
        ty_diags(env, ty) == Seq::<DiagView>::empty(),
        !sqlx_boundary_fires(env, expr.site, expr.snippet@),
{
}

/// The lint's own fixtures are exempt from the SQL-seam and HTTP-wrapper passes.
pub proof fn law_fixtures_are_exempt(env: EnvView, site: Site, snippet: Seq<char>)
    requires
        is_fixture(env, site),
    ensures
        !sqlx_boundary_fires(env, site, snippet),
        !outbound_http_fires(env, site, snippet),
{
}

/// Code in the HTTP seam may make clients.
pub proof fn law_seam_may_make_clients(env: EnvView, site: Site, snippet: Seq<char>)
    requires
        owns_http(env, site),
    ensures
        !outbound_http_fires(env, site, snippet),
{
}

/// No SQLx pass audits test builds and examples.
pub proof fn law_tests_and_examples_are_not_audited(
    env: EnvView,
    site: Site,
    snippet: Seq<char>,
    kind: ExprKind,
)
    requires
        is_non_production(site),
    ensures
        !sqlx_boundary_fires(env, site, snippet),
        !dynamic_sqlx_fires(env, site, snippet),
        !strict_sqlx_fires(env, site, snippet),
        !inline_sql_fires(env, site, snippet, kind),
{
}

/// Dynamic SQL that is asserted to be safe, or that has a note by it, is never reported.
pub proof fn law_documented_dynamic_sql_passes(env: EnvView, site: Site, snippet: Seq<char>)
    requires
        contains_text(snippet, "AssertSqlSafe"@) || has_note(env, site),
    ensures
        !dynamic_sqlx_fires(env, site, snippet),
{
}

/// A query is static or dynamic, never both; and the seam decides between the SQL-seam pass
/// outside it and the dynamic-SQLx pass inside it.
pub proof fn law_sql_passes_exclude_each_other(env: EnvView, site: Site, snippet: Seq<char>)
    ensures
        !(dynamic_sqlx_fires(env, site, snippet) && strict_sqlx_fires(env, site, snippet)),
        !(dynamic_sqlx_fires(env, site, snippet) && sqlx_boundary_fires(env, site, snippet)),
{
}

/// With its gate set, the silent-saturation pass reports every call of a `saturating_*`
/// method, and every call of a `saturating_*` function whose path is known.
pub proof fn law_saturating_arithmetic_is_reported(
    env: EnvView,
    expr: Expr,
    rest: Seq<char>,
)
    requires
        env.contains_key("RUST_LINTS_SILENT_SATURATION"@),
        match expr.kind {
            ExprKind::MethodCall(call) => call.name@ == "saturating_"@ + rest,
            ExprKind::Call(callee) => callee.def_path matches Some(path) && path_name(path@)
                == "saturating_"@ + rest,
            _ => false,
        },
    ensures
        saturation_fires(env, expr),
        saturation_diag(expr) == saturating_arithmetic_diag(),
{
    let name = "saturating_"@ + rest;
    assert(name.subrange(0, "saturating_"@.len() as int) =~= "saturating_"@);
    assert(occurs_at(name, "saturating_"@, 0));
}

proof fn lemma_segment_start(path: Seq<char>, start: int, end: int)
    requires
        2 <= start <= end <= path.len(),
        path[start - 2] == ':',
        path[start - 1] == ':',
        forall|j: int| start <= j < end ==> path[j] != ':',
    ensures
        segment_start(path, end) == start,
    decreases end,
{
    if start < end {
        lemma_segment_start(path, start, end - 1);
    }
}

proof fn lemma_no_separator(path: Seq<char>, end: int)
    requires
        0 <= end <= path.len(),
        forall|j: int| 0 <= j < path.len() ==> path[j] != ':',
    ensures
        segment_start(path, end) == 0,
    decreases end,
{
    if end >= 2 {
        lemma_no_separator(path, end - 1);
    }
}

/// The last segment of a path is the name that its last `::` stands before, or the whole path
/// where there is none.
pub proof fn law_path_name_is_the_last_segment(front: Seq<char>, name: Seq<char>)
    requires
        forall|j: int| 0 <= j < name.len() ==> name[j] != ':',
    ensures
        path_name(front + "::"@ + name) == name,
        path_name(name) == name,
{
    lemma_no_separator(name, name.len() as int);
    assert(name.skip(0) =~= name);
    reveal_strlit("::");
    let path = front + "::"@ + name;
    let start = front.len() as int + 2;
    assert forall|j: int| start <= j < path.len() implies path[j] != ':' by {
        assert(path[j] == name[j - start]);
    }
    lemma_segment_start(path, start, path.len() as int);
    assert(path.skip(start) =~= name);
}

/// A conversion whose `Ok` type is no primitive number is never reported as saturating, unless
/// it is itself named `saturating_*`.
pub proof fn law_other_conversions_pass(env: EnvView, expr: Expr)
    requires
        expr.kind matches ExprKind::MethodCall(call) ==> !is_numeric_result(call.receiver.ty),
        !saturates_by_name(expr),
    ensures
        !saturation_fires(env, expr),
{
}

/// A closure that is handed to a thread that may block shields the code inside it, whatever
/// async code stands around it.
pub proof fn law_quarantine_shields(env: EnvView, expr: Expr, i: int)
    requires
        0 <= i < expr.ancestors@.len(),
        quarantined_at(expr.ancestors@, i),
        forall|j: int| 0 <= j < i ==> !#[trigger] async_at(expr.ancestors@, j),
    ensures
        !on_async_worker(expr.ancestors@),
        !blocking_fires(env, expr),
{
    let nodes = expr.ancestors@;
    assert forall|k: int| 0 <= k < nodes.len() && #[trigger] async_at(nodes, k) implies exists|
        j: int,
    | 0 <= j <= k && #[trigger] quarantined_at(nodes, j) by {
        assert(quarantined_at(nodes, i));
    }
}

/// A function that is no part of the audited surface is never reported.
pub proof fn law_private_functions_pass(env: EnvView, function: Function)
    requires
        function.reach is Private,
    ensures
        fn_diags(env, function) == Seq::<DiagView>::empty(),
{
}

/// Test items and test builds are never reported for a boolean parameter.
pub proof fn law_tests_may_take_flags(env: EnvView, function: Function)
    requires
        function.test_crate || in_tests(function.nodes@),
    ensures
        fn_diags(env, function) == Seq::<DiagView>::empty(),
{
}

/// A setter is never reported for a boolean parameter.
pub proof fn law_setters_pass(env: EnvView, function: Function, rest: Seq<char>)
    requires
        fn_name(function.kind) == Some("set_"@ + rest) || fn_name(function.kind) == Some(
            "with_"@ + rest,
        ),
    ensures
        fn_diags(env, function) == Seq::<DiagView>::empty(),
{
    assert(("set_"@ + rest).subrange(0, "set_"@.len() as int) =~= "set_"@);
    assert(("with_"@ + rest).subrange(0, "with_"@.len() as int) =~= "with_"@);
    assert(occurs_at("set_"@ + rest, "set_"@, 0));
    assert(occurs_at("with_"@ + rest, "with_"@, 0));
}

proof fn lemma_ends_with_behind(front: Seq<char>, s: Seq<char>, t: Seq<char>)
    requires
        ends_with(s, t),
    ensures
        ends_with(front + s, t),
{
    let u = front + s;
    let k = u.len() - t.len();
    assert(u.subrange(k, k + t.len()) =~= s.subrange(s.len() - t.len(), s.len() as int));
}

proof fn lemma_reexport(front: Seq<char>, path: Seq<char>, target: Seq<char>)
    requires
        is_or_ends_in(path, target),
    ensures
        is_or_ends_in(front + "::"@ + path, target),
{
    let sep = "::"@;
    if path == target {
        let t = sep + target;
        assert(t.subrange(0, t.len() as int) =~= t);
        lemma_ends_with_behind(front, t, t);
        assert(front + sep + path =~= front + t);
    } else {
        lemma_ends_with_behind(front + sep, path, sep + target);
    }
}

/// A channel constructor that is re-exported under another path in front is still recognised.
pub proof fn law_reexports_are_recognised(front: Seq<char>, path: Seq<char>)
    requires
        unbounded_channel_path(path),
    ensures
        unbounded_channel_path(front + "::"@ + path),
{
    if is_or_ends_in(path, "tokio::sync::mpsc::unbounded_channel"@) {
        lemma_reexport(front, path, "tokio::sync::mpsc::unbounded_channel"@);
    } else if is_or_ends_in(path, "futures::channel::mpsc::unbounded"@) {
        lemma_reexport(front, path, "futures::channel::mpsc::unbounded"@);
    } else if is_or_ends_in(path, "futures_channel::mpsc::unbounded"@) {
        lemma_reexport(front, path, "futures_channel::mpsc::unbounded"@);
    } else if is_or_ends_in(path, "crossbeam_channel::unbounded"@) {
        lemma_reexport(front, path, "crossbeam_channel::unbounded"@);
    } else {
        lemma_reexport(front, path, "crossbeam::channel::unbounded"@);
    }
}

/// `opening` is what a string literal opens with: a quote, with a `b` before it or with an
/// `r` and any number of `#` before it.
pub open spec fn opens_literal(opening: Seq<char>) -> bool {
    ||| opening == seq!['"']
    ||| opening == seq!['b', '"']
    ||| opening.len() >= 2 && opening[0] == 'r' && opening.last() == '"' && forall|j: int|
        1 <= j < opening.len() - 1 ==> #[trigger] opening[j] == '#'
}

/// A string, byte string or raw string literal that begins with `--sql`, white space aside,
/// is never reported for want of the marker.
pub proof fn law_marked_literals_pass(
    env: EnvView,
    site: Site,
    kind: ExprKind,
    opening: Seq<char>,
    indent: Seq<char>,
    rest: Seq<char>,
)
    requires
        opens_literal(opening),
        forall|j: int| 0 <= j < indent.len() ==> is_white_space(#[trigger] indent[j]),
    ensures
        has_sql_marker(opening + (indent + "--sql"@ + rest)),
        !inline_sql_fires(env, site, opening + (indent + "--sql"@ + rest), kind),
{
    reveal_strlit("--sql");
    let body = indent + "--sql"@ + rest;
    let s = opening + body;
    let n = opening.len() as int;
    assert(s[0] == opening[0]);
    assert(s[n - 1] == opening[n - 1]);
    assert(trim_start(s) == s);
    if opening[0] == 'r' {
        assert forall|j: int| 1 <= j < n - 1 implies s[j] != '"' by {
            assert(s[j] == opening[j]);
        }
        lemma_find_char_is(s, '"', 1, n - 1);
    }
    assert(s.subrange(n, s.len() as int) =~= body);
    let shown = "--sql"@ + rest;
    assert(shown[0] == '-');
    lemma_trim_start(indent, shown);
    assert(indent + shown =~= body);
    assert(shown.subrange(0, 5) =~= "--sql"@);
    assert(literal_body(s) == Some(body));
    assert(occurs_at(shown, "--sql"@, 0));
}

/// White space at the start of a text is taken off.
pub proof fn lemma_trim_start(indent: Seq<char>, s: Seq<char>)
    requires
        forall|j: int| 0 <= j < indent.len() ==> is_white_space(#[trigger] indent[j]),
        s.len() > 0 ==> !is_white_space(s[0]),
    ensures
        trim_start(indent + s) == s,
    decreases indent.len(),
{
    let u = indent + s;
    if indent.len() > 0 {
        let tail = indent.subrange(1, indent.len() as int);
        assert forall|j: int| 0 <= j < tail.len() implies is_white_space(#[trigger] tail[j]) by {
            assert(tail[j] == indent[j + 1]);
        }
        lemma_trim_start(tail, s);
        assert(u[0] == indent[0]);
        assert(u.subrange(1, u.len() as int) =~= tail + s);
    } else {
        assert(u =~= s);
    }
}

/// Letter case does not matter to the SQL recognisers.
pub proof fn law_letter_case_does_not_matter(a: Seq<char>, b: Seq<char>)
    requires
        ascii_lower(a) == ascii_lower(b),
    ensures
        has_static_sql_literal(a) == has_static_sql_literal(b),
        has_inline_sql_text(a) == has_inline_sql_text(b),
{
}

/// `s` begins and ends with something other than white space.
pub open spec fn is_trimmed(s: Seq<char>) -> bool {
    s.len() > 0 && !is_white_space(s[0]) && !is_white_space(s[s.len() - 1])
}

proof fn lemma_trim_start_head(s: Seq<char>)
    ensures
        trim_start(s).len() > 0 ==> !is_white_space(trim_start(s)[0]),
    decreases s.len(),
{
    if s.len() > 0 && is_white_space(s[0]) {
        lemma_trim_start_head(s.subrange(1, s.len() as int));
    }
}

proof fn lemma_trim_end_ends(s: Seq<char>)
    ensures
        trim_end(s).len() <= s.len(),
        trim_end(s).len() > 0 ==> trim_end(s)[0] == s[0] && !is_white_space(
            trim_end(s)[trim_end(s).len() - 1],
        ),
    decreases s.len(),
{
    if s.len() > 0 && is_white_space(s[s.len() - 1]) {
        lemma_trim_end_ends(s.subrange(0, s.len() - 1));
    }
}

proof fn lemma_entries(all: Seq<Seq<char>>)
    ensures
        forall|i: int|
            0 <= i < trimmed_entries(all).len() ==> is_trimmed(#[trigger] trimmed_entries(all)[i]),
    decreases all.len(),
{
    if all.len() > 0 {
        lemma_entries(all.drop_last());
        lemma_trim_start_head(all.last());
        lemma_trim_end_ends(trim_start(all.last()));
        let before = trimmed_entries(all.drop_last());
        let entries = trimmed_entries(all);
        assert forall|i: int| 0 <= i < entries.len() implies is_trimmed(#[trigger] entries[i]) by {
            if i < before.len() {
                assert(entries[i] == before[i]);
            }
        }
    }
}

/// The entries of a configured list are never empty and have no white space around them.
pub proof fn law_list_entries_are_trimmed(value: Seq<char>)
    ensures
        forall|i: int|
            0 <= i < list_entries(value).len() ==> is_trimmed(#[trigger] list_entries(value)[i]),
{
    lemma_entries(split_on(value, ','));
}

/// `RUST_LINTS_SEAM_CRATES` serves both seams that have no list of their own, and a seam's
/// own list comes before it.
pub proof fn law_seam_crates_serve_both_seams(env: EnvView)
    ensures
        env_list(env, "RUST_LINTS_SQLX_OWNER_PATHS"@) matches Some(list) ==> sqlx_owners(env)
            == list,
        env_list(env, "RUST_LINTS_HTTP_OWNER_PATHS"@) matches Some(list) ==> http_owners(env)
            == list,
        env_list(env, "RUST_LINTS_SEAM_CRATES"@) matches Some(list) ==> {
            &&& env_text(env, "RUST_LINTS_SQLX_OWNER_PATHS"@) is None ==> sqlx_owners(env) == list
            &&& env_text(env, "RUST_LINTS_HTTP_OWNER_PATHS"@) is None ==> http_owners(env) == list
        },
{
}

proof fn lemma_seen_grows(
    env: EnvView,
    dir: Option<Seq<char>>,
    files: Seq<SourceFile>,
    seen: Set<Seq<char>>,
)
    ensures
        seen.subset_of(seen_after(env, dir, files, seen)),
        forall|i: int|
            0 <= i < files.len() && is_scanned(env, dir, #[trigger] files[i]) ==> seen_after(
                env,
                dir,
                files,
                seen,
            ).contains(file_key(files[i])),
    decreases files.len(),
{
    if files.len() > 0 {
        let init = files.drop_last();
        lemma_seen_grows(env, dir, init, seen);
        assert forall|i: int|
            0 <= i < files.len() && is_scanned(env, dir, #[trigger] files[i]) implies seen_after(
            env,
            dir,
            files,
            seen,
        ).contains(file_key(files[i])) by {
            if i < init.len() {
                assert(init[i] == files[i]);
            }
        }
    }
}

/// Every file is reported at most once, and only if it had not been met before: a scanned
/// file with more lines than the cap and nothing that documents it.
pub proof fn law_each_long_file_is_reported_once(
    env: EnvView,
    dir: Option<Seq<char>>,
    inventory: Option<Seq<char>>,
    cap: usize,
    files: Seq<SourceFile>,
    seen: Set<Seq<char>>,
)
    ensures
        ({
            let keys = reported(env, dir, inventory, cap, files, seen);
            &&& keys.no_duplicates()
            &&& forall|k: int|
                0 <= k < keys.len() ==> {
                    &&& !seen.contains(#[trigger] keys[k])
                    &&& seen_after(env, dir, files, seen).contains(keys[k])
                    &&& exists|i: int|
                        0 <= i < files.len() && file_key(#[trigger] files[i]) == keys[k]
                            && is_scanned(env, dir, files[i]) && is_too_long(
                            env,
                            dir,
                            inventory,
                            cap,
                            files[i],
                        )
                }
        }),
    decreases files.len(),
{
    let keys = reported(env, dir, inventory, cap, files, seen);
    if files.len() > 0 {
        let init = files.drop_last();
        let file = files.last();
        law_each_long_file_is_reported_once(env, dir, inventory, cap, init, seen);
        lemma_seen_grows(env, dir, init, seen);
        lemma_seen_grows(env, dir, files, seen);
        let before = reported(env, dir, inventory, cap, init, seen);
        let met = seen_after(env, dir, init, seen);
        assert(met.subset_of(seen_after(env, dir, files, seen)));
        assert forall|k: int| 0 <= k < keys.len() implies {
            &&& !seen.contains(#[trigger] keys[k])
            &&& seen_after(env, dir, files, seen).contains(keys[k])
            &&& exists|i: int|
                0 <= i < files.len() && file_key(#[trigger] files[i]) == keys[k] && is_scanned(
                    env,
                    dir,
                    files[i],
                ) && is_too_long(env, dir, inventory, cap, files[i])
        } by {
            if k < before.len() {
                assert(keys[k] == before[k]);
                let i = choose|i: int|
                    0 <= i < init.len() && file_key(#[trigger] init[i]) == before[k] && is_scanned(
                        env,
                        dir,
                        init[i],
                    ) && is_too_long(env, dir, inventory, cap, init[i]);
                assert(files[i] == init[i]);
            } else {
                assert(files[files.len() - 1] == file);
            }
        }
    }
}

/// A file that is scanned again is not reported again.
pub proof fn law_second_scan_reports_nothing(
    env: EnvView,
    dir: Option<Seq<char>>,
    inventory: Option<Seq<char>>,
    cap: usize,
    files: Seq<SourceFile>,
    seen: Set<Seq<char>>,
)
    ensures
        reported(
            env,
            dir,
            inventory,
            cap,
            files,
            seen_after(env, dir, files, seen),
        ) == Seq::<Seq<char>>::empty(),
{
    lemma_seen_grows(env, dir, files, seen);
    lemma_nothing_new(env, dir, inventory, cap, files, seen_after(env, dir, files, seen));
}

proof fn lemma_nothing_new(
    env: EnvView,
    dir: Option<Seq<char>>,
    inventory: Option<Seq<char>>,
    cap: usize,
    files: Seq<SourceFile>,
    seen: Set<Seq<char>>,
)
    requires
        forall|i: int|
            0 <= i < files.len() && is_scanned(env, dir, #[trigger] files[i]) ==> seen.contains(
                file_key(files[i]),
            ),
    ensures
        reported(env, dir, inventory, cap, files, seen) == Seq::<Seq<char>>::empty(),
    decreases files.len(),
{
    if files.len() > 0 {
        let init = files.drop_last();
        assert forall|i: int|
            0 <= i < init.len() && is_scanned(env, dir, #[trigger] init[i]) implies seen.contains(
            file_key(init[i]),
        ) by {
            assert(init[i] == files[i]);
        }
        lemma_nothing_new(env, dir, inventory, cap, init, seen);
        lemma_seen_grows(env, dir, init, seen);
        assert(files[files.len() - 1] == files.last());
    }
}

/// A long file that is met for the first time, and that nothing documents, is reported.
pub proof fn law_new_long_file_is_reported(
    env: EnvView,
    dir: Option<Seq<char>>,
    inventory: Option<Seq<char>>,
    cap: usize,
    files: Seq<SourceFile>,
    seen: Set<Seq<char>>,
    i: int,
)
    requires
        0 <= i < files.len(),
        is_scanned(env, dir, files[i]),
        is_too_long(env, dir, inventory, cap, files[i]),
        !seen_after(env, dir, files.take(i), seen).contains(file_key(files[i])),
    ensures
        reported(env, dir, inventory, cap, files, seen).contains(file_key(files[i])),
    decreases files.len(),
{
    let init = files.drop_last();
    let keys = reported(env, dir, inventory, cap, files, seen);
    let before = reported(env, dir, inventory, cap, init, seen);
    if i == files.len() - 1 {
        assert(files.take(i) =~= init);
        assert(keys[keys.len() - 1] == file_key(files[i]));
    } else {
        assert(init.take(i) =~= files.take(i));
        assert(init[i] == files[i]);
        law_new_long_file_is_reported(env, dir, inventory, cap, init, seen, i);
        let k = choose|k: int| 0 <= k < before.len() && before[k] == file_key(files[i]);
        assert(keys[k] == before[k]);
    }
}

/// A file within the cap, or with a documented exception, is never too long.
pub proof fn law_short_and_documented_files_pass(
    env: EnvView,
    dir: Option<Seq<char>>,
    inventory: Option<Seq<char>>,
    cap: usize,
    file: SourceFile,
)
    requires
        file.contents matches Some(contents) ==> lines_of(contents@).len() <= cap || is_documented(
            env,
            inventory,
            inventory_name(dir, file),
            contents@,
        ),
    ensures
        !is_too_long(env, dir, inventory, cap, file),
{
}

} // verus!
