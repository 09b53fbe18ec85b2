//! What the configuration promises.

use vstd::prelude::*;
use vstd::string::*;

use crate::config::{
    blocking_tokio_enabled, bool_params_enabled, dynamic_sql_marker, env_view, exception_marker,
    file_length_exceptions_path, fixture_path_prefix, http_owner_paths, http_wrapper_enabled, label,
    list_entries, list_var, max_file_lines, repo_source_roots, require_sql_marker_enabled,
    silent_saturation_enabled, sqlx_owner_paths, strict_sqlx_enabled, trimmed_entries,
    unbounded_channel_enabled, EnvVar, Environment,
};
use crate::text::{split_on, texts, trim, usize_value};
use crate::text_laws::law_fields;

verus! {

/// The variable is set to a text, which is `value`.
pub open spec fn reads(env: Environment, name: Seq<char>, value: Seq<char>) -> bool {
    env@.contains_key(name) && env@[name] == Some(value)
}

/// The variable is not set to a text: it is not set, or not to valid Unicode.
pub open spec fn has_no_text(env: Environment, name: Seq<char>) -> bool {
    env@.contains_key(name) ==> env@[name] is None
}

/// Every entry of the environment sets its variable, over what stood there before, and touches
/// no other.
pub proof fn law_last_setting_counts(vars: Seq<EnvVar>, entry: EnvVar, name: Seq<char>)
    ensures
        env_view(Seq::empty()) == Map::<Seq<char>, Option<Seq<char>>>::empty(),
        env_view(vars.push(entry)).contains_key(entry.name@),
        env_view(vars.push(entry))[entry.name@] is Some <==> entry.value is Some,
        entry.value matches Some(text) ==> env_view(vars.push(entry))[entry.name@] == Some(text@),
        name != entry.name@ ==> env_view(vars.push(entry)).contains_key(name) == env_view(
            vars,
        ).contains_key(name),
        name != entry.name@ && env_view(vars).contains_key(name) ==> env_view(
            vars.push(entry),
        )[name] == env_view(vars)[name],
{
    assert(vars.push(entry).drop_last() =~= vars);
}

/// A gate is open exactly if its own variable is set, to whatever value.
pub proof fn law_gates(
    env: &Environment,
    http: bool,
    blocking: bool,
    marker: bool,
    strict: bool,
    saturation: bool,
    channel: bool,
    flags: bool,
)
    requires
        call_ensures(http_wrapper_enabled, (env,), http),
        call_ensures(blocking_tokio_enabled, (env,), blocking),
        call_ensures(require_sql_marker_enabled, (env,), marker),
        call_ensures(strict_sqlx_enabled, (env,), strict),
        call_ensures(silent_saturation_enabled, (env,), saturation),
        call_ensures(unbounded_channel_enabled, (env,), channel),
        call_ensures(bool_params_enabled, (env,), flags),
    ensures
        http <==> env@.contains_key("RUST_LINTS_HTTP_WRAPPER"@),
        blocking <==> env@.contains_key("RUST_LINTS_BLOCKING_TOKIO"@),
        marker <==> env@.contains_key("RUST_LINTS_REQUIRE_SQL_MARKER"@),
        strict <==> env@.contains_key("RUST_LINTS_STRICT_SQLX"@),
        saturation <==> env@.contains_key("RUST_LINTS_SILENT_SATURATION"@),
        channel <==> env@.contains_key("RUST_LINTS_UNBOUNDED_CHANNEL"@),
        flags <==> env@.contains_key("RUST_LINTS_BOOL_PARAMS"@),
{
}

/// The texts that are configured are those of their variables, and have defaults.
pub proof fn law_configured_texts(
    env: &Environment,
    value: Seq<char>,
    platform: String,
    fixtures: String,
    exception: String,
    note: String,
    inventory: Option<String>,
    cap: Option<usize>,
)
    requires
        call_ensures(label, (env,), platform),
        call_ensures(fixture_path_prefix, (env,), fixtures),
        call_ensures(exception_marker, (env,), exception),
        call_ensures(dynamic_sql_marker, (env,), note),
        call_ensures(file_length_exceptions_path, (env,), inventory),
        call_ensures(max_file_lines, (env,), cap),
    ensures
        reads(*env, "RUST_LINTS_LABEL"@, value) ==> platform@ == value,
        has_no_text(*env, "RUST_LINTS_LABEL"@) ==> platform@ == "platform"@,
        reads(*env, "RUST_LINTS_FIXTURE_PATH"@, value) ==> fixtures@ == value,
        has_no_text(*env, "RUST_LINTS_FIXTURE_PATH"@) ==> fixtures@
            == "tools/rust-lints/fixtures/"@,
        reads(*env, "RUST_LINTS_EXCEPTION_MARKER"@, value) ==> exception@ == value,
        has_no_text(*env, "RUST_LINTS_EXCEPTION_MARKER"@) ==> exception@
            == "rust-lints-file-length-exception"@,
        reads(*env, "RUST_LINTS_DYNAMIC_SQL_MARKER"@, value) ==> note@ == value,
        has_no_text(*env, "RUST_LINTS_DYNAMIC_SQL_MARKER"@) ==> note@ == "rust-lints-dynamic-sql"@,
        reads(*env, "RUST_LINTS_FILE_LENGTH_EXCEPTIONS"@, value) ==> (inventory matches Some(path)
            && path@ == value),
        has_no_text(*env, "RUST_LINTS_FILE_LENGTH_EXCEPTIONS"@) ==> inventory is None,
        reads(*env, "RUST_LINTS_MAX_FILE_LINES"@, value) ==> cap == usize_value(value),
        has_no_text(*env, "RUST_LINTS_MAX_FILE_LINES"@) ==> cap is None,
{
}

proof fn lemma_entries_of_two(a: Seq<Seq<char>>, b: Seq<Seq<char>>)
    ensures
        trimmed_entries(a + b) == trimmed_entries(a) + trimmed_entries(b),
    decreases b.len(),
{
    if b.len() == 0 {
        assert(a + b =~= a);
        assert(trimmed_entries(b) =~= Seq::<Seq<char>>::empty());
        assert(trimmed_entries(a) + trimmed_entries(b) =~= trimmed_entries(a));
    } else {
        lemma_entries_of_two(a, b.drop_last());
        assert((a + b).drop_last() =~= a + b.drop_last());
        assert((a + b).last() == b.last());
        let before = trimmed_entries(a);
        let rest = trimmed_entries(b.drop_last());
        let entry = trim(b.last());
        assert((before + rest).push(entry) =~= before + rest.push(entry));
    }
}

/// The entries of one field: what is left of it without the white space around it, if that is
/// anything.
pub open spec fn entry_of(field: Seq<char>) -> Seq<Seq<char>> {
    if trim(field).len() > 0 {
        seq![trim(field)]
    } else {
        Seq::empty()
    }
}

/// The entries of a list: the first comma ends the first entry, the rest is a list of its own,
/// and an entry of nothing but white space is none.
pub proof fn law_list_entries(field: Seq<char>, rest: Seq<char>)
    requires
        !field.contains(','),
    ensures
        list_entries(field + seq![','] + rest) == entry_of(field) + list_entries(rest),
        list_entries(field) == entry_of(field),
{
    law_fields(field, ',', rest);
    let one = seq![field];
    lemma_entries_of_two(one, split_on(rest, ','));
    assert(one.drop_last() =~= Seq::<Seq<char>>::empty());
    assert(trimmed_entries(one.drop_last()) =~= Seq::<Seq<char>>::empty());
    assert(trimmed_entries(one) =~= entry_of(field));
}

/// A list variable that is set to a text holds the entries of that text, and another holds
/// nothing.
pub proof fn law_configured_list(
    env: &Environment,
    name: &str,
    value: Seq<char>,
    r: Option<Vec<String>>,
)
    requires
        call_ensures(list_var, (env, name), r),
    ensures
        reads(*env, name@, value) ==> (r matches Some(list) && texts(list@) == list_entries(value)),
        has_no_text(*env, name@) ==> r is None,
{
}

/// The owners of the seams are those of their own lists, else those of the list of seam
/// crates, else the platform's crates.
pub proof fn law_seam_owners(
    env: &Environment,
    own: Seq<char>,
    shared: Seq<char>,
    sqlx: Vec<String>,
    http: Vec<String>,
)
    requires
        call_ensures(sqlx_owner_paths, (env,), sqlx),
        call_ensures(http_owner_paths, (env,), http),
    ensures
        reads(*env, "RUST_LINTS_SQLX_OWNER_PATHS"@, own) ==> texts(sqlx@) == list_entries(own),
        reads(*env, "RUST_LINTS_HTTP_OWNER_PATHS"@, own) ==> texts(http@) == list_entries(own),
        has_no_text(*env, "RUST_LINTS_SQLX_OWNER_PATHS"@) && reads(
            *env,
            "RUST_LINTS_SEAM_CRATES"@,
            shared,
        ) ==> texts(sqlx@) == list_entries(shared),
        has_no_text(*env, "RUST_LINTS_HTTP_OWNER_PATHS"@) && reads(
            *env,
            "RUST_LINTS_SEAM_CRATES"@,
            shared,
        ) ==> texts(http@) == list_entries(shared),
        has_no_text(*env, "RUST_LINTS_SQLX_OWNER_PATHS"@) && has_no_text(
            *env,
            "RUST_LINTS_SEAM_CRATES"@,
        ) ==> texts(sqlx@) == seq![
            "crates/platform-db/"@,
            "crates/platform-infra/"@,
            "crates/platform-infrastructure/"@,
        ],
        has_no_text(*env, "RUST_LINTS_HTTP_OWNER_PATHS"@) && has_no_text(
            *env,
            "RUST_LINTS_SEAM_CRATES"@,
        ) ==> texts(http@) == seq![
            "crates/platform-http/src/"@,
            "crates/platform-observability/src/telemetry.rs"@,
            "apps/"@,
        ],
{
}

/// The roots that are scanned are those of their list, else the applications, the crates and
/// the fixtures.
pub proof fn law_scanned_roots(
    env: &Environment,
    value: Seq<char>,
    fixtures: String,
    roots: Vec<String>,
)
    requires
        call_ensures(repo_source_roots, (env,), roots),
        call_ensures(fixture_path_prefix, (env,), fixtures),
    ensures
        reads(*env, "RUST_LINTS_REPO_SOURCE_ROOTS"@, value) ==> texts(roots@) == list_entries(value),
        has_no_text(*env, "RUST_LINTS_REPO_SOURCE_ROOTS"@) ==> texts(roots@) == seq![
            "apps/"@,
            "crates/"@,
            fixtures@,
        ],
{
}

/// An environment is empty at first; setting a variable sets it and no other, and what is set
/// is what is read.
pub proof fn law_environment(
    env: &Environment,
    fresh: Environment,
    name: &str,
    value: Option<&str>,
    set: bool,
    text: Option<String>,
)
    requires
        call_ensures(Environment::new, (), fresh),
        call_ensures(Environment::is_set, (env, name), set),
        call_ensures(Environment::var, (env, name), text),
    ensures
        forall|any: Seq<char>| !#[trigger] fresh@.contains_key(any),
        set <==> env@.contains_key(name@),
        text matches Some(found) ==> reads(*env, name@, found@),
        text is None <==> has_no_text(*env, name@),
        forall|target: &mut Environment| #[trigger]
            call_ensures(Environment::set_var, (target, name, value), ()) ==> {
                &&& final(target)@.contains_key(name@)
                &&& final(target)@[name@] is Some <==> value is Some
                &&& value matches Some(new) ==> final(target)@[name@] == Some(new@)
                &&& forall|any: Seq<char>|
                    any != name@ ==> {
                        &&& #[trigger] final(target)@.contains_key(any) == target@.contains_key(any)
                        &&& target@.contains_key(any) ==> final(target)@[any] == target@[any]
                    }
            },
{
}

} // verus!
