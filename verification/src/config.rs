//! The configuration contract.
//!
//! Every knob is an environment variable. The feature gates (`HTTP_WRAPPER`,
//! `BLOCKING_TOKIO`, `REQUIRE_SQL_MARKER`, `STRICT_SQLX`, `SILENT_SATURATION`,
//! `UNBOUNDED_CHANNEL`, `BOOL_PARAMS`) are off unless their variable is set to any value.
//! The SQL-seam, file-length, wildcard-import and dynamic-SQLx passes are always active;
//! the file-length pass fires only once `MAX_FILE_LINES` is set.

use vstd::prelude::*;
use vstd::string::*;

use crate::text::{
    chars_of, fields, parse_usize, pieces, split_on, str_eq, string_of, string_option, text_option,
    texts, trim, trimmed, usize_value,
};

verus! {

/// What the process environment holds: for each variable that is set, its value, or `None`
/// for a value that is not valid Unicode.
pub type EnvView = Map<Seq<char>, Option<Seq<char>>>;

/// One environment variable. The value is `None` where it is not valid Unicode.
pub struct EnvVar {
    pub name: String,
    pub value: Option<String>,
}

/// The process environment, as the lints see it.
///
/// Of several entries with one name the last one counts.
pub struct Environment {
    pub vars: Vec<EnvVar>,
}

/// The variables that a list of entries sets.
pub open spec fn env_view(vars: Seq<EnvVar>) -> EnvView
    decreases vars.len(),
{
    if vars.len() == 0 {
        Map::empty()
    } else {
        env_view(vars.drop_last()).insert(vars.last().name@, string_option(vars.last().value))
    }
}

impl View for Environment {
    type V = EnvView;

    open spec fn view(&self) -> EnvView {
        env_view(self.vars@)
    }
}

/// The text of a variable that is set and valid Unicode.
pub open spec fn env_text(env: EnvView, name: Seq<char>) -> Option<Seq<char>> {
    if env.contains_key(name) {
        env[name]
    } else {
        None
    }
}

/// The text of a variable, or `default` where it has none.
pub open spec fn env_text_or(env: EnvView, name: Seq<char>, default: Seq<char>) -> Seq<char> {
    match env_text(env, name) {
        Some(value) => value,
        None => default,
    }
}

/// The fields without the white space around them, empty ones left out.
pub open spec fn trimmed_entries(all: Seq<Seq<char>>) -> Seq<Seq<char>>
    decreases all.len(),
{
    if all.len() == 0 {
        Seq::empty()
    } else {
        let before = trimmed_entries(all.drop_last());
        let entry = trim(all.last());
        if entry.len() == 0 {
            before
        } else {
            before.push(entry)
        }
    }
}

/// The entries of a comma-separated list.
pub open spec fn list_entries(value: Seq<char>) -> Seq<Seq<char>> {
    trimmed_entries(split_on(value, ','))
}

/// The list that a variable holds, if it is set.
pub open spec fn env_list(env: EnvView, name: Seq<char>) -> Option<Seq<Seq<char>>> {
    match env_text(env, name) {
        Some(value) => Some(list_entries(value)),
        None => None,
    }
}

/// The list of the variable `name`, else that of `RUST_LINTS_SEAM_CRATES`, else `default`.
pub open spec fn seam_list(
    env: EnvView,
    name: Seq<char>,
    default: Seq<Seq<char>>,
) -> Seq<Seq<char>> {
    match env_list(env, name) {
        Some(list) => list,
        None => match env_list(env, "RUST_LINTS_SEAM_CRATES"@) {
            Some(list) => list,
            None => default,
        },
    }
}

/// The number of lines above which a source file is reported.
pub open spec fn line_cap(env: EnvView) -> Option<usize> {
    match env_text(env, "RUST_LINTS_MAX_FILE_LINES"@) {
        Some(value) => usize_value(value),
        None => None,
    }
}

/// The name of the platform in messages.
pub open spec fn platform_label(env: EnvView) -> Seq<char> {
    env_text_or(env, "RUST_LINTS_LABEL"@, "platform"@)
}

/// The path substrings of the database seam.
pub open spec fn sqlx_owners(env: EnvView) -> Seq<Seq<char>> {
    seam_list(
        env,
        "RUST_LINTS_SQLX_OWNER_PATHS"@,
        seq![
            "crates/platform-db/"@,
            "crates/platform-infra/"@,
            "crates/platform-infrastructure/"@,
        ],
    )
}

/// The path substrings of the HTTP seam.
pub open spec fn http_owners(env: EnvView) -> Seq<Seq<char>> {
    seam_list(
        env,
        "RUST_LINTS_HTTP_OWNER_PATHS"@,
        seq![
            "crates/platform-http/src/"@,
            "crates/platform-observability/src/telemetry.rs"@,
            "apps/"@,
        ],
    )
}

/// The path substring of the lint's own fixtures.
pub open spec fn fixture_path(env: EnvView) -> Seq<char> {
    env_text_or(env, "RUST_LINTS_FIXTURE_PATH"@, "tools/rust-lints/fixtures/"@)
}

/// The path prefixes that the file-length pass scans.
pub open spec fn source_roots(env: EnvView) -> Seq<Seq<char>> {
    match env_list(env, "RUST_LINTS_REPO_SOURCE_ROOTS"@) {
        Some(list) => list,
        None => seq!["apps/"@, "crates/"@, fixture_path(env)],
    }
}

/// The keyword of an inline file-length exception.
pub open spec fn exception_keyword(env: EnvView) -> Seq<char> {
    env_text_or(env, "RUST_LINTS_EXCEPTION_MARKER"@, "rust-lints-file-length-exception"@)
}

/// The keyword of an inline dynamic-SQL note.
pub open spec fn dynamic_sql_keyword(env: EnvView) -> Seq<char> {
    env_text_or(env, "RUST_LINTS_DYNAMIC_SQL_MARKER"@, "rust-lints-dynamic-sql"@)
}

impl Environment {
    /// An environment in which nothing is set.
    pub fn new() -> (r: Environment)
        ensures
            r@ == Map::<Seq<char>, Option<Seq<char>>>::empty(),
    {
        Environment { vars: Vec::new() }
    }

    /// Sets a variable. The value is `None` where it is not valid Unicode.
    pub fn set_var(&mut self, name: &str, value: Option<&str>)
        ensures
            final(self)@ == old(self)@.insert(name@, text_option(value)),
    {
        let ghost before = self.vars@;
        let value = match value {
            Some(text) => Some(text.to_owned()),
            None => None,
        };
        self.vars.push(EnvVar { name: name.to_owned(), value });
        proof {
            assert(self.vars@.drop_last() =~= before);
        }
    }

    /// The index of the entry that counts for `name`, if the variable is set.
    fn find(&self, name: &str) -> (r: Option<usize>)
        ensures
            r is Some <==> self@.contains_key(name@),
            r matches Some(i) ==> i < self.vars@.len() && self@[name@] == string_option(
                self.vars@[i as int].value,
            ),
    {
        let mut i: usize = self.vars.len();
        proof {
            assert(self.vars@.take(i as int) =~= self.vars@);
        }
        while i > 0
            invariant
                0 <= i <= self.vars@.len(),
                self@.contains_key(name@) == env_view(self.vars@.take(i as int)).contains_key(
                    name@,
                ),
                self@.contains_key(name@) ==> self@[name@] == env_view(
                    self.vars@.take(i as int),
                )[name@],
            decreases i,
        {
            proof {
                let here = self.vars@.take(i as int);
                assert(here.drop_last() =~= self.vars@.take(i - 1));
                assert(here.last() == self.vars@[i - 1]);
            }
            if str_eq(self.vars[i - 1].name.as_str(), name) {
                return Some(i - 1);
            }
            i = i - 1;
        }
        None
    }

    /// Whether the variable is set, to whatever value.
    pub fn is_set(&self, name: &str) -> (r: bool)
        ensures
            r == self@.contains_key(name@),
    {
        self.find(name).is_some()
    }

    /// The text of the variable, if it is set and valid Unicode.
    pub fn var(&self, name: &str) -> (r: Option<String>)
        ensures
            string_option(r) == env_text(self@, name@),
    {
        match self.find(name) {
            Some(i) => match &self.vars[i].value {
                Some(text) => Some(text.as_str().to_owned()),
                None => None,
            },
            None => None,
        }
    }

    /// The text of the variable, or `default` where it has none.
    fn var_or(&self, name: &str, default: &str) -> (r: String)
        ensures
            r@ == env_text_or(self@, name@, default@),
    {
        match self.var(name) {
            Some(text) => text,
            None => default.to_owned(),
        }
    }
}

/// `RUST_LINTS_MAX_FILE_LINES`: the most lines a source file may have before the
/// file-length pass fires. Without it, or where it is no number, the pass is off.
pub fn max_file_lines(env: &Environment) -> (r: Option<usize>)
    ensures
        r == line_cap(env@),
{
    match env.var("RUST_LINTS_MAX_FILE_LINES") {
        Some(value) => parse_usize(value.as_str()),
        None => None,
    }
}

/// `RUST_LINTS_HTTP_WRAPPER`: gate of the outbound-HTTP-wrapper pass.
pub fn http_wrapper_enabled(env: &Environment) -> (r: bool)
    ensures
        r == env@.contains_key("RUST_LINTS_HTTP_WRAPPER"@),
{
    env.is_set("RUST_LINTS_HTTP_WRAPPER")
}

/// `RUST_LINTS_BLOCKING_TOKIO`: gate of the blocking-in-async pass.
pub fn blocking_tokio_enabled(env: &Environment) -> (r: bool)
    ensures
        r == env@.contains_key("RUST_LINTS_BLOCKING_TOKIO"@),
{
    env.is_set("RUST_LINTS_BLOCKING_TOKIO")
}

/// `RUST_LINTS_REQUIRE_SQL_MARKER`: gate of the inline `--sql` marker pass.
pub fn require_sql_marker_enabled(env: &Environment) -> (r: bool)
    ensures
        r == env@.contains_key("RUST_LINTS_REQUIRE_SQL_MARKER"@),
{
    env.is_set("RUST_LINTS_REQUIRE_SQL_MARKER")
}

/// `RUST_LINTS_STRICT_SQLX`: gate of the compile-time-SQLx-macro pass.
pub fn strict_sqlx_enabled(env: &Environment) -> (r: bool)
    ensures
        r == env@.contains_key("RUST_LINTS_STRICT_SQLX"@),
{
    env.is_set("RUST_LINTS_STRICT_SQLX")
}

/// `RUST_LINTS_SILENT_SATURATION`: gate of the silent numeric-saturation pass.
pub fn silent_saturation_enabled(env: &Environment) -> (r: bool)
    ensures
        r == env@.contains_key("RUST_LINTS_SILENT_SATURATION"@),
{
    env.is_set("RUST_LINTS_SILENT_SATURATION")
}

/// `RUST_LINTS_UNBOUNDED_CHANNEL`: gate of the unbounded-channel pass.
pub fn unbounded_channel_enabled(env: &Environment) -> (r: bool)
    ensures
        r == env@.contains_key("RUST_LINTS_UNBOUNDED_CHANNEL"@),
{
    env.is_set("RUST_LINTS_UNBOUNDED_CHANNEL")
}

/// `RUST_LINTS_BOOL_PARAMS`: gate of the boolean-parameter pass.
pub fn bool_params_enabled(env: &Environment) -> (r: bool)
    ensures
        r == env@.contains_key("RUST_LINTS_BOOL_PARAMS"@),
{
    env.is_set("RUST_LINTS_BOOL_PARAMS")
}

/// `RUST_LINTS_LABEL`: the platform's name in messages. Default: "platform".
pub fn label(env: &Environment) -> (r: String)
    ensures
        r@ == platform_label(env@),
{
    env.var_or("RUST_LINTS_LABEL", "platform")
}

/// `RUST_LINTS_SQLX_OWNER_PATHS`: comma-separated path substrings that may use SQLx and
/// database adapters directly. Falls back to `RUST_LINTS_SEAM_CRATES`, then to a default.
pub fn sqlx_owner_paths(env: &Environment) -> (r: Vec<String>)
    ensures
        texts(r@) == sqlx_owners(env@),
{
    seam_var(
        env,
        "RUST_LINTS_SQLX_OWNER_PATHS",
        "crates/platform-db/",
        "crates/platform-infra/",
        "crates/platform-infrastructure/",
    )
}

/// `RUST_LINTS_HTTP_OWNER_PATHS`: comma-separated path substrings that may construct
/// outbound HTTP clients directly. Falls back to `RUST_LINTS_SEAM_CRATES`, then to a default.
pub fn http_owner_paths(env: &Environment) -> (r: Vec<String>)
    ensures
        texts(r@) == http_owners(env@),
{
    seam_var(
        env,
        "RUST_LINTS_HTTP_OWNER_PATHS",
        "crates/platform-http/src/",
        "crates/platform-observability/src/telemetry.rs",
        "apps/",
    )
}

/// `RUST_LINTS_REPO_SOURCE_ROOTS`: comma-separated path prefixes that the file-length pass
/// scans. Default: `apps/`, `crates/` and the fixtures directory.
pub fn repo_source_roots(env: &Environment) -> (r: Vec<String>)
    ensures
        texts(r@) == source_roots(env@),
{
    match list_var(env, "RUST_LINTS_REPO_SOURCE_ROOTS") {
        Some(list) => list,
        None => {
            let fixtures = fixture_path_prefix(env);
            three("apps/", "crates/", fixtures.as_str())
        },
    }
}

/// `RUST_LINTS_FIXTURE_PATH`: the path substring of the lint's own violation fixtures,
/// exempt from the SQL-seam and HTTP-wrapper passes. Default: `tools/rust-lints/fixtures/`.
pub fn fixture_path_prefix(env: &Environment) -> (r: String)
    ensures
        r@ == fixture_path(env@),
{
    env.var_or("RUST_LINTS_FIXTURE_PATH", "tools/rust-lints/fixtures/")
}

/// `RUST_LINTS_EXCEPTION_MARKER`: the keyword of an inline documented file-length
/// exception. Default: `rust-lints-file-length-exception`.
pub fn exception_marker(env: &Environment) -> (r: String)
    ensures
        r@ == exception_keyword(env@),
{
    env.var_or("RUST_LINTS_EXCEPTION_MARKER", "rust-lints-file-length-exception")
}

/// `RUST_LINTS_DYNAMIC_SQL_MARKER`: the keyword of an inline documented dynamic-SQL safety
/// note. Default: `rust-lints-dynamic-sql`.
pub fn dynamic_sql_marker(env: &Environment) -> (r: String)
    ensures
        r@ == dynamic_sql_keyword(env@),
{
    env.var_or("RUST_LINTS_DYNAMIC_SQL_MARKER", "rust-lints-dynamic-sql")
}

/// `RUST_LINTS_FILE_LENGTH_EXCEPTIONS`: the path of a TSV inventory of allowed oversized
/// files, with a header row and repo-relative paths in its first column. Without it there is no inventory; inline markers still apply.
pub fn file_length_exceptions_path(env: &Environment) -> (r: Option<String>)
    ensures
        string_option(r) == env_text(env@, "RUST_LINTS_FILE_LENGTH_EXCEPTIONS"@),
{
    env.var("RUST_LINTS_FILE_LENGTH_EXCEPTIONS")
}

/// The list that a variable holds, if it is set.
pub fn list_var(env: &Environment, name: &str) -> (r: Option<Vec<String>>)
    ensures
        r is Some <==> env_list(env@, name@) is Some,
        r matches Some(list) ==> env_list(env@, name@) == Some(texts(list@)),
{
    match env.var(name) {
        Some(value) => {
            let chars = chars_of(value.as_str());
            let parts = fields(chars.as_slice(), ',');
            let ghost all = split_on(value@, ',');
            let mut list: Vec<String> = Vec::new();
            let mut i: usize = 0;
            while i < parts.len()
                invariant
                    pieces(parts@) == all,
                    0 <= i <= parts@.len(),
                    texts(list@) == trimmed_entries(all.take(i as int)),
                decreases parts@.len() - i,
            {
                let ghost before = list@;
                let entry = trimmed(parts[i].as_slice());
                proof {
                    assert(all[i as int] == parts@[i as int]@);
                    assert(all.take(i + 1).drop_last() =~= all.take(i as int));
                }
                if entry.len() > 0 {
                    list.push(string_of(entry.as_slice()));
                    proof {
                        assert(texts(list@) =~= texts(before).push(entry@));
                    }
                }
                i = i + 1;
            }
            proof {
                assert(all.take(i as int) =~= all);
            }
            Some(list)
        },
        None => None,
    }
}

/// A list of three texts.
fn three(a: &str, b: &str, c: &str) -> (r: Vec<String>)
    ensures
        texts(r@) == seq![a@, b@, c@],
{
    let mut list: Vec<String> = Vec::new();
    list.push(a.to_owned());
    list.push(b.to_owned());
    list.push(c.to_owned());
    proof {
        assert(texts(list@) =~= seq![a@, b@, c@]);
    }
    list
}

/// The list of the variable `name`, else that of `RUST_LINTS_SEAM_CRATES`, else the three
/// texts given.
fn seam_var(env: &Environment, name: &str, a: &str, b: &str, c: &str) -> (r: Vec<String>)
    ensures
        texts(r@) == seam_list(env@, name@, seq![a@, b@, c@]),
{
    match list_var(env, name) {
        Some(list) => list,
        None => match list_var(env, "RUST_LINTS_SEAM_CRATES") {
            Some(list) => list,
            None => three(a, b, c),
        },
    }
}

} // verus!
