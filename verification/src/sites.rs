//! Where code stands: owners of a seam, fixtures, code that is not shipped, documented notes.

use vstd::prelude::*;
use vstd::string::*;

use crate::config::{
    dynamic_sql_keyword, dynamic_sql_marker, fixture_path, fixture_path_prefix, http_owner_paths,
    http_owners, sqlx_owner_paths, sqlx_owners, EnvView, Environment,
};
use crate::hir::Site;
use crate::paths::{normalize_path, normalized};
use crate::text::{
    chars_of, contains_text, has_text, lines, lines_of, pieces, starts_with, str_contains,
    str_starts_with, texts,
};

verus! {

/// The normal form of the path of the site's file holds `needle`.
pub open spec fn site_in(site: Site, needle: Seq<char>) -> bool {
    site.path matches Some(path) && contains_text(normalized(path@), needle)
}

/// The normal form of the path of the site's file holds one of `needles`.
pub open spec fn site_in_any(site: Site, needles: Seq<Seq<char>>) -> bool {
    exists|i: int| 0 <= i < needles.len() && site_in(site, #[trigger] needles[i])
}

/// The site is in the database seam.
pub open spec fn owns_sqlx(env: EnvView, site: Site) -> bool {
    site_in_any(site, sqlx_owners(env))
}

/// The site is in the HTTP seam.
pub open spec fn owns_http(env: EnvView, site: Site) -> bool {
    site_in_any(site, http_owners(env))
}

/// The site is in the lint's own fixtures.
pub open spec fn is_fixture(env: EnvView, site: Site) -> bool {
    site_in(site, fixture_path(env))
}

/// The file of the site is below a directory `examples`.
pub open spec fn is_example(site: Site) -> bool {
    site.path matches Some(path) && (contains_text(normalized(path@), "/examples/"@) || starts_with(
        normalized(path@),
        "examples/"@,
    ))
}

/// The site is in a test build or in an example.
pub open spec fn is_non_production(site: Site) -> bool {
    site.test_crate || is_example(site)
}

/// The first of the lines, counted from zero, on which a note for code on `line` may stand.
pub open spec fn note_start(line: int) -> int {
    if line >= 5 {
        line - 5
    } else {
        0
    }
}

/// A dynamic-SQL note stands on the line of the site or on one of the four above it.
pub open spec fn has_note(env: EnvView, site: Site) -> bool {
    &&& site.path is Some
    &&& site.source matches Some(text) && exists|j: int|
        note_start(site.line as int) <= j < site.line && j < lines_of(text@).len() && contains_text(
            #[trigger] lines_of(text@)[j],
            dynamic_sql_keyword(env) + ": "@,
        )
}

/// Whether the normal form of the path of the site's file holds `needle`.
pub fn in_path(site: &Site, needle: &str) -> (r: bool)
    ensures
        r == site_in(*site, needle@),
{
    match &site.path {
        Some(path) => {
            let normal = normalize_path(path.as_str());
            str_contains(normal.as_str(), needle)
        },
        None => false,
    }
}

/// Whether the normal form of the path of the site's file holds one of `needles`.
fn in_any_path(site: &Site, needles: &Vec<String>) -> (r: bool)
    ensures
        r == site_in_any(*site, texts(needles@)),
{
    let ghost all = texts(needles@);
    let mut i: usize = 0;
    while i < needles.len()
        invariant
            all == texts(needles@),
            0 <= i <= needles@.len(),
            forall|j: int| 0 <= j < i ==> !site_in(*site, #[trigger] all[j]),
        decreases needles@.len() - i,
    {
        proof {
            assert(all[i as int] == needles@[i as int]@);
        }
        if in_path(site, needles[i].as_str()) {
            return true;
        }
        i = i + 1;
    }
    false
}

/// Whether the site may use SQLx and database adapters directly.
pub fn in_sqlx_owner_path(env: &Environment, site: &Site) -> (r: bool)
    ensures
        r == owns_sqlx(env@, *site),
{
    let owners = sqlx_owner_paths(env);
    in_any_path(site, &owners)
}

/// Whether the site may construct outbound HTTP clients directly.
pub fn in_http_owner_path(env: &Environment, site: &Site) -> (r: bool)
    ensures
        r == owns_http(env@, *site),
{
    let owners = http_owner_paths(env);
    in_any_path(site, &owners)
}

/// Whether the site is in the lint's own violation fixtures.
pub fn in_lint_fixture_path(env: &Environment, site: &Site) -> (r: bool)
    ensures
        r == is_fixture(env@, *site),
{
    let prefix = fixture_path_prefix(env);
    in_path(site, prefix.as_str())
}

/// Whether the file of the site is below a directory `examples`.
fn in_examples(site: &Site) -> (r: bool)
    ensures
        r == is_example(*site),
{
    match &site.path {
        Some(path) => {
            let normal = normalize_path(path.as_str());
            str_contains(normal.as_str(), "/examples/") || str_starts_with(
                normal.as_str(),
                "examples/",
            )
        },
        None => false,
    }
}

/// Whether the site is in a target that the SQLx passes do not audit: a test build, or a
/// file below `examples/`.
///
/// Those passes keep production SQL compile-checked, in its seam, and marked. A run-time
/// query in a test or in an evidence script meets a real database when it runs, and an SQL
/// error there fails the run at once. Production code is linted in its own, non-test build,
/// so nothing of it goes unseen.
pub fn in_non_production_target(site: &Site) -> (r: bool)
    ensures
        r == is_non_production(*site),
{
    site.test_crate || in_examples(site)
}

/// Whether a dynamic-SQL note stands on the line of the site or on one of the four above it.
pub fn has_dynamic_sql_note(env: &Environment, site: &Site) -> (r: bool)
    ensures
        r == has_note(env@, *site),
{
    if site.path.is_none() {
        return false;
    }
    let Some(source) = &site.source else {
        return false;
    };
    let mut marker = dynamic_sql_marker(env);
    marker.append(": ");
    let chars = chars_of(source.as_str());
    let all = lines(chars.as_slice());
    let line: usize = site.line;
    let start: usize = if line >= 5 {
        line - 5
    } else {
        0
    };
    let ghost want = lines_of(source@);
    let mut i: usize = start;
    while i < line && i < all.len()
        invariant
            site.path is Some,
            site.source == Some(*source),
            line == site.line,
            start == note_start(line as int),
            start <= i,
            want == lines_of(source@),
            pieces(all@) == want,
            marker@ == dynamic_sql_keyword(env@) + ": "@,
            forall|j: int|
                start <= j < i && j < want.len() ==> !contains_text(#[trigger] want[j], marker@),
        decreases line - i,
    {
        proof {
            assert(want[i as int] == all@[i as int]@);
        }
        if has_text(all[i].as_slice(), marker.as_str()) {
            proof {
                assert(contains_text(want[i as int], marker@));
                assert(i < want.len());
                assert(site.source->0@ == source@);
            }
            return true;
        }
        i = i + 1;
    }
    false
}

} // verus!
