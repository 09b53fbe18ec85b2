//! What the file-length pass promises of its findings.
//!
//! The laws speak of calls: of every list of findings `r` that the pass may give, from every
//! set `seen` of files met before. What it gives on a lone file, and that going through two
//! lists is going through the one and then the other, fixes what it gives on any list.

use vstd::prelude::*;
use vstd::string::*;

use crate::config::{
    exception_marker, file_length_exceptions_path, line_cap, max_file_lines, repo_source_roots,
    EnvView, Environment,
};
use crate::diag::{diag_views, RustLintsPolicyDiag};
use crate::file_length::{
    check_file_lengths, documents_exception, file_key, file_length_diag, file_length_diags,
    first_column_is, has_documented_file_length_exception, has_inline_exception,
    has_inline_file_length_exception, has_inline_file_length_exception_with_marker,
    has_inventory_file_length_exception, inventory_lists, inventory_lists_path, inventory_name,
    is_documented, is_repo_rust_source_path, is_scanned, is_too_long, reported, seen_after,
    SeenFiles, SourceFile, EXCEPTION_LINES,
};
use crate::paths::{is_repo_rust_source_path_with_roots, normalize_path, repo_relative_path};
use crate::text::{
    contains_text, find_char, lemma_find_char, lemma_find_char_is, lines_of, text_option,
};

verus! {

/// The line holds the keyword with a colon, and the three fields of an exception.
pub open spec fn grants_an_exception(line: Seq<char>, keyword: Seq<char>) -> bool {
    contains_text(line, keyword + ":"@) && contains_text(line, "owner="@) && contains_text(
        line,
        "reason="@,
    ) && contains_text(line, "expires="@)
}

/// A file is marked exactly if one of its first eighty lines grants an exception under the
/// keyword.
pub proof fn law_inline_exceptions(
    env: &Environment,
    contents: &str,
    keyword: &str,
    configured: String,
    r: bool,
    q: bool,
)
    requires
        call_ensures(has_inline_file_length_exception_with_marker, (contents, keyword), r),
        call_ensures(has_inline_file_length_exception, (env, contents), q),
        call_ensures(exception_marker, (env,), configured),
    ensures
        r <==> exists|number: int|
            1 <= number <= 80 && number <= lines_of(contents@).len() && grants_an_exception(
                #[trigger] lines_of(contents@)[number - 1],
                keyword@,
            ),
        q <==> exists|number: int|
            1 <= number <= 80 && number <= lines_of(contents@).len() && grants_an_exception(
                #[trigger] lines_of(contents@)[number - 1],
                configured@,
            ),
{
    lemma_inline(contents@, keyword@);
    lemma_inline(contents@, configured@);
}

spec fn marked(contents: Seq<char>, keyword: Seq<char>) -> bool {
    exists|number: int|
        1 <= number <= 80 && number <= lines_of(contents).len() && grants_an_exception(
            #[trigger] lines_of(contents)[number - 1],
            keyword,
        )
}

proof fn lemma_inline(contents: Seq<char>, keyword: Seq<char>)
    ensures
        has_inline_exception(contents, keyword) <==> marked(contents, keyword),
{
    let all = lines_of(contents);
    if has_inline_exception(contents, keyword) {
        let i = choose|i: int|
            0 <= i < EXCEPTION_LINES && i < all.len()
                && documents_exception(#[trigger] all[i], keyword);
        let number = i + 1;
        assert(grants_an_exception(all[number - 1], keyword));
        assert(1 <= number <= 80);
    }
    if marked(contents, keyword) {
        let number = choose|number: int|
            1 <= number <= 80 && number <= all.len() && grants_an_exception(
                #[trigger] all[number - 1],
                keyword,
            );
        let i = number - 1;
        assert(documents_exception(all[i], keyword));
    }
}

/// The inventory lists a path exactly if one of its lines but the first is the path, a tab and
/// something. A path with a tab in it is never listed.
pub proof fn law_inventory_rows(inventory: &str, path: &str, r: bool)
    requires
        call_ensures(inventory_lists_path, (inventory, path), r),
    ensures
        r <==> !path@.contains('\t') && exists|number: int, rest: Seq<char>|
            2 <= number <= lines_of(inventory@).len() && lines_of(inventory@)[number - 1]
                == #[trigger] row(number, path@, rest),
{
    lemma_inventory(inventory@, path@);
}

/// The text of the row with this number that begins with the path.
pub open spec fn row(number: int, path: Seq<char>, rest: Seq<char>) -> Seq<char> {
    path + seq!['\t'] + rest
}

spec fn has_row(inventory: Seq<char>, path: Seq<char>) -> bool {
    exists|number: int, rest: Seq<char>|
        2 <= number <= lines_of(inventory).len() && lines_of(inventory)[number - 1]
            == #[trigger] row(number, path, rest)
}

proof fn lemma_inventory(inventory: Seq<char>, path: Seq<char>)
    ensures
        inventory_lists(inventory, path) <==> !path.contains('\t') && has_row(inventory, path),
{
    let all = lines_of(inventory);
    if inventory_lists(inventory, path) {
        let i = choose|i: int| 1 <= i < all.len() && first_column_is(#[trigger] all[i], path);
        let line = all[i];
        lemma_find_char(line, '\t', 0);
        let k = find_char(line, '\t', 0);
        let rest = line.subrange(k + 1, line.len() as int);
        let number = i + 1;
        assert(all[number - 1] =~= row(number, path, rest));
        if path.contains('\t') {
            let j = choose|j: int| 0 <= j < path.len() && path[j] == '\t';
            assert(line[j] == '\t');
            assert(false);
        }
    }
    if !path.contains('\t') && has_row(inventory, path) {
        let (number, rest) = choose|number: int, rest: Seq<char>|
            2 <= number <= all.len() && all[number - 1] == #[trigger] row(number, path, rest);
        let line = all[number - 1];
        assert forall|j: int| 0 <= j < path.len() implies line[j] != '\t' by {
            assert(line[j] == path[j]);
        }
        assert(line[path.len() as int] == '\t');
        lemma_find_char_is(line, '\t', 0, path.len() as int);
        assert(line.subrange(0, path.len() as int) =~= path);
        assert(first_column_is(line, path));
        let i = number - 1;
        assert(first_column_is(all[i], path));
    }
}

/// An exception is documented exactly if the file is marked, or if an inventory is configured,
/// could be read and lists the path.
pub proof fn law_documented_exceptions(
    env: &Environment,
    inventory: Option<&str>,
    text: &str,
    path: &str,
    contents: &str,
    configured: Option<String>,
    listed: bool,
    inline: bool,
    in_inventory: bool,
    r: bool,
)
    requires
        call_ensures(file_length_exceptions_path, (env,), configured),
        inventory matches Some(found) ==> text@ == found@,
        call_ensures(inventory_lists_path, (text, path), listed),
        call_ensures(has_inline_file_length_exception, (env, contents), inline),
        call_ensures(has_inventory_file_length_exception, (env, inventory, path), in_inventory),
        call_ensures(has_documented_file_length_exception, (env, inventory, path, contents), r),
    ensures
        in_inventory <==> configured is Some && inventory is Some && listed,
        r <==> inline || (configured is Some && inventory is Some && listed),
{
}

/// The configured roots are the ones that decide which files are scanned.
pub proof fn law_scanned_files(
    env: &Environment,
    path: &str,
    dir: Option<&str>,
    roots: &Vec<String>,
    by_roots: bool,
    r: bool,
)
    requires
        call_ensures(repo_source_roots, (env,), *roots),
        call_ensures(is_repo_rust_source_path_with_roots, (path, roots, dir), by_roots),
        call_ensures(is_repo_rust_source_path, (env, path, dir), r),
    ensures
        r <==> by_roots,
{
}

/// A file is too long exactly if its text is there, has more lines than the cap, however few
/// more, and nothing documents that.
pub proof fn law_too_long_is_more_lines_than_the_cap(
    env: EnvView,
    dir: Option<Seq<char>>,
    inventory: Option<Seq<char>>,
    cap: usize,
    file: SourceFile,
)
    ensures
        is_too_long(env, dir, inventory, cap, file) <==> (file.contents matches Some(contents)
            && lines_of(contents@).len() > cap && !is_documented(
            env,
            inventory,
            inventory_name(dir, file),
            contents@,
        )),
{
}

/// Files are remembered: marking one says whether it is new, and adds it and nothing else.
pub proof fn law_files_are_remembered(key: &str)
    ensures
        forall|seen: &mut SeenFiles, r: bool| #[trigger]
            call_ensures(SeenFiles::mark_file_seen, (seen, key), r) ==> (r <==> !seen@.contains(
                key@,
            )) && forall|other: Seq<char>| #[trigger]
                final(seen)@.contains(other) <==> other == key@ || seen@.contains(other),
{
}

/// Every finding of the file-length pass has the same two texts, and names the keyword of the
/// exceptions.
pub proof fn law_long_files_are_told_what_to_do(
    env: &Environment,
    dir: Option<&str>,
    inventory: Option<&str>,
    files: &Vec<SourceFile>,
    keyword: String,
)
    requires
        call_ensures(exception_marker, (env,), keyword),
    ensures
        forall|seen: &mut SeenFiles, r: Vec<RustLintsPolicyDiag>, k: int|
            #[trigger] call_ensures(check_file_lengths, (env, dir, inventory, files, seen), r) && 0
                <= k < r@.len() ==> (#[trigger] r@[k]).message@
                == "Rust source files must stay small enough to parse and review"@ && r@[k].help@
                == "split large files into focused modules using directory modules and mod.rs, or add a documented "@
                + keyword@ + " with owner, reason, and expires fields"@,
{
    assert forall|seen: &mut SeenFiles, r: Vec<RustLintsPolicyDiag>, k: int|
        #[trigger] call_ensures(check_file_lengths, (env, dir, inventory, files, seen), r) && 0 <= k
            < r@.len() implies (#[trigger] r@[k]).message@
        == "Rust source files must stay small enough to parse and review"@ && r@[k].help@
        == "split large files into focused modules using directory modules and mod.rs, or add a documented "@
        + keyword@ + " with owner, reason, and expires fields"@ by {
        let views = diag_views(r@);
        assert(views.len() == r@.len());
        assert(views[k] == r@[k]@);
        if let Some(cap) = line_cap(env@) {
            let keys = reported(
                env@,
                text_option(dir),
                text_option(inventory),
                cap,
                files@,
                seen@,
            );
            assert(views == file_length_diags(env@, keys.len()));
            assert(views[k] == file_length_diag(env@));
        }
    }
}

/// What the pass owes on a lone file with a text: a finding exactly if there is a cap, the file
/// is scanned and was not met before, it has more lines than the cap, and no exception is
/// documented for it. With a cap, a scanned file has been met afterwards.
pub proof fn law_lone_file(
    env: &Environment,
    dir: Option<&str>,
    inventory: Option<&str>,
    files: &Vec<SourceFile>,
    path: &str,
    contents: &str,
    cap: Option<usize>,
    scanned: bool,
    key: String,
    relative: String,
    name: &str,
    documented: bool,
)
    requires
        files@.len() == 1,
        files@[0].path matches Some(p) && p@ == path@,
        files@[0].contents matches Some(c) && c@ == contents@,
        call_ensures(max_file_lines, (env,), cap),
        call_ensures(is_repo_rust_source_path, (env, path, dir), scanned),
        call_ensures(normalize_path, (path,), key),
        call_ensures(repo_relative_path, (path, dir), relative),
        name@ == relative@,
        call_ensures(
            has_documented_file_length_exception,
            (env, inventory, name, contents),
            documented,
        ),
    ensures
        forall|seen: &mut SeenFiles, r: Vec<RustLintsPolicyDiag>| #[trigger]
            call_ensures(check_file_lengths, (env, dir, inventory, files, seen), r) ==> {
                &&& r@.len() <= 1
                &&& r@.len() == 1 <==> (cap matches Some(most) && scanned && !seen@.contains(key@)
                    && lines_of(contents@).len() > most && !documented)
                &&& cap is Some && scanned ==> final(seen)@ == seen@.insert(key@)
                &&& cap is None || !scanned ==> final(seen)@ == seen@
            },
{
    lemma_lone(files@);
    let file = files@[0];
    assert forall|seen: &mut SeenFiles, r: Vec<RustLintsPolicyDiag>| #[trigger]
        call_ensures(check_file_lengths, (env, dir, inventory, files, seen), r) implies {
        &&& r@.len() <= 1
        &&& r@.len() == 1 <==> (cap matches Some(most) && scanned && !seen@.contains(key@)
            && lines_of(contents@).len() > most && !documented)
        &&& cap is Some && scanned ==> final(seen)@ == seen@.insert(key@)
        &&& cap is None || !scanned ==> final(seen)@ == seen@
    } by {
        assert(diag_views(r@).len() == r@.len());
        if let Some(most) = cap {
            lemma_one_file(
                env@,
                text_option(dir),
                text_option(inventory),
                most,
                files@,
                seen@,
            );
        }
    }
}

proof fn lemma_lone(files: Seq<SourceFile>)
    requires
        files.len() == 1,
    ensures
        files.drop_last() =~= Seq::<SourceFile>::empty(),
        files.last() == files[0],
{
}

proof fn lemma_one_file(
    env: EnvView,
    dir: Option<Seq<char>>,
    inventory: Option<Seq<char>>,
    cap: usize,
    files: Seq<SourceFile>,
    seen: Set<Seq<char>>,
)
    requires
        files.len() == 1,
    ensures
        ({
            let file = files[0];
            let owed = is_scanned(env, dir, file) && !seen.contains(
                file_key(file),
            ) && is_too_long(env, dir, inventory, cap, file);
            &&& reported(env, dir, inventory, cap, files, seen).len() == if owed {
                1int
            } else {
                0int
            }
            &&& seen_after(env, dir, files, seen) == if is_scanned(env, dir, file) {
                seen.insert(file_key(file))
            } else {
                seen
            }
        }),
{
    lemma_lone(files);
    let none = files.drop_last();
    assert(reported(env, dir, inventory, cap, none, seen) =~= Seq::<Seq<char>>::empty());
    assert(seen_after(env, dir, none, seen) == seen);
}

/// On a lone file without a path the pass does nothing; on one whose text cannot be had it
/// reports nothing, but the file has been met.
pub proof fn law_lone_file_without_a_text(
    env: &Environment,
    dir: Option<&str>,
    inventory: Option<&str>,
    files: &Vec<SourceFile>,
    path: &str,
    cap: Option<usize>,
    scanned: bool,
    key: String,
)
    requires
        files@.len() == 1,
        files@[0].path is None || files@[0].contents is None,
        files@[0].path matches Some(p) ==> p@ == path@,
        call_ensures(max_file_lines, (env,), cap),
        call_ensures(is_repo_rust_source_path, (env, path, dir), scanned),
        call_ensures(normalize_path, (path,), key),
    ensures
        forall|seen: &mut SeenFiles, r: Vec<RustLintsPolicyDiag>| #[trigger]
            call_ensures(check_file_lengths, (env, dir, inventory, files, seen), r) ==> {
                &&& r@.len() == 0
                &&& cap is Some && files@[0].path is Some && scanned ==> final(seen)@
                    == seen@.insert(key@)
                &&& cap is None || files@[0].path is None || !scanned ==> final(seen)@ == seen@
            },
{
    assert forall|seen: &mut SeenFiles, r: Vec<RustLintsPolicyDiag>| #[trigger]
        call_ensures(check_file_lengths, (env, dir, inventory, files, seen), r) implies {
        &&& r@.len() == 0
        &&& cap is Some && files@[0].path is Some && scanned ==> final(seen)@ == seen@.insert(key@)
        &&& cap is None || files@[0].path is None || !scanned ==> final(seen)@ == seen@
    } by {
        assert(diag_views(r@).len() == r@.len());
        if let Some(most) = cap {
            lemma_one_file(
                env@,
                text_option(dir),
                text_option(inventory),
                most,
                files@,
                seen@,
            );
        }
    }
}

proof fn lemma_files_in_order(
    env: EnvView,
    dir: Option<Seq<char>>,
    inventory: Option<Seq<char>>,
    cap: usize,
    a: Seq<SourceFile>,
    b: Seq<SourceFile>,
    seen: Set<Seq<char>>,
)
    ensures
        seen_after(env, dir, a + b, seen) == seen_after(env, dir, b, seen_after(env, dir, a, seen)),
        reported(env, dir, inventory, cap, a + b, seen) == reported(
            env,
            dir,
            inventory,
            cap,
            a,
            seen,
        ) + reported(env, dir, inventory, cap, b, seen_after(env, dir, a, seen)),
    decreases b.len(),
{
    let met = seen_after(env, dir, a, seen);
    let first = reported(env, dir, inventory, cap, a, seen);
    if b.len() == 0 {
        assert(a + b =~= a);
        assert(reported(env, dir, inventory, cap, b, met) =~= Seq::<Seq<char>>::empty());
        assert(first + Seq::<Seq<char>>::empty() =~= first);
    } else {
        let init = b.drop_last();
        lemma_files_in_order(env, dir, inventory, cap, a, init, seen);
        assert((a + b).drop_last() =~= a + init);
        assert((a + b).last() == b.last());
        let rest = reported(env, dir, inventory, cap, init, met);
        let key = file_key(b.last());
        assert((first + rest).push(key) =~= first + rest.push(key));
    }
}

/// Going through two lists of files one after the other is going through them as one list:
/// the findings add up, and the same files have been met. Going through no file is nothing.
pub proof fn law_files_are_met_in_order(
    env: &Environment,
    dir: Option<&str>,
    inventory: Option<&str>,
    a: &Vec<SourceFile>,
    b: &Vec<SourceFile>,
    both: &Vec<SourceFile>,
)
    requires
        both@ == a@ + b@,
    ensures
        forall|
            seen_a: &mut SeenFiles,
            seen_b: &mut SeenFiles,
            seen: &mut SeenFiles,
            r_a: Vec<RustLintsPolicyDiag>,
            r_b: Vec<RustLintsPolicyDiag>,
            r: Vec<RustLintsPolicyDiag>,
        |
            #![trigger call_ensures(check_file_lengths, (env, dir, inventory, a, seen_a), r_a), call_ensures(check_file_lengths, (env, dir, inventory, b, seen_b), r_b), call_ensures(check_file_lengths, (env, dir, inventory, both, seen), r)]
            call_ensures(check_file_lengths, (env, dir, inventory, a, seen_a), r_a) && call_ensures(
                check_file_lengths,
                (env, dir, inventory, b, seen_b),
                r_b,
            ) && call_ensures(check_file_lengths, (env, dir, inventory, both, seen), r)
                && seen_a@ == seen@ && seen_b@ == final(seen_a)@ ==> r@.len() == r_a@.len()
                + r_b@.len() && final(seen)@ == final(seen_b)@,
        a@.len() == 0 ==> forall|seen: &mut SeenFiles, r: Vec<RustLintsPolicyDiag>| #[trigger]
            call_ensures(check_file_lengths, (env, dir, inventory, a, seen), r) ==> r@.len() == 0
                && final(seen)@ == seen@,
{
    let d = text_option(dir);
    let inv = text_option(inventory);
    assert forall|
        seen_a: &mut SeenFiles,
        seen_b: &mut SeenFiles,
        seen: &mut SeenFiles,
        r_a: Vec<RustLintsPolicyDiag>,
        r_b: Vec<RustLintsPolicyDiag>,
        r: Vec<RustLintsPolicyDiag>,
    |
        #![trigger call_ensures(check_file_lengths, (env, dir, inventory, a, seen_a), r_a), call_ensures(check_file_lengths, (env, dir, inventory, b, seen_b), r_b), call_ensures(check_file_lengths, (env, dir, inventory, both, seen), r)]
        call_ensures(check_file_lengths, (env, dir, inventory, a, seen_a), r_a) && call_ensures(
            check_file_lengths,
            (env, dir, inventory, b, seen_b),
            r_b,
        ) && call_ensures(check_file_lengths, (env, dir, inventory, both, seen), r) && seen_a@
            == seen@ && seen_b@ == final(seen_a)@ implies r@.len() == r_a@.len() + r_b@.len()
        && final(seen)@ == final(seen_b)@ by {
        assert(diag_views(r@).len() == r@.len());
        assert(diag_views(r_a@).len() == r_a@.len());
        assert(diag_views(r_b@).len() == r_b@.len());
        if let Some(cap) = line_cap(env@) {
            lemma_files_in_order(env@, d, inv, cap, a@, b@, seen@);
        }
    }
    if a@.len() == 0 {
        assert forall|seen: &mut SeenFiles, r: Vec<RustLintsPolicyDiag>| #[trigger]
            call_ensures(check_file_lengths, (env, dir, inventory, a, seen), r) implies r@.len()
            == 0 && final(seen)@ == seen@ by {
            assert(diag_views(r@).len() == r@.len());
            if let Some(cap) = line_cap(env@) {
                assert(reported(env@, d, inv, cap, a@, seen@) =~= Seq::<Seq<char>>::empty());
            }
        }
    }
}

} // verus!
