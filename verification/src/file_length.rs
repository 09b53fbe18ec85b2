//! The file-length ratchet: source files stay under a line cap, documented exceptions aside.

use vstd::prelude::*;
use vstd::string::*;

use crate::config::{
    env_text, exception_keyword, exception_marker, file_length_exceptions_path, line_cap,
    max_file_lines, repo_source_roots, source_roots, EnvView, Environment,
};
use crate::diag::{diag_views, finding, DiagView, RustLintsPolicyDiag};
use crate::paths::{
    is_repo_rust_source_path_with_roots, is_repo_source, normalize_path, normalized, repo_relative,
    repo_relative_path,
};
use crate::text::{
    chars_eq, chars_of, contains_text, find_char, has_text, index_of, lines, lines_of, piece, pieces,
    str_eq, text_option, texts,
};

verus! {

/// A source file of the crate under compilation: its path, if it is a file, and its text, if
/// that can be had.
pub struct SourceFile {
    pub path: Option<String>,
    pub contents: Option<String>,
}

/// The files that the file-length pass has met. Nothing is in it twice.
pub struct SeenFiles {
    paths: Vec<String>,
}

impl View for SeenFiles {
    type V = Set<Seq<char>>;

    closed spec fn view(&self) -> Set<Seq<char>> {
        texts(self.paths@).to_set()
    }
}

/// The lines at the top of a file on which an exception may stand.
pub const EXCEPTION_LINES: usize = 80;

/// `line` documents an exception: the keyword, and the owner, reason and expiry fields.
pub open spec fn documents_exception(line: Seq<char>, marker: Seq<char>) -> bool {
    &&& contains_text(line, marker + ":"@)
    &&& contains_text(line, "owner="@)
    &&& contains_text(line, "reason="@)
    &&& contains_text(line, "expires="@)
}

/// A line at the top of `contents` documents an exception.
pub open spec fn has_inline_exception(contents: Seq<char>, marker: Seq<char>) -> bool {
    exists|i: int|
        0 <= i < EXCEPTION_LINES && i < lines_of(contents).len() && documents_exception(
            #[trigger] lines_of(contents)[i],
            marker,
        )
}

/// The first column of `line` is `path`: `path` stands before the first tab.
pub open spec fn first_column_is(line: Seq<char>, path: Seq<char>) -> bool {
    find_char(line, '\t', 0) < line.len() && line.subrange(0, find_char(line, '\t', 0)) == path
}

/// A line of the inventory, below its header, lists `path`.
pub open spec fn inventory_lists(inventory: Seq<char>, path: Seq<char>) -> bool {
    exists|i: int|
        1 <= i < lines_of(inventory).len() && first_column_is(
            #[trigger] lines_of(inventory)[i],
            path,
        )
}

/// An inventory is configured, it could be read, and it lists `path`.
pub open spec fn in_inventory(
    env: EnvView,
    inventory: Option<Seq<char>>,
    path: Seq<char>,
) -> bool {
    &&& env_text(env, "RUST_LINTS_FILE_LENGTH_EXCEPTIONS"@) is Some
    &&& inventory matches Some(text) && inventory_lists(text, path)
}

/// The inventory or an inline marker documents an exception for the file.
pub open spec fn is_documented(
    env: EnvView,
    inventory: Option<Seq<char>>,
    path: Seq<char>,
    contents: Seq<char>,
) -> bool {
    in_inventory(env, inventory, path) || has_inline_exception(contents, exception_keyword(env))
}

/// The file is a Rust source file below one of the scanned roots.
pub open spec fn is_scanned(
    env: EnvView,
    current_dir: Option<Seq<char>>,
    file: SourceFile,
) -> bool {
    file.path matches Some(path) && is_repo_source(path@, source_roots(env), current_dir)
}

/// The name under which a file is remembered.
pub open spec fn file_key(file: SourceFile) -> Seq<char> {
    match file.path {
        Some(path) => normalized(path@),
        None => Seq::empty(),
    }
}

/// The name under which the inventory lists a file: its path as seen from the current
/// directory.
pub open spec fn inventory_name(current_dir: Option<Seq<char>>, file: SourceFile) -> Seq<char> {
    match file.path {
        Some(path) => repo_relative(path@, current_dir),
        None => Seq::empty(),
    }
}

/// The file has more than `cap` lines, and nothing documents that.
pub open spec fn is_too_long(
    env: EnvView,
    current_dir: Option<Seq<char>>,
    inventory: Option<Seq<char>>,
    cap: usize,
    file: SourceFile,
) -> bool {
    file.contents matches Some(contents) && lines_of(contents@).len() > cap && !is_documented(
        env,
        inventory,
        inventory_name(current_dir, file),
        contents@,
    )
}

/// The files that have been met once these have been gone through in order.
pub open spec fn seen_after(
    env: EnvView,
    current_dir: Option<Seq<char>>,
    files: Seq<SourceFile>,
    seen: Set<Seq<char>>,
) -> Set<Seq<char>>
    decreases files.len(),
{
    if files.len() == 0 {
        seen
    } else {
        let before = seen_after(env, current_dir, files.drop_last(), seen);
        if is_scanned(env, current_dir, files.last()) {
            before.insert(file_key(files.last()))
        } else {
            before
        }
    }
}

/// The files that are reported when these are gone through in order: each scanned file that
/// was not met before and is too long.
pub open spec fn reported(
    env: EnvView,
    current_dir: Option<Seq<char>>,
    inventory: Option<Seq<char>>,
    cap: usize,
    files: Seq<SourceFile>,
    seen: Set<Seq<char>>,
) -> Seq<Seq<char>>
    decreases files.len(),
{
    if files.len() == 0 {
        Seq::empty()
    } else {
        let init = files.drop_last();
        let file = files.last();
        let before = reported(env, current_dir, inventory, cap, init, seen);
        if is_scanned(env, current_dir, file) && !seen_after(
            env,
            current_dir,
            init,
            seen,
        ).contains(file_key(file)) && is_too_long(env, current_dir, inventory, cap, file) {
            before.push(file_key(file))
        } else {
            before
        }
    }
}

/// The finding of the file-length pass. It names no file: it stands at no place in the code.
pub open spec fn file_length_diag(env: EnvView) -> DiagView {
    DiagView {
        message: "Rust source files must stay small enough to parse and review"@,
        help: "split large files into focused modules using directory modules and mod.rs, or add a documented "@
            + exception_keyword(env) + " with owner, reason, and expires fields"@,
    }
}

/// `n` times the finding of the file-length pass.
pub open spec fn file_length_diags(env: EnvView, n: nat) -> Seq<DiagView> {
    Seq::new(n, |i: int| file_length_diag(env))
}

impl SeenFiles {
    #[verifier::type_invariant]
    spec fn nothing_twice(self) -> bool {
        texts(self.paths@).no_duplicates()
    }

    /// No file has been met.
    pub fn new() -> (r: SeenFiles)
        ensures
            r@ == Set::<Seq<char>>::empty(),
    {
        let r = SeenFiles { paths: Vec::new() };
        proof {
            assert(r@ =~= Set::<Seq<char>>::empty());
        }
        r
    }

    /// Remembers the file `key`. Returns whether it had not been met before.
    pub fn mark_file_seen(&mut self, key: &str) -> (r: bool)
        ensures
            r == !old(self)@.contains(key@),
            final(self)@ == old(self)@.insert(key@),
    {
        proof {
            use_type_invariant(&*self);
        }
        let ghost all = texts(self.paths@);
        let mut i: usize = 0;
        while i < self.paths.len()
            invariant
                *self == *old(self),
                all == texts(self.paths@),
                0 <= i <= self.paths@.len(),
                forall|j: int| 0 <= j < i ==> #[trigger] all[j] != key@,
            decreases self.paths@.len() - i,
        {
            proof {
                assert(all[i as int] == self.paths@[i as int]@);
            }
            if str_eq(self.paths[i].as_str(), key) {
                proof {
                    assert(all.contains(key@));
                    assert(self@ =~= self@.insert(key@));
                }
                return false;
            }
            i = i + 1;
        }
        let mut paths: Vec<String> = Vec::new();
        std::mem::swap(&mut paths, &mut self.paths);
        let ghost before = paths@;
        paths.push(key.to_owned());
        proof {
            assert(texts(paths@) =~= texts(before).push(key@));
            assert(texts(paths@).to_set() =~= all.to_set().insert(key@)) by {
                assert forall|x: Seq<char>|
                    #[trigger] texts(paths@).to_set().contains(x) == all.to_set().insert(
                        key@,
                    ).contains(x) by {
                    if all.contains(x) {
                        let j = choose|j: int| 0 <= j < all.len() && all[j] == x;
                        assert(texts(paths@)[j] == x);
                    }
                    if x == key@ {
                        assert(texts(paths@)[all.len() as int] == x);
                    }
                }
            }
        }
        self.paths = paths;
        true
    }
}

/// Whether `path` is that of a Rust source file below one of the scanned roots.
pub fn is_repo_rust_source_path(env: &Environment, path: &str, current_dir: Option<&str>) -> (r:
    bool)
    ensures
        r == is_repo_source(path@, source_roots(env@), text_option(current_dir)),
{
    let roots = repo_source_roots(env);
    is_repo_rust_source_path_with_roots(path, &roots, current_dir)
}

/// Whether the inventory or an inline marker documents an exception for the file.
pub fn has_documented_file_length_exception(
    env: &Environment,
    inventory: Option<&str>,
    path: &str,
    contents: &str,
) -> (r: bool)
    ensures
        r == is_documented(env@, text_option(inventory), path@, contents@),
{
    has_inventory_file_length_exception(env, inventory, path) || has_inline_file_length_exception(
        env,
        contents,
    )
}

/// Whether an inventory is configured, could be read, and lists `path`. The text of the
/// inventory is `None` where it could not be read.
pub fn has_inventory_file_length_exception(
    env: &Environment,
    inventory: Option<&str>,
    path: &str,
) -> (r: bool)
    ensures
        r == in_inventory(env@, text_option(inventory), path@),
{
    if file_length_exceptions_path(env).is_none() {
        return false;
    }
    let Some(text) = inventory else {
        return false;
    };
    inventory_lists_path(text, path)
}

/// Whether a line of the inventory, below its header, has `path` in its first column.
pub fn inventory_lists_path(inventory: &str, path: &str) -> (r: bool)
    ensures
        r == inventory_lists(inventory@, path@),
{
    let chars = chars_of(inventory);
    let all = lines(chars.as_slice());
    let wanted = chars_of(path);
    let ghost rows = lines_of(inventory@);
    let mut i: usize = 1;
    while i < all.len()
        invariant
            wanted@ == path@,
            rows == lines_of(inventory@),
            pieces(all@) == rows,
            1 <= i,
            forall|j: int|
                1 <= j < i && j < rows.len() ==> !first_column_is(#[trigger] rows[j], path@),
        decreases all@.len() - i,
    {
        proof {
            assert(rows[i as int] == all@[i as int]@);
        }
        let row = all[i].as_slice();
        let tab: usize = index_of(row, '\t', 0);
        if tab < row.len() {
            let column = piece(row, 0, tab);
            if chars_eq(column.as_slice(), wanted.as_slice()) {
                return true;
            }
        }
        i = i + 1;
    }
    false
}

/// Whether a line at the top of the file documents an exception, under the configured marker.
pub fn has_inline_file_length_exception(env: &Environment, contents: &str) -> (r: bool)
    ensures
        r == has_inline_exception(contents@, exception_keyword(env@)),
{
    let marker = exception_marker(env);
    has_inline_file_length_exception_with_marker(contents, marker.as_str())
}

/// Whether one of the first 80 lines of the file documents an exception: the marker and a
/// colon, and the fields `owner=`, `reason=` and `expires=`.
pub fn has_inline_file_length_exception_with_marker(contents: &str, marker: &str) -> (r: bool)
    ensures
        r == has_inline_exception(contents@, marker@),
{
    let mut needle = marker.to_owned();
    needle.append(":");
    let chars = chars_of(contents);
    let all = lines(chars.as_slice());
    let ghost rows = lines_of(contents@);
    let mut i: usize = 0;
    while i < all.len() && i < EXCEPTION_LINES
        invariant
            needle@ == marker@ + ":"@,
            rows == lines_of(contents@),
            pieces(all@) == rows,
            0 <= i <= all@.len(),
            forall|j: int| 0 <= j < i ==> !documents_exception(#[trigger] rows[j], marker@),
        decreases all@.len() - i,
    {
        proof {
            assert(rows[i as int] == all@[i as int]@);
        }
        let row = all[i].as_slice();
        if has_text(row, needle.as_str()) && has_text(row, "owner=") && has_text(row, "reason=")
            && has_text(row, "expires=") {
            return true;
        }
        i = i + 1;
    }
    false
}

/// The finding of the file-length pass.
fn file_length_finding(env: &Environment) -> (r: RustLintsPolicyDiag)
    ensures
        r@ == file_length_diag(env@),
{
    let mut help =
        "split large files into focused modules using directory modules and mod.rs, or add a documented ".to_owned();
    let marker = exception_marker(env);
    help.append(marker.as_str());
    help.append(" with owner, reason, and expires fields");
    finding("Rust source files must stay small enough to parse and review", help.as_str())
}

/// Pass: source files stay under the configured line cap.
///
/// `files` are the source files of the crate, `inventory` the text of the configured
/// inventory if it can be read, and `seen` the files met so far, which are not reported
/// again. Without a line cap the pass does nothing.
pub fn check_file_lengths(
    env: &Environment,
    current_dir: Option<&str>,
    inventory: Option<&str>,
    files: &Vec<SourceFile>,
    seen: &mut SeenFiles,
) -> (r: Vec<RustLintsPolicyDiag>)
    ensures
        match line_cap(env@) {
            Some(cap) => {
                &&& diag_views(r@) == file_length_diags(
                    env@,
                    reported(
                        env@,
                        text_option(current_dir),
                        text_option(inventory),
                        cap,
                        files@,
                        old(seen)@,
                    ).len(),
                )
                &&& final(seen)@ == seen_after(
                    env@,
                    text_option(current_dir),
                    files@,
                    old(seen)@,
                )
            },
            None => r@.len() == 0 && final(seen)@ == old(seen)@,
        },
{
    let mut list: Vec<RustLintsPolicyDiag> = Vec::new();
    let Some(max_lines) = max_file_lines(env) else {
        return list;
    };
    let ghost dir = text_option(current_dir);
    let ghost inv = text_option(inventory);
    let ghost first = seen@;
    let mut i: usize = 0;
    proof {
        assert(files@.take(0) =~= Seq::<SourceFile>::empty());
        assert(diag_views(list@) =~= file_length_diags(env@, 0));
    }
    while i < files.len()
        invariant
            dir == text_option(current_dir),
            inv == text_option(inventory),
            0 <= i <= files@.len(),
            seen@ == seen_after(env@, dir, files@.take(i as int), first),
            diag_views(list@) == file_length_diags(
                env@,
                reported(env@, dir, inv, max_lines, files@.take(i as int), first).len(),
            ),
        decreases files@.len() - i,
    {
        let file = &files[i];
        proof {
            assert(files@.take(i + 1).drop_last() =~= files@.take(i as int));
            assert(files@.take(i + 1).last() == *file);
        }
        i = i + 1;
        let Some(path) = &file.path else {
            continue;
        };
        if !is_repo_rust_source_path(env, path.as_str(), current_dir) {
            continue;
        }
        let key = normalize_path(path.as_str());
        if !seen.mark_file_seen(key.as_str()) {
            continue;
        }
        let Some(contents) = &file.contents else {
            continue;
        };
        let chars = chars_of(contents.as_str());
        let all = lines(chars.as_slice());
        proof {
            assert(lines_of(contents@).len() == all@.len());
        }
        let line_count: usize = all.len();
        let name = repo_relative_path(path.as_str(), current_dir);
        if line_count <= max_lines || has_documented_file_length_exception(
            env,
            inventory,
            name.as_str(),
            contents.as_str(),
        ) {
            continue;
        }
        let ghost before = list@;
        list.push(file_length_finding(env));
        proof {
            assert(diag_views(list@) =~= diag_views(before).push(file_length_diag(env@)));
            let n = reported(env@, dir, inv, max_lines, files@.take(i - 1), first).len();
            assert(file_length_diags(env@, n + 1) =~= file_length_diags(env@, n).push(
                file_length_diag(env@),
            ));
        }
    }
    proof {
        assert(files@.take(i as int) =~= files@);
    }
    list
}

} // verus!
