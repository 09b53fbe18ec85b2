//! File paths as texts, with `/` as the separator.

use vstd::prelude::*;
use vstd::string::*;

use crate::text::{
    chars_of, ends_with, fields, pieces, split_on, starts_with, str_ends_with, str_eq,
    str_starts_with, string_of, text_option, texts,
};

verus! {

/// A path without `.` and `..`: whether it starts at the root, and the names on the way.
pub struct PathParts {
    pub absolute: bool,
    pub names: Vec<String>,
}

/// What a [`PathParts`] stands for.
pub struct PathView {
    pub absolute: bool,
    pub names: Seq<Seq<char>>,
}

impl View for PathParts {
    type V = PathView;

    open spec fn view(&self) -> PathView {
        PathView { absolute: self.absolute, names: texts(self.names@) }
    }
}

/// A piece that stands for no step: an empty one, between two separators, or a `.`.
pub open spec fn is_no_step(piece: Seq<char>) -> bool {
    piece == Seq::<char>::empty() || piece == seq!['.']
}

/// The piece that leads one directory up.
pub open spec fn is_step_up(piece: Seq<char>) -> bool {
    piece == seq!['.', '.']
}

/// The names that are left when the pieces are followed from the start: a `..` takes back
/// the name before it, and takes back nothing where there is none.
pub open spec fn resolved(steps: Seq<Seq<char>>) -> Seq<Seq<char>>
    decreases steps.len(),
{
    if steps.len() == 0 {
        Seq::empty()
    } else {
        let before = resolved(steps.drop_last());
        let piece = steps.last();
        if is_no_step(piece) {
            before
        } else if is_step_up(piece) {
            if before.len() > 0 {
                before.drop_last()
            } else {
                before
            }
        } else {
            before.push(piece)
        }
    }
}

/// The path that `path` writes, without `.` and `..`.
pub open spec fn path_view(path: Seq<char>) -> PathView {
    PathView {
        absolute: path.len() > 0 && path[0] == '/',
        names: resolved(split_on(path, '/')),
    }
}

/// The names with a `/` between each two.
pub open spec fn joined(names: Seq<Seq<char>>) -> Seq<char>
    decreases names.len(),
{
    if names.len() == 0 {
        Seq::empty()
    } else if names.len() == 1 {
        names[0]
    } else {
        joined(names.drop_last()) + seq!['/'] + names.last()
    }
}

/// The text of a path.
pub open spec fn path_text(p: PathView) -> Seq<char> {
    if p.absolute {
        seq!['/'] + joined(p.names)
    } else {
        joined(p.names)
    }
}

/// `s` with every backslash turned into a slash.
pub open spec fn forward_slashes(s: Seq<char>) -> Seq<char> {
    s.map_values(|c: char| if c == '\\' { '/' } else { c })
}

/// The text of a path, with forward slashes only.
pub open spec fn display_text(p: PathView) -> Seq<char> {
    forward_slashes(path_text(p))
}

/// The normal form of the path `path`.
pub open spec fn normalized(path: Seq<char>) -> Seq<char> {
    display_text(path_view(path))
}

/// The last of the pieces that is a step.
pub open spec fn last_step(steps: Seq<Seq<char>>) -> Option<Seq<char>>
    decreases steps.len(),
{
    if steps.len() == 0 {
        None
    } else if is_no_step(steps.last()) {
        last_step(steps.drop_last())
    } else {
        Some(steps.last())
    }
}

/// `path` names a file whose extension is `rs`: the file's name ends in `.rs` and has
/// something before it.
pub open spec fn has_rs_extension(path: Seq<char>) -> bool {
    last_step(split_on(path, '/')) matches Some(name) && name.len() > 3 && ends_with(name, ".rs"@)
}

/// `base` leads to `path`, or to a directory above it.
pub open spec fn leads_to(base: PathView, path: PathView) -> bool {
    if base.names.len() == 0 {
        base.absolute ==> path.absolute
    } else {
        base.absolute == path.absolute && base.names.is_prefix_of(path.names)
    }
}

/// The way from `base` to `path`.
pub open spec fn way_from(base: PathView, path: PathView) -> PathView {
    PathView {
        absolute: path.absolute && !base.absolute,
        names: path.names.skip(base.names.len() as int),
    }
}

/// The normal form of `path`, taken from the directory `current_dir` where that leads to it.
pub open spec fn repo_relative(path: Seq<char>, current_dir: Option<Seq<char>>) -> Seq<char> {
    match current_dir {
        Some(dir) => if leads_to(path_view(dir), path_view(path)) {
            display_text(way_from(path_view(dir), path_view(path)))
        } else {
            normalized(path)
        },
        None => normalized(path),
    }
}

/// `text` begins with one of `roots`.
pub open spec fn under_a_root(text: Seq<char>, roots: Seq<Seq<char>>) -> bool {
    exists|i: int| 0 <= i < roots.len() && starts_with(text, #[trigger] roots[i])
}

/// `path` is that of a Rust source file below one of `roots`.
pub open spec fn is_repo_source(
    path: Seq<char>,
    roots: Seq<Seq<char>>,
    current_dir: Option<Seq<char>>,
) -> bool {
    has_rs_extension(path) && under_a_root(repo_relative(path, current_dir), roots)
}

/// The path without `.` and `..`.
///
/// Repeated and trailing separators mean nothing, as they do to the file system. A `..`
/// takes back the name before it; with nothing to take back it is dropped.
pub fn normalized_path_buf(path: &str) -> (r: PathParts)
    ensures
        r@ == path_view(path@),
{
    let chars = chars_of(path);
    let steps = fields(chars.as_slice(), '/');
    let ghost all = split_on(path@, '/');
    let mut names: Vec<String> = Vec::new();
    let mut i: usize = 0;
    while i < steps.len()
        invariant
            pieces(steps@) == all,
            0 <= i <= steps@.len(),
            texts(names@) == resolved(all.take(i as int)),
        decreases steps@.len() - i,
    {
        let piece = steps[i].as_slice();
        let ghost before = names@;
        proof {
            assert(all[i as int] == piece@);
            assert(all.take(i + 1).drop_last() =~= all.take(i as int));
        }
        let no_step = piece.len() == 0 || (piece.len() == 1 && piece[0] == '.');
        let step_up = piece.len() == 2 && piece[0] == '.' && piece[1] == '.';
        proof {
            assert(piece@.len() == 0 ==> piece@ =~= Seq::<char>::empty());
            assert(piece@.len() == 1 && piece@[0] == '.' ==> piece@ =~= seq!['.']);
            assert(step_up ==> piece@ =~= seq!['.', '.']);
            assert(no_step == is_no_step(piece@));
            assert(step_up == is_step_up(piece@));
        }
        if no_step {
        } else if step_up {
            let _ = names.pop();
            proof {
                if before.len() > 0 {
                    assert(texts(names@) =~= texts(before).drop_last());
                } else {
                    assert(texts(names@) =~= texts(before));
                }
            }
        } else {
            names.push(string_of(piece));
            proof {
                assert(texts(names@) =~= texts(before).push(piece@));
            }
        }
        i = i + 1;
    }
    proof {
        assert(all.take(i as int) =~= all);
    }
    PathParts { absolute: chars.len() > 0 && chars[0] == '/', names }
}

/// The names with a `/` between each two.
fn join_names(names: &Vec<String>) -> (r: String)
    ensures
        r@ == joined(texts(names@)),
{
    let ghost all = texts(names@);
    let mut out = String::new();
    let mut i: usize = 0;
    while i < names.len()
        invariant
            all == texts(names@),
            0 <= i <= names@.len(),
            out@ == joined(all.take(i as int)),
        decreases names@.len() - i,
    {
        proof {
            assert(all[i as int] == names@[i as int]@);
            assert(all.take(i + 1).drop_last() =~= all.take(i as int));
            assert(all.take(i + 1).last() == all[i as int]);
            if i == 0 {
                assert(out@ + all[0] =~= all[0]);
            }
        }
        if i > 0 {
            out.push('/');
            proof {
                assert(out@ =~= joined(all.take(i as int)) + seq!['/']);
            }
        }
        out.append(names[i].as_str());
        i = i + 1;
    }
    proof {
        assert(all.take(i as int) =~= all);
    }
    out
}

/// The text of a path, with forward slashes only.
fn display_path(path: &PathParts) -> (r: String)
    ensures
        r@ == display_text(path@),
{
    let body = join_names(&path.names);
    let text = if path.absolute {
        let mut rooted = "/".to_owned();
        rooted.append(body.as_str());
        proof {
            reveal_strlit("/");
            assert("/"@ =~= seq!['/']);
        }
        rooted
    } else {
        body
    };
    let chars = chars_of(text.as_str());
    let mut out = String::new();
    let mut i: usize = 0;
    while i < chars.len()
        invariant
            chars@ == path_text(path@),
            0 <= i <= chars@.len(),
            out@ == display_text(path@).take(i as int),
        decreases chars@.len() - i,
    {
        out.push(
            if chars[i] == '\\' {
                '/'
            } else {
                chars[i]
            },
        );
        i = i + 1;
    }
    out
}

/// The normal form of a path: without `.` and `..`, and with forward slashes only.
pub fn normalize_path(path: &str) -> (r: String)
    ensures
        r@ == normalized(path@),
{
    let parts = normalized_path_buf(path);
    display_path(&parts)
}

/// Whether `path` names a file whose extension is `rs`.
fn is_rs_file(path: &str) -> (r: bool)
    ensures
        r == has_rs_extension(path@),
{
    let chars = chars_of(path);
    let steps = fields(chars.as_slice(), '/');
    let ghost all = split_on(path@, '/');
    let mut i: usize = steps.len();
    proof {
        reveal_strlit(".rs");
        assert(all.take(i as int) =~= all);
    }
    while i > 0
        invariant
            ".rs"@.len() == 3,
            pieces(steps@) == all,
            all == split_on(path@, '/'),
            0 <= i <= steps@.len(),
            last_step(all) == last_step(all.take(i as int)),
        decreases i,
    {
        let piece = steps[i - 1].as_slice();
        proof {
            assert(all[i - 1] == piece@);
            assert(all.take(i as int).last() == piece@);
            assert(all.take(i as int).drop_last() =~= all.take(i - 1));
            assert(piece@.len() == 0 ==> piece@ =~= Seq::<char>::empty());
            assert(piece@.len() == 1 && piece@[0] == '.' ==> piece@ =~= seq!['.']);
        }
        if !(piece.len() == 0 || (piece.len() == 1 && piece[0] == '.')) {
            let name = string_of(piece);
            return piece.len() > 3 && str_ends_with(name.as_str(), ".rs");
        }
        i = i - 1;
    }
    false
}

/// Whether `base` leads to `path`, or to a directory above it.
fn is_base_of(base: &PathParts, path: &PathParts) -> (r: bool)
    ensures
        r == leads_to(base@, path@),
{
    if base.names.len() == 0 {
        return !base.absolute || path.absolute;
    }
    if base.absolute != path.absolute || base.names.len() > path.names.len() {
        return false;
    }
    let mut i: usize = 0;
    while i < base.names.len()
        invariant
            base@.names.len() > 0,
            base@.absolute == path@.absolute,
            base.names@.len() <= path.names@.len(),
            0 <= i <= base.names@.len(),
            forall|j: int| 0 <= j < i ==> base@.names[j] == path@.names[j],
        decreases base.names@.len() - i,
    {
        proof {
            assert(base@.names[i as int] == base.names@[i as int]@);
            assert(path@.names[i as int] == path.names@[i as int]@);
        }
        if !str_eq(base.names[i].as_str(), path.names[i].as_str()) {
            proof {
                if base@.names.is_prefix_of(path@.names) {
                    assert(path@.names.subrange(0, base@.names.len() as int)[i as int]
                        == path@.names[i as int]);
                }
            }
            return false;
        }
        i = i + 1;
    }
    proof {
        assert(path@.names.subrange(0, base@.names.len() as int) =~= base@.names);
    }
    true
}

/// The way from `base` to `path`.
fn strip_base(base: &PathParts, path: &PathParts) -> (r: PathParts)
    requires
        base@.names.len() <= path@.names.len(),
    ensures
        r@ == way_from(base@, path@),
{
    let ghost want = way_from(base@, path@).names;
    let from: usize = base.names.len();
    let mut names: Vec<String> = Vec::new();
    let mut i: usize = from;
    while i < path.names.len()
        invariant
            from == base@.names.len(),
            from <= i <= path.names@.len(),
            want == path@.names.skip(from as int),
            texts(names@) == want.take(i - from),
        decreases path.names@.len() - i,
    {
        let ghost before = names@;
        names.push(path.names[i].as_str().to_owned());
        proof {
            assert(texts(names@) =~= texts(before).push(path.names@[i as int]@));
            assert(want.take(i + 1 - from) =~= want.take(i - from).push(want[i - from]));
        }
        i = i + 1;
    }
    proof {
        assert(want.take(i - from) =~= want);
    }
    PathParts { absolute: path.absolute && !base.absolute, names }
}

/// The normal form of `path`, taken from the directory `current_dir` where that leads to it.
pub fn repo_relative_path(path: &str, current_dir: Option<&str>) -> (r: String)
    ensures
        r@ == repo_relative(path@, text_option(current_dir)),
{
    let parts = normalized_path_buf(path);
    if let Some(dir) = current_dir {
        let base = normalized_path_buf(dir);
        if is_base_of(&base, &parts) {
            let way = strip_base(&base, &parts);
            return display_path(&way);
        }
    }
    display_path(&parts)
}

/// Whether `path` is that of a Rust source file below one of `roots`.
///
/// The roots are text prefixes of the path as seen from `current_dir`. A path that is not
/// below that directory is taken as it is.
pub fn is_repo_rust_source_path_with_roots(
    path: &str,
    roots: &Vec<String>,
    current_dir: Option<&str>,
) -> (r: bool)
    ensures
        r == is_repo_source(path@, texts(roots@), text_option(current_dir)),
{
    if !is_rs_file(path) {
        return false;
    }
    let relative = repo_relative_path(path, current_dir);
    let ghost all = texts(roots@);
    let mut i: usize = 0;
    while i < roots.len()
        invariant
            has_rs_extension(path@),
            relative@ == repo_relative(path@, text_option(current_dir)),
            all == texts(roots@),
            0 <= i <= roots@.len(),
            forall|j: int| 0 <= j < i ==> !starts_with(relative@, #[trigger] all[j]),
        decreases roots@.len() - i,
    {
        proof {
            assert(all[i as int] == roots@[i as int]@);
        }
        if str_starts_with(relative.as_str(), roots[i].as_str()) {
            return true;
        }
        i = i + 1;
    }
    false
}

} // verus!
