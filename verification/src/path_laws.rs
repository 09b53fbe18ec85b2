//! What the normal form of a path promises.

use vstd::prelude::*;

use crate::paths::{
    display_text, forward_slashes, has_rs_extension, is_no_step,
    is_repo_rust_source_path_with_roots, is_step_up, joined, last_step, leads_to, normalize_path,
    normalized, normalized_path_buf, path_text, path_view, repo_relative, repo_relative_path,
    resolved, under_a_root, way_from, PathParts, PathView,
};
use crate::text::{
    ends_with, find_char, lemma_find_char, lemma_find_char_is, lemma_find_char_shift, split_from,
    split_on, starts_with, texts,
};

verus! {

/// `name` is that of a file or a directory: not empty, neither `.` nor `..`, and without a
/// separator.
pub open spec fn is_name(name: Seq<char>) -> bool {
    !is_no_step(name) && !is_step_up(name) && !name.contains('/')
}

/// Every piece of `steps` is without `c`.
spec fn without_char(steps: Seq<Seq<char>>, c: char) -> bool {
    forall|i: int| 0 <= i < steps.len() ==> !(#[trigger] steps[i]).contains(c)
}

proof fn lemma_fields_have_no_separator(s: Seq<char>, sep: char, i: int)
    requires
        0 <= i <= s.len(),
    ensures
        without_char(split_from(s, sep, i), sep),
    decreases s.len() - i,
{
    lemma_find_char(s, sep, i);
    let k = find_char(s, sep, i);
    if k < s.len() {
        lemma_fields_have_no_separator(s, sep, k + 1);
        let rest = split_from(s, sep, k + 1);
        let all = seq![s.subrange(i, k)] + rest;
        assert forall|j: int| 0 <= j < all.len() implies !(#[trigger] all[j]).contains(sep) by {
            if j > 0 {
                assert(all[j] == rest[j - 1]);
            }
        }
    }
}

proof fn lemma_fields_without(s: Seq<char>, sep: char, c: char, i: int)
    requires
        0 <= i <= s.len(),
        !s.contains(c),
    ensures
        without_char(split_from(s, sep, i), c),
    decreases s.len() - i,
{
    lemma_find_char(s, sep, i);
    let k = find_char(s, sep, i);
    assert forall|a: int, b: int| 0 <= a <= b <= s.len() implies !(#[trigger] s.subrange(
        a,
        b,
    )).contains(c) by {
        let part = s.subrange(a, b);
        if part.contains(c) {
            let j = choose|j: int| 0 <= j < part.len() && part[j] == c;
            assert(s[a + j] == c);
        }
    }
    if k < s.len() {
        lemma_fields_without(s, sep, c, k + 1);
        let rest = split_from(s, sep, k + 1);
        let all = seq![s.subrange(i, k)] + rest;
        assert forall|j: int| 0 <= j < all.len() implies !(#[trigger] all[j]).contains(c) by {
            if j > 0 {
                assert(all[j] == rest[j - 1]);
            }
        }
    }
}

proof fn lemma_resolved(steps: Seq<Seq<char>>, c: char)
    requires
        without_char(steps, c),
    ensures
        without_char(resolved(steps), c),
        forall|i: int|
            0 <= i < resolved(steps).len() ==> !is_no_step(#[trigger] resolved(steps)[i])
                && !is_step_up(resolved(steps)[i]),
    decreases steps.len(),
{
    if steps.len() > 0 {
        lemma_resolved(steps.drop_last(), c);
        assert(!steps[steps.len() - 1].contains(c));
    }
}

/// The normal form of a path has neither empty steps nor `.` nor `..`: each of its names is
/// the name of a file or a directory.
pub proof fn law_normal_form_has_names_only(path: Seq<char>)
    ensures
        forall|i: int|
            0 <= i < path_view(path).names.len() ==> is_name(#[trigger] path_view(path).names[i]),
{
    lemma_fields_have_no_separator(path, '/', 0);
    lemma_resolved(split_on(path, '/'), '/');
}

proof fn lemma_split_shift(a: Seq<char>, b: Seq<char>, sep: char, i: int)
    requires
        0 <= i <= b.len(),
    ensures
        split_from(a + b, sep, a.len() + i) == split_from(b, sep, i),
    decreases b.len() - i,
{
    lemma_find_char_shift(a, b, sep, i);
    lemma_find_char(b, sep, i);
    let k = find_char(b, sep, i);
    assert((a + b).subrange(a.len() + i, a.len() + k) =~= b.subrange(i, k));
    assert((a + b).subrange(a.len() + i, (a + b).len() as int) =~= b.subrange(i, b.len() as int));
    if k < b.len() {
        lemma_split_shift(a, b, sep, k + 1);
    }
}

/// The fields of two texts with a separator between them are those of the one and the other.
pub proof fn lemma_split_around(a: Seq<char>, b: Seq<char>, sep: char, i: int)
    requires
        0 <= i <= a.len(),
    ensures
        split_from(a + seq![sep] + b, sep, i) == split_from(a, sep, i) + split_on(b, sep),
    decreases a.len() - i,
{
    let s = a + seq![sep] + b;
    lemma_find_char(a, sep, i);
    let k = find_char(a, sep, i);
    assert forall|j: int| i <= j < k implies s[j] != sep by {
        assert(s[j] == a[j]);
    }
    if k < a.len() {
        assert(s[k] == a[k]);
    } else {
        assert(s[k] == sep);
    }
    lemma_find_char_is(s, sep, i, k);
    assert(s.subrange(i, k) =~= a.subrange(i, k));
    if k < a.len() {
        lemma_split_around(a, b, sep, k + 1);
        assert(seq![a.subrange(i, k)] + (split_from(a, sep, k + 1) + split_on(b, sep)) =~= (seq![
            a.subrange(i, k),
        ] + split_from(a, sep, k + 1)) + split_on(b, sep));
    } else {
        lemma_split_shift(a + seq![sep], b, sep, 0);
        assert(a.subrange(i, k) =~= a.subrange(i, a.len() as int));
    }
}

/// A text without a separator is one field.
pub proof fn lemma_split_one(name: Seq<char>, sep: char)
    requires
        !name.contains(sep),
    ensures
        split_on(name, sep) == seq![name],
{
    assert forall|j: int| 0 <= j < name.len() implies name[j] != sep by {
        if name[j] == sep {
            assert(name.contains(sep));
        }
    }
    lemma_find_char_is(name, sep, 0, name.len() as int);
    assert(name.subrange(0, name.len() as int) =~= name);
}

spec fn all_names(names: Seq<Seq<char>>) -> bool {
    forall|i: int| 0 <= i < names.len() ==> is_name(#[trigger] names[i])
}

proof fn lemma_split_joined(names: Seq<Seq<char>>)
    requires
        names.len() > 0,
        all_names(names),
    ensures
        split_on(joined(names), '/') == names,
    decreases names.len(),
{
    assert(is_name(names[names.len() - 1]));
    if names.len() == 1 {
        lemma_split_one(names[0], '/');
        assert(seq![names[0]] =~= names);
    } else {
        let init = names.drop_last();
        assert(all_names(init)) by {
            assert forall|i: int| 0 <= i < init.len() implies is_name(#[trigger] init[i]) by {
                assert(init[i] == names[i]);
            }
        }
        lemma_split_joined(init);
        lemma_split_around(joined(init), names.last(), '/', 0);
        lemma_split_one(names.last(), '/');
        assert(init + seq![names.last()] =~= names);
    }
}

proof fn lemma_resolved_names(names: Seq<Seq<char>>)
    requires
        all_names(names),
    ensures
        resolved(names) == names,
    decreases names.len(),
{
    if names.len() > 0 {
        assert(is_name(names[names.len() - 1]));
        let init = names.drop_last();
        assert(all_names(init)) by {
            assert forall|i: int| 0 <= i < init.len() implies is_name(#[trigger] init[i]) by {
                assert(init[i] == names[i]);
            }
        }
        lemma_resolved_names(init);
        assert(init.push(names.last()) =~= names);
    }
}

proof fn lemma_resolved_skips_empty(names: Seq<Seq<char>>)
    ensures
        resolved(seq![Seq::<char>::empty()] + names) == resolved(names),
    decreases names.len(),
{
    let all = seq![Seq::<char>::empty()] + names;
    if names.len() == 0 {
        assert(all.drop_last() =~= Seq::<Seq<char>>::empty());
        assert(all.last() == Seq::<char>::empty());
        assert(resolved(all.drop_last()) == resolved(names));
    } else {
        lemma_resolved_skips_empty(names.drop_last());
        assert(all.drop_last() =~= seq![Seq::<char>::empty()] + names.drop_last());
    }
}

proof fn lemma_joined_head(names: Seq<Seq<char>>)
    requires
        names.len() > 0,
        all_names(names),
    ensures
        joined(names).len() > 0,
        joined(names)[0] != '/',
    decreases names.len(),
{
    assert(is_name(names[0]));
    if names[0].len() == 0 {
        assert(names[0] =~= Seq::<char>::empty());
    }
    if names.len() == 1 {
        if names[0][0] == '/' {
            assert(names[0].contains('/'));
        }
    } else {
        let init = names.drop_last();
        assert(all_names(init)) by {
            assert forall|i: int| 0 <= i < init.len() implies is_name(#[trigger] init[i]) by {
                assert(init[i] == names[i]);
            }
        }
        lemma_joined_head(init);
    }
}

proof fn lemma_view_of_text(p: PathView)
    requires
        all_names(p.names),
    ensures
        path_view(path_text(p)) == p,
{
    let body = joined(p.names);
    let text = path_text(p);
    if p.names.len() > 0 {
        lemma_split_joined(p.names);
        lemma_joined_head(p.names);
    } else {
        assert(body =~= Seq::<char>::empty());
        lemma_split_one(body, '/');
        assert(seq![body].drop_last() =~= Seq::<Seq<char>>::empty());
        assert(resolved(seq![body].drop_last()) =~= Seq::<Seq<char>>::empty());
        assert(resolved(seq![body]) =~= Seq::<Seq<char>>::empty());
        assert(p.names =~= Seq::<Seq<char>>::empty());
    }
    lemma_resolved_names(p.names);
    if p.absolute {
        let none = Seq::<char>::empty();
        lemma_split_around(none, body, '/', 0);
        assert(none + seq!['/'] + body =~= text);
        lemma_split_one(none, '/');
        lemma_resolved_skips_empty(split_on(body, '/'));
        assert(path_view(text).names == p.names);
        assert(text[0] == '/');
    }
}

/// Reading the text of a normal form gives that normal form again.
pub proof fn law_path_parts_are_stable(path: Seq<char>)
    ensures
        path_view(path_text(path_view(path))) == path_view(path),
{
    law_normal_form_has_names_only(path);
    lemma_view_of_text(path_view(path));
}

proof fn lemma_joined_without(names: Seq<Seq<char>>, c: char)
    requires
        c != '/',
        without_char(names, c),
    ensures
        !joined(names).contains(c),
    decreases names.len(),
{
    if names.len() == 1 {
        assert(!names[0].contains(c));
    } else if names.len() > 1 {
        let init = names.drop_last();
        assert(without_char(init, c)) by {
            assert forall|i: int| 0 <= i < init.len() implies !(#[trigger] init[i]).contains(c) by {
                assert(init[i] == names[i]);
            }
        }
        lemma_joined_without(init, c);
        let text = joined(names);
        let head = joined(init);
        assert(!names[names.len() - 1].contains(c));
        if text.contains(c) {
            let j = choose|j: int| 0 <= j < text.len() && text[j] == c;
            if j < head.len() {
                assert(head[j] == c);
                assert(head.contains(c));
            } else if j > head.len() {
                assert(names.last()[j - head.len() - 1] == c);
                assert(names.last().contains(c));
            }
        }
    }
}

/// Where a path holds no backslash, its text has forward slashes to begin with.
proof fn lemma_no_backslash(path: Seq<char>)
    requires
        !path.contains('\\'),
    ensures
        normalized(path) == path_text(path_view(path)),
{
    lemma_fields_without(path, '/', '\\', 0);
    lemma_resolved(split_on(path, '/'), '\\');
    lemma_joined_without(path_view(path).names, '\\');
    let body = joined(path_view(path).names);
    let text = path_text(path_view(path));
    assert forall|j: int| 0 <= j < text.len() implies text[j] != '\\' by {
        if text[j] == '\\' {
            let k = if path_view(path).absolute {
                j - 1
            } else {
                j
            };
            assert(body[k] == '\\');
            assert(body.contains('\\'));
        }
    }
    assert(forward_slashes(text) =~= text);
}

/// Normalizing a path twice is normalizing it once, if it holds no backslash.
pub proof fn law_normalizing_is_idempotent(path: Seq<char>)
    requires
        !path.contains('\\'),
    ensures
        normalized(normalized(path)) == normalized(path),
{
    lemma_no_backslash(path);
    law_path_parts_are_stable(path);
}

/// A path below the current directory is seen from there: joining the two again gives the
/// path's normal form.
pub proof fn law_relative_path_leads_back(path: Seq<char>, dir: Seq<char>)
    requires
        leads_to(path_view(dir), path_view(path)),
    ensures
        repo_relative(path, Some(dir)) == display_text(way_from(path_view(dir), path_view(path))),
        path_view(dir).names + way_from(path_view(dir), path_view(path)).names == path_view(
            path,
        ).names,
        path_view(path).absolute == (path_view(dir).absolute || way_from(
            path_view(dir),
            path_view(path),
        ).absolute),
{
    let base = path_view(dir).names;
    let all = path_view(path).names;
    if base.len() > 0 {
        assert(all.subrange(0, base.len() as int) =~= base);
    }
    assert(base + all.skip(base.len() as int) =~= all);
}

/// The names that are left of `names` after one more step: nothing and `.` lead nowhere, `..`
/// takes back the last name, if there is one, and anything else is a further name.
pub open spec fn one_more(names: Seq<Seq<char>>, step: Seq<char>) -> Seq<Seq<char>> {
    if step == Seq::<char>::empty() || step == seq!['.'] {
        names
    } else if step == seq!['.', '.'] {
        if names.len() > 0 {
            names.drop_last()
        } else {
            names
        }
    } else {
        names.push(step)
    }
}

/// A path is followed step by step: a slash and a step behind it do to its names what the step
/// does, and a path without a slash is one step from nowhere. A path starts at the root exactly
/// if it begins with a slash.
pub proof fn law_paths_are_followed_in_steps(
    start: &str,
    step: &str,
    whole: &str,
    a: PathParts,
    b: PathParts,
    r: PathParts,
)
    requires
        !step@.contains('/'),
        whole@ == start@ + seq!['/'] + step@,
        call_ensures(normalized_path_buf, (start,), a),
        call_ensures(normalized_path_buf, (step,), b),
        call_ensures(normalized_path_buf, (whole,), r),
    ensures
        texts(r.names@) == one_more(texts(a.names@), step@),
        texts(b.names@) == one_more(Seq::empty(), step@),
        r.absolute <==> whole@[0] == '/',
        !b.absolute,
{
    let names = split_on(start@, '/');
    lemma_split_around(start@, step@, '/', 0);
    lemma_split_one(step@, '/');
    let all = names + seq![step@];
    assert(all.drop_last() =~= names);
    assert(all.last() == step@);
    assert(texts(r.names@) == one_more(texts(a.names@), step@));
    let one = seq![step@];
    assert(one.drop_last() =~= Seq::<Seq<char>>::empty());
    assert(resolved(one.drop_last()) =~= Seq::<Seq<char>>::empty());
    assert(texts(b.names@) == one_more(Seq::empty(), step@));
    if step@.len() > 0 && step@[0] == '/' {
        assert(step@.contains('/'));
    }
}

/// The text of a normal form: cut at its slashes it gives the names, with nothing before the
/// first slash of a path from the root. Backslashes become slashes, and nothing else changes.
pub proof fn law_normal_text(path: &str, parts: PathParts, r: String)
    requires
        call_ensures(normalized_path_buf, (path,), parts),
        call_ensures(normalize_path, (path,), r),
    ensures
        ({
            let text = path_text(parts@);
            let names = texts(parts.names@);
            &&& names.len() > 0 && !parts.absolute ==> split_on(text, '/') == names
            &&& names.len() > 0 && parts.absolute ==> split_on(text, '/') == seq![
                Seq::<char>::empty(),
            ] + names
            &&& names.len() == 0 && parts.absolute ==> text == seq!['/']
            &&& names.len() == 0 && !parts.absolute ==> text == Seq::<char>::empty()
            &&& r@.len() == text.len()
            &&& forall|j: int|
                0 <= j < text.len() ==> #[trigger] r@[j] == if text[j] == '\\' {
                    '/'
                } else {
                    text[j]
                }
        }),
{
    let names = texts(parts.names@);
    let none = Seq::<char>::empty();
    law_normal_form_has_names_only(path@);
    assert(names == path_view(path@).names);
    let body = joined(names);
    if names.len() > 0 {
        lemma_split_joined(names);
    } else {
        assert(body =~= none);
        assert(seq!['/'] + none =~= seq!['/']);
    }
    if parts.absolute {
        lemma_split_around(none, body, '/', 0);
        lemma_split_one(none, '/');
        assert(none + seq!['/'] + body =~= seq!['/'] + body);
    }
}

/// A file is a Rust source exactly if its name, the last step of its path, ends in `.rs` and
/// has something before that. Slashes and `.` behind the name do not matter.
pub proof fn law_rust_sources(start: Seq<char>, step: Seq<char>)
    requires
        !step.contains('/'),
    ensures
        step != Seq::<char>::empty() && step != seq!['.'] ==> has_rs_extension(
            start + seq!['/'] + step,
        ) == (step.len() > 3 && ends_with(step, ".rs"@)),
        step != Seq::<char>::empty() && step != seq!['.'] ==> has_rs_extension(step) == (step.len()
            > 3 && ends_with(step, ".rs"@)),
        step == Seq::<char>::empty() || step == seq!['.'] ==> has_rs_extension(
            start + seq!['/'] + step,
        ) == has_rs_extension(start),
        step == Seq::<char>::empty() || step == seq!['.'] ==> !has_rs_extension(step),
{
    let names = split_on(start, '/');
    lemma_split_around(start, step, '/', 0);
    lemma_split_one(step, '/');
    let all = names + seq![step];
    assert(all.drop_last() =~= names);
    assert(all.last() == step);
    let one = seq![step];
    assert(one.drop_last() =~= Seq::<Seq<char>>::empty());
    assert(last_step(one.drop_last()) is None);
}

/// A path is scanned exactly if it is that of a Rust source and, as seen from the current
/// directory, begins with one of the roots.
pub proof fn law_scanned_paths(
    path: &str,
    roots: &Vec<String>,
    dir: Option<&str>,
    relative: String,
    r: bool,
)
    requires
        call_ensures(repo_relative_path, (path, dir), relative),
        call_ensures(is_repo_rust_source_path_with_roots, (path, roots, dir), r),
    ensures
        r <==> has_rs_extension(path@) && exists|i: int|
            0 <= i < roots@.len() && starts_with(relative@, (#[trigger] roots@[i])@),
{
    let all = texts(roots@);
    if under_a_root(relative@, all) {
        let i = choose|i: int| 0 <= i < all.len() && starts_with(relative@, #[trigger] all[i]);
        assert(starts_with(relative@, roots@[i]@));
    }
    if exists|i: int| 0 <= i < roots@.len() && starts_with(relative@, (#[trigger] roots@[i])@) {
        let i = choose|i: int|
            0 <= i < roots@.len() && starts_with(relative@, (#[trigger] roots@[i])@);
        assert(all[i] == roots@[i]@);
    }
}

/// A path as seen from the current directory: if the names of the directory lead the way, and
/// both start at the root or both do not, it is the normal form of the rest of the way, which
/// does not start at the root. Otherwise, and without a current directory, it is the normal
/// form of the path. From the root itself every path from the root is seen; from a directory
/// of no name that is not the root, every path as it is.
pub proof fn law_paths_are_seen_from_the_directory(
    path: &str,
    dir: &str,
    rest: &str,
    base: PathParts,
    parts: PathParts,
    way: PathParts,
    normal: String,
    way_text: String,
    alone: String,
    r: String,
)
    requires
        call_ensures(normalized_path_buf, (dir,), base),
        call_ensures(normalized_path_buf, (path,), parts),
        call_ensures(normalized_path_buf, (rest,), way),
        call_ensures(normalize_path, (path,), normal),
        call_ensures(normalize_path, (rest,), way_text),
        call_ensures(repo_relative_path, (path, None::<&str>), alone),
        call_ensures(repo_relative_path, (path, Some(dir)), r),
    ensures
        alone@ == normal@,
        texts(parts.names@) == texts(base.names@) + texts(way.names@) && base.absolute
            == parts.absolute && !way.absolute ==> r@ == way_text@,
        base.names@.len() == 0 && !base.absolute ==> r@ == normal@,
        base.absolute != parts.absolute ==> r@ == normal@,
        !texts(base.names@).is_prefix_of(texts(parts.names@)) ==> r@ == normal@,
{
    let b = texts(base.names@);
    let p = texts(parts.names@);
    let w = texts(way.names@);
    assert(path_view(path@) == parts@);
    assert(path_view(dir@) == base@);
    assert(path_view(rest@) == way@);
    if p == b + w {
        assert(p.subrange(0, b.len() as int) =~= b);
        assert(p.skip(b.len() as int) =~= w);
    }
    if b.len() == 0 {
        assert(p.skip(0) =~= p);
        assert(p.subrange(0, 0) =~= b);
    }
}

} // verus!
