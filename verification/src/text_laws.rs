//! What searching, lines, fields, trimming and numbers promise.

use vstd::prelude::*;

use crate::pass_laws::{is_trimmed, lemma_trim_start};
use crate::path_laws::{lemma_split_around, lemma_split_one};
use crate::text::{
    ascii_lower, char_is_white_space, contains_text, decimal_value, ends_with, fields, find_char,
    is_white_space, lemma_find_char, lemma_find_char_is, lemma_find_char_shift, lines, lines_from,
    lines_of, lowered, occurs_at, parse_usize, pieces, split_on, starts_with, str_contains,
    str_ends_with, str_eq, str_starts_with, trim, trim_end, trim_start, trimmed, trimmed_start,
    usize_value, without_plus,
};

verus! {

/// A text contains another exactly if it is that text with something before and something
/// after it.
pub proof fn law_contained_text_stands_between(s: Seq<char>, t: Seq<char>)
    ensures
        contains_text(s, t) <==> exists|a: Seq<char>, b: Seq<char>| s == #[trigger] (a + t + b),
{
    if contains_text(s, t) {
        let i = choose|i: int| occurs_at(s, t, i);
        let a = s.subrange(0, i);
        let b = s.subrange(i + t.len(), s.len() as int);
        assert(s =~= a + s.subrange(i, i + t.len()) + b);
        assert(s == a + t + b);
    }
    if exists|a: Seq<char>, b: Seq<char>| s == #[trigger] (a + t + b) {
        let (a, b) = choose|a: Seq<char>, b: Seq<char>| s == #[trigger] (a + t + b);
        assert(s.subrange(a.len() as int, (a.len() + t.len()) as int) =~= t);
        assert(occurs_at(s, t, a.len() as int));
    }
}

/// A text begins with another exactly if it is that text with something after it.
pub proof fn law_text_begins(s: Seq<char>, t: Seq<char>)
    ensures
        starts_with(s, t) <==> exists|b: Seq<char>| s == #[trigger] (t + b),
{
    if starts_with(s, t) {
        assert(s =~= s.subrange(0, t.len() as int) + s.skip(t.len() as int));
        assert(s == t + s.skip(t.len() as int));
    }
    if exists|b: Seq<char>| s == #[trigger] (t + b) {
        let b = choose|b: Seq<char>| s == #[trigger] (t + b);
        assert(s.subrange(0, t.len() as int) =~= t);
    }
}

/// A text ends with another exactly if it is that text with something before it.
pub proof fn law_text_ends(s: Seq<char>, t: Seq<char>)
    ensures
        ends_with(s, t) <==> exists|a: Seq<char>| s == #[trigger] (a + t),
{
    if ends_with(s, t) {
        let k = s.len() - t.len();
        assert(s =~= s.subrange(0, k) + s.subrange(k, k + t.len()));
        assert(s == s.subrange(0, k) + t);
    }
    if exists|a: Seq<char>| s == #[trigger] (a + t) {
        let a = choose|a: Seq<char>| s == #[trigger] (a + t);
        assert(s.subrange(a.len() as int, (a.len() + t.len()) as int) =~= t);
    }
}

proof fn lemma_lines_shift(a: Seq<char>, b: Seq<char>, i: int)
    requires
        0 <= i <= b.len(),
    ensures
        lines_from(a + b, a.len() + i) == lines_from(b, i),
    decreases b.len() - i,
{
    if i < b.len() {
        lemma_find_char_shift(a, b, '\n', i);
        lemma_find_char(b, '\n', i);
        let k = find_char(b, '\n', i);
        assert((a + b).subrange(a.len() + i, a.len() + k) =~= b.subrange(i, k));
        assert((a + b).subrange(a.len() + i, (a + b).len() as int) =~= b.subrange(
            i,
            b.len() as int,
        ));
        if k < b.len() {
            lemma_lines_shift(a, b, k + 1);
        }
    }
}

/// The lines of a text: the first line feed ends the first line, a carriage return before it
/// belongs to the line break, and the rest is broken as if it stood alone. A text without a
/// line feed is one line, and the empty text is none.
pub proof fn law_lines(line: Seq<char>, rest: Seq<char>)
    requires
        !line.contains('\n'),
    ensures
        lines_of(line + seq!['\r', '\n'] + rest) == seq![line] + lines_of(rest),
        line.len() == 0 || line.last() != '\r' ==> lines_of(line + seq!['\n'] + rest) == seq![line]
            + lines_of(rest),
        line.len() > 0 ==> lines_of(line) == seq![line],
        line.len() == 0 ==> lines_of(line) == Seq::<Seq<char>>::empty(),
{
    assert forall|j: int| 0 <= j < line.len() implies line[j] != '\n' by {
        if line[j] == '\n' {
            assert(line.contains('\n'));
        }
    }
    let n = line.len() as int;
    lemma_find_char_is(line, '\n', 0, n);
    assert(line.subrange(0, n) =~= line);
    let head = line + seq!['\n'];
    let s = head + rest;
    assert(s[n] == '\n');
    lemma_find_char_is(s, '\n', 0, n);
    assert(s.subrange(0, n) =~= line);
    lemma_lines_shift(head, rest, 0);
    let crlf = line + seq!['\r', '\n'];
    let u = crlf + rest;
    assert(u[n] == '\r' && u[n + 1] == '\n');
    lemma_find_char_is(u, '\n', 0, n + 1);
    assert(u.subrange(0, n + 1).subrange(0, n) =~= line);
    assert(u.subrange(0, n + 1)[n] == '\r');
    lemma_lines_shift(crlf, rest, 0);
}

/// The fields of a text: the first separator ends the first field, and the rest is split as if
/// it stood alone. A text without a separator is one field.
pub proof fn law_fields(field: Seq<char>, sep: char, rest: Seq<char>)
    requires
        !field.contains(sep),
    ensures
        split_on(field + seq![sep] + rest, sep) == seq![field] + split_on(rest, sep),
        split_on(field, sep) == seq![field],
{
    lemma_split_one(field, sep);
    lemma_split_around(field, rest, sep, 0);
}

/// The characters that count as white space, by their code points.
pub proof fn law_white_space(c: char, r: bool)
    requires
        call_ensures(char_is_white_space, (c,), r),
    ensures
        ({
            let point = c as u32;
            r <==> 0x09 <= point <= 0x0d || point == 0x20 || point == 0x85 || point == 0xa0 || point
                == 0x1680 || 0x2000 <= point <= 0x200a || point == 0x2028 || point == 0x2029 || point
                == 0x202f || point == 0x205f || point == 0x3000
        }),
        r <==> is_white_space(c),
{
}

/// Every character of `s` is white space.
pub open spec fn all_white(s: Seq<char>) -> bool {
    forall|j: int| 0 <= j < s.len() ==> is_white_space(#[trigger] s[j])
}

proof fn lemma_trim_end(core: Seq<char>, tail: Seq<char>)
    requires
        core.len() == 0 || !is_white_space(core.last()),
        all_white(tail),
    ensures
        trim_end(core + tail) == core,
    decreases tail.len(),
{
    let s = core + tail;
    if tail.len() > 0 {
        assert(s[s.len() - 1] == tail[tail.len() - 1]);
        let init = tail.subrange(0, tail.len() - 1);
        assert forall|j: int| 0 <= j < init.len() implies is_white_space(#[trigger] init[j]) by {
            assert(init[j] == tail[j]);
        }
        lemma_trim_end(core, init);
        assert(s.subrange(0, s.len() - 1) =~= core + init);
    } else {
        assert(s =~= core);
    }
}

/// Trimming takes off the white space around a text and nothing else; of white space nothing
/// is left.
pub proof fn law_trimming(indent: Seq<char>, core: Seq<char>, tail: Seq<char>)
    requires
        all_white(indent),
        all_white(tail),
        core.len() == 0 || is_trimmed(core),
    ensures
        trim(indent + core + tail) == core,
        core.len() > 0 ==> trim_start(indent + core + tail) == core + tail,
        core.len() == 0 ==> trim_start(indent + core + tail) == Seq::<char>::empty(),
{
    let s = indent + core + tail;
    let none = Seq::<char>::empty();
    if core.len() > 0 {
        assert((core + tail)[0] == core[0]);
        lemma_trim_start(indent, core + tail);
        assert(indent + (core + tail) =~= s);
        lemma_trim_end(core, tail);
    } else {
        assert forall|j: int| 0 <= j < s.len() implies is_white_space(#[trigger] s[j]) by {
            if j < indent.len() {
                assert(s[j] == indent[j]);
            } else {
                assert(s[j] == tail[j - indent.len()]);
            }
        }
        lemma_trim_start(s, none);
        assert(s + none =~= s);
        assert(core =~= none);
    }
}

/// Lowering turns each ASCII capital into the small letter at its place in the alphabet, and
/// leaves everything else where and as it is.
pub proof fn law_lowering(s: Seq<char>, i: int)
    requires
        0 <= i < s.len(),
    ensures
        ascii_lower(s).len() == s.len(),
        'A' <= s[i] <= 'Z' ==> ascii_lower(s)[i] as int - 'a' as int == s[i] as int - 'A' as int,
        !('A' <= s[i] <= 'Z') ==> ascii_lower(s)[i] == s[i],
{
}

/// Every character of `s` is an ASCII decimal digit.
pub open spec fn all_digits(s: Seq<char>) -> bool {
    forall|j: int| 0 <= j < s.len() ==> '0' <= #[trigger] s[j] <= '9'
}

/// A further digit makes a written number ten times as large, and adds its own value.
pub proof fn law_digits_count_in_tens(digits: Seq<char>, c: char)
    requires
        '0' <= c <= '9',
    ensures
        decimal_value(Seq::empty()) == 0,
        decimal_value(digits.push(c)) == 10 * decimal_value(digits) + (c as int - '0' as int),
{
    assert(digits.push(c).drop_last() =~= digits);
}

/// A text of digits, with or without a plus sign before them, is read as the number that they
/// write if it fits.
pub proof fn law_numbers_are_read(digits: Seq<char>)
    requires
        digits.len() > 0,
        all_digits(digits),
    ensures
        decimal_value(digits) <= usize::MAX ==> usize_value(digits) == Some(
            decimal_value(digits) as usize,
        ),
        decimal_value(digits) > usize::MAX ==> usize_value(digits) is None,
        usize_value(seq!['+'] + digits) == usize_value(digits),
{
    assert('0' <= digits[0] <= '9');
    assert((seq!['+'] + digits).subrange(1, digits.len() as int + 1) =~= digits);
}

/// A text with anything but digits behind an optional plus sign, or with no digit, is no
/// number.
pub proof fn law_other_texts_are_no_numbers(s: Seq<char>, i: int)
    requires
        s.len() > 0 ==> 0 <= i < s.len() && !('0' <= s[i] <= '9') && (i > 0 || s[0] != '+'
            || s.len() == 1),
    ensures
        usize_value(s) is None,
{
    let rest = without_plus(s);
    if s.len() > 0 {
        if s[0] != '+' {
            assert(rest[i] == s[i]);
        } else if i > 0 {
            assert(rest[i - 1] == s[i]);
        }
    }
}

/// What the functions on texts return is what the laws here speak of.
pub proof fn law_text_functions(
    s: &str,
    t: &str,
    chars: &[char],
    sep: char,
    has: bool,
    begins: bool,
    ends: bool,
    same: bool,
    lower: Vec<char>,
    core: Vec<char>,
    rows: Vec<Vec<char>>,
    parts: Vec<Vec<char>>,
    number: Option<usize>,
    at: usize,
)
    requires
        call_ensures(str_contains, (s, t), has),
        call_ensures(str_starts_with, (s, t), begins),
        call_ensures(str_ends_with, (s, t), ends),
        call_ensures(str_eq, (s, t), same),
        call_ensures(lowered, (s,), lower),
        call_ensures(trimmed, (chars,), core),
        call_ensures(lines, (chars,), rows),
        call_ensures(fields, (chars, sep), parts),
        call_ensures(parse_usize, (s,), number),
        call_ensures(trimmed_start, (chars,), at),
    ensures
        has <==> contains_text(s@, t@),
        begins <==> starts_with(s@, t@),
        ends <==> ends_with(s@, t@),
        same <==> s@ == t@,
        lower@ == ascii_lower(s@),
        core@ == trim(chars@),
        rows@.len() == lines_of(chars@).len(),
        forall|k: int| 0 <= k < rows@.len() ==> (#[trigger] rows@[k])@ == lines_of(chars@)[k],
        parts@.len() == split_on(chars@, sep).len(),
        forall|k: int|
            0 <= k < parts@.len() ==> (#[trigger] parts@[k])@ == split_on(chars@, sep)[k],
        number == usize_value(s@),
        chars@.skip(at as int) == trim_start(chars@),
{
    assert forall|k: int| 0 <= k < rows@.len() implies (#[trigger] rows@[k])@ == lines_of(
        chars@,
    )[k] by {
        assert(pieces(rows@)[k] == rows@[k]@);
    }
    assert forall|k: int| 0 <= k < parts@.len() implies (#[trigger] parts@[k])@ == split_on(
        chars@,
        sep,
    )[k] by {
        assert(pieces(parts@)[k] == parts@[k]@);
    }
    assert(pieces(rows@).len() == rows@.len());
    assert(pieces(parts@).len() == parts@.len());
    assert(chars@.skip(at as int) =~= chars@.subrange(at as int, chars@.len() as int));
}

} // verus!
