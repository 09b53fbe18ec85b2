//! Blanking of literals and comments, so that token searches see code only.

use vstd::prelude::*;

use crate::text::{chars_of, find_char, index_of, lemma_find_char};

verus! {

/// A stretch of source text that is read as one unit: one character of code, one literal
/// or one comment.
///
/// Its characters up to `head` and from `tail` on are code or delimiters; those between
/// them are the contents of a literal or a comment.
pub struct Region {
    pub head: int,
    pub tail: int,
    pub end: int,
}

/// `a` followed by `b` stands in `s` at index `i`.
pub open spec fn pair_at(s: Seq<char>, i: int, a: char, b: char) -> bool {
    0 <= i && i + 1 < s.len() && s[i] == a && s[i + 1] == b
}

/// The index of the `*/` that closes `depth` block comments from index `i` on, or the
/// length of `s` if nothing does. Block comments nest.
pub open spec fn block_body_end(s: Seq<char>, i: int, depth: int) -> int
    decreases s.len() - i,
{
    if i >= s.len() {
        s.len() as int
    } else if pair_at(s, i, '/', '*') {
        block_body_end(s, i + 2, depth + 1)
    } else if pair_at(s, i, '*', '/') {
        if depth <= 1 {
            i
        } else {
            block_body_end(s, i + 2, depth - 1)
        }
    } else {
        block_body_end(s, i + 1, depth)
    }
}

/// The index of the quote that closes a string literal from index `i` on, or the length of
/// `s` if none does. A backslash and the character after it are no quote.
pub open spec fn string_body_end(s: Seq<char>, i: int) -> int
    decreases s.len() - i,
{
    if i >= s.len() {
        s.len() as int
    } else if s[i] == '\\' && i + 1 < s.len() {
        string_body_end(s, i + 2)
    } else if s[i] == '"' {
        i
    } else {
        string_body_end(s, i + 1)
    }
}

/// The number of `#` that stand in `s` from index `i` on without a gap.
pub open spec fn hash_run(s: Seq<char>, i: int) -> int
    decreases s.len() - i,
{
    if 0 <= i < s.len() && s[i] == '#' {
        1 + hash_run(s, i + 1)
    } else {
        0
    }
}

/// A quote followed by `hashes` times `#` stands in `s` at index `i`.
pub open spec fn raw_close_at(s: Seq<char>, i: int, hashes: int) -> bool {
    0 <= i < s.len() && s[i] == '"' && hash_run(s, i + 1) >= hashes
}

/// The index of the quote that closes a raw string literal from index `i` on, or the length
/// of `s` if none does.
pub open spec fn raw_body_end(s: Seq<char>, i: int, hashes: int) -> int
    decreases s.len() - i,
{
    if i >= s.len() {
        s.len() as int
    } else if raw_close_at(s, i, hashes) {
        i
    } else {
        raw_body_end(s, i + 1, hashes)
    }
}

/// The index just past an optional `b` at index `i`, if an `r` stands there.
pub open spec fn raw_letter(s: Seq<char>, i: int) -> int {
    if pair_at(s, i, 'b', 'r') {
        i + 1
    } else {
        i
    }
}

/// The number of `#` between the `r` and the quote of a raw string literal at index `i`.
pub open spec fn raw_hashes(s: Seq<char>, i: int) -> int {
    hash_run(s, raw_letter(s, i) + 1)
}

/// The index of the opening quote of a raw string literal at index `i`.
pub open spec fn raw_quote(s: Seq<char>, i: int) -> int {
    raw_letter(s, i) + 1 + raw_hashes(s, i)
}

/// A raw string literal opens at index `i`: an optional `b`, an `r`, any number of `#`, and
/// a quote.
pub open spec fn raw_opens_at(s: Seq<char>, i: int) -> bool {
    &&& 0 <= i < s.len()
    &&& s[raw_letter(s, i)] == 'r'
    &&& raw_quote(s, i) < s.len()
    &&& s[raw_quote(s, i)] == '"'
}

/// The region whose contents run from `head` to `tail`, with a closing delimiter of `width`
/// characters there unless the text ends first.
pub open spec fn delimited(s: Seq<char>, head: int, tail: int, width: int) -> Region {
    Region {
        head,
        tail,
        end: if tail < s.len() {
            tail + width
        } else {
            tail
        },
    }
}

/// The region of `s` that begins at index `i`.
pub open spec fn region_at(s: Seq<char>, i: int) -> Region {
    if pair_at(s, i, '/', '/') {
        // The line feed is no part of the comment.
        delimited(s, i + 2, find_char(s, '\n', i + 2), 0)
    } else if pair_at(s, i, '/', '*') {
        delimited(s, i + 2, block_body_end(s, i + 2, 1), 2)
    } else if raw_opens_at(s, i) {
        let head = raw_quote(s, i) + 1;
        let hashes = raw_hashes(s, i);
        delimited(s, head, raw_body_end(s, head, hashes), 1 + hashes)
    } else if s[i] == '"' {
        delimited(s, i + 1, string_body_end(s, i + 1), 1)
    } else if pair_at(s, i, 'b', '"') {
        delimited(s, i + 2, string_body_end(s, i + 2), 1)
    } else if pair_at(s, i, '\'', '\\') {
        // The character after the backslash closes nothing, whatever it is.
        let from = if i + 3 <= s.len() {
            i + 3
        } else {
            i + 2
        };
        delimited(s, i + 1, find_char(s, '\'', from), 1)
    } else if s[i] == '\'' && i + 2 < s.len() && s[i + 2] == '\'' {
        Region { head: i + 1, tail: i + 2, end: i + 3 }
    } else {
        // Code, or the tick of a lifetime or a label.
        Region { head: i + 1, tail: i + 1, end: i + 1 }
    }
}

/// `n` spaces.
pub open spec fn spaces(n: int) -> Seq<char> {
    Seq::new(n as nat, |j: int| ' ')
}

/// The region `r` of `s` that begins at index `i`, with its contents blanked.
pub open spec fn blanked_region(s: Seq<char>, i: int, r: Region) -> Seq<char> {
    s.subrange(i, r.head) + spaces(r.tail - r.head) + s.subrange(r.tail, r.end)
}

/// `s` from index `i` on, region by region, with the contents of literals and comments
/// blanked.
pub open spec fn blanked_from(s: Seq<char>, i: int) -> Seq<char>
    decreases s.len() - i,
{
    if i < 0 || i >= s.len() {
        Seq::empty()
    } else {
        proof {
            lemma_region_bounds(s, i);
        }
        blanked_region(s, i, region_at(s, i)) + blanked_from(s, region_at(s, i).end)
    }
}

/// `s` with the contents of literals and comments blanked.
pub open spec fn blanked(s: Seq<char>) -> Seq<char> {
    blanked_from(s, 0)
}

proof fn lemma_block_body_end_bounds(s: Seq<char>, i: int, depth: int)
    requires
        0 <= i <= s.len(),
    ensures
        i <= block_body_end(s, i, depth) <= s.len(),
        block_body_end(s, i, depth) < s.len() ==> pair_at(
            s,
            block_body_end(s, i, depth),
            '*',
            '/',
        ),
    decreases s.len() - i,
{
    if i < s.len() {
        if pair_at(s, i, '/', '*') {
            lemma_block_body_end_bounds(s, i + 2, depth + 1);
        } else if pair_at(s, i, '*', '/') {
            if depth > 1 {
                lemma_block_body_end_bounds(s, i + 2, depth - 1);
            }
        } else {
            lemma_block_body_end_bounds(s, i + 1, depth);
        }
    }
}

proof fn lemma_string_body_end_bounds(s: Seq<char>, i: int)
    requires
        0 <= i <= s.len(),
    ensures
        i <= string_body_end(s, i) <= s.len(),
    decreases s.len() - i,
{
    if i < s.len() {
        if s[i] == '\\' && i + 1 < s.len() {
            lemma_string_body_end_bounds(s, i + 2);
        } else if s[i] != '"' {
            lemma_string_body_end_bounds(s, i + 1);
        }
    }
}

/// A run of `#` lies inside the text.
pub proof fn lemma_hash_run_bounds(s: Seq<char>, i: int)
    requires
        0 <= i <= s.len(),
    ensures
        0 <= hash_run(s, i) <= s.len() - i,
        forall|j: int| i <= j < i + hash_run(s, i) ==> s[j] == '#',
    decreases s.len() - i,
{
    if i < s.len() && s[i] == '#' {
        lemma_hash_run_bounds(s, i + 1);
    }
}

proof fn lemma_raw_body_end_bounds(s: Seq<char>, i: int, hashes: int)
    requires
        0 <= i <= s.len(),
    ensures
        i <= raw_body_end(s, i, hashes) <= s.len(),
        raw_body_end(s, i, hashes) < s.len() ==> raw_close_at(
            s,
            raw_body_end(s, i, hashes),
            hashes,
        ),
    decreases s.len() - i,
{
    if i < s.len() && !raw_close_at(s, i, hashes) {
        lemma_raw_body_end_bounds(s, i + 1, hashes);
    }
}

/// A region is never empty and lies inside the text.
pub proof fn lemma_region_bounds(s: Seq<char>, i: int)
    requires
        0 <= i < s.len(),
    ensures
        i < region_at(s, i).head <= region_at(s, i).tail <= region_at(s, i).end <= s.len(),
{
    if pair_at(s, i, '/', '/') {
        lemma_find_char(s, '\n', i + 2);
    } else if pair_at(s, i, '/', '*') {
        lemma_block_body_end_bounds(s, i + 2, 1);
    } else if raw_opens_at(s, i) {
        let head = raw_quote(s, i) + 1;
        let hashes = raw_hashes(s, i);
        lemma_hash_run_bounds(s, raw_letter(s, i) + 1);
        lemma_raw_body_end_bounds(s, head, hashes);
        let tail = raw_body_end(s, head, hashes);
        if tail < s.len() {
            lemma_hash_run_bounds(s, tail + 1);
        }
    } else if s[i] == '"' {
        lemma_string_body_end_bounds(s, i + 1);
    } else if pair_at(s, i, 'b', '"') {
        lemma_string_body_end_bounds(s, i + 2);
    } else if pair_at(s, i, '\'', '\\') {
        if i + 3 <= s.len() {
            lemma_find_char(s, '\'', i + 3);
        } else {
            lemma_find_char(s, '\'', i + 2);
        }
    }
}

/// Whether `a` followed by `b` stands in `s` at index `i`.
fn is_pair(s: &[char], i: usize, a: char, b: char) -> (r: bool)
    requires
        i < s@.len(),
    ensures
        r == pair_at(s@, i as int, a, b),
{
    s.len() - i > 1 && s[i] == a && s[i + 1] == b
}

/// The index of the `*/` that closes the block comment whose contents begin at `from`, or
/// the length of `s`.
fn find_block_end(s: &[char], from: usize) -> (r: usize)
    requires
        1 <= from <= s@.len(),
    ensures
        r == block_body_end(s@, from as int, 1),
        from <= r <= s@.len(),
{
    let len: usize = s.len();
    let mut i: usize = from;
    let mut depth: usize = 1;
    while i < len
        invariant
            len == s@.len(),
            from <= i <= len,
            1 <= depth <= i,
            block_body_end(s@, from as int, 1) == block_body_end(s@, i as int, depth as int),
        decreases len - i,
    {
        if is_pair(s, i, '/', '*') {
            depth = depth + 1;
            i = i + 2;
        } else if is_pair(s, i, '*', '/') {
            if depth == 1 {
                return i;
            }
            depth = depth - 1;
            i = i + 2;
        } else {
            i = i + 1;
        }
    }
    i
}

/// The index of the quote that closes the string literal whose contents begin at `from`, or
/// the length of `s`.
fn find_string_end(s: &[char], from: usize) -> (r: usize)
    requires
        from <= s@.len(),
    ensures
        r == string_body_end(s@, from as int),
        from <= r <= s@.len(),
{
    let len: usize = s.len();
    let mut i: usize = from;
    while i < len
        invariant
            len == s@.len(),
            from <= i <= len,
            string_body_end(s@, from as int) == string_body_end(s@, i as int),
        decreases len - i,
    {
        if s[i] == '\\' && len - i > 1 {
            i = i + 2;
        } else if s[i] == '"' {
            return i;
        } else {
            i = i + 1;
        }
    }
    i
}

/// The number of `#` that stand in `s` from index `from` on without a gap.
fn count_hashes(s: &[char], from: usize) -> (r: usize)
    requires
        from <= s@.len(),
    ensures
        r == hash_run(s@, from as int),
        from + r <= s@.len(),
{
    let len: usize = s.len();
    let mut i: usize = from;
    while i < len && s[i] == '#'
        invariant
            len == s@.len(),
            from <= i <= len,
            hash_run(s@, from as int) == i - from + hash_run(s@, i as int),
        decreases len - i,
    {
        i = i + 1;
    }
    i - from
}

/// The index of the quote that closes the raw string literal whose contents begin at
/// `from`, or the length of `s`.
fn find_raw_end(s: &[char], from: usize, hashes: usize) -> (r: usize)
    requires
        from <= s@.len(),
    ensures
        r == raw_body_end(s@, from as int, hashes as int),
        from <= r <= s@.len(),
{
    let len: usize = s.len();
    let mut i: usize = from;
    while i < len
        invariant
            len == s@.len(),
            from <= i <= len,
            raw_body_end(s@, from as int, hashes as int) == raw_body_end(
                s@,
                i as int,
                hashes as int,
            ),
        decreases len - i,
    {
        if s[i] == '"' && count_hashes(s, i + 1) >= hashes {
            return i;
        }
        i = i + 1;
    }
    i
}

/// The head, the tail and the end of the region of `s` that begins at index `i`.
fn find_region(s: &[char], i: usize) -> (r: (usize, usize, usize))
    requires
        i < s@.len(),
    ensures
        r.0 == region_at(s@, i as int).head,
        r.1 == region_at(s@, i as int).tail,
        r.2 == region_at(s@, i as int).end,
        i < r.0 <= r.1 <= r.2 <= s@.len(),
{
    let len: usize = s.len();
    proof {
        lemma_region_bounds(s@, i as int);
    }
    if is_pair(s, i, '/', '/') {
        let tail: usize = index_of(s, '\n', i + 2);
        return (i + 2, tail, tail);
    }
    if is_pair(s, i, '/', '*') {
        let tail: usize = find_block_end(s, i + 2);
        return (i + 2, tail, if tail < len { tail + 2 } else { tail });
    }
    let letter: usize = if is_pair(s, i, 'b', 'r') {
        i + 1
    } else {
        i
    };
    if s[letter] == 'r' {
        let hashes: usize = count_hashes(s, letter + 1);
        let quote: usize = letter + 1 + hashes;
        if quote < len && s[quote] == '"' {
            let tail: usize = find_raw_end(s, quote + 1, hashes);
            return (quote + 1, tail, if tail < len { tail + (1 + hashes) } else { tail });
        }
    }
    if s[i] == '"' {
        let tail: usize = find_string_end(s, i + 1);
        return (i + 1, tail, if tail < len { tail + 1 } else { tail });
    }
    if is_pair(s, i, 'b', '"') {
        let tail: usize = find_string_end(s, i + 2);
        return (i + 2, tail, if tail < len { tail + 1 } else { tail });
    }
    if is_pair(s, i, '\'', '\\') {
        let from: usize = if len - i >= 3 {
            i + 3
        } else {
            i + 2
        };
        let tail: usize = index_of(s, '\'', from);
        return (i + 1, tail, if tail < len { tail + 1 } else { tail });
    }
    if s[i] == '\'' && len - i > 2 && s[i + 2] == '\'' {
        return (i + 1, i + 2, i + 3);
    }
    (i + 1, i + 1, i + 1)
}

/// Appends the characters of `s` from `from` to `to`.
fn push_kept(out: &mut String, s: &[char], from: usize, to: usize)
    requires
        from <= to <= s@.len(),
    ensures
        final(out)@ == old(out)@ + s@.subrange(from as int, to as int),
{
    let ghost before = out@;
    let mut i: usize = from;
    while i < to
        invariant
            from <= i <= to <= s@.len(),
            out@ == before + s@.subrange(from as int, i as int),
        decreases to - i,
    {
        out.push(s[i]);
        i = i + 1;
    }
}

/// Appends as many spaces as there are indices from `from` to `to`.
fn push_spaces(out: &mut String, from: usize, to: usize)
    requires
        from <= to,
    ensures
        final(out)@ == old(out)@ + spaces(to - from),
{
    let ghost before = out@;
    let mut i: usize = from;
    while i < to
        invariant
            from <= i <= to,
            out@ == before + spaces(i - from),
        decreases to - i,
    {
        out.push(' ');
        i = i + 1;
    }
}

/// `snippet` with the contents of string, byte-string and character literals and of line
/// and block comments replaced by spaces. All delimiters, and every token outside a literal
/// or a comment, stay in place.
///
/// Token searches run over source snippets, and a bare substring match would fire on a word
/// that only appears inside a string literal or a comment. The scanner knows regular and
/// byte strings with their backslash escapes; raw strings, which have no escapes and end at
/// a quote with as many `#` as they began with; character literals, told apart from
/// lifetimes and labels by their closing tick; and line and nested block comments.
pub fn code_without_literals_and_comments(snippet: &str) -> (r: String)
    ensures
        r@ == blanked(snippet@),
{
    let chars = chars_of(snippet);
    let s: &[char] = chars.as_slice();
    let mut out = String::new();
    let mut i: usize = 0;
    while i < s.len()
        invariant
            s@ == snippet@,
            0 <= i <= s@.len(),
            out@ + blanked_from(s@, i as int) == blanked(s@),
        decreases s@.len() - i,
    {
        let ghost before = out@;
        let (head, tail, end) = find_region(s, i);
        push_kept(&mut out, s, i, head);
        push_spaces(&mut out, head, tail);
        push_kept(&mut out, s, tail, end);
        proof {
            let region = blanked_region(s@, i as int, region_at(s@, i as int));
            assert(out@ =~= before + region);
            assert((before + region) + blanked_from(s@, end as int) =~= before + (region
                + blanked_from(s@, end as int)));
        }
        i = end;
    }
    proof {
        assert(out@ + blanked_from(s@, i as int) =~= out@);
    }
    out
}

} // verus!
