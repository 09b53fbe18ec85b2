//! What blanking keeps, and what it hides.

use vstd::prelude::*;

use crate::blank::{
    blanked, blanked_from, blanked_region, block_body_end, code_without_literals_and_comments,
    hash_run, lemma_hash_run_bounds, lemma_region_bounds, pair_at, raw_body_end, raw_close_at,
    raw_hashes, raw_letter, raw_opens_at, raw_quote, region_at, spaces, string_body_end,
};
use crate::text::{contains_text, lemma_find_char_is, lemma_find_char_shift, occurs_at, starts_with};
use crate::tokens::{is_sqlx_boundary, names_database_adapter};

verus! {

/// `s` holds no character that opens a literal or a comment.
pub open spec fn is_plain_code(s: Seq<char>) -> bool {
    forall|j: int|
        0 <= j < s.len() ==> #[trigger] s[j] != '"' && s[j] != '\'' && s[j] != '/'
}

/// `s` does not end in a prefix of a raw or byte string literal.
pub open spec fn ends_a_token(s: Seq<char>) -> bool {
    s.len() > 0 ==> s.last() != 'b' && s.last() != 'r' && s.last() != '#'
}

/// `p` and what follows it, `u`, are each blanked as if it stood alone.
pub open spec fn parts_before(p: Seq<char>, u: Seq<char>) -> bool {
    blanked(p + u) == blanked(p) + blanked(u)
}

/// `p` and whatever follows it are each blanked as if it stood alone.
pub open spec fn stands_alone(p: Seq<char>) -> bool {
    forall|u: Seq<char>| #[trigger] parts_before(p, u)
}

proof fn lemma_positions(s: Seq<char>, i: int)
    requires
        0 <= i <= s.len(),
    ensures
        blanked_from(s, i).len() == s.len() - i,
        forall|j: int|
            0 <= j < s.len() - i ==> #[trigger] blanked_from(s, i)[j] == s[i + j] || blanked_from(
                s,
                i,
            )[j] == ' ',
    decreases s.len() - i,
{
    if i < s.len() {
        lemma_region_bounds(s, i);
        let r = region_at(s, i);
        lemma_positions(s, r.end);
        let part = blanked_region(s, i, r);
        assert(part.len() == r.end - i);
        assert forall|j: int| 0 <= j < s.len() - i implies #[trigger] blanked_from(s, i)[j] == s[i
            + j] || blanked_from(s, i)[j] == ' ' by {
            if j < part.len() {
                assert(blanked_from(s, i)[j] == part[j]);
            } else {
                assert(blanked_from(s, i)[j] == blanked_from(s, r.end)[j - part.len()]);
            }
        }
    }
}

/// What the scanner returns is the blanked text, of which the laws here speak.
pub proof fn law_scanner_blanks(snippet: &str, r: String)
    requires
        call_ensures(code_without_literals_and_comments, (snippet,), r),
    ensures
        r@ == blanked(snippet@),
{
}

/// Blanking moves nothing: the result is as long as the text, and each of its characters
/// is the one that stood there or a space.
pub proof fn law_blanking_keeps_positions(s: Seq<char>)
    ensures
        blanked(s).len() == s.len(),
        forall|j: int| 0 <= j < s.len() ==> #[trigger] blanked(s)[j] == s[j] || blanked(s)[j] == ' ',
{
    lemma_positions(s, 0);
}

/// Where `p` is plain code that ends a token, no literal or comment opens inside it.
proof fn lemma_plain_region(p: Seq<char>, t: Seq<char>, j: int)
    requires
        is_plain_code(p),
        ends_a_token(p),
        0 <= j < p.len(),
    ensures
        region_at(p + t, j).head == j + 1,
        region_at(p + t, j).tail == j + 1,
        region_at(p + t, j).end == j + 1,
{
    let s = p + t;
    assert(s[j] == p[j]);
    let last = p.len() - 1;
    assert(s[last] == p.last());
    if raw_opens_at(s, j) {
        let letter = raw_letter(s, j);
        lemma_hash_run_bounds(s, letter + 1);
        let quote = raw_quote(s, j);
        if quote < p.len() {
            assert(s[quote] == p[quote]);
        }
        assert(j <= last < quote);
        assert(false);
    }
    if pair_at(s, j, 'b', '"') {
        if j + 1 < p.len() {
            assert(s[j + 1] == p[j + 1]);
        }
        assert(false);
    }
}

proof fn lemma_plain_prefix(p: Seq<char>, t: Seq<char>, i: int)
    requires
        is_plain_code(p),
        ends_a_token(p),
        0 <= i <= p.len(),
    ensures
        blanked_from(p + t, i) == p.subrange(i, p.len() as int) + blanked_from(
            p + t,
            p.len() as int,
        ),
    decreases p.len() - i,
{
    let s = p + t;
    if i < p.len() {
        lemma_plain_region(p, t, i);
        lemma_plain_prefix(p, t, i + 1);
        let r = region_at(s, i);
        assert(blanked_region(s, i, r) =~= seq![p[i]]);
        assert(seq![p[i]] + (p.subrange(i + 1, p.len() as int) + blanked_from(s, p.len() as int))
            =~= p.subrange(i, p.len() as int) + blanked_from(s, p.len() as int));
    } else {
        assert(p.subrange(i, p.len() as int) + blanked_from(s, p.len() as int) =~= blanked_from(
            s,
            p.len() as int,
        ));
    }
}

proof fn lemma_block_shift(p: Seq<char>, s: Seq<char>, i: int, depth: int)
    requires
        0 <= i <= s.len(),
    ensures
        block_body_end(p + s, p.len() + i, depth) == p.len() + block_body_end(s, i, depth),
    decreases s.len() - i,
{
    if i < s.len() {
        assert((p + s)[p.len() + i] == s[i]);
        if i + 1 < s.len() {
            assert((p + s)[p.len() + i + 1] == s[i + 1]);
        }
        if pair_at(s, i, '/', '*') {
            lemma_block_shift(p, s, i + 2, depth + 1);
        } else if pair_at(s, i, '*', '/') {
            if depth > 1 {
                lemma_block_shift(p, s, i + 2, depth - 1);
            }
        } else {
            lemma_block_shift(p, s, i + 1, depth);
        }
    }
}

proof fn lemma_string_shift(p: Seq<char>, s: Seq<char>, i: int)
    requires
        0 <= i <= s.len(),
    ensures
        string_body_end(p + s, p.len() + i) == p.len() + string_body_end(s, i),
    decreases s.len() - i,
{
    if i < s.len() {
        assert((p + s)[p.len() + i] == s[i]);
        if s[i] == '\\' && i + 1 < s.len() {
            lemma_string_shift(p, s, i + 2);
        } else if s[i] != '"' {
            lemma_string_shift(p, s, i + 1);
        }
    }
}

proof fn lemma_hash_shift(p: Seq<char>, s: Seq<char>, i: int)
    requires
        0 <= i <= s.len(),
    ensures
        hash_run(p + s, p.len() + i) == hash_run(s, i),
    decreases s.len() - i,
{
    if i < s.len() {
        assert((p + s)[p.len() + i] == s[i]);
        if s[i] == '#' {
            lemma_hash_shift(p, s, i + 1);
        }
    }
}

proof fn lemma_raw_shift(p: Seq<char>, s: Seq<char>, i: int, hashes: int)
    requires
        0 <= i <= s.len(),
    ensures
        raw_body_end(p + s, p.len() + i, hashes) == p.len() + raw_body_end(s, i, hashes),
    decreases s.len() - i,
{
    if i < s.len() {
        assert((p + s)[p.len() + i] == s[i]);
        lemma_hash_shift(p, s, i + 1);
        if !raw_close_at(s, i, hashes) {
            lemma_raw_shift(p, s, i + 1, hashes);
        }
    }
}

/// A region does not depend on what stands before it.
proof fn lemma_region_shift(p: Seq<char>, s: Seq<char>, i: int)
    requires
        0 <= i < s.len(),
    ensures
        region_at(p + s, p.len() + i).head == p.len() + region_at(s, i).head,
        region_at(p + s, p.len() + i).tail == p.len() + region_at(s, i).tail,
        region_at(p + s, p.len() + i).end == p.len() + region_at(s, i).end,
{
    let u = p + s;
    let k = p.len() + i;
    assert(u[k] == s[i]);
    if i + 1 < s.len() {
        assert(u[k + 1] == s[i + 1]);
    }
    if i + 2 < s.len() {
        assert(u[k + 2] == s[i + 2]);
    }
    if pair_at(s, i, '/', '/') {
        lemma_find_char_shift(p, s, '\n', i + 2);
    } else if pair_at(s, i, '/', '*') {
        lemma_block_shift(p, s, i + 2, 1);
    } else {
        let letter = raw_letter(s, i);
        assert(raw_letter(u, k) == p.len() + letter);
        lemma_hash_shift(p, s, letter + 1);
        lemma_hash_run_bounds(s, letter + 1);
        let quote = raw_quote(s, i);
        assert(raw_quote(u, k) == p.len() + quote);
        if quote < s.len() {
            assert(u[p.len() + quote] == s[quote]);
        }
        assert(raw_opens_at(u, k) == raw_opens_at(s, i));
        if raw_opens_at(s, i) {
            lemma_raw_shift(p, s, quote + 1, raw_hashes(s, i));
        } else if s[i] == '"' {
            lemma_string_shift(p, s, i + 1);
        } else if pair_at(s, i, 'b', '"') {
            lemma_string_shift(p, s, i + 2);
        } else if pair_at(s, i, '\'', '\\') {
            if i + 3 <= s.len() {
                lemma_find_char_shift(p, s, '\'', i + 3);
            } else {
                lemma_find_char_shift(p, s, '\'', i + 2);
            }
        }
    }
}

/// What blanking makes of the rest of a text does not depend on what stands before it.
proof fn lemma_blanked_shift(p: Seq<char>, s: Seq<char>, i: int)
    requires
        0 <= i <= s.len(),
    ensures
        blanked_from(p + s, p.len() + i) == blanked_from(s, i),
    decreases s.len() - i,
{
    if i < s.len() {
        lemma_region_bounds(s, i);
        lemma_region_shift(p, s, i);
        let r = region_at(s, i);
        let q = region_at(p + s, p.len() + i);
        lemma_blanked_shift(p, s, r.end);
        assert(blanked_region(p + s, p.len() + i, q) =~= blanked_region(s, i, r));
    }
}

/// If the first region of `lead + t` ends where `t` begins, `t` is blanked on its own.
proof fn lemma_first_region(lead: Seq<char>, t: Seq<char>, shown: Seq<char>)
    requires
        lead.len() > 0,
        region_at(lead + t, 0).end == lead.len(),
        blanked_region(lead + t, 0, region_at(lead + t, 0)) == shown,
    ensures
        blanked(lead + t) == shown + blanked(t),
{
    lemma_blanked_shift(lead, t, 0);
}

/// Code without a quote, a tick or a slash, up to the end of a token, stays as it is, and
/// what follows is blanked as if it stood alone.
pub proof fn law_code_stays_before(p: Seq<char>, t: Seq<char>)
    requires
        is_plain_code(p),
        ends_a_token(p),
    ensures
        blanked(p + t) == p + blanked(t),
{
    lemma_plain_prefix(p, t, 0);
    lemma_blanked_shift(p, t, 0);
    assert(p.subrange(0, p.len() as int) =~= p);
}

proof fn lemma_plain_code_from(s: Seq<char>, i: int)
    requires
        is_plain_code(s),
        0 <= i <= s.len(),
    ensures
        blanked_from(s, i) == s.subrange(i, s.len() as int),
    decreases s.len() - i,
{
    if i < s.len() {
        if raw_opens_at(s, i) {
            lemma_hash_run_bounds(s, raw_letter(s, i) + 1);
            assert(s[raw_quote(s, i)] == '"');
            assert(false);
        }
        if pair_at(s, i, 'b', '"') {
            assert(s[i + 1] == '"');
            assert(false);
        }
        let r = region_at(s, i);
        assert(r.head == i + 1 && r.tail == i + 1 && r.end == i + 1);
        lemma_plain_code_from(s, i + 1);
        assert(blanked_region(s, i, r) =~= seq![s[i]]);
        assert(seq![s[i]] + s.subrange(i + 1, s.len() as int) =~= s.subrange(i, s.len() as int));
    }
}

/// Code without a quote, a tick or a slash stays as it is.
pub proof fn law_plain_code_stays(s: Seq<char>)
    requires
        is_plain_code(s),
    ensures
        blanked(s) == s,
{
    lemma_plain_code_from(s, 0);
    assert(s.subrange(0, s.len() as int) =~= s);
}

/// `body` is what can stand between the quotes of a string literal: it holds no quote but
/// behind a backslash, and its last character is no backslash that would take the closing
/// quote.
pub open spec fn is_string_body(body: Seq<char>) -> bool {
    string_body_end(body + seq!['"'], 0) == body.len()
}

proof fn lemma_string_extend(u: Seq<char>, t: Seq<char>, i: int)
    requires
        0 <= i <= u.len(),
        string_body_end(u, i) < u.len(),
    ensures
        string_body_end(u + t, i) == string_body_end(u, i),
    decreases u.len() - i,
{
    if i < u.len() {
        assert((u + t)[i] == u[i]);
        if u[i] == '\\' && i + 1 < u.len() {
            lemma_string_extend(u, t, i + 2);
        } else if u[i] != '"' {
            lemma_string_extend(u, t, i + 1);
        }
    }
}

/// What stands before the quote or the `r` of a byte string literal, and of another one.
pub open spec fn byte_prefix(byte: bool) -> Seq<char> {
    if byte {
        seq!['b']
    } else {
        Seq::empty()
    }
}

/// The contents of a string or byte string literal are blanked, its delimiters stay, and what
/// follows is blanked as if it stood alone.
pub proof fn law_string_contents_are_blanked(byte: bool, body: Seq<char>, t: Seq<char>)
    requires
        is_string_body(body),
    ensures
        blanked(byte_prefix(byte) + seq!['"'] + body + seq!['"'] + t) == byte_prefix(byte) + seq![
            '"',
        ] + spaces(body.len() as int) + seq!['"'] + blanked(t),
{
    let open = byte_prefix(byte) + seq!['"'];
    let rest = body + seq!['"'];
    let lead = open + body + seq!['"'];
    let s = lead + t;
    let k = open.len() + body.len();
    lemma_string_extend(rest, t, 0);
    lemma_string_shift(open, rest + t, 0);
    assert(open + (rest + t) =~= s);
    assert(s[open.len() - 1] == '"');
    assert(!raw_opens_at(s, 0)) by {
        if byte {
            assert(s[0] == 'b');
        }
    }
    let r = region_at(s, 0);
    assert(r.head == open.len() && r.tail == k && r.end == k + 1);
    let shown = open + spaces(body.len() as int) + seq!['"'];
    assert(blanked_region(s, 0, r) =~= shown);
    lemma_first_region(lead, t, shown);
}

/// `n` times `#`.
pub open spec fn hashes(n: int) -> Seq<char> {
    Seq::new(n as nat, |j: int| '#')
}

proof fn lemma_hashes_run(s: Seq<char>, i: int, n: int)
    requires
        0 <= i,
        0 <= n,
        i + n <= s.len(),
        forall|j: int| i <= j < i + n ==> s[j] == '#',
    ensures
        hash_run(s, i) >= n,
        i + n < s.len() && s[i + n] != '#' ==> hash_run(s, i) == n,
    decreases n,
{
    if n > 0 {
        lemma_hashes_run(s, i + 1, n - 1);
    } else if i < s.len() {
        lemma_hash_run_bounds(s, i);
    }
}

proof fn lemma_raw_body(s: Seq<char>, i: int, k: int, n: int)
    requires
        0 <= i <= k < s.len(),
        raw_close_at(s, k, n),
        forall|j: int| i <= j < k ==> !raw_close_at(s, j, n),
    ensures
        raw_body_end(s, i, n) == k,
    decreases k - i,
{
    if i < k {
        assert(!raw_close_at(s, i, n));
        lemma_raw_body(s, i + 1, k, n);
    }
}

/// A run of `#` that ends before the end of `u` is the same in a longer text.
proof fn lemma_hash_run_inside(u: Seq<char>, t: Seq<char>, i: int)
    requires
        0 <= i <= u.len(),
        t.len() > 0 ==> t[0] != '#',
    ensures
        hash_run(u + t, i) == hash_run(u, i),
    decreases u.len() - i,
{
    if i < u.len() {
        assert((u + t)[i] == u[i]);
        if u[i] == '#' {
            lemma_hash_run_inside(u, t, i + 1);
        }
    } else if t.len() > 0 {
        assert((u + t)[i] == t[0]);
    }
}

/// What opens a raw string literal with `n` times `#`.
pub open spec fn raw_opening(byte: bool, n: nat) -> Seq<char> {
    byte_prefix(byte) + seq!['r'] + hashes(n as int) + seq!['"']
}

/// What closes a raw string literal with `n` times `#`.
pub open spec fn raw_closing(n: nat) -> Seq<char> {
    seq!['"'] + hashes(n as int)
}

/// The contents of a raw string or raw byte string literal are blanked, its delimiters stay,
/// and what follows is blanked as if it stood alone. Nothing inside it is an escape.
pub proof fn law_raw_string_contents_are_blanked(
    byte: bool,
    n: nat,
    body: Seq<char>,
    t: Seq<char>,
)
    requires
        forall|j: int| 0 <= j < body.len() ==> !#[trigger] raw_close_at(body, j, n as int),
    ensures
        blanked(raw_opening(byte, n) + body + raw_closing(n) + t) == raw_opening(byte, n) + spaces(
            body.len() as int,
        ) + raw_closing(n) + blanked(t),
{
    let h = hashes(n as int);
    let open = raw_opening(byte, n);
    let lead = open + body + raw_closing(n);
    let s = lead + t;
    let letter = byte_prefix(byte).len() as int;
    let quote = letter + 1 + n;
    let k = quote + 1 + body.len();
    assert(s[letter] == 'r');
    if byte {
        assert(s[0] == 'b');
    }
    assert forall|j: int| letter + 1 <= j < letter + 1 + n implies s[j] == '#' by {
        assert(s[j] == h[j - letter - 1]);
    }
    assert(s[quote] == '"');
    lemma_hashes_run(s, letter + 1, n as int);
    assert(raw_letter(s, 0) == letter);
    assert(raw_hashes(s, 0) == n);
    assert(raw_opens_at(s, 0));
    assert(s[k] == '"');
    assert forall|j: int| k + 1 <= j < k + 1 + n implies s[j] == '#' by {
        assert(s[j] == h[j - k - 1]);
    }
    lemma_hashes_run(s, k + 1, n as int);
    let close = raw_closing(n) + t;
    assert(open + (body + close) =~= s);
    assert forall|j: int| quote + 1 <= j < k implies !raw_close_at(s, j, n as int) by {
        let m = j - quote - 1;
        assert(s[j] == body[m]);
        lemma_hash_run_inside(body, close, m + 1);
        lemma_hash_shift(open, body + close, m + 1);
        assert(!raw_close_at(body, m, n as int));
    }
    lemma_raw_body(s, quote + 1, k, n as int);
    let r = region_at(s, 0);
    assert(r.head == quote + 1 && r.tail == k && r.end == k + 1 + n);
    let shown = open + spaces(body.len() as int) + raw_closing(n);
    assert(blanked_region(s, 0, r) =~= shown);
    lemma_first_region(lead, t, shown);
}

/// A character literal is blanked, its ticks stay, and what follows is blanked as if it
/// stood alone.
pub proof fn law_char_literal_is_blanked(c: char, t: Seq<char>)
    requires
        c != '\\',
    ensures
        blanked(seq!['\'', c, '\''] + t) == seq!['\'', ' ', '\''] + blanked(t),
{
    let lead = seq!['\'', c, '\''];
    let s = lead + t;
    assert(s[0] == '\'' && s[1] == c && s[2] == '\'');
    let shown = seq!['\'', ' ', '\''];
    assert(!raw_opens_at(s, 0));
    assert(blanked_region(s, 0, region_at(s, 0)) =~= shown);
    lemma_first_region(lead, t, shown);
}

/// A character literal with an escape is blanked, its ticks stay, and what follows is
/// blanked as if it stood alone. The escaped character may be a tick.
pub proof fn law_escaped_char_literal_is_blanked(c: char, payload: Seq<char>, t: Seq<char>)
    requires
        forall|j: int| 0 <= j < payload.len() ==> #[trigger] payload[j] != '\'',
    ensures
        blanked(seq!['\'', '\\', c] + payload + seq!['\''] + t) == seq!['\''] + spaces(
            payload.len() as int + 2,
        ) + seq!['\''] + blanked(t),
{
    let lead = seq!['\'', '\\', c] + payload + seq!['\''];
    let s = lead + t;
    let k = payload.len() as int + 3;
    assert(s[0] == '\'' && s[1] == '\\');
    assert forall|j: int| 3 <= j < k implies s[j] != '\'' by {
        assert(s[j] == payload[j - 3]);
    }
    assert(s[k] == '\'');
    lemma_find_char_is(s, '\'', 3, k);
    assert(!raw_opens_at(s, 0));
    let shown = seq!['\''] + spaces(payload.len() as int + 2) + seq!['\''];
    assert(blanked_region(s, 0, region_at(s, 0)) =~= shown);
    lemma_first_region(lead, t, shown);
}

/// The tick of a lifetime or a label swallows nothing: what follows is blanked as if it
/// stood alone.
pub proof fn law_lifetime_swallows_nothing(t: Seq<char>)
    requires
        t.len() > 0 ==> t[0] != '\\',
        t.len() > 1 ==> t[1] != '\'',
    ensures
        blanked(seq!['\''] + t) == seq!['\''] + blanked(t),
{
    let lead = seq!['\''];
    let s = lead + t;
    assert(s[0] == '\'');
    if t.len() > 0 {
        assert(s[1] == t[0]);
    }
    if t.len() > 1 {
        assert(s[2] == t[1]);
    }
    assert(!raw_opens_at(s, 0));
    assert(blanked_region(s, 0, region_at(s, 0)) =~= lead);
    lemma_first_region(lead, t, lead);
}

/// A slash that opens no comment is code: what follows is blanked as if it stood alone.
pub proof fn law_lone_slash_is_code(t: Seq<char>)
    requires
        t.len() > 0 ==> t[0] != '/' && t[0] != '*',
    ensures
        blanked(seq!['/'] + t) == seq!['/'] + blanked(t),
{
    let lead = seq!['/'];
    let s = lead + t;
    assert(s[0] == '/');
    if t.len() > 0 {
        assert(s[1] == t[0]);
    }
    assert(blanked_region(s, 0, region_at(s, 0)) =~= lead);
    lemma_first_region(lead, t, lead);
}

/// The contents of a line comment are blanked, its slashes stay, and what follows the line
/// is blanked as if it stood alone.
pub proof fn law_line_comment_is_blanked(body: Seq<char>, t: Seq<char>)
    requires
        forall|j: int| 0 <= j < body.len() ==> #[trigger] body[j] != '\n',
    ensures
        blanked(seq!['/', '/'] + body + seq!['\n'] + t) == seq!['/', '/'] + spaces(
            body.len() as int,
        ) + seq!['\n'] + blanked(t),
{
    let lead = seq!['/', '/'] + body;
    let rest = seq!['\n'] + t;
    let s = lead + rest;
    assert(seq!['/', '/'] + body + seq!['\n'] + t =~= s);
    let k = body.len() as int + 2;
    assert forall|j: int| 2 <= j < k implies s[j] != '\n' by {
        assert(s[j] == body[j - 2]);
    }
    assert(s[k] == '\n');
    lemma_find_char_is(s, '\n', 2, k);
    let shown = seq!['/', '/'] + spaces(body.len() as int);
    assert(blanked_region(s, 0, region_at(s, 0)) =~= shown);
    lemma_first_region(lead, rest, shown);
    law_code_stays_before(seq!['\n'], t);
    assert(shown + (seq!['\n'] + blanked(t)) =~= shown + seq!['\n'] + blanked(t));
}

/// A line comment that runs to the end of the text is blanked behind its slashes.
pub proof fn law_last_line_comment_is_blanked(body: Seq<char>)
    requires
        forall|j: int| 0 <= j < body.len() ==> #[trigger] body[j] != '\n',
    ensures
        blanked(seq!['/', '/'] + body) == seq!['/', '/'] + spaces(body.len() as int),
{
    let s = seq!['/', '/'] + body;
    assert forall|j: int| 2 <= j < s.len() implies s[j] != '\n' by {
        assert(s[j] == body[j - 2]);
    }
    lemma_find_char_is(s, '\n', 2, s.len() as int);
    let shown = seq!['/', '/'] + spaces(body.len() as int);
    assert(blanked_region(s, 0, region_at(s, 0)) =~= shown);
    assert(blanked_from(s, s.len() as int) =~= Seq::<char>::empty());
    assert(shown + Seq::<char>::empty() =~= shown);
}

/// `body` is what can stand between the delimiters of a block comment: with the closing
/// delimiter behind it, that is the first one to close the comment. Comments inside it are
/// closed inside it.
pub open spec fn is_block_body(body: Seq<char>) -> bool {
    block_body_end(body + seq!['*', '/'], 0, 1) == body.len()
}

proof fn lemma_block_extend(u: Seq<char>, t: Seq<char>, i: int, depth: int)
    requires
        0 <= i <= u.len(),
        block_body_end(u, i, depth) < u.len(),
    ensures
        block_body_end(u + t, i, depth) == block_body_end(u, i, depth),
    decreases u.len() - i,
{
    if i < u.len() {
        assert((u + t)[i] == u[i]);
        if i + 1 < u.len() {
            assert((u + t)[i + 1] == u[i + 1]);
            if pair_at(u, i, '/', '*') {
                lemma_block_extend(u, t, i + 2, depth + 1);
            } else if pair_at(u, i, '*', '/') {
                if depth > 1 {
                    lemma_block_extend(u, t, i + 2, depth - 1);
                }
            } else {
                lemma_block_extend(u, t, i + 1, depth);
            }
        } else {
            assert(block_body_end(u, i + 1, depth) == u.len());
        }
    }
}

/// The contents of a block comment are blanked, its delimiters stay, and what follows is
/// blanked as if it stood alone.
pub proof fn law_block_comment_is_blanked(body: Seq<char>, t: Seq<char>)
    requires
        is_block_body(body),
    ensures
        blanked(seq!['/', '*'] + body + seq!['*', '/'] + t) == seq!['/', '*'] + spaces(
            body.len() as int,
        ) + seq!['*', '/'] + blanked(t),
{
    let open = seq!['/', '*'];
    let rest = body + seq!['*', '/'];
    let lead = open + body + seq!['*', '/'];
    let s = lead + t;
    let k = body.len() as int + 2;
    lemma_block_extend(rest, t, 0, 1);
    lemma_block_shift(open, rest + t, 0, 1);
    assert(open + (rest + t) =~= s);
    assert(s[0] == '/' && s[1] == '*');
    let r = region_at(s, 0);
    assert(r.head == 2 && r.tail == k && r.end == k + 2);
    let shown = seq!['/', '*'] + spaces(body.len() as int) + seq!['*', '/'];
    assert(blanked_region(s, 0, r) =~= shown);
    lemma_first_region(lead, t, shown);
}

/// Code without a quote, a tick or a slash, up to the end of a token, stands alone.
pub proof fn law_plain_code_stands_alone(p: Seq<char>)
    requires
        is_plain_code(p),
        ends_a_token(p),
    ensures
        stands_alone(p),
{
    law_plain_code_stays(p);
    assert forall|u: Seq<char>| #[trigger] parts_before(p, u) by {
        law_code_stays_before(p, u);
    }
}

/// Two texts that stand alone stand alone together.
pub proof fn law_standing_alone_composes(p: Seq<char>, q: Seq<char>)
    requires
        stands_alone(p),
        stands_alone(q),
    ensures
        stands_alone(p + q),
{
    assert(parts_before(p, q));
    assert forall|u: Seq<char>| #[trigger] parts_before(p + q, u) by {
        assert(parts_before(p, q + u));
        assert(parts_before(q, u));
        assert(p + (q + u) =~= p + q + u);
        assert(blanked(p) + (blanked(q) + blanked(u)) =~= blanked(p) + blanked(q) + blanked(u));
    }
}

/// The tick of a lifetime or a label stands alone with what follows it.
pub proof fn law_lifetime_stands_alone(q: Seq<char>)
    requires
        stands_alone(q),
        q.len() >= 2,
        q[0] != '\\',
        q[1] != '\'',
    ensures
        stands_alone(seq!['\''] + q),
{
    let tick = seq!['\''];
    law_lifetime_swallows_nothing(q);
    assert forall|u: Seq<char>| #[trigger] parts_before(tick + q, u) by {
        assert(parts_before(q, u));
        law_lifetime_swallows_nothing(q + u);
        assert(tick + (q + u) =~= tick + q + u);
        assert(tick + (blanked(q) + blanked(u)) =~= tick + blanked(q) + blanked(u));
    }
}

/// A slash that opens no comment stands alone with what follows it.
pub proof fn law_lone_slash_stands_alone(q: Seq<char>)
    requires
        stands_alone(q),
        q.len() >= 1,
        q[0] != '/',
        q[0] != '*',
    ensures
        stands_alone(seq!['/'] + q),
{
    let slash = seq!['/'];
    law_lone_slash_is_code(q);
    assert forall|u: Seq<char>| #[trigger] parts_before(slash + q, u) by {
        assert(parts_before(q, u));
        law_lone_slash_is_code(q + u);
        assert(slash + (q + u) =~= slash + q + u);
        assert(slash + (blanked(q) + blanked(u)) =~= slash + blanked(q) + blanked(u));
    }
}

/// A string or byte string literal stands alone.
pub proof fn law_string_literal_stands_alone(byte: bool, body: Seq<char>)
    requires
        is_string_body(body),
    ensures
        stands_alone(byte_prefix(byte) + seq!['"'] + body + seq!['"']),
{
    let lit = byte_prefix(byte) + seq!['"'] + body + seq!['"'];
    let none = Seq::<char>::empty();
    assert(lit + none =~= lit);
    assert(blanked(none) =~= none);
    law_string_contents_are_blanked(byte, body, none);
    assert forall|u: Seq<char>| #[trigger] parts_before(lit, u) by {
        law_string_contents_are_blanked(byte, body, u);
        assert(blanked(lit + u) =~= blanked(lit) + blanked(u));
    }
}

/// A raw string or raw byte string literal stands alone.
pub proof fn law_raw_string_literal_stands_alone(byte: bool, n: nat, body: Seq<char>)
    requires
        forall|j: int| 0 <= j < body.len() ==> !#[trigger] raw_close_at(body, j, n as int),
    ensures
        stands_alone(raw_opening(byte, n) + body + raw_closing(n)),
{
    let lit = raw_opening(byte, n) + body + raw_closing(n);
    let none = Seq::<char>::empty();
    assert(lit + none =~= lit);
    assert(blanked(none) =~= none);
    law_raw_string_contents_are_blanked(byte, n, body, none);
    assert forall|u: Seq<char>| #[trigger] parts_before(lit, u) by {
        law_raw_string_contents_are_blanked(byte, n, body, u);
        assert(blanked(lit + u) =~= blanked(lit) + blanked(u));
    }
}

/// A character literal stands alone.
pub proof fn law_char_literal_stands_alone(c: char)
    requires
        c != '\\',
    ensures
        stands_alone(seq!['\'', c, '\'']),
{
    let lit = seq!['\'', c, '\''];
    let none = Seq::<char>::empty();
    assert(lit + none =~= lit);
    assert(blanked(none) =~= none);
    law_char_literal_is_blanked(c, none);
    assert forall|u: Seq<char>| #[trigger] parts_before(lit, u) by {
        law_char_literal_is_blanked(c, u);
        assert(blanked(lit + u) =~= blanked(lit) + blanked(u));
    }
}

/// A character literal with an escape stands alone.
pub proof fn law_escaped_char_literal_stands_alone(c: char, payload: Seq<char>)
    requires
        forall|j: int| 0 <= j < payload.len() ==> #[trigger] payload[j] != '\'',
    ensures
        stands_alone(seq!['\'', '\\', c] + payload + seq!['\'']),
{
    let lit = seq!['\'', '\\', c] + payload + seq!['\''];
    let none = Seq::<char>::empty();
    assert(lit + none =~= lit);
    assert(blanked(none) =~= none);
    law_escaped_char_literal_is_blanked(c, payload, none);
    assert forall|u: Seq<char>| #[trigger] parts_before(lit, u) by {
        law_escaped_char_literal_is_blanked(c, payload, u);
        assert(blanked(lit + u) =~= blanked(lit) + blanked(u));
    }
}

/// A line comment with its line feed stands alone.
pub proof fn law_line_comment_stands_alone(body: Seq<char>)
    requires
        forall|j: int| 0 <= j < body.len() ==> #[trigger] body[j] != '\n',
    ensures
        stands_alone(seq!['/', '/'] + body + seq!['\n']),
{
    let lit = seq!['/', '/'] + body + seq!['\n'];
    let none = Seq::<char>::empty();
    assert(lit + none =~= lit);
    assert(blanked(none) =~= none);
    law_line_comment_is_blanked(body, none);
    assert forall|u: Seq<char>| #[trigger] parts_before(lit, u) by {
        law_line_comment_is_blanked(body, u);
        assert(blanked(lit + u) =~= blanked(lit) + blanked(u));
    }
}

/// A block comment stands alone.
pub proof fn law_block_comment_stands_alone(body: Seq<char>)
    requires
        is_block_body(body),
    ensures
        stands_alone(seq!['/', '*'] + body + seq!['*', '/']),
{
    let lit = seq!['/', '*'] + body + seq!['*', '/'];
    let none = Seq::<char>::empty();
    assert(lit + none =~= lit);
    assert(blanked(none) =~= none);
    law_block_comment_is_blanked(body, none);
    assert forall|u: Seq<char>| #[trigger] parts_before(lit, u) by {
        law_block_comment_is_blanked(body, u);
        assert(blanked(lit + u) =~= blanked(lit) + blanked(u));
    }
}

/// `t` has none of the characters of `sep`.
spec fn shares_no_char(t: Seq<char>, sep: Seq<char>) -> bool {
    forall|i: int, j: int|
        0 <= i < t.len() && 0 <= j < sep.len() ==> #[trigger] t[i] != #[trigger] sep[j]
}

/// A word that shares no character with what stands between two texts is in one of them.
proof fn lemma_contains_around(a: Seq<char>, sep: Seq<char>, b: Seq<char>, t: Seq<char>)
    requires
        t.len() > 0,
        sep.len() > 0,
        shares_no_char(t, sep),
    ensures
        contains_text(a + sep + b, t) == (contains_text(a, t) || contains_text(b, t)),
{
    let s = a + sep + b;
    if contains_text(s, t) {
        let i = choose|i: int| occurs_at(s, t, i);
        let end = i + t.len();
        assert(s.subrange(i, end) == t);
        if end <= a.len() {
            assert(a.subrange(i, end) =~= t);
            assert(occurs_at(a, t, i));
        } else if i >= a.len() + sep.len() {
            let k = i - a.len() - sep.len();
            assert(b.subrange(k, k + t.len()) =~= t) by {
                assert forall|j: int| 0 <= j < t.len() implies b[k + j] == t[j] by {
                    assert(s.subrange(i, end)[j] == s[i + j]);
                }
            }
            assert(occurs_at(b, t, k));
        } else {
            let m = if i >= a.len() {
                i
            } else {
                a.len() as int
            };
            assert(s.subrange(i, end)[m - i] == s[m]);
            assert(s[m] == sep[m - a.len()]);
            assert(t[m - i] != sep[m - a.len()]);
            assert(false);
        }
    }
    if contains_text(a, t) {
        let i = choose|i: int| occurs_at(a, t, i);
        assert(s.subrange(i, i + t.len()) =~= a.subrange(i, i + t.len()));
        assert(occurs_at(s, t, i));
    }
    if contains_text(b, t) {
        let i = choose|i: int| occurs_at(b, t, i);
        let k = i + a.len() + sep.len();
        assert(s.subrange(k, k + t.len()) =~= b.subrange(i, i + t.len()));
        assert(occurs_at(s, t, k));
    }
}

/// A word does not reach into characters behind it that its last character is not among.
proof fn lemma_contains_before(a: Seq<char>, x: Seq<char>, t: Seq<char>)
    requires
        t.len() > 0,
        forall|j: int| 0 <= j < x.len() ==> #[trigger] x[j] != t.last(),
    ensures
        contains_text(a + x, t) == contains_text(a, t),
{
    let s = a + x;
    if contains_text(s, t) {
        let i = choose|i: int| occurs_at(s, t, i);
        let end = i + t.len();
        assert(s.subrange(i, end)[t.len() - 1] == s[end - 1]);
        if end > a.len() {
            assert(s[end - 1] == x[end - 1 - a.len()]);
            assert(false);
        }
        assert(a.subrange(i, end) =~= s.subrange(i, end));
        assert(occurs_at(a, t, i));
    }
    if contains_text(a, t) {
        let i = choose|i: int| occurs_at(a, t, i);
        assert(s.subrange(i, i + t.len()) =~= a.subrange(i, i + t.len()));
        assert(occurs_at(s, t, i));
    }
}

/// `sep` holds only delimiters, line feeds and spaces.
spec fn is_blank_delimited(sep: Seq<char>) -> bool {
    forall|j: int|
        0 <= j < sep.len() ==> #[trigger] sep[j] == ' ' || sep[j] == '"' || sep[j] == '\'' || sep[j]
            == '#' || sep[j] == '/' || sep[j] == '*' || sep[j] == '\n'
}

/// `x` holds only what can stand before the quote of a literal.
spec fn is_literal_prefix(x: Seq<char>) -> bool {
    forall|j: int|
        0 <= j < x.len() ==> #[trigger] x[j] == 'b' || x[j] == 'r' || x[j] == '#'
}

proof fn lemma_adapter_around(a: Seq<char>, x: Seq<char>, sep: Seq<char>, b: Seq<char>)
    requires
        sep.len() > 0,
        is_literal_prefix(x),
        is_blank_delimited(sep),
    ensures
        names_database_adapter(a + x + sep + b) == (names_database_adapter(a)
            || names_database_adapter(b)),
{
    reveal_strlit("sqlx::");
    reveal_strlit("PgPool");
    reveal_strlit("PoolOptions");
    reveal_strlit("sqlx::Postgres");
    reveal_strlit("AssertSqlSafe");
    lemma_contains_before(a, x, "sqlx::"@);
    lemma_contains_before(a, x, "PgPool"@);
    lemma_contains_before(a, x, "PoolOptions"@);
    lemma_contains_before(a, x, "sqlx::Postgres"@);
    lemma_contains_before(a, x, "AssertSqlSafe"@);
    lemma_contains_around(a + x, sep, b, "sqlx::"@);
    lemma_contains_around(a + x, sep, b, "PgPool"@);
    lemma_contains_around(a + x, sep, b, "PoolOptions"@);
    lemma_contains_around(a + x, sep, b, "sqlx::Postgres"@);
    lemma_contains_around(a + x, sep, b, "AssertSqlSafe"@);
}

/// Where a literal or a comment is blanked on its own, it adds nothing to the code around it.
proof fn lemma_no_database_use(
    p: Seq<char>,
    lead: Seq<char>,
    x: Seq<char>,
    sep: Seq<char>,
    t: Seq<char>,
)
    requires
        parts_before(p, lead + t),
        sep.len() > 0,
        is_literal_prefix(x),
        is_blank_delimited(sep),
        blanked(lead + t) == x + sep + blanked(t),
    ensures
        is_sqlx_boundary(p + (lead + t)) == (is_sqlx_boundary(p) || is_sqlx_boundary(t)),
{
    let code = blanked(p);
    assert(code + (x + sep + blanked(t)) =~= code + x + sep + blanked(t));
    lemma_adapter_around(code, x, sep, blanked(t));
}

/// A string or byte string literal in the middle of code is no database use, whatever it
/// says: the snippet crosses the boundary exactly if the text before or the text after does.
/// The text before may be any that does not run on into the literal.
pub proof fn law_string_literal_is_no_database_use(
    p: Seq<char>,
    byte: bool,
    body: Seq<char>,
    t: Seq<char>,
)
    requires
        parts_before(p, byte_prefix(byte) + seq!['"'] + body + seq!['"'] + t),
        is_string_body(body),
    ensures
        is_sqlx_boundary(p + (byte_prefix(byte) + seq!['"'] + body + seq!['"'] + t)) == (
        is_sqlx_boundary(p) || is_sqlx_boundary(t)),
{
    let sep = seq!['"'] + spaces(body.len() as int) + seq!['"'];
    law_string_contents_are_blanked(byte, body, t);
    let x = byte_prefix(byte);
    assert(x + seq!['"'] + spaces(body.len() as int) + seq!['"'] =~= x + sep);
    lemma_no_database_use(p, x + seq!['"'] + body + seq!['"'], x, sep, t);
}

/// A raw string or raw byte string literal in the middle of code is no database use,
/// whatever it says.
pub proof fn law_raw_string_literal_is_no_database_use(
    p: Seq<char>,
    byte: bool,
    n: nat,
    body: Seq<char>,
    t: Seq<char>,
)
    requires
        parts_before(p, raw_opening(byte, n) + body + raw_closing(n) + t),
        forall|j: int| 0 <= j < body.len() ==> !#[trigger] raw_close_at(body, j, n as int),
    ensures
        is_sqlx_boundary(p + (raw_opening(byte, n) + body + raw_closing(n) + t)) == (
        is_sqlx_boundary(p) || is_sqlx_boundary(t)),
{
    let x = byte_prefix(byte) + seq!['r'] + hashes(n as int);
    let sep = seq!['"'] + spaces(body.len() as int) + raw_closing(n);
    law_raw_string_contents_are_blanked(byte, n, body, t);
    assert(raw_opening(byte, n) + spaces(body.len() as int) + raw_closing(n) =~= x + sep);
    assert(is_literal_prefix(x));
    assert(is_blank_delimited(sep));
    lemma_no_database_use(p, raw_opening(byte, n) + body + raw_closing(n), x, sep, t);
}

/// A character literal in the middle of code is no database use.
pub proof fn law_char_literal_is_no_database_use(p: Seq<char>, c: char, t: Seq<char>)
    requires
        parts_before(p, seq!['\'', c, '\''] + t),
        c != '\\',
    ensures
        is_sqlx_boundary(p + (seq!['\'', c, '\''] + t)) == (is_sqlx_boundary(p)
            || is_sqlx_boundary(t)),
{
    let none = Seq::<char>::empty();
    let sep = seq!['\'', ' ', '\''];
    law_char_literal_is_blanked(c, t);
    assert(none + sep =~= sep);
    lemma_no_database_use(p, seq!['\'', c, '\''], none, sep, t);
}

/// A character literal with an escape in the middle of code is no database use.
pub proof fn law_escaped_char_literal_is_no_database_use(
    p: Seq<char>,
    c: char,
    payload: Seq<char>,
    t: Seq<char>,
)
    requires
        parts_before(p, seq!['\'', '\\', c] + payload + seq!['\''] + t),
        forall|j: int| 0 <= j < payload.len() ==> #[trigger] payload[j] != '\'',
    ensures
        is_sqlx_boundary(p + (seq!['\'', '\\', c] + payload + seq!['\''] + t)) == (
        is_sqlx_boundary(p) || is_sqlx_boundary(t)),
{
    let none = Seq::<char>::empty();
    let sep = seq!['\''] + spaces(payload.len() as int + 2) + seq!['\''];
    law_escaped_char_literal_is_blanked(c, payload, t);
    assert(none + sep =~= sep);
    lemma_no_database_use(p, seq!['\'', '\\', c] + payload + seq!['\''], none, sep, t);
}

/// A line comment behind code is no database use, whatever it says.
pub proof fn law_line_comment_is_no_database_use(p: Seq<char>, body: Seq<char>, t: Seq<char>)
    requires
        parts_before(p, seq!['/', '/'] + body + seq!['\n'] + t),
        forall|j: int| 0 <= j < body.len() ==> #[trigger] body[j] != '\n',
    ensures
        is_sqlx_boundary(p + (seq!['/', '/'] + body + seq!['\n'] + t)) == (is_sqlx_boundary(p)
            || is_sqlx_boundary(t)),
{
    let none = Seq::<char>::empty();
    let sep = seq!['/', '/'] + spaces(body.len() as int) + seq!['\n'];
    law_line_comment_is_blanked(body, t);
    assert(none + sep =~= sep);
    lemma_no_database_use(p, seq!['/', '/'] + body + seq!['\n'], none, sep, t);
}

/// A line comment that ends the text is no database use, whatever it says.
pub proof fn law_last_line_comment_is_no_database_use(p: Seq<char>, body: Seq<char>)
    requires
        parts_before(p, seq!['/', '/'] + body),
        forall|j: int| 0 <= j < body.len() ==> #[trigger] body[j] != '\n',
    ensures
        is_sqlx_boundary(p + (seq!['/', '/'] + body)) == is_sqlx_boundary(p),
{
    reveal_strlit("sqlx::");
    reveal_strlit("PgPool");
    reveal_strlit("PoolOptions");
    reveal_strlit("sqlx::Postgres");
    reveal_strlit("AssertSqlSafe");
    let none = Seq::<char>::empty();
    let lead = seq!['/', '/'] + body;
    let sep = seq!['/', '/'] + spaces(body.len() as int);
    law_last_line_comment_is_blanked(body);
    assert(blanked(none) =~= none);
    assert(lead + none =~= lead);
    assert(none + sep + none =~= sep);
    lemma_no_database_use(p, lead, none, sep, none);
    assert(!is_sqlx_boundary(none));
}

/// A block comment between code is no database use, whatever it says.
pub proof fn law_block_comment_is_no_database_use(p: Seq<char>, body: Seq<char>, t: Seq<char>)
    requires
        parts_before(p, seq!['/', '*'] + body + seq!['*', '/'] + t),
        is_block_body(body),
    ensures
        is_sqlx_boundary(p + (seq!['/', '*'] + body + seq!['*', '/'] + t)) == (is_sqlx_boundary(p)
            || is_sqlx_boundary(t)),
{
    let none = Seq::<char>::empty();
    let sep = seq!['/', '*'] + spaces(body.len() as int) + seq!['*', '/'];
    law_block_comment_is_blanked(body, t);
    assert(none + sep =~= sep);
    lemma_no_database_use(p, seq!['/', '*'] + body + seq!['*', '/'], none, sep, t);
}

/// In code without a quote, a tick or a slash, every word counts.
pub proof fn law_plain_code_counts(s: Seq<char>)
    requires
        is_plain_code(s),
    ensures
        is_sqlx_boundary(s) == names_database_adapter(s),
{
    law_plain_code_stays(s);
}

/// What the body of a string literal is made of: characters that are neither a quote nor a
/// backslash, and backslashes each with the character that it escapes. A quote ends the body,
/// and a backslash with nothing behind it is no part of one.
pub proof fn law_string_bodies(c: char, body: Seq<char>)
    ensures
        is_string_body(Seq::empty()),
        c != '"' && c != '\\' ==> is_string_body(seq![c] + body) == is_string_body(body),
        is_string_body(seq!['\\', c] + body) == is_string_body(body),
        !is_string_body(seq!['"'] + body),
        !is_string_body(seq!['\\']),
{
    let quote = seq!['"'];
    let none = Seq::<char>::empty();
    assert(none + quote =~= quote);
    assert(quote[0] == '"');
    let rest = body + quote;
    let one = seq![c];
    assert(one + body + quote =~= one + rest);
    assert((one + rest)[0] == c);
    lemma_string_shift(one, rest, 0);
    let two = seq!['\\', c];
    assert(two + body + quote =~= two + rest);
    assert((two + rest)[0] == '\\');
    lemma_string_shift(two, rest, 0);
    assert((quote + body + quote)[0] == '"');
    let slash = seq!['\\'];
    assert((slash + quote)[0] == '\\');
    assert(string_body_end(slash + quote, 2) == 2);
}

/// `u` opens and closes no block comment, and its last character does not do so with what
/// comes behind it, which begins with `next`.
pub open spec fn is_flat(u: Seq<char>, next: char) -> bool {
    &&& forall|j: int|
        0 <= j < u.len() - 1 ==> !(#[trigger] u[j] == '/' && u[j + 1] == '*') && !(u[j] == '*'
            && u[j + 1] == '/')
    &&& u.len() > 0 ==> !(u.last() == '/' && next == '*') && !(u.last() == '*' && next == '/')
}

proof fn lemma_flat(u: Seq<char>, t: Seq<char>, i: int, depth: int)
    requires
        t.len() > 0,
        is_flat(u, t[0]),
        0 <= i <= u.len(),
    ensures
        block_body_end(u + t, i, depth) == block_body_end(u + t, u.len() as int, depth),
    decreases u.len() - i,
{
    let s = u + t;
    if i < u.len() {
        assert(s[i] == u[i]);
        if i + 1 < u.len() {
            assert(s[i + 1] == u[i + 1]);
        } else {
            assert(s[i + 1] == t[0]);
        }
        lemma_flat(u, t, i + 1, depth);
    }
}

/// Where one comment is closed, the comment around it goes on.
proof fn lemma_deeper(s: Seq<char>, i: int, depth: int)
    requires
        0 <= i <= s.len(),
        1 <= depth,
        block_body_end(s, i, depth) < s.len(),
    ensures
        block_body_end(s, i, depth + 1) == block_body_end(s, block_body_end(s, i, depth) + 2, 1),
    decreases s.len() - i,
{
    if i < s.len() {
        if pair_at(s, i, '/', '*') {
            lemma_deeper(s, i + 2, depth + 1);
        } else if pair_at(s, i, '*', '/') {
            if depth > 1 {
                lemma_deeper(s, i + 2, depth - 1);
            }
        } else {
            lemma_deeper(s, i + 1, depth);
        }
    }
}

/// What the body of a block comment is made of: text that opens and closes no comment, and
/// whole comments within it. A closing delimiter outside of those ends the body.
pub proof fn law_block_bodies(a: Seq<char>, inner: Seq<char>, rest: Seq<char>)
    ensures
        is_flat(a, '*') ==> is_block_body(a),
        is_flat(a, '*') ==> !is_block_body(a + seq!['*', '/'] + rest),
        is_flat(a, '/') && is_block_body(inner) ==> is_block_body(
            a + seq!['/', '*'] + inner + seq!['*', '/'] + rest,
        ) == is_block_body(rest),
{
    let open = seq!['/', '*'];
    let close = seq!['*', '/'];
    let n = a.len() as int;
    if is_flat(a, '*') {
        lemma_flat(a, close, 0, 1);
        assert((a + close)[n] == '*' && (a + close)[n + 1] == '/');
        let t = close + rest + close;
        let s = a + t;
        assert(t[0] == '*');
        lemma_flat(a, t, 0, 1);
        assert(s[n] == '*' && s[n + 1] == '/');
        assert(a + close + rest + close =~= s);
    }
    if is_flat(a, '/') && is_block_body(inner) {
        let tail = rest + close;
        let deep = inner + close;
        let t = open + (deep + tail);
        let s = a + t;
        assert(t[0] == '/');
        lemma_flat(a, t, 0, 1);
        assert(s[n] == '/' && s[n + 1] == '*');
        assert(pair_at(s, n, '/', '*'));
        assert(block_body_end(s, n, 1) == block_body_end(s, n + 2, 2));
        let head = a + open;
        assert(head + (deep + tail) =~= s);
        lemma_block_shift(head, deep + tail, 0, 2);
        lemma_block_extend(deep, tail, 0, 1);
        lemma_deeper(deep + tail, 0, 1);
        lemma_block_shift(deep, tail, 0, 1);
        assert(a + open + inner + close + rest + close =~= s);
        assert(block_body_end(s, 0, 1) == n + 2 + deep.len() + block_body_end(tail, 0, 1));
    }
}

proof fn lemma_raw_close(body: Seq<char>, n: nat, j: int)
    requires
        0 <= j < body.len(),
    ensures
        raw_close_at(body, j, n as int) <==> occurs_at(body, raw_closing(n), j),
{
    let close = raw_closing(n);
    if raw_close_at(body, j, n as int) {
        lemma_hash_run_bounds(body, j + 1);
        assert(body.subrange(j, j + close.len()) =~= close);
    }
    if occurs_at(body, close, j) {
        let part = body.subrange(j, j + close.len());
        assert(part[0] == body[j] && close[0] == '"');
        assert forall|k: int| j + 1 <= k < j + 1 + n implies body[k] == '#' by {
            assert(part[k - j] == body[k]);
            assert(close[k - j] == '#');
        }
        lemma_hashes_run(body, j + 1, n as int);
    }
}

/// What the body of a raw string literal is: any text that does not hold the quote with as
/// many `#` behind it as the literal began with. It is blanked to the last character.
pub proof fn law_raw_bodies(byte: bool, n: nat, body: Seq<char>, t: Seq<char>)
    requires
        !contains_text(body, raw_closing(n)),
    ensures
        blanked(raw_opening(byte, n) + body + raw_closing(n) + t) == raw_opening(byte, n) + spaces(
            body.len() as int,
        ) + raw_closing(n) + blanked(t),
{
    assert forall|j: int| 0 <= j < body.len() implies !#[trigger] raw_close_at(
        body,
        j,
        n as int,
    ) by {
        lemma_raw_close(body, n, j);
        assert(!occurs_at(body, raw_closing(n), j));
    }
    law_raw_string_contents_are_blanked(byte, n, body, t);
}

proof fn lemma_open_string(u: Seq<char>, i: int)
    requires
        0 <= i <= u.len(),
        string_body_end(u + seq!['"'], i) == u.len(),
    ensures
        string_body_end(u, i) == u.len(),
        string_body_end(u + seq!['\\'], i) == u.len() + 1,
    decreases u.len() - i,
{
    let quoted = u + seq!['"'];
    let slashed = u + seq!['\\'];
    if i < u.len() {
        assert(quoted[i] == u[i] && slashed[i] == u[i]);
        if u[i] == '\\' {
            if i + 1 < u.len() {
                lemma_open_string(u, i + 2);
            } else {
                lemma_string_shift(quoted, Seq::<char>::empty(), 0);
                assert(string_body_end(quoted, i + 2) == quoted.len());
                assert(false);
            }
        } else {
            lemma_open_string(u, i + 1);
        }
    } else {
        assert(slashed[i] == '\\');
        assert(string_body_end(slashed, i + 1) == slashed.len());
    }
}

proof fn lemma_open_block(u: Seq<char>, i: int, depth: int)
    requires
        0 <= i <= u.len(),
        block_body_end(u + seq!['*', '/'], i, depth) == u.len(),
    ensures
        block_body_end(u, i, depth) == u.len(),
    decreases u.len() - i,
{
    let s = u + seq!['*', '/'];
    if i < u.len() {
        assert(s[i] == u[i]);
        if i + 1 < u.len() {
            assert(s[i + 1] == u[i + 1]);
            if pair_at(u, i, '/', '*') {
                lemma_open_block(u, i + 2, depth + 1);
            } else if pair_at(u, i, '*', '/') {
                if depth > 1 {
                    lemma_open_block(u, i + 2, depth - 1);
                }
            } else {
                lemma_open_block(u, i + 1, depth);
            }
        } else {
            assert(s[i + 1] == '*');
            if u[i] == '/' {
                let head = s.subrange(0, i + 2);
                let tail = s.subrange(i + 2, s.len() as int);
                lemma_block_shift(head, tail, 0, depth + 1);
                assert(head + tail =~= s);
                lemma_block_nonnegative(tail, 0, depth + 1);
                assert(false);
            }
            assert(block_body_end(u, i + 1, depth) == u.len());
        }
    }
}

proof fn lemma_block_nonnegative(s: Seq<char>, i: int, depth: int)
    requires
        0 <= i,
    ensures
        block_body_end(s, i, depth) >= 0,
    decreases s.len() - i,
{
    if i < s.len() {
        if pair_at(s, i, '/', '*') {
            lemma_block_nonnegative(s, i + 2, depth + 1);
        } else if pair_at(s, i, '*', '/') {
            if depth > 1 {
                lemma_block_nonnegative(s, i + 2, depth - 1);
            }
        } else {
            lemma_block_nonnegative(s, i + 1, depth);
        }
    }
}

/// Where the whole text is one region without a closing delimiter, its contents run to the end.
proof fn lemma_open_region(open: Seq<char>, body: Seq<char>)
    requires
        open.len() > 0,
        region_at(open + body, 0).head == open.len(),
        region_at(open + body, 0).tail == open.len() + body.len(),
        region_at(open + body, 0).end == open.len() + body.len(),
    ensures
        blanked(open + body) == open + spaces(body.len() as int),
{
    let s = open + body;
    let shown = open + spaces(body.len() as int);
    assert(blanked_region(s, 0, region_at(s, 0)) =~= shown);
    assert(blanked_from(s, s.len() as int) =~= Seq::<char>::empty());
    assert(shown + Seq::<char>::empty() =~= shown);
}

/// A literal or a comment that nothing closes is blanked to the end of the text.
pub proof fn law_open_literals_are_blanked(byte: bool, n: nat, body: Seq<char>, c: char)
    ensures
        is_string_body(body) ==> blanked(byte_prefix(byte) + seq!['"'] + body) == byte_prefix(byte)
            + seq!['"'] + spaces(body.len() as int),
        !contains_text(body, raw_closing(n)) ==> blanked(raw_opening(byte, n) + body)
            == raw_opening(byte, n) + spaces(body.len() as int),
        is_block_body(body) ==> blanked(seq!['/', '*'] + body) == seq!['/', '*'] + spaces(
            body.len() as int,
        ),
        !body.contains('\'') ==> blanked(seq!['\''] + (seq!['\\', c] + body)) == seq!['\'']
            + spaces(body.len() as int + 2),
{
    if is_string_body(body) {
        let open = byte_prefix(byte) + seq!['"'];
        let s = open + body;
        lemma_open_string(body, 0);
        lemma_string_shift(open, body, 0);
        assert(s[open.len() - 1] == '"');
        assert(!raw_opens_at(s, 0)) by {
            if byte {
                assert(s[0] == 'b');
            }
        }
        lemma_open_region(open, body);
    }
    if !contains_text(body, raw_closing(n)) {
        let open = raw_opening(byte, n);
        let s = open + body;
        let h = hashes(n as int);
        let letter = byte_prefix(byte).len() as int;
        let quote = letter + 1 + n;
        assert(s[letter] == 'r');
        if byte {
            assert(s[0] == 'b');
        }
        assert forall|j: int| letter + 1 <= j < letter + 1 + n implies s[j] == '#' by {
            assert(s[j] == h[j - letter - 1]);
        }
        assert(s[quote] == '"');
        lemma_hashes_run(s, letter + 1, n as int);
        assert(raw_letter(s, 0) == letter);
        assert(raw_opens_at(s, 0));
        lemma_never_closed(body, n, 0);
        lemma_raw_shift(open, body, 0, n as int);
        lemma_open_region(open, body);
    }
    if is_block_body(body) {
        let open = seq!['/', '*'];
        let s = open + body;
        assert(s[0] == '/' && s[1] == '*');
        lemma_open_block(body, 0, 1);
        lemma_block_shift(open, body, 0, 1);
        lemma_open_region(open, body);
    }
    if !body.contains('\'') {
        let open = seq!['\''];
        let rest = seq!['\\', c] + body;
        let s = open + rest;
        assert(s[0] == '\'' && s[1] == '\\');
        assert forall|j: int| 3 <= j < s.len() implies s[j] != '\'' by {
            assert(s[j] == body[j - 3]);
        }
        lemma_find_char_is(s, '\'', 3, s.len() as int);
        assert(!raw_opens_at(s, 0));
        lemma_open_region(open, rest);
    }
}

proof fn lemma_never_closed(body: Seq<char>, n: nat, i: int)
    requires
        0 <= i <= body.len(),
        !contains_text(body, raw_closing(n)),
    ensures
        raw_body_end(body, i, n as int) == body.len(),
    decreases body.len() - i,
{
    if i < body.len() {
        lemma_raw_close(body, n, i);
        assert(!occurs_at(body, raw_closing(n), i));
        lemma_never_closed(body, n, i + 1);
    }
}

/// A character that opens no literal and no comment is code: it stays, and what follows is
/// blanked as if it stood alone. A `b`, an `r` or a `#` is such a character, unless a literal
/// opens with it.
pub proof fn law_other_characters_are_code(c: char, t: Seq<char>)
    requires
        c != '"',
        c != '\'',
        c != '/',
        !starts_with(seq![c] + t, seq!['b', '"']),
        forall|byte: bool, n: nat| !starts_with(seq![c] + t, #[trigger] raw_opening(byte, n)),
    ensures
        blanked(seq![c] + t) == seq![c] + blanked(t),
{
    let lead = seq![c];
    let s = lead + t;
    assert(s[0] == c);
    if raw_opens_at(s, 0) {
        let letter = raw_letter(s, 0);
        lemma_hash_run_bounds(s, letter + 1);
        let n = raw_hashes(s, 0) as nat;
        let byte = letter == 1;
        let open = raw_opening(byte, n);
        assert(open.len() == letter + 2 + n);
        assert(s.subrange(0, open.len() as int) =~= open);
        assert(starts_with(s, open));
        assert(false);
    }
    if pair_at(s, 0, 'b', '"') {
        assert(s.subrange(0, 2) =~= seq!['b', '"']);
        assert(false);
    }
    assert(blanked_region(s, 0, region_at(s, 0)) =~= lead);
    lemma_first_region(lead, t, lead);
}

} // verus!
