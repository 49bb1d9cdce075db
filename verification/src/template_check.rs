//! Which template texts are handed to Handlebars: those whose nesting is
//! bounded and whose inline partials cannot call partials.
use vstd::prelude::*;
use crate::text::chars_of;

verus! {

/// The most block tags a template may have.
pub const MAX_BLOCK_TAGS: usize = 64;

/// The most opening parentheses one tag may hold.
pub const MAX_TAG_PARENS: usize = 16;

/// White space between the parts of a Handlebars tag.
pub open spec fn is_tag_space(c: char) -> bool {
    c == ' ' || c == '\t' || c == '\n' || c == '\r'
}

/// The first position at or after `j` that is not tag white space (nor `~`,
/// when `tilde` is set).
pub open spec fn skip_tag_space(t: Seq<char>, j: int, tilde: bool) -> int
    decreases t.len() - j,
{
    if 0 <= j < t.len() && (is_tag_space(t[j]) || (tilde && t[j] == '~')) {
        skip_tag_space(t, j + 1, tilde)
    } else {
        j
    }
}

/// `{{` stands at `i`.
pub open spec fn opens_tag_at(t: Seq<char>, i: int) -> bool {
    0 <= i && i + 1 < t.len() && t[i] == '{' && t[i + 1] == '{'
}

/// `}}` stands at `k`.
pub open spec fn closes_tag_at(t: Seq<char>, k: int) -> bool {
    0 <= k && k + 1 < t.len() && t[k] == '}' && t[k + 1] == '}'
}

/// The first `}}` at or after `j`, or the end of the text.
pub open spec fn tag_end(t: Seq<char>, j: int) -> int
    decreases t.len() - j,
{
    if j >= t.len() {
        t.len() as int
    } else if closes_tag_at(t, j) {
        j
    } else {
        tag_end(t, j + 1)
    }
}

/// How many times `c` occurs in `t[from..to]`.
pub open spec fn count_between(t: Seq<char>, c: char, from: int, to: int) -> nat
    decreases to - from,
{
    if to <= from {
        0
    } else {
        count_between(t, c, from, to - 1) + if t[to - 1] == c {
            1nat
        } else {
            0nat
        }
    }
}

/// A character that a tag body may not hold at position `k` of a tag
/// opened at `i`: `[`, `\`, or `{` other than the third brace of `{{{`.
pub open spec fn barred_in_tag(t: Seq<char>, i: int, k: int) -> bool {
    t[k] == '[' || t[k] == '\\' || (t[k] == '{' && k != i + 2)
}

/// After `t[from..to]`: 0 outside a string literal, 1 inside a `"` one, 2
/// inside a `'` one.
pub open spec fn quote_state(t: Seq<char>, from: int, to: int) -> int
    decreases to - from,
{
    if to <= from {
        0
    } else {
        let s = quote_state(t, from, to - 1);
        let c = t[to - 1];
        if s == 0 {
            if c == '"' {
                1
            } else if c == '\'' {
                2
            } else {
                0
            }
        } else if s == 1 {
            if c == '"' {
                0
            } else {
                1
            }
        } else {
            if c == '\'' {
                0
            } else {
                2
            }
        }
    }
}

/// The tag opened at `i` is a comment, or its body (up to the first `}}`)
/// holds no barred character, closes every string literal it opens, and has
/// at most `MAX_TAG_PARENS` opening parentheses. Such a body holds no escape,
/// path segment, array or object that could hide a `}}`, and that `}}` stands
/// outside every string, so the tag ends there.
pub open spec fn tag_ok(t: Seq<char>, i: int) -> bool {
    let e = tag_end(t, i + 2);
    ||| (i + 2 < t.len() && t[i + 2] == '!')
    ||| {
        &&& forall|k: int| i + 2 <= k < e ==> !barred_in_tag(t, i, k)
        &&& quote_state(t, i + 2, e) == 0
        &&& count_between(t, '(', i + 2, e) <= MAX_TAG_PARENS
    }
}

/// A tag that opens or continues a block: `#`, `^`, or a word starting with
/// `e` (as `else` does) right after `{{`, white space and `~`.
pub open spec fn is_block_tag_at(t: Seq<char>, i: int) -> bool {
    opens_tag_at(t, i) && skip_tag_space(t, i + 2, true) < t.len() && (t[skip_tag_space(
        t,
        i + 2,
        true,
    )] == '#' || t[skip_tag_space(t, i + 2, true)] == '^' || t[skip_tag_space(t, i + 2, true)]
        == 'e')
}

/// How many block tags start before `n`.
pub open spec fn block_tags_before(t: Seq<char>, n: int) -> nat
    decreases n,
{
    if n <= 0 {
        0
    } else {
        block_tags_before(t, n - 1) + if is_block_tag_at(t, n - 1) {
            1nat
        } else {
            0nat
        }
    }
}

/// At `i` a decorator block opens: `{{`, white space or `~`, `#`, white
/// space, `*`.
pub open spec fn opens_decorator_block_at(t: Seq<char>, i: int) -> bool {
    &&& opens_tag_at(t, i)
    &&& skip_tag_space(t, i + 2, true) < t.len()
    &&& t[skip_tag_space(t, i + 2, true)] == '#'
    &&& skip_tag_space(t, skip_tag_space(t, i + 2, true) + 1, false) < t.len()
    &&& t[skip_tag_space(t, skip_tag_space(t, i + 2, true) + 1, false)] == '*'
}

/// At `j` a partial is called: `{{`, white space or `~`, then `>`, or `#`,
/// white space and `>`.
pub open spec fn opens_partial_call_at(t: Seq<char>, j: int) -> bool {
    &&& opens_tag_at(t, j)
    &&& skip_tag_space(t, j + 2, true) < t.len()
    &&& (t[skip_tag_space(t, j + 2, true)] == '>' || (t[skip_tag_space(t, j + 2, true)] == '#'
        && skip_tag_space(t, skip_tag_space(t, j + 2, true) + 1, false) < t.len() && t[skip_tag_space(
        t,
        skip_tag_space(t, j + 2, true) + 1,
        false,
    )] == '>'))
}

/// At `c` a block closes: `{{`, white space or `~`, `/`.
pub open spec fn closes_block_at(t: Seq<char>, c: int) -> bool {
    &&& opens_tag_at(t, c)
    &&& skip_tag_space(t, c + 2, true) < t.len()
    &&& t[skip_tag_space(t, c + 2, true)] == '/'
}

/// A partial call stands after a decorator block opens and before some block
/// closes: the only way an inline partial's body can call a partial.
pub open spec fn inline_partial_may_call(t: Seq<char>) -> bool {
    exists|i: int, j: int, c: int|
        opens_decorator_block_at(t, i) && i < j < c && opens_partial_call_at(t, j)
            && closes_block_at(t, c)
}

/// The template is handed to Handlebars: every tag is as `tag_ok` says, it
/// has at most `MAX_BLOCK_TAGS` block tags, and no inline partial can call a
/// partial.
pub open spec fn renderable(t: Seq<char>) -> bool {
    &&& forall|i: int| opens_tag_at(t, i) ==> tag_ok(t, i)
    &&& block_tags_before(t, t.len() as int) <= MAX_BLOCK_TAGS
    &&& !inline_partial_may_call(t)
}

} // verus!

verus! {

fn skip_from(v: &Vec<char>, j: usize, tilde: bool) -> (k: usize)
    requires
        j <= v.len(),
    ensures
        k as int == skip_tag_space(v@, j as int, tilde),
        j <= k <= v.len(),
{
    let mut k = j;
    while k < v.len() && (v[k] == ' ' || v[k] == '\t' || v[k] == '\n' || v[k] == '\r' || (tilde
        && v[k] == '~'))
        invariant
            j <= k <= v.len(),
            skip_tag_space(v@, j as int, tilde) == skip_tag_space(v@, k as int, tilde),
        decreases v.len() - k,
    {
        k = k + 1;
    }
    k
}

fn tag_at(v: &Vec<char>, i: usize) -> (b: bool)
    ensures
        b == opens_tag_at(v@, i as int),
{
    i < v.len() && i + 1 < v.len() && v[i] == '{' && v[i + 1] == '{'
}

fn end_from(v: &Vec<char>, j: usize) -> (e: usize)
    requires
        j <= v.len(),
    ensures
        e as int == tag_end(v@, j as int),
        j <= e <= v.len(),
{
    let mut k = j;
    while k < v.len() && !(k + 1 < v.len() && v[k] == '}' && v[k + 1] == '}')
        invariant
            j <= k <= v.len(),
            tag_end(v@, j as int) == tag_end(v@, k as int),
        decreases v.len() - k,
    {
        k = k + 1;
    }
    k
}

fn tag_is_ok(v: &Vec<char>, i: usize) -> (b: bool)
    requires
        opens_tag_at(v@, i as int),
    ensures
        b == tag_ok(v@, i as int),
{
    let n = v.len();
    let b = i + 2;
    if b < n && v[b] == '!' {
        return true;
    }
    let e = end_from(v, b);
    let mut quotes: u8 = 0;
    let mut parens: usize = 0;
    let mut k = b;
    while k < e
        invariant
            n == v.len(),
            b == i + 2,
            b <= k <= e <= n,
            e as int == tag_end(v@, b as int),
            !(b < n && v@[b as int] == '!'),
            forall|m: int| b <= m < k ==> !barred_in_tag(v@, i as int, m),
            quotes as int == quote_state(v@, b as int, k as int),
            parens == count_between(v@, '(', b as int, k as int),
            parens <= k,
        decreases e - k,
    {
        let c = v[k];
        if c == '[' || c == '\\' || (c == '{' && k != b) {
            assert(barred_in_tag(v@, i as int, k as int));
            return false;
        }
        if quotes == 0 {
            if c == '"' {
                quotes = 1;
            } else if c == '\'' {
                quotes = 2;
            }
        } else if quotes == 1 {
            if c == '"' {
                quotes = 0;
            }
        } else if c == '\'' {
            quotes = 0;
        }
        if c == '(' {
            parens = parens + 1;
        }
        k = k + 1;
    }
    quotes == 0 && parens <= MAX_TAG_PARENS
}

fn block_tag_at(v: &Vec<char>, i: usize) -> (b: bool)
    ensures
        b == is_block_tag_at(v@, i as int),
{
    if !tag_at(v, i) {
        return false;
    }
    let n = v.len();
    assert(i + 1 < n);
    let a = skip_from(v, i + 2, true);
    a < v.len() && (v[a] == '#' || v[a] == '^' || v[a] == 'e')
}

fn decorator_at(v: &Vec<char>, i: usize) -> (b: bool)
    ensures
        b == opens_decorator_block_at(v@, i as int),
{
    if !tag_at(v, i) {
        return false;
    }
    let n = v.len();
    assert(i + 1 < n);
    let a = skip_from(v, i + 2, true);
    if !(a < v.len() && v[a] == '#') {
        return false;
    }
    let s = skip_from(v, a + 1, false);
    s < v.len() && v[s] == '*'
}

fn partial_call_at(v: &Vec<char>, j: usize) -> (b: bool)
    ensures
        b == opens_partial_call_at(v@, j as int),
{
    if !tag_at(v, j) {
        return false;
    }
    let n = v.len();
    assert(j + 1 < n);
    let a = skip_from(v, j + 2, true);
    if !(a < v.len()) {
        return false;
    }
    if v[a] == '>' {
        return true;
    }
    if v[a] != '#' {
        return false;
    }
    let s = skip_from(v, a + 1, false);
    s < v.len() && v[s] == '>'
}

fn block_close_at(v: &Vec<char>, c: usize) -> (b: bool)
    ensures
        b == closes_block_at(v@, c as int),
{
    if !tag_at(v, c) {
        return false;
    }
    let n = v.len();
    assert(c + 1 < n);
    let a = skip_from(v, c + 2, true);
    a < v.len() && v[a] == '/'
}

fn inline_call_possible(v: &Vec<char>) -> (b: bool)
    ensures
        b == inline_partial_may_call(v@),
{
    let n = v.len();
    let mut first: usize = 0;
    while first < n && !decorator_at(v, first)
        invariant
            first <= n == v.len(),
            forall|k: int| 0 <= k < first ==> !opens_decorator_block_at(v@, k),
        decreases n - first,
    {
        first = first + 1;
    }
    if first == n {
        assert forall|i: int, j: int, c: int|
            !(opens_decorator_block_at(v@, i) && i < j < c && opens_partial_call_at(v@, j)
                && closes_block_at(v@, c)) by {
            if opens_decorator_block_at(v@, i) {
                assert(0 <= i < n);
            }
        }
        return false;
    }
    let mut last: usize = n;
    let mut k: usize = n;
    while k > 0
        invariant
            k <= n == v.len(),
            last == n || (k <= last < n && closes_block_at(v@, last as int)),
            last == n ==> forall|m: int| k <= m < n ==> !closes_block_at(v@, m),
            forall|m: int| last < m < n ==> !closes_block_at(v@, m),
        decreases k,
    {
        k = k - 1;
        if last == n && block_close_at(v, k) {
            last = k;
        }
    }
    if last == n {
        assert forall|i: int, j: int, c: int|
            !(opens_decorator_block_at(v@, i) && i < j < c && opens_partial_call_at(v@, j)
                && closes_block_at(v@, c)) by {
            if closes_block_at(v@, c) {
                assert(0 <= c < n);
            }
        }
        return false;
    }
    let mut j = first + 1;
    while j < last
        invariant
            first < n,
            opens_decorator_block_at(v@, first as int),
            forall|m: int| 0 <= m < first ==> !opens_decorator_block_at(v@, m),
            last < n == v.len(),
            closes_block_at(v@, last as int),
            forall|m: int| last < m < n ==> !closes_block_at(v@, m),
            first + 1 <= j,
            forall|m: int| first < m < j ==> !opens_partial_call_at(v@, m),
        decreases last - j,
    {
        if partial_call_at(v, j) {
            assert(opens_decorator_block_at(v@, first as int) && (first as int) < (j as int)
                && (j as int) < (last as int) && opens_partial_call_at(v@, j as int)
                && closes_block_at(v@, last as int));
            return true;
        }
        j = j + 1;
    }
    assert forall|i: int, jj: int, c: int|
        !(opens_decorator_block_at(v@, i) && i < jj < c && opens_partial_call_at(v@, jj)
            && closes_block_at(v@, c)) by {
        if opens_decorator_block_at(v@, i) && i < jj < c && opens_partial_call_at(v@, jj)
            && closes_block_at(v@, c) {
            assert(first <= i);
            assert(c <= last);
        }
    }
    false
}

/// Whether the template is handed to Handlebars.
pub fn template_is_renderable(template: &str) -> (b: bool)
    ensures
        b == renderable(template@),
{
    let v = chars_of(template);
    let n = v.len();
    let mut i: usize = 0;
    let mut blocks: usize = 0;
    while i < n
        invariant
            i <= n == v.len(),
            v@ == template@,
            forall|k: int| 0 <= k < i ==> opens_tag_at(v@, k) ==> tag_ok(v@, k),
            blocks == block_tags_before(v@, i as int),
            blocks <= i,
        decreases n - i,
    {
        if tag_at(&v, i) && !tag_is_ok(&v, i) {
            return false;
        }
        if block_tag_at(&v, i) {
            blocks = blocks + 1;
        }
        i = i + 1;
    }
    assert forall|k: int| opens_tag_at(v@, k) implies tag_ok(v@, k) by {
        assert(0 <= k < n);
    }
    blocks <= MAX_BLOCK_TAGS && !inline_call_possible(&v)
}

} // verus!
