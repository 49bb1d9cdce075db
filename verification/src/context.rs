//! The values a new project's template is rendered with, and the rendering.
use vstd::prelude::*;
use crate::template_check::{renderable, template_is_renderable};
use crate::text::{lemma_join_starts_with_first, append_str, join, join_strings, lemma_views_push, owned, replace_char, replace_char_spec, views};
use crate::text::digit_char;

verus! {

#[verifier::external_type_specification]
#[verifier::external_body]
pub struct ExJsonError(serde_json::Error);

#[verifier::external_type_specification]
#[verifier::external_body]
pub struct ExRenderError(handlebars::RenderError);

/// What can go wrong while the template context is built or rendered.
#[derive(Debug)]
pub enum TemplateError {
    /// A value could not be written as a JSON string.
    Json(serde_json::Error),
    /// The template could not be rendered.
    Render(handlebars::RenderError),
    /// The template is not handed to Handlebars: its nesting is not bounded
    /// as `renderable` asks, or an inline partial in it may call a partial.
    Unsupported,
}

/// The `[package]` section of a `nockapp.toml`.
pub struct PackageInfo {
    pub name: String,
    pub version: Option<String>,
    pub description: Option<String>,
    pub authors: Option<Vec<String>>,
    pub template: Option<String>,
    pub template_commit: Option<String>,
}

/// The characters of an optional string, none when it is absent.
pub open spec fn text_or_empty(o: Option<String>) -> Seq<char> {
    match o {
        Some(s) => s@,
        None => Seq::empty(),
    }
}

/// The package's authors, none when the list is absent.
pub open spec fn authors_of(p: PackageInfo) -> Seq<Seq<char>> {
    match p.authors {
        Some(a) => views(a@),
        None => Seq::empty(),
    }
}

/// Lower-case hexadecimal digit.
pub open spec fn hex_digit(d: int) -> char {
    if d < 10 {
        digit_char(d)
    } else if d == 10 {
        'a'
    } else if d == 11 {
        'b'
    } else if d == 12 {
        'c'
    } else if d == 13 {
        'd'
    } else if d == 14 {
        'e'
    } else {
        'f'
    }
}

/// How one character stands inside a JSON string literal.
pub open spec fn json_escape_char(c: char) -> Seq<char> {
    if c == '"' {
        seq!['\\', '"']
    } else if c == '\\' {
        seq!['\\', '\\']
    } else if c == '\u{8}' {
        seq!['\\', 'b']
    } else if c == '\t' {
        seq!['\\', 't']
    } else if c == '\n' {
        seq!['\\', 'n']
    } else if c == '\u{c}' {
        seq!['\\', 'f']
    } else if c == '\r' {
        seq!['\\', 'r']
    } else if (c as int) < 0x20 {
        seq!['\\', 'u', '0', '0', hex_digit((c as int) / 16), hex_digit((c as int) % 16)]
    } else {
        seq![c]
    }
}

/// The body of a JSON string literal for `s`.
pub open spec fn json_escaped(s: Seq<char>) -> Seq<char>
    decreases s.len(),
{
    if s.len() == 0 {
        Seq::empty()
    } else {
        json_escaped(s.drop_last()) + json_escape_char(s.last())
    }
}

/// The JSON string literal for `s`.
pub open spec fn json_quoted(s: Seq<char>) -> Seq<char> {
    seq!['"'] + json_escaped(s) + seq!['"']
}

/// Calls `serde_json::to_string` on a string. Trusted: it succeeds (a string
/// serializes with `serialize_str`, whose only failure is a failed write,
/// and writing into the `Vec` it serializes into does not fail), and the text
/// is the string between double quotes with `"`, `\` and the control
/// characters escaped as the serializer's escape table does.
#[verifier::external_body]
fn json_string(value: &String) -> (r: Result<String, serde_json::Error>)
    ensures
        r is Ok,
        r matches Ok(s) ==> s@ == json_quoted(value@),
{
    serde_json::to_string(value)
}

/// The JSON literals of `values`, each quoted.
pub open spec fn json_literals(values: Seq<Seq<char>>) -> Seq<Seq<char>> {
    values.map_values(|v: Seq<char>| json_quoted(v))
}

/// Writes a list of strings as the inside of a TOML array: each as a quoted
/// literal, separated by `, `.
pub fn toml_string_array(values: &Vec<String>) -> (r: Result<String, TemplateError>)
    ensures
        r matches Ok(s) && s@ == join(json_literals(views(values@)), ", "@),
{
    let ghost vs = views(values@);
    let mut quoted: Vec<String> = Vec::new();
    let mut i: usize = 0;
    while i < values.len()
        invariant
            i <= values.len(),
            vs == views(values@),
            views(quoted@) == json_literals(vs.take(i as int)),
        decreases values.len() - i,
    {
        match json_string(&values[i]) {
            Ok(q) => {
                proof {
                    lemma_views_push(quoted@, q);
                }
                quoted.push(q);
                assert(json_literals(vs.take(i + 1)) =~= json_literals(vs.take(i as int)).push(
                    json_quoted(vs[i as int]),
                ));
            },
            Err(e) => {
                return Err(TemplateError::Json(e));
            },
        }
        i = i + 1;
    }
    assert(vs.take(values.len() as int) =~= vs);
    Ok(join_strings(&quoted, ", "))
}

/// The Rust crate name of a package: its name with each `-` turned into `_`.
pub fn rust_crate_name(package_name: &str) -> (r: String)
    ensures
        r@ == replace_char_spec(package_name@, '-', '_'),
{
    replace_char(package_name, '-', '_')
}

} // verus!

verus! {

/// The map that a list of (key, value) entries describes.
pub open spec fn entries_map(e: Seq<(String, String)>) -> Map<Seq<char>, Seq<char>>
    decreases e.len(),
{
    if e.len() == 0 {
        Map::empty()
    } else {
        entries_map(e.drop_last()).insert(e.last().0@, e.last().1@)
    }
}

/// No key occurs twice among the entries.
pub open spec fn keys_distinct(e: Seq<(String, String)>) -> bool {
    forall|i: int, j: int| 0 <= i < j < e.len() ==> e[i].0@ != e[j].0@
}

proof fn lemma_map_has(e: Seq<(String, String)>, i: int)
    requires
        keys_distinct(e),
        0 <= i < e.len(),
    ensures
        entries_map(e).contains_key(e[i].0@),
        entries_map(e)[e[i].0@] == e[i].1@,
    decreases e.len(),
{
    if i < e.len() - 1 {
        lemma_map_has(e.drop_last(), i);
    }
}

proof fn lemma_map_lacks(e: Seq<(String, String)>, k: Seq<char>)
    requires
        forall|i: int| 0 <= i < e.len() ==> (#[trigger] e[i]).0@ != k,
    ensures
        !entries_map(e).contains_key(k),
    decreases e.len(),
{
    if e.len() > 0 {
        lemma_map_lacks(e.drop_last(), k);
    }
}

proof fn lemma_map_len(e: Seq<(String, String)>)
    requires
        keys_distinct(e),
    ensures
        entries_map(e).dom().finite(),
        entries_map(e).len() == e.len(),
    decreases e.len(),
{
    if e.len() > 0 {
        let d = e.drop_last();
        lemma_map_len(d);
        lemma_map_lacks(d, e.last().0@);
    }
}

proof fn lemma_map_update(e: Seq<(String, String)>, i: int, k: String, v: String)
    requires
        keys_distinct(e),
        0 <= i < e.len(),
        e[i].0@ == k@,
    ensures
        keys_distinct(e.update(i, (k, v))),
        entries_map(e.update(i, (k, v))) == entries_map(e).insert(k@, v@),
{
    let u = e.update(i, (k, v));
    assert(keys_distinct(u)) by {
        assert forall|a: int, b: int| 0 <= a < b < u.len() implies u[a].0@ != u[b].0@ by {
            assert(u[a].0@ == e[a].0@);
            assert(u[b].0@ == e[b].0@);
        }
    }
    let m = entries_map(e).insert(k@, v@);
    assert forall|q: Seq<char>| #[trigger] entries_map(u).contains_key(q) == m.contains_key(q) && (
    entries_map(u).contains_key(q) ==> entries_map(u)[q] == m[q]) by {
        if q == k@ {
            lemma_map_has(u, i);
        } else if exists|j: int| 0 <= j < e.len() && (#[trigger] e[j]).0@ == q {
            let j = choose|j: int| 0 <= j < e.len() && (#[trigger] e[j]).0@ == q;
            lemma_map_has(e, j);
            assert(u[j] == e[j]);
            lemma_map_has(u, j);
        } else {
            lemma_map_lacks(e, q);
            assert forall|j: int| 0 <= j < u.len() implies (#[trigger] u[j]).0@ != q by {
                if j != i {
                    assert(u[j] == e[j]);
                }
            }
            lemma_map_lacks(u, q);
        }
    }
    assert(entries_map(u) =~= entries_map(e).insert(k@, v@));
}

/// Names and their values, each name at most once.
pub struct TemplateContext {
    entries: Vec<(String, String)>,
}

impl View for TemplateContext {
    type V = Map<Seq<char>, Seq<char>>;

    closed spec fn view(&self) -> Map<Seq<char>, Seq<char>> {
        entries_map(self.entries@)
    }
}

impl TemplateContext {
    #[verifier::type_invariant]
    spec fn inv(&self) -> bool {
        keys_distinct(self.entries@)
    }

    /// An empty context.
    pub fn new() -> (c: Self)
        ensures
            c@ == Map::<Seq<char>, Seq<char>>::empty(),
    {
        TemplateContext { entries: Vec::new() }
    }

    /// Sets `key` to `value`, and gives back the value it had, if any.
    pub fn insert(&mut self, key: String, value: String) -> (prev: Option<String>)
        ensures
            final(self)@ == old(self)@.insert(key@, value@),
            match prev {
                Some(p) => old(self)@.contains_key(key@) && p@ == old(self)@[key@],
                None => !old(self)@.contains_key(key@),
            },
    {
        proof {
            use_type_invariant(&*self);
        }
        let mut e: Vec<(String, String)> = Vec::new();
        std::mem::swap(&mut e, &mut self.entries);
        let ghost before = e@;
        assert(entries_map(before) == old(self)@);
        let mut i: usize = 0;
        while i < e.len()
            invariant
                i <= e.len(),
                e@ == before,
                entries_map(before) == old(self)@,
                keys_distinct(before),
                forall|k: int| 0 <= k < i ==> (#[trigger] before[k]).0@ != key@,
            decreases e.len() - i,
        {
            if e[i].0 == key {
                proof {
                    lemma_map_has(before, i as int);
                    lemma_map_update(before, i as int, key, value);
                }
                let old_value = e[i].1.clone();
                e.set(i, (key, value));
                self.entries = e;
                return Some(old_value);
            }
            i = i + 1;
        }
        proof {
            lemma_map_lacks(before, key@);
            assert(e@.push((key, value)).drop_last() =~= before);
        }
        e.push((key, value));
        self.entries = e;
        None
    }

    /// The value of `key`, if it has one.
    pub fn get(&self, key: &str) -> (r: Option<&String>)
        ensures
            match r {
                Some(v) => self@.contains_key(key@) && self@[key@] == v@,
                None => !self@.contains_key(key@),
            },
    {
        proof {
            use_type_invariant(self);
        }
        let k = owned(key);
        let mut i: usize = 0;
        while i < self.entries.len()
            invariant
                i <= self.entries.len(),
                k@ == key@,
                keys_distinct(self.entries@),
                forall|j: int| 0 <= j < i ==> (#[trigger] self.entries@[j]).0@ != key@,
            decreases self.entries.len() - i,
        {
            if self.entries[i].0 == k {
                proof {
                    lemma_map_has(self.entries@, i as int);
                }
                return Some(&self.entries[i].1);
            }
            i = i + 1;
        }
        proof {
            lemma_map_lacks(self.entries@, key@);
        }
        None
    }

    /// The number of names.
    pub fn len(&self) -> (n: usize)
        ensures
            n == self@.len(),
    {
        proof {
            use_type_invariant(self);
            lemma_map_len(self.entries@);
        }
        self.entries.len()
    }
}

/// A value read back under the key it was just set under is that value, and
/// setting one key leaves every other key as it was.
pub proof fn lemma_insert_then_lookup(
    m: Map<Seq<char>, Seq<char>>,
    key: Seq<char>,
    value: Seq<char>,
    other: Seq<char>,
)
    requires
        other != key,
    ensures
        m.insert(key, value).contains_key(key),
        m.insert(key, value)[key] == value,
        m.insert(key, value).contains_key(other) == m.contains_key(other),
        m.contains_key(other) ==> m.insert(key, value)[other] == m[other],
{
}

/// What Handlebars does with `template` and `context`: the text it renders,
/// when it renders one (`None` when it refuses the template or the data), and
/// whether a call on these arguments may fail at all.
pub uninterp spec fn handlebars_outcome(
    template: Seq<char>,
    context: Map<Seq<char>, Seq<char>>,
) -> (Option<Seq<char>>, bool);

/// The text Handlebars renders from `template` with `context`, when it
/// renders one.
pub open spec fn rendered_template(
    template: Seq<char>,
    context: Map<Seq<char>, Seq<char>>,
) -> Option<Seq<char>> {
    handlebars_outcome(template, context).0
}

/// A call of Handlebars on `template` and `context` may fail: these are
/// arguments it refuses, or on which it may run out of resources.
pub open spec fn render_may_fail(template: Seq<char>, context: Map<Seq<char>, Seq<char>>) -> bool {
    handlebars_outcome(template, context).1
}

/// Calls `Handlebars::new().render_template` with the context's entries as a
/// map from names to strings. Trusted: a text it gives back is a function of
/// the template text and the context's map alone (a fresh registry, and the
/// map serialized into a key-ordered JSON object), named `rendered_template`;
/// it fails where that name has no text, and it fails only on arguments on
/// which a call may fail (`render_may_fail`). Left unsaid: which arguments
/// those are beyond the ones without a text, since its parser also gives up
/// when little native stack is left or a process-wide call limit is reached. The template must be
/// `renderable`: without a literal or path segment in a tag, each tag ends at
/// its first `}}`, so nesting is bounded by the block tags and each tag's
/// parentheses; and since a fresh registry holds no templates, only inline
/// partials can be called, and none of them calls a partial, so partials
/// cannot include one another without end. Rendering at those bounds was
/// tried on threads with 2 MiB of stack.
#[verifier::external_body]
fn handlebars_render(template: &str, context: &TemplateContext) -> (r: Result<
    String,
    handlebars::RenderError,
>)
    requires
        renderable(template@),
    ensures
        r matches Ok(s) ==> handlebars_outcome(template@, context@).0 == Some(s@),
        handlebars_outcome(template@, context@).0 is None ==> r is Err,
        r is Err ==> handlebars_outcome(template@, context@).1,
{
    let data: std::collections::HashMap<&str, &str> = context.entries.iter().map(
        |(k, v)| (k.as_str(), v.as_str()),
    ).collect();
    handlebars::Handlebars::new().render_template(template, &data)
}

/// Renders a template file's text with the context. A template that is not
/// `renderable` is refused; otherwise the text is the one Handlebars renders,
/// or the error is Handlebars' own.
pub fn render_template(template: &str, context: &TemplateContext) -> (r: Result<
    String,
    TemplateError,
>)
    ensures
        !renderable(template@) ==> r matches Err(TemplateError::Unsupported),
        renderable(template@) ==> {
            &&& r matches Ok(x) ==> rendered_template(template@, context@) == Some(x@)
            &&& r matches Err(e) ==> e is Render
            &&& r is Err ==> render_may_fail(template@, context@)
            &&& rendered_template(template@, context@) is None ==> r is Err
        },
{
    if !template_is_renderable(template) {
        return Err(TemplateError::Unsupported);
    }
    match handlebars_render(template, context) {
        Ok(s) => Ok(s),
        Err(e) => Err(TemplateError::Render(e)),
    }
}

} // verus!

verus! {

/// The context a project template is rendered with.
pub open spec fn expected_context(
    p: PackageInfo,
    authors_toml: Seq<char>,
    commit: Seq<char>,
) -> Map<Seq<char>, Seq<char>> {
    let authors = authors_of(p);
    Map::empty().insert("name"@, p.name@).insert("project_name"@, p.name@).insert(
        "crate_name"@,
        replace_char_spec(p.name@, '-', '_'),
    ).insert("version"@, text_or_empty(p.version)).insert(
        "description"@,
        text_or_empty(p.description),
    ).insert("author"@, join(authors, ", "@)).insert("authors"@, authors_toml).insert(
        "author_name"@,
        if authors.len() > 0 {
            authors[0]
        } else {
            Seq::empty()
        },
    ).insert("author_email"@, Seq::empty()).insert("nockapp_commit_hash"@, commit)
}

fn text_or_new(o: &Option<String>) -> (s: String)
    ensures
        s@ == text_or_empty(*o),
{
    match o {
        Some(v) => v.clone(),
        None => String::new(),
    }
}

/// Builds the context a new project's template is rendered with, from the
/// package section of its manifest and the nockapp commit it is pinned to.
pub fn build_handlebars_context(package: &PackageInfo, nockapp_commit_hash: &str) -> (r: Result<
    TemplateContext,
    TemplateError,
>)
    ensures
        r matches Ok(ctx) && ctx@ == expected_context(
            *package,
            join(json_literals(authors_of(*package)), ", "@),
            nockapp_commit_hash@,
        ),
{
    let authors: Vec<String> = match &package.authors {
        Some(a) => {
            let c = a.clone();
            assert(c@ =~= a@);
            c
        },
        None => Vec::new(),
    };
    assert(views(authors@) =~= authors_of(*package));
    let mut ctx = TemplateContext::new();
    ctx.insert(owned("name"), package.name.clone());
    ctx.insert(owned("project_name"), package.name.clone());
    ctx.insert(owned("crate_name"), rust_crate_name(package.name.as_str()));
    ctx.insert(owned("version"), text_or_new(&package.version));
    ctx.insert(owned("description"), text_or_new(&package.description));
    ctx.insert(owned("author"), join_strings(&authors, ", "));
    let authors_toml = match toml_string_array(&authors) {
        Ok(s) => s,
        Err(e) => {
            return Err(e);
        },
    };
    ctx.insert(owned("authors"), authors_toml);
    let author_name = if authors.len() > 0 {
        authors[0].clone()
    } else {
        String::new()
    };
    ctx.insert(owned("author_name"), author_name);
    ctx.insert(owned("author_email"), String::new());
    ctx.insert(owned("nockapp_commit_hash"), owned(nockapp_commit_hash));
    Ok(ctx)
}

} // verus!

verus! {

/// A crate name has no `-`, is as long as the package name, and turning it
/// into a crate name again changes nothing.
pub proof fn lemma_crate_name_shape(package_name: Seq<char>)
    ensures
        !replace_char_spec(package_name, '-', '_').contains('-'),
        replace_char_spec(package_name, '-', '_').len() == package_name.len(),
        replace_char_spec(replace_char_spec(package_name, '-', '_'), '-', '_')
            == replace_char_spec(package_name, '-', '_'),
{
    let c = replace_char_spec(package_name, '-', '_');
    assert(replace_char_spec(c, '-', '_') =~= c);
}

/// Text without quotes, backslashes or control characters is quoted as it is.
pub proof fn lemma_plain_text_quoted_verbatim(s: Seq<char>)
    requires
        forall|i: int|
            0 <= i < s.len() ==> #[trigger] s[i] != '"' && s[i] != '\\' && (s[i] as int) >= 0x20,
    ensures
        json_quoted(s) == seq!['"'] + s + seq!['"'],
    decreases s.len(),
{
    lemma_plain_text_escaped_verbatim(s);
}

proof fn lemma_plain_text_escaped_verbatim(s: Seq<char>)
    requires
        forall|i: int|
            0 <= i < s.len() ==> #[trigger] s[i] != '"' && s[i] != '\\' && (s[i] as int) >= 0x20,
    ensures
        json_escaped(s) == s,
    decreases s.len(),
{
    if s.len() > 0 {
        let d = s.drop_last();
        assert forall|i: int| 0 <= i < d.len() implies #[trigger] d[i] != '"' && d[i] != '\\' && (
        d[i] as int) >= 0x20 by {
            assert(d[i] == s[i]);
        }
        lemma_plain_text_escaped_verbatim(d);
        let c = s.last();
        assert(s[s.len() - 1] == c);
        assert(c != '\u{8}' && c != '\t' && c != '\n' && c != '\u{c}' && c != '\r') by {
            assert((c as int) >= 0x20);
        }
        assert(json_escaped(s) =~= s);
    }
}

/// In a template context the project's name stands under both `name` and
/// `project_name`, its crate name under `crate_name`, and the pinned commit
/// under `nockapp_commit_hash`.
pub proof fn lemma_context_names(p: PackageInfo, authors_toml: Seq<char>, commit: Seq<char>)
    ensures
        expected_context(p, authors_toml, commit)["name"@] == p.name@,
        expected_context(p, authors_toml, commit)["project_name"@] == p.name@,
        expected_context(p, authors_toml, commit)["crate_name"@] == replace_char_spec(
            p.name@,
            '-',
            '_',
        ),
        expected_context(p, authors_toml, commit)["nockapp_commit_hash"@] == commit,
        expected_context(p, authors_toml, commit).dom().len() == 10,
        expected_context(p, authors_toml, commit)["version"@] == match p.version {
            Some(v) => v@,
            None => Seq::<char>::empty(),
        },
        expected_context(p, authors_toml, commit)["description"@] == match p.description {
            Some(d) => d@,
            None => Seq::<char>::empty(),
        },
        expected_context(p, authors_toml, commit)["authors"@] == authors_toml,
        expected_context(p, authors_toml, commit)["author_email"@] == Seq::<char>::empty(),
        p.authors is Some && p.authors->0.len() > 0 ==> expected_context(p, authors_toml, commit)[
            "author_name"@] == p.authors->0[0]@,
        p.authors is Some && p.authors->0.len() > 0 ==> expected_context(p, authors_toml, commit)[
            "author"@].take(p.authors->0[0]@.len() as int) == p.authors->0[0]@,
        expected_context(p, authors_toml, commit)["author"@] == join(authors_of(p), ", "@),
        p.authors is Some && p.authors->0.len() == 1 ==> expected_context(p, authors_toml, commit)[
            "author"@] == p.authors->0[0]@,
        p.authors is Some && p.authors->0.len() == 2 ==> expected_context(p, authors_toml, commit)[
            "author"@] == p.authors->0[0]@ + ", "@ + p.authors->0[1]@,
        (p.authors is None || p.authors->0.len() == 0) ==> expected_context(
            p,
            authors_toml,
            commit,
        )["author_name"@] == Seq::<char>::empty() && expected_context(p, authors_toml, commit)[
            "author"@] == Seq::<char>::empty(),
{
    reveal_strlit("name");
    reveal_strlit("project_name");
    reveal_strlit("crate_name");
    reveal_strlit("version");
    reveal_strlit("description");
    reveal_strlit("author");
    reveal_strlit("authors");
    reveal_strlit("author_name");
    reveal_strlit("author_email");
    reveal_strlit("nockapp_commit_hash");
    let m = expected_context(p, authors_toml, commit);
    if p.authors is Some && p.authors->0.len() > 0 {
        lemma_join_starts_with_first(authors_of(p), ", "@);
        assert(authors_of(p)[0] == p.authors->0[0]@);
        if p.authors->0.len() == 2 {
            let a = authors_of(p);
            assert(a[1] == p.authors->0[1]@);
            assert(a.drop_last().len() == 1);
            assert(a.drop_last()[0] == a[0]);
            assert(join(a, ", "@) == join(a.drop_last(), ", "@) + ", "@ + a.last());
        }
    }
    let keys = seq![
        "name"@,
        "project_name"@,
        "crate_name"@,
        "version"@,
        "description"@,
        "author"@,
        "authors"@,
        "author_name"@,
        "author_email"@,
        "nockapp_commit_hash"@,
    ];
    assert forall|i: int, j: int| 0 <= i < keys.len() && 0 <= j < keys.len() && i != j implies
        #[trigger] keys[i] != #[trigger] keys[j] by {
        if keys[i].len() == keys[j].len() {
            assert(keys[i][0] != keys[j][0]);
        }
    }
    assert(keys.no_duplicates());
    keys.unique_seq_to_set();
    assert(m.dom() =~= keys.to_set()) by {
        assert forall|k: Seq<char>| m.dom().contains(k) <==> keys.to_set().contains(k) by {
            if m.dom().contains(k) {
                assert(keys.contains(k));
            }
            if keys.to_set().contains(k) {
                let i = choose|i: int| 0 <= i < keys.len() && keys[i] == k;
                assert(m.dom().contains(keys[i]));
            }
        }
    }
}

} // verus!
