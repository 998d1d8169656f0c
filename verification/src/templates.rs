//! Chat template overrides.
//!
//! FreeToken has no `--chat-template` flag: it loads the prompt template through
//! `AutoTokenizer.from_pretrained(model_path)`, so the only way to change it is to change
//! what that call finds. On the transformers release FreeToken pins, a
//! `chat_template.jinja` in the model directory takes precedence over the `chat_template`
//! key inside `tokenizer_config.json`, which makes dropping that one file in the correct
//! and least invasive override.
//!
//! That means applying a template *writes into the checkpoint directory*, so this module
//! is built around making that reversible and obvious:
//!
//! * whatever `chat_template.jinja` was there first is moved aside, never overwritten;
//! * a marker file records what was applied, from where, and whether there was an
//!   original, so [`status`] can report the truth even after paddock restarts;
//! * [`revert`] puts it back exactly: restoring the original, or removing the file
//!   entirely when the model never had one.

use vstd::prelude::*;
use vstd::string::*;
use vstd::utf8::encode_utf8;
use crate::models::Model;
use crate::order::{keyed, ordered, sorted_values, values};
use crate::overrides::Folder;
use crate::paths::{components, components_of, file_name, file_name_of, join, joined_path, parent, parent_of};
use crate::text::{
    after_last, alphanumeric, byte_len, cat2, cat3, cat4, cat5, chars_of, contains, count, dec,
    decimal, find, first_at, occurs, is_alphanumeric, is_space, lowercase, occurrences, opt_text,
    same, space, starts_with, tail_after, text_of, texts, to_lowercase, trim, trimmed,
};

verus! {

/// The file transformers reads. Writing this shadows `tokenizer_config.json`.
pub const TEMPLATE_FILE: &'static str = "chat_template.jinja";

/// Where the checkpoint's own template is parked while an override is in place.
pub const BACKUP_FILE: &'static str = "chat_template.jinja.ft-man-original";

/// Records what paddock applied, so an override survives a restart visibly.
pub const MARKER_FILE: &'static str = ".ft-man-template.json";

// ---------------------------------------------------------------- the store

/// Where fetched templates are kept, shared across every model.
pub fn store_dir(state_dir: &str) -> (r: String)
    ensures
        r@ == joined_path(state_dir@, "templates"@),
{
    join(state_dir, "templates")
}

/// Provenance for a stored template, written beside it.
#[derive(Debug, Clone)]
pub struct TemplateMeta {
    /// Hugging Face repo it came from, when it was fetched rather than imported.
    pub source: Option<String>,
    /// The commit the fetch resolved to, so "which version is this" is answerable.
    pub revision: Option<String>,
    /// Path within that repo.
    pub repo_path: Option<String>,
    pub fetched_at: Option<String>,
    /// `template_version` declared inside the jinja, when it declares one.
    pub version: Option<String>,
}

impl Default for TemplateMeta {
    fn default() -> (r: Self)
        ensures
            r == (TemplateMeta {
                source: None,
                revision: None,
                repo_path: None,
                fetched_at: None,
                version: None,
            }),
    {
        TemplateMeta {
            source: None,
            revision: None,
            repo_path: None,
            fetched_at: None,
            version: None,
        }
    }
}

#[derive(Debug, Clone)]
pub struct StoredTemplate {
    pub name: String,
    pub path: String,
    pub meta: TemplateMeta,
    pub size: u64,
}

/// What there is to say of a template in one line.
pub open spec fn subtitle_of(meta: TemplateMeta) -> Seq<char> {
    match (meta.version, meta.source) {
        (Some(v), _) => v@,
        (None, Some(s)) => s@,
        (None, None) => "imported"@,
    }
}

impl StoredTemplate {
    /// One-line description: the declared version if there is one, else the source.
    pub fn subtitle(&self) -> (r: String)
        ensures
            r@ == subtitle_of(self.meta),
    {
        match &self.meta.version {
            Some(v) => v.clone(),
            None => match &self.meta.source {
                Some(s) => s.clone(),
                None => "imported".to_owned(),
            },
        }
    }
}

pub fn meta_path(store: &str, name: &str) -> (r: String)
    ensures
        r@ == joined_path(store@, name@ + ".meta.json"@),
{
    join(store, cat2(name, ".meta.json").as_str())
}

pub fn template_path(store: &str, name: &str) -> (r: String)
    ensures
        r@ == joined_path(store@, name@ + ".jinja"@),
{
    join(store, cat2(name, ".jinja").as_str())
}

pub open spec fn by_name(v: Seq<StoredTemplate>) -> Seq<(Seq<char>, StoredTemplate)> {
    Seq::new(v.len(), |i: int| (v[i].name@, v[i]))
}

/// Every stored template, sorted by name.
pub fn list(found: Vec<StoredTemplate>) -> (r: Vec<StoredTemplate>)
    ensures
        r@ == values(ordered(by_name(found@))),
{
    let ghost all = found@;
    let mut rest: Vec<StoredTemplate> = found;
    let mut pairs: Vec<(String, StoredTemplate)> = Vec::new();
    let mut i: usize = 0;
    while rest.len() > 0
        invariant
            pairs@.len() + rest@.len() == all.len(),
            rest@ =~= all.skip(pairs@.len() as int),
            forall|j: int|
                0 <= j < pairs@.len() ==> (#[trigger] pairs@[j]).0@ == all[j].name@ && pairs@[j].1
                    == all[j],
        decreases rest.len(),
    {
        let ghost n = pairs@.len() as int;
        assert(all.skip(n)[0] == all[n]);
        let t = rest.remove(0);
        assert(all.skip(n).drop_first() =~= all.skip(n + 1));
        pairs.push((t.name.clone(), t));
    }
    assert(keyed(pairs@) =~= by_name(all));
    sorted_values(pairs)
}

/// Where the first template called `name` stands; the length when there is none.
pub open spec fn index_of(v: Seq<StoredTemplate>, name: Seq<char>) -> nat
    decreases v.len(),
{
    if v.len() == 0 || v[0].name@ == name {
        0
    } else {
        1 + index_of(v.drop_first(), name)
    }
}

pub fn get<'a>(list: &'a Vec<StoredTemplate>, name: &str) -> (r: Option<&'a StoredTemplate>)
    ensures
        match r {
            Some(t) => index_of(list@, name@) < list@.len() && *t == list@[index_of(
                list@,
                name@,
            ) as int] && t.name@ == name@,
            None => index_of(list@, name@) == list@.len(),
        },
{
    let mut i: usize = 0;
    assert(list@.skip(0) =~= list@);
    while i < list.len()
        invariant
            i <= list.len(),
            index_of(list@, name@) == i + index_of(list@.skip(i as int), name@),
        decreases list.len() - i,
    {
        assert(list@.skip(i as int)[0] == list@[i as int]);
        if same(list[i].name.as_str(), name) {
            return Some(&list[i]);
        }
        assert(list@.skip(i as int).drop_first() =~= list@.skip(i + 1));
        i = i + 1;
    }
    assert(list@.skip(i as int).len() == 0);
    None
}

pub open spec fn opt_or(a: Option<Seq<char>>, b: Option<Seq<char>>) -> Option<Seq<char>> {
    if a is Some {
        a
    } else {
        b
    }
}

/// Why a template cannot be saved under a name.
pub open spec fn save_error(name: Seq<char>, jinja: Seq<char>) -> Option<Seq<char>> {
    if trimmed(name).len() == 0 {
        Some("a template needs a name"@)
    } else {
        problem(jinja)
    }
}

/// A template to be saved into the store, with the declared version filled in. `now` is the
/// time it was fetched at, where nothing else is recorded.
pub fn save(store: &str, name: &str, jinja: &str, meta: TemplateMeta, now: &str) -> (r: Result<
    StoredTemplate,
    String,
>)
    ensures
        match r {
            Err(e) => save_error(name@, jinja@) == Some(e@),
            Ok(t) => {
                &&& save_error(name@, jinja@) is None
                &&& t.name@ == sanitized(name@)
                &&& t.path@ == joined_path(store@, sanitized(name@) + ".jinja"@)
                &&& t.size == encode_utf8(jinja@).len()
                &&& t.meta.source == meta.source
                &&& t.meta.revision == meta.revision
                &&& t.meta.repo_path == meta.repo_path
                &&& opt_text(t.meta.version) == opt_or(opt_text(meta.version), declared(jinja@))
                &&& opt_text(t.meta.fetched_at) == opt_or(opt_text(meta.fetched_at), Some(now@))
            },
        },
{
    if trim(name).as_str().is_empty() {
        return Err("a template needs a name".to_owned());
    }
    if let Some(problem) = validate(jinja) {
        return Err(problem);
    }
    let name = sanitize_name(name);
    let version = match meta.version {
        Some(v) => Some(v),
        None => extract_version(jinja),
    };
    let fetched_at = match meta.fetched_at {
        Some(t) => Some(t),
        None => Some(now.to_owned()),
    };
    let path = template_path(store, name.as_str());
    Ok(
        StoredTemplate {
            name,
            path,
            meta: TemplateMeta {
                source: meta.source,
                revision: meta.revision,
                repo_path: meta.repo_path,
                fetched_at,
                version,
            },
            size: byte_len(jinja) as u64,
        },
    )
}

/// The name that a template of a repo is stored under.
pub open spec fn store_name(repo: Seq<char>, repo_path: Seq<char>) -> Seq<char> {
    let base = after_last(repo, '/');
    let dir = match parent_of(repo_path) {
        Some(p) => file_name_of(p),
        None => None,
    };
    match dir {
        Some(dir) => sanitized(base + "-"@ + dir),
        None => sanitized(base),
    }
}

/// Turn a repo path into a store name: `archive/v22.3.2-sharp/chat_template.jinja` in
/// repo `org/Qwen-Sharp-Chat-Templates` becomes `Qwen-Sharp-Chat-Templates-v22.3.2-sharp`,
/// while the repo-root template keeps the bare repo name.
pub fn name_for(repo: &str, repo_path: &str) -> (r: String)
    ensures
        r@ == store_name(repo@, repo_path@),
{
    let base = tail_after(repo, '/');
    let dir = match parent(repo_path) {
        Some(p) => file_name(p.as_str()),
        None => None,
    };
    match dir {
        Some(dir) => sanitize_name(cat3(base.as_str(), "-", dir.as_str()).as_str()),
        None => sanitize_name(base.as_str()),
    }
}

// ---------------------------------------------------------------- names

/// A character that may stand in a name.
pub open spec fn plain(c: char) -> bool {
    if c <= '\u{7f}' {
        ('a' <= c <= 'z') || ('A' <= c <= 'Z') || ('0' <= c <= '9') || c == '-' || c == '_' || c
            == '.'
    } else {
        !is_space(c) && alphanumeric(c)
    }
}

/// `s` with a dash for every character that may not stand in a name.
pub open spec fn dashed(s: Seq<char>) -> Seq<char> {
    Seq::new(
        s.len(),
        |i: int|
            if plain(s[i]) {
                s[i]
            } else {
                '-'
            },
    )
}

pub open spec fn edge(c: char) -> bool {
    c == '-' || c == '.'
}

pub open spec fn without_leading_edges(s: Seq<char>) -> Seq<char>
    decreases s.len(),
{
    if s.len() > 0 && edge(s[0]) {
        without_leading_edges(s.drop_first())
    } else {
        s
    }
}

pub open spec fn without_trailing_edges(s: Seq<char>) -> Seq<char>
    decreases s.len(),
{
    if s.len() > 0 && edge(s.last()) {
        without_trailing_edges(s.drop_last())
    } else {
        s
    }
}

/// A name that is safe as a single filename component.
pub open spec fn sanitized(name: Seq<char>) -> Seq<char> {
    let clean = without_trailing_edges(without_leading_edges(dashed(trimmed(name))));
    if clean.len() == 0 {
        "template"@
    } else {
        clean
    }
}

fn is_plain(c: char) -> (r: bool)
    ensures
        r == plain(c),
{
    if c <= '\u{7f}' {
        ('a' <= c && c <= 'z') || ('A' <= c && c <= 'Z') || ('0' <= c && c <= '9') || c == '-' || c
            == '_' || c == '.'
    } else {
        !space(c) && is_alphanumeric(c)
    }
}

/// Keep names safe as single filename components.
pub fn sanitize_name(name: &str) -> (r: String)
    ensures
        r@ == sanitized(name@),
{
    let t = trim(name);
    let v = chars_of(t.as_str());
    let mut w: Vec<char> = Vec::new();
    let mut i: usize = 0;
    while i < v.len()
        invariant
            i <= v.len(),
            w@.len() == i,
            forall|j: int| 0 <= j < i ==> #[trigger] w@[j] == dashed(v@)[j],
        decreases v.len() - i,
    {
        if is_plain(v[i]) {
            w.push(v[i]);
        } else {
            w.push('-');
        }
        i = i + 1;
    }
    assert(w@ =~= dashed(v@));
    let mut a: usize = 0;
    assert(w@.skip(0) =~= w@);
    while a < w.len() && (w[a] == '-' || w[a] == '.')
        invariant
            a <= w.len(),
            without_leading_edges(w@) == without_leading_edges(w@.skip(a as int)),
        decreases w.len() - a,
    {
        assert(w@.skip(a as int).drop_first() =~= w@.skip(a + 1));
        a = a + 1;
    }
    let ghost mid = w@.skip(a as int);
    assert(mid == without_leading_edges(w@));
    let mut b: usize = w.len();
    assert(mid.take(b - a) =~= mid);
    while b > a && (w[b - 1] == '-' || w[b - 1] == '.')
        invariant
            a <= b <= w.len(),
            mid == w@.skip(a as int),
            without_trailing_edges(mid) == without_trailing_edges(mid.take(b - a)),
        decreases b,
    {
        assert(mid.take(b - a).drop_last() =~= mid.take(b - a - 1));
        assert(mid.take(b - a).last() == w@[b - 1]);
        b = b - 1;
    }
    let clean = text_of(&w, a, b);
    assert(clean@ =~= mid.take(b - a));
    assert(b > a ==> mid.take(b - a).last() == w@[b - 1]);
    if clean.as_str().is_empty() {
        "template".to_owned()
    } else {
        clean
    }
}

proof fn lemma_leading(s: Seq<char>)
    ensures
        without_leading_edges(s).len() > 0 ==> !edge(without_leading_edges(s)[0]),
        forall|i: int|
            0 <= i < without_leading_edges(s).len() ==> s.contains(
                #[trigger] without_leading_edges(s)[i],
            ),
    decreases s.len(),
{
    if s.len() > 0 && edge(s[0]) {
        lemma_leading(s.drop_first());
        let r = without_leading_edges(s);
        assert forall|i: int| 0 <= i < r.len() implies s.contains(#[trigger] r[i]) by {
            let t = s.drop_first();
            let j = choose|j: int| 0 <= j < t.len() && t[j] == r[i];
            assert(s[j + 1] == r[i]);
        }
    }
}

proof fn lemma_trailing(s: Seq<char>)
    ensures
        without_trailing_edges(s).len() > 0 ==> !edge(without_trailing_edges(s).last())
            && without_trailing_edges(s)[0] == s[0],
        without_trailing_edges(s).is_prefix_of(s),
    decreases s.len(),
{
    if s.len() > 0 && edge(s.last()) {
        lemma_trailing(s.drop_last());
        let r = without_trailing_edges(s);
        assert(r =~= s.subrange(0, r.len() as int)) by {
            assert(r =~= s.drop_last().subrange(0, r.len() as int));
        }
    } else {
        assert(s =~= s.subrange(0, s.len() as int));
    }
}

/// A stored name is safe as a single filename component: it is not empty, no character of
/// it separates directories or ends a text, and it neither starts nor ends with a dash or a
/// dot, so it is neither hidden nor `..`.
pub proof fn law_names_are_safe_components(name: Seq<char>)
    ensures
        sanitized(name).len() > 0,
        forall|i: int| 0 <= i < sanitized(name).len() ==> plain(#[trigger] sanitized(name)[i]),
        !sanitized(name).contains('/'),
        !sanitized(name).contains('\0'),
        !edge(sanitized(name)[0]),
        !edge(sanitized(name).last()),
{
    let d = dashed(trimmed(name));
    let l = without_leading_edges(d);
    let r = without_trailing_edges(l);
    lemma_leading(d);
    lemma_trailing(l);
    let s = sanitized(name);
    reveal_strlit("template");
    assert forall|i: int| 0 <= i < s.len() implies plain(#[trigger] s[i]) by {
        if r.len() > 0 {
            assert(r[i] == l[i]);
            assert(d.contains(l[i]));
            let j = choose|j: int| 0 <= j < d.len() && d[j] == l[i];
            assert(plain(d[j]));
        } else {
            assert(s == "template"@);
        }
    }
    if s.contains('/') {
        let i = choose|i: int| 0 <= i < s.len() && s[i] == '/';
        assert(plain(s[i]));
    }
    if s.contains('\0') {
        let i = choose|i: int| 0 <= i < s.len() && s[i] == '\0';
        assert(plain(s[i]));
    }
}

/// What is clean is left as it is.
proof fn lemma_clean_stays(s: Seq<char>)
    requires
        s.len() > 0,
        forall|i: int| 0 <= i < s.len() ==> plain(#[trigger] s[i]),
        !edge(s[0]),
        !edge(s.last()),
    ensures
        sanitized(s) == s,
{
    assert(plain(s[0]) && plain(s[s.len() - 1]));
    assert(!is_space(s[0]) && !is_space(s.last()));
    assert(trimmed(s) == s);
    assert(dashed(s) =~= s);
}

proof fn lemma_edges_go(s: Seq<char>)
    requires
        forall|i: int| 0 <= i < s.len() ==> edge(#[trigger] s[i]),
    ensures
        without_leading_edges(s).len() == 0,
    decreases s.len(),
{
    if s.len() > 0 {
        let t = s.drop_first();
        assert forall|i: int| 0 <= i < t.len() implies edge(#[trigger] t[i]) by {
            assert(t[i] == s[i + 1]);
        }
        lemma_edges_go(t);
    }
}

/// Cleaning a name again changes nothing.
pub proof fn law_a_clean_name_stays_as_it_is(name: Seq<char>)
    ensures
        sanitized(sanitized(name)) == sanitized(name),
{
    law_names_are_safe_components(name);
    lemma_clean_stays(sanitized(name));
}

/// A name of which nothing can be used, once the spaces at its ends are gone, is called
/// `template`.
pub proof fn law_an_unusable_name_has_a_fallback(name: Seq<char>)
    requires
        forall|i: int|
            0 <= i < trimmed(name).len() ==> !plain(#[trigger] trimmed(name)[i]) || edge(
                trimmed(name)[i],
            ),
    ensures
        sanitized(name) == "template"@,
{
    let d = dashed(trimmed(name));
    assert forall|i: int| 0 <= i < d.len() implies edge(#[trigger] d[i]) by {
        assert(!plain(trimmed(name)[i]) || edge(trimmed(name)[i]));
    }
    lemma_edges_go(d);
}

// ---------------------------------------------------------------- reading a template

/// Where the first quote stands; the length when there is none.
pub open spec fn first_quote(s: Seq<char>) -> nat
    decreases s.len(),
{
    if s.len() == 0 || s[0] == '"' || s[0] == '\'' {
        0
    } else {
        1 + first_quote(s.drop_first())
    }
}

/// What stands in quotes first: the text up to the next quote of the same kind, trimmed.
pub open spec fn first_quoted(s: Seq<char>) -> Option<Seq<char>> {
    let q = first_quote(s) as int;
    if q >= s.len() {
        None
    } else {
        let rest = s.skip(q + 1);
        let e = crate::text::position(rest, s[q]) as int;
        if e < rest.len() {
            Some(trimmed(rest.take(e)))
        } else {
            None
        }
    }
}

/// The `template_version` that a template declares: what is quoted first behind the word,
/// unless it is empty or 128 bytes or longer.
pub open spec fn declared(jinja: Seq<char>) -> Option<Seq<char>> {
    match first_at(jinja, "template_version"@) {
        None => None,
        Some(i) => match first_quoted(jinja.skip(i as int)) {
            Some(v) if v.len() > 0 && encode_utf8(v).len() < 128 => Some(v),
            _ => None,
        },
    }
}

proof fn lemma_first_quote(s: Seq<char>, i: int)
    requires
        0 <= i <= s.len(),
        forall|j: int| 0 <= j < i ==> s[j] != '"' && s[j] != '\'',
        i == s.len() || s[i] == '"' || s[i] == '\'',
    ensures
        first_quote(s) == i,
    decreases s.len(),
{
    if i > 0 {
        assert(s[0] != '"' && s[0] != '\'');
        let t = s.drop_first();
        assert forall|j: int| 0 <= j < i - 1 implies t[j] != '"' && t[j] != '\'' by {
            assert(t[j] == s[j + 1]);
        }
        lemma_first_quote(t, i - 1);
    }
}

fn quoted_text(s: &str) -> (r: Option<String>)
    ensures
        opt_text(r) == first_quoted(s@),
{
    let v = chars_of(s);
    let mut q: usize = 0;
    while q < v.len() && v[q] != '"' && v[q] != '\''
        invariant
            q <= v.len(),
            v@ == s@,
            forall|j: int| 0 <= j < q ==> v@[j] != '"' && v@[j] != '\'',
        decreases v.len() - q,
    {
        q = q + 1;
    }
    proof {
        lemma_first_quote(s@, q as int);
    }
    if q == v.len() {
        return None;
    }
    let rest = text_of(&v, q + 1, v.len());
    assert(rest@ =~= s@.skip(q + 1));
    match crate::text::split_once(rest.as_str(), v[q]) {
        Some((inside, _)) => Some(trim(inside.as_str())),
        None => None,
    }
}

/// Pull `template_version` out of a jinja file. The templates people use declare one, and it
/// is far more meaningful than a file name.
pub fn extract_version(jinja: &str) -> (r: Option<String>)
    ensures
        opt_text(r) == declared(jinja@),
{
    match find(jinja, "template_version") {
        None => None,
        Some(i) => {
            let v = chars_of(jinja);
            let rest = text_of(&v, i, v.len());
            assert(rest@ =~= jinja@.skip(i as int));
            match quoted_text(rest.as_str()) {
                Some(value) => if !value.as_str().is_empty() && byte_len(value.as_str()) < 128 {
                    Some(value)
                } else {
                    None
                },
                None => None,
            }
        },
    }
}

/// What is wrong with a template, given its text, trimmed, and that text in lower case.
pub open spec fn problem_in(text: Seq<char>, lower: Seq<char>) -> Option<Seq<char>> {
    let opens = occurrences(text, "{%"@);
    let closes = occurrences(text, "%}"@);
    if text.len() == 0 {
        Some("the template is empty"@)
    } else if text[0] == '<' && occurs(lower, "<html"@) {
        Some("that looks like an HTML page, not a jinja template"@)
    } else if !(occurs(text, "{%"@) || occurs(text, "{{"@)) {
        Some("no jinja tags found; this does not look like a chat template"@)
    } else if opens != closes {
        Some("unbalanced jinja tags: "@ + dec(opens) + " '{%' but "@ + dec(closes) + " '%}'"@)
    } else {
        None
    }
}

pub open spec fn problem(jinja: Seq<char>) -> Option<Seq<char>> {
    problem_in(trimmed(jinja), lowercase(trimmed(jinja)))
}

/// What is wrong with a template, given its trimmed text and that text in lower case.
pub fn find_problem(text: &str, lower: &str) -> (r: Option<String>)
    ensures
        opt_text(r) == problem_in(text@, lower@),
{
    if text.is_empty() {
        return Some("the template is empty".to_owned());
    }
    let v = chars_of(text);
    if v[0] == '<' && contains(lower, "<html") {
        return Some("that looks like an HTML page, not a jinja template".to_owned());
    }
    if !contains(text, "{%") && !contains(text, "{{") {
        return Some("no jinja tags found; this does not look like a chat template".to_owned());
    }
    proof {
        reveal_strlit("{%");
        reveal_strlit("%}");
    }
    let opens = count(text, "{%");
    let closes = count(text, "%}");
    if opens != closes {
        return Some(
            cat5(
                "unbalanced jinja tags: ",
                decimal(opens as u64).as_str(),
                " '{%' but ",
                decimal(closes as u64).as_str(),
                " '%}'",
            ),
        );
    }
    None
}

/// A cheap structural check. It cannot prove a template renders (that needs the real
/// tokenizer, which the render preflight arranges), but it catches an empty file, an
/// HTML error page saved by mistake, or plain text with no jinja in it at all.
pub fn validate(jinja: &str) -> (r: Option<String>)
    ensures
        opt_text(r) == problem(jinja@),
{
    let text = trim(jinja);
    let lower = to_lowercase(text.as_str());
    find_problem(text.as_str(), lower.as_str())
}

// ---------------------------------------------------------------- per model

/// What paddock recorded when it applied a template to a checkpoint.
#[derive(Debug, Clone)]
pub struct AppliedTemplate {
    pub name: String,
    pub source: Option<String>,
    pub revision: Option<String>,
    pub version: Option<String>,
    pub applied_at: String,
    /// Whether the checkpoint had its own `chat_template.jinja` before this.
    pub had_original: bool,
}

pub struct AppliedView {
    pub name: Seq<char>,
    pub source: Option<Seq<char>>,
    pub revision: Option<Seq<char>>,
    pub version: Option<Seq<char>>,
    pub applied_at: Seq<char>,
    pub had_original: bool,
}

impl View for AppliedTemplate {
    type V = AppliedView;

    open spec fn view(&self) -> AppliedView {
        AppliedView {
            name: self.name@,
            source: opt_text(self.source),
            revision: opt_text(self.revision),
            version: opt_text(self.version),
            applied_at: self.applied_at@,
            had_original: self.had_original,
        }
    }
}

pub fn copy_opt(o: &Option<String>) -> (r: Option<String>)
    ensures
        r == *o,
{
    match o {
        Some(s) => Some(s.clone()),
        None => None,
    }
}

impl AppliedTemplate {
    pub fn copy(&self) -> (r: Self)
        ensures
            r == *self,
    {
        AppliedTemplate {
            name: self.name.clone(),
            source: copy_opt(&self.source),
            revision: copy_opt(&self.revision),
            version: copy_opt(&self.version),
            applied_at: self.applied_at.clone(),
            had_original: self.had_original,
        }
    }
}

#[derive(Debug, Clone)]
pub enum Status {
    /// The checkpoint's own template, however it ships it.
    BuiltIn,
    /// paddock applied an override.
    Overridden(AppliedTemplate),
    /// A `chat_template.jinja` exists that paddock did not write: someone edited the
    /// checkpoint by hand. Reported rather than silently overwritten.
    Foreign,
}

impl Status {
    pub fn is_overridden(&self) -> (r: bool)
        ensures
            r == (self is Overridden),
    {
        matches!(self, Status::Overridden(_))
    }

    pub open spec fn label_text(self) -> Seq<char> {
        match self {
            Status::BuiltIn => "built-in"@,
            Status::Foreign => "custom (not applied by ft-man)"@,
            Status::Overridden(a) => match a.version {
                Some(v) => a.name@ + " ("@ + v@ + ")"@,
                None => a.name@,
            },
        }
    }

    pub fn label(&self) -> (r: String)
        ensures
            r@ == self.label_text(),
    {
        match self {
            Status::BuiltIn => "built-in".to_owned(),
            Status::Foreign => "custom (not applied by ft-man)".to_owned(),
            Status::Overridden(a) => match &a.version {
                Some(v) => cat4(a.name.as_str(), " (", v.as_str(), ")"),
                None => a.name.clone(),
            },
        }
    }

    pub fn copy(&self) -> (r: Self)
        ensures
            r == *self,
    {
        match self {
            Status::BuiltIn => Status::BuiltIn,
            Status::Foreign => Status::Foreign,
            Status::Overridden(a) => Status::Overridden(a.copy()),
        }
    }
}

/// What template a checkpoint directory will actually serve, by its marker, where one can be
/// read, and by whether it holds a `chat_template.jinja`. The marker is trusted only while
/// the file it describes is still there; someone may have deleted it by hand.
pub fn status(marker: Option<&AppliedTemplate>, has_file: bool) -> (r: Status)
    ensures
        r == (match marker {
            Some(a) if has_file => Status::Overridden(*a),
            _ => if has_file {
                Status::Foreign
            } else {
                Status::BuiltIn
            },
        }),
{
    if !has_file {
        return Status::BuiltIn;
    }
    match marker {
        Some(a) => Status::Overridden(a.copy()),
        None => Status::Foreign,
    }
}

/// What applying a template does, in this order.
#[derive(Debug)]
pub struct Apply {
    /// Move the checkpoint's own template aside, to [`BACKUP_FILE`].
    pub back_up: bool,
    /// Write this as [`TEMPLATE_FILE`].
    pub content: String,
    /// Write this as [`MARKER_FILE`].
    pub marker: AppliedTemplate,
}

impl Apply {
    /// What is left of a directory's files once this is done.
    pub open spec fn done(self, f: Folder<AppliedView>) -> Folder<AppliedView> {
        if self.back_up {
            f.backed_up().installed(self.content@, self.marker@)
        } else {
            f.installed(self.content@, self.marker@)
        }
    }
}

/// Apply a template to a checkpoint directory.
///
/// Re-applying over an existing override does not re-back-up: the first backup is
/// the checkpoint's genuine original, and clobbering it with a previous override would
/// make [`revert`] restore the wrong thing.
pub fn apply(
    model_dir: &str,
    is_dir: bool,
    marker: Option<&AppliedTemplate>,
    has_file: bool,
    template: &StoredTemplate,
    jinja: &str,
    now: &str,
) -> (r: Result<Apply, String>)
    ensures
        match r {
            Err(e) => if !is_dir {
                e@ == model_dir@ + " is not a directory"@
            } else {
                problem(jinja@) == Some(e@)
            },
            Ok(a) => {
                let overridden = marker is Some && has_file;
                &&& is_dir
                &&& problem(jinja@) is None
                &&& a.back_up == (has_file && !overridden)
                &&& a.content@ == jinja@
                &&& a.marker@ == (AppliedView {
                    name: template.name@,
                    source: opt_text(template.meta.source),
                    revision: opt_text(template.meta.revision),
                    version: opt_or(opt_text(template.meta.version), declared(jinja@)),
                    applied_at: now@,
                    had_original: if overridden {
                        marker->0.had_original
                    } else {
                        has_file
                    },
                })
            },
        },
{
    if !is_dir {
        return Err(cat2(model_dir, " is not a directory"));
    }
    if let Some(problem) = validate(jinja) {
        return Err(problem);
    }
    let (back_up, had_original) = match status(marker, has_file) {
        Status::Overridden(a) => (false, a.had_original),
        _ => (has_file, has_file),
    };
    let version = match &template.meta.version {
        Some(v) => Some(v.clone()),
        None => extract_version(jinja),
    };
    Ok(
        Apply {
            back_up,
            content: jinja.to_owned(),
            marker: AppliedTemplate {
                name: template.name.clone(),
                source: copy_opt(&template.meta.source),
                revision: copy_opt(&template.meta.revision),
                version,
                applied_at: now.to_owned(),
                had_original,
            },
        },
    )
}

/// What undoing an override does to the file; the marker goes in either case.
#[derive(Debug, Clone, Copy, PartialEq, Eq, Structural)]
pub enum Revert {
    /// Move the parked original back.
    Restore,
    /// The checkpoint never had one; leaving an empty file behind would still shadow
    /// tokenizer_config.json, so it has to go.
    Remove,
}

impl Revert {
    /// What is left of a directory's files once this is done.
    pub open spec fn done<M>(self, f: Folder<M>) -> Folder<M> {
        f.reverted(self == Revert::Restore)
    }
}

/// Undo an override, restoring the checkpoint exactly as it was.
pub fn revert(
    model_dir: &str,
    marker: Option<&AppliedTemplate>,
    has_file: bool,
    has_backup: bool,
) -> (r: Result<Revert, String>)
    ensures
        match r {
            Err(e) => if marker is None || !has_file {
                e@ == "no ft-man template override is in place here"@
            } else {
                marker->0.had_original && !has_backup && e@
                    == "the checkpoint's original template is missing from "@ + joined_path(
                    model_dir@,
                    BACKUP_FILE@,
                )
            },
            Ok(v) => {
                &&& marker is Some && has_file
                &&& v == (if marker->0.had_original {
                    Revert::Restore
                } else {
                    Revert::Remove
                })
                &&& v == Revert::Restore ==> has_backup
            },
        },
{
    match status(marker, has_file) {
        Status::Overridden(applied) => {
            if !applied.had_original {
                return Ok(Revert::Remove);
            }
            if has_backup {
                Ok(Revert::Restore)
            } else {
                Err(
                    cat2(
                        "the checkpoint's original template is missing from ",
                        join(model_dir, BACKUP_FILE).as_str(),
                    ),
                )
            }
        },
        _ => Err("no ft-man template override is in place here".to_owned()),
    }
}

/// What an apply does is what an override is: the checkpoint's own template is parked unless
/// an override stands there already.
pub proof fn law_applying_parks_the_original(a: Apply, f: Folder<AppliedView>)
    requires
        a.back_up == (f.file is Some && !f.overridden()),
    ensures
        a.done(f) == f.applied(a.content@, a.marker@),
{
}

/// Applying a template over a checkpoint's own is reversible: `a` stands for what an apply
/// does to the files `f` (see [`apply`]), and undoing it by its own record gives back the
/// content that was there, or none where there was none.
pub proof fn law_an_applied_template_reverts(a: Apply, f: Folder<AppliedView>)
    requires
        !f.overridden(),
        a.back_up == (f.file is Some),
        a.marker.had_original == (f.file is Some),
    ensures
        a.done(f).overridden(),
        a.done(f).reverted(a.marker.had_original).file == f.file,
        !a.done(f).reverted(a.marker.had_original).overridden(),
{
}

/// Every directory an override should be written to for one model.
///
/// A checkpoint and the FTW build converted from it are the same model, and `ft
/// checkpoint` copies the tokenizer files into its output, so a template applied to only
/// one of them would silently not apply to whichever the engine is actually pointed at.
pub fn targets(model: &Model) -> (r: Vec<String>)
    ensures
        texts(r@) == (match model.converted_to {
            Some(ftw) => seq![model.path@, ftw@],
            None => seq![model.path@],
        }),
{
    let mut out: Vec<String> = vec![model.path.clone()];
    if let Some(ftw) = &model.converted_to {
        out.push(ftw.clone());
        assert(texts(out@) =~= seq![model.path@, ftw@]);
    } else {
        assert(texts(out@) =~= seq![model.path@]);
    }
    out
}

/// A component `models--...` stands right before one `snapshots`.
pub open spec fn cache_shape(names: Seq<Seq<char>>) -> bool {
    exists|i: int|
        0 <= i < names.len() - 1 && "models--"@.is_prefix_of(#[trigger] names[i]) && names[i + 1]
            == "snapshots"@
}

/// True when a path lies inside a Hugging Face hub cache snapshot.
///
/// Recognized by the `models--org--name/snapshots` shape rather than by comparing against
/// the configured cache root: a second cache, a relocated `HF_HOME`, or a shared dataset
/// bind-mounted at a different path in each container must all be caught, and the layout
/// is the only thing they have in common.
///
/// Writing there is allowed, and warned about. The write itself is safe: the checkpoint's own
/// `chat_template.jinja` is a symlink into `blobs/`, and renaming a link aside leaves the
/// blob untouched, so a revert still restores it. What the reader has to be told is that the
/// directory is shared: other tools reading this cache will see the override too, and a
/// later `hf download` of the repo may replace it.
pub fn is_hub_cache_path(dir: &str) -> (r: bool)
    ensures
        r == cache_shape(components_of(dir@)),
{
    let names = components(dir);
    let ghost all = texts(names@);
    assert(all.len() == names.len());
    let mut i: usize = 1;
    while i < names.len()
        invariant
            1 <= i,
            all == texts(names@),
            all == components_of(dir@),
            all.len() == names.len(),
            forall|j: int|
                0 <= j < i - 1 && j < all.len() - 1 ==> !("models--"@.is_prefix_of(
                    #[trigger] all[j],
                ) && all[j + 1] == "snapshots"@),
        decreases names.len() - i,
    {
        assert(all[i - 1] == names@[i - 1]@ && all[i as int] == names@[i as int]@);
        if starts_with(names[i - 1].as_str(), "models--") && same(names[i].as_str(), "snapshots") {
            assert("models--"@.is_prefix_of(all[i - 1]) && all[(i - 1) + 1] == "snapshots"@);
            return true;
        }
        i = i + 1;
    }
    false
}

} // verus!
