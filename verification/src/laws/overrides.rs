//! What overriding a checkpoint's template or its sampling owes to the files it touches.

use vstd::prelude::*;
use vstd::utf8::encode_utf8;
use crate::json::{lookup, JsonView};
use crate::models::Format;
use crate::numeral::{standing_of, Standing};
use crate::overrides::Folder;
use crate::sampling::{
    base_of, effective_of, json_whole, number_text, positional, refusal, sampling_in, SamplingView,
};
use crate::templates::{
    cache_shape, declared, edge, first_quote, index_of, plain, problem_in, sanitized, store_name,
    subtitle_of, without_leading_edges, without_trailing_edges, StoredTemplate, TemplateMeta,
};
use crate::text::{cut, dec, dec_int, first_at, occurrences, occurs, trimmed};

verus! {

// ---------------------------------------------------------------- files

/// An override puts the new file and its marker in place. The checkpoint's own file is
/// parked by the first override, and what is parked stays through every later one.
pub proof fn law_an_override_parks_the_original_once<M>(f: Folder<M>, content: Seq<char>, marker: M)
    ensures
        f.applied(content, marker).file == Some(content),
        f.applied(content, marker).marker == Some(marker),
        f.marker is None && f.file is Some ==> f.applied(content, marker).backup == f.file,
        f.marker is Some && f.file is Some ==> f.applied(content, marker).backup == f.backup,
        f.file is None ==> f.applied(content, marker).backup == f.backup,
{
}

/// Undoing takes the marker away, and puts back what was parked where there was an original,
/// or leaves no file where there was none.
pub proof fn law_undoing_puts_the_parked_file_back<M>(f: Folder<M>)
    ensures
        f.reverted(true).file == f.backup,
        f.reverted(true).backup is None,
        f.reverted(true).marker is None,
        f.reverted(false).file is None,
        f.reverted(false).marker is None,
        f.overridden() <==> f.marker is Some && f.file is Some,
{
}

// ---------------------------------------------------------------- sampling

/// Values are accepted exactly when there is one and each is in its range: a temperature from
/// 0 to 2, a top-p above 0 and up to 1, and a top-k of -1 or at least 1.
pub proof fn law_which_sampling_is_accepted(s: SamplingView)
    ensures
        s.problem() is None <==> {
            &&& s.temperature is Some || s.top_k is Some || s.top_p is Some
            &&& s.temperature is Some ==> standing_of(s.temperature->0, '2') == Standing::Zero
                || standing_of(s.temperature->0, '2') == Standing::Within
            &&& s.top_p is Some ==> standing_of(s.top_p->0, '1') == Standing::Within
            &&& s.top_k is Some ==> s.top_k->0 == -1 || s.top_k->0 >= 1
        },
{
}

/// A temperature of nothing, or below, is greedy; without one, or with any other, sampling is
/// not.
pub proof fn law_no_temperature_is_greedy(s: SamplingView)
    ensures
        s.temperature is None ==> !s.greedy(),
        s.temperature is Some ==> (s.greedy() <==> standing_of(s.temperature->0, '2')
            == Standing::Zero || standing_of(s.temperature->0, '2') == Standing::Negative),
{
}

/// What a generation config hands the engine: each value under its own key, and nothing but
/// a temperature of zero where it does not sample at all.
pub proof fn law_sampling_is_read_key_by_key(
    e: Seq<(Seq<char>, JsonView)>,
    n: u64,
    k: i64,
)
    requires
        n <= i64::MAX,
        k < 0,
    ensures
        lookup(e, "do_sample"@) == Some(JsonView::Bool(false)) ==> sampling_in(e) == (
        SamplingView { temperature: Some("0"@), top_k: None, top_p: None }),
        lookup(e, "do_sample"@) != Some(JsonView::Bool(false)) ==> ({
            let s = sampling_in(e);
            &&& lookup(e, "top_k"@) == Some(JsonView::Unsigned(n)) ==> s.top_k == Some(n as i64)
            &&& lookup(e, "top_k"@) == Some(JsonView::Negative(k)) ==> s.top_k == Some(k)
            &&& lookup(e, "top_k"@) is None ==> s.top_k is None
            &&& lookup(e, "temperature"@) == Some(JsonView::Unsigned(n)) ==> s.temperature == Some(
                dec(n as nat),
            )
            &&& lookup(e, "top_p"@) == Some(JsonView::Unsigned(n)) ==> s.top_p == Some(dec(n as nat))
            &&& lookup(e, "temperature"@) is None ==> s.temperature is None
            &&& lookup(e, "top_p"@) is None ==> s.top_p is None
            &&& lookup(e, "temperature"@) is Some ==> s.temperature == number_text(
                lookup(e, "temperature"@)->0,
            )
            &&& lookup(e, "top_p"@) is Some ==> s.top_p == number_text(lookup(e, "top_p"@)->0)
        }),
        effective_of(e) is None <==> sampling_in(e).temperature is None && sampling_in(e).top_k
            is None && sampling_in(e).top_p is None,
        effective_of(e) is Some ==> effective_of(e)->0 == sampling_in(e),
{
}

/// A number without an exponent reads as it is written, but for an empty fraction; a sign
/// stays in front.
pub proof fn law_a_plain_number_reads_as_written(t: Seq<char>, k: i64)
    requires
        !t.contains('e'),
        t.len() > 0,
        t[0] != '-',
    ensures
        !".0"@.is_suffix_of(t) ==> number_text(JsonView::Real(t)) == Some(t),
        number_text(JsonView::Real(t + ".0"@)) == Some(t),
        number_text(JsonView::Negative(k)) == Some(dec_int(k as int)),
{
    reveal_strlit(".0");
    reveal_strlit("-");
    let w = t + ".0"@;
    assert(!w.contains('e')) by {
        if w.contains('e') {
            let i = choose|i: int| 0 <= i < w.len() && w[i] == 'e';
            if i < t.len() {
                assert(t[i] == 'e');
            }
        }
    }
    crate::text::lemma_position(w, 'e');
    crate::text::lemma_position(t, 'e');
    assert(cut(w, 'e') is None && cut(t, 'e') is None);
    assert(w.subrange(w.len() - 2, w.len() as int) =~= ".0"@);
    assert(w.take(w.len() - 2) =~= t);
    assert(!"-"@.is_prefix_of(t)) by {
        if "-"@.is_prefix_of(t) {
            assert(t.subrange(0, 1)[0] == t[0]);
            assert("-"@[0] == '-');
        }
    }
    assert(!"-"@.is_prefix_of(w)) by {
        if "-"@.is_prefix_of(w) {
            assert(w.subrange(0, 1)[0] == t[0]);
            assert("-"@[0] == '-');
        }
    }
}

/// A filter that greedy decoding ignores is remarked on, and nothing else is.
pub proof fn law_a_filter_without_effect_is_remarked_on(s: SamplingView)
    ensures
        s.remarks().len() > 0 <==> (s.top_k is Some || s.top_p is Some) && (s.temperature is None
            || s.greedy()),
        s.remarks().len() <= 1,
{
}

/// Only a checkpoint whose generation config the engine reads takes an override.
pub proof fn law_only_a_config_that_is_read_is_overridden()
    ensures
        refusal(Format::Hf) is None,
        refusal(Format::Ftw) is None,
        refusal(Format::Gguf) is Some,
        refusal(Format::PartialFtw) is Some,
{
}

/// An override is merged over the checkpoint's own config where there is one, and over
/// nothing where there is none; a config that holds no object is an error.
pub proof fn law_an_override_is_merged_over_the_original(
    backup: Seq<char>,
    raw: Seq<char>,
    o: Seq<(Seq<char>, JsonView)>,
    why: Seq<char>,
)
    ensures
        base_of(false, backup, Err(why)) == Ok::<Seq<(Seq<char>, JsonView)>, Seq<char>>(
            Seq::empty(),
        ),
        base_of(true, backup, Err(why)) is Err,
        crate::json::json_of(raw) == Ok::<JsonView, Seq<char>>(JsonView::Object(o)) ==> base_of(
            true,
            backup,
            Ok(raw),
        ) == Ok::<Seq<(Seq<char>, JsonView)>, Seq<char>>(o),
        crate::json::json_of(raw) is Err ==> base_of(true, backup, Ok(raw)) is Err,
{
}

// ---------------------------------------------------------------- templates

/// A letter, a digit, a dash, an underscore and a dot stand in a name as they are; a slash, a
/// space and what ends a text do not.
pub proof fn law_which_characters_stand_in_a_name(c: char)
    ensures
        'a' <= c <= 'z' || 'A' <= c <= 'Z' || '0' <= c <= '9' ==> plain(c),
        c == '-' || c == '_' || c == '.' ==> plain(c),
        c == '/' || c == ' ' || c == '\\' || c == ':' || c == '\0' || c == '\n' ==> !plain(c),
{
}

/// A name that starts and ends with what can stand at its ends keeps its length: only what
/// cannot stand in it becomes a dash.
pub proof fn law_a_name_keeps_what_it_can(name: Seq<char>)
    requires
        ({
            let t = trimmed(name);
            t.len() > 0 && plain(t[0]) && !edge(t[0]) && plain(t.last()) && !edge(t.last())
        }),
    ensures
        sanitized(name).len() == trimmed(name).len(),
        forall|i: int|
            0 <= i < trimmed(name).len() ==> #[trigger] sanitized(name)[i] == (if plain(
                trimmed(name)[i],
            ) {
                trimmed(name)[i]
            } else {
                '-'
            }),
{
    let t = trimmed(name);
    let d = crate::templates::dashed(t);
    assert(d[0] == t[0] && d.last() == t.last());
    assert(without_leading_edges(d) == d);
    assert(without_trailing_edges(d) == d);
}

/// A template is stored under the name of its repo, with the directory it stands in behind a
/// dash where it stands in one.
pub proof fn law_a_template_is_named_after_its_repo(
    org: Seq<char>,
    name: Seq<char>,
    path: Seq<char>,
    dir: Seq<char>,
)
    requires
        !name.contains('/'),
        crate::paths::parent_of(path) is Some,
    ensures
        crate::paths::file_name_of(crate::paths::parent_of(path)->0) == Some(dir) ==> store_name(
            org + seq!['/'] + name,
            path,
        ) == sanitized(name + "-"@ + dir),
        crate::paths::file_name_of(crate::paths::parent_of(path)->0) is None ==> store_name(
            org + seq!['/'] + name,
            path,
        ) == sanitized(name),
{
    crate::laws::hub::law_a_name_follows_the_last_slash(org.push('/'), name);
    assert(org.push('/') + name =~= org + seq!['/'] + name);
}

proof fn lemma_first_quote(mid: Seq<char>, q: char, rest: Seq<char>)
    requires
        !mid.contains('"'),
        !mid.contains('\''),
        q == '"' || q == '\'',
    ensures
        first_quote(mid + seq![q] + rest) == mid.len(),
    decreases mid.len(),
{
    let s = mid + seq![q] + rest;
    if mid.len() > 0 {
        let tail = mid.drop_first();
        assert(mid.contains(mid[0]));
        assert forall|i: int| 0 <= i < tail.len() implies tail[i] != '"' && tail[i] != '\'' by {
            assert(mid.contains(mid[i + 1]));
        }
        lemma_first_quote(tail, q, rest);
        assert(s.drop_first() =~= tail + seq![q] + rest);
        assert(s[0] == mid[0]);
    } else {
        assert(s[0] == q);
    }
}

/// The version that a template declares is what stands in quotes first behind the word for
/// it, of either kind, without the spaces at its ends.
pub proof fn law_a_declared_version_is_quoted(
    jinja: Seq<char>,
    at: nat,
    mid: Seq<char>,
    q: char,
    version: Seq<char>,
    rest: Seq<char>,
)
    requires
        first_at(jinja, "template_version"@) == Some(at),
        at <= jinja.len(),
        jinja.skip(at as int) == mid + seq![q] + (version + seq![q] + rest),
        !mid.contains('"'),
        !mid.contains('\''),
        q == '"' || q == '\'',
        !version.contains(q),
        trimmed(version).len() > 0,
        encode_utf8(trimmed(version)).len() < 128,
    ensures
        declared(jinja) == Some(trimmed(version)),
{
    let s = jinja.skip(at as int);
    let tail = version + seq![q] + rest;
    lemma_first_quote(mid, q, tail);
    assert(s[mid.len() as int] == q);
    assert(s.skip((mid.len() + 1) as int) =~= tail);
    lemma_position(version, q, rest);
    assert(tail.take(version.len() as int) =~= version);
}

proof fn lemma_position(a: Seq<char>, q: char, b: Seq<char>)
    requires
        !a.contains(q),
    ensures
        crate::text::position(a + seq![q] + b, q) == a.len(),
    decreases a.len(),
{
    let s = a + seq![q] + b;
    if a.len() > 0 {
        let tail = a.drop_first();
        assert(a.contains(a[0]));
        assert forall|i: int| 0 <= i < tail.len() implies tail[i] != q by {
            assert(a.contains(a[i + 1]));
        }
        lemma_position(tail, q, b);
        assert(s.drop_first() =~= tail + seq![q] + b);
        assert(s[0] == a[0]);
    } else {
        assert(s[0] == q);
    }
}

/// Without the word for it a template declares no version.
pub proof fn law_no_word_no_version(jinja: Seq<char>)
    requires
        first_at(jinja, "template_version"@) is None,
    ensures
        declared(jinja) is None,
{
}

/// A template passes exactly when it is not empty, is no web page, holds a tag, and closes as
/// many statements as it opens.
pub proof fn law_which_templates_pass(text: Seq<char>, lower: Seq<char>)
    ensures
        problem_in(text, lower) is None <==> {
            &&& text.len() > 0
            &&& !(text[0] == '<' && occurs(lower, "<html"@))
            &&& occurs(text, "{%"@) || occurs(text, "{{"@)
            &&& occurrences(text, "{%"@) == occurrences(text, "%}"@)
        },
{
}

/// Occurrences are counted from the front, each once.
pub proof fn law_occurrences_are_counted(part: Seq<char>, rest: Seq<char>, s: Seq<char>)
    requires
        part.len() > 0,
    ensures
        occurrences(part + rest, part) == 1 + occurrences(rest, part),
        s.len() < part.len() ==> occurrences(s, part) == 0,
        s.len() >= part.len() && !part.is_prefix_of(s) ==> occurrences(s, part) == occurrences(
            s.skip(1),
            part,
        ),
{
    assert((part + rest).subrange(0, part.len() as int) =~= part);
    assert((part + rest).skip(part.len() as int) =~= rest);
    if s.len() > 0 {
        assert(s.skip(1) =~= s.drop_first());
    }
}

/// A template is described by its version, or else by where it came from.
pub proof fn law_a_template_is_described_by_its_version(meta: TemplateMeta)
    ensures
        meta.version is Some ==> subtitle_of(meta) == meta.version->0@,
        meta.version is None && meta.source is Some ==> subtitle_of(meta) == meta.source->0@,
        meta.version is None && meta.source is None ==> subtitle_of(meta) == "imported"@,
{
}

/// A template is found by its name: the first that has it, or none.
pub proof fn law_a_template_is_found_by_its_name(v: Seq<StoredTemplate>, name: Seq<char>)
    ensures
        index_of(v, name) <= v.len(),
        index_of(v, name) < v.len() ==> v[index_of(v, name) as int].name@ == name,
        forall|i: int| 0 <= i < index_of(v, name) ==> (#[trigger] v[i]).name@ != name,
    decreases v.len(),
{
    if v.len() > 0 && v[0].name@ != name {
        let tail = v.drop_first();
        law_a_template_is_found_by_its_name(tail, name);
        assert forall|i: int| 0 <= i < index_of(v, name) implies (#[trigger] v[i]).name@ != name by {
            if i > 0 {
                assert(tail[i - 1] == v[i]);
            }
        }
    }
}

/// A path inside a snapshot of the hub cache is known by its shape, wherever the cache is.
pub proof fn law_a_cache_path_is_known_by_its_shape(
    before: Seq<Seq<char>>,
    repo: Seq<char>,
    after: Seq<Seq<char>>,
)
    ensures
        cache_shape(before + seq!["models--"@ + repo, "snapshots"@] + after),
{
    let names = before + seq!["models--"@ + repo, "snapshots"@] + after;
    let i = before.len() as int;
    assert(names[i] == "models--"@ + repo);
    assert(names[i + 1] == "snapshots"@);
    assert(("models--"@ + repo).subrange(0, "models--"@.len() as int) =~= "models--"@);
    assert("models--"@.is_prefix_of(names[i]));
}

/// A sign stays before a number that is written out.
pub proof fn law_a_sign_stays_in_front(t: Seq<char>)
    ensures
        number_text(JsonView::Real("-"@ + t)) == Some("-"@ + positional(t)),
{
    reveal_strlit("-");
    let w = "-"@ + t;
    assert("-"@.len() == 1);
    assert(w.subrange(0, 1) =~= "-"@);
    assert(w.skip(1) =~= t);
}

/// A whole number is kept whole: as a natural number where it is one, and with its sign
/// where it is not.
pub proof fn law_a_whole_number_is_kept_whole(k: i64)
    ensures
        k >= 0 ==> json_whole(Some(k)) == Some(JsonView::Unsigned(k as u64)),
        k < 0 ==> json_whole(Some(k)) == Some(JsonView::Negative(k)),
        json_whole(None) is None,
{
}

} // verus!
