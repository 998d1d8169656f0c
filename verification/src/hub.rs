//! Hugging Face Hub: search, inspect, and download checkpoints.
//!
//! Requests to the Hub's HTTP API are described here and sent by the caller, and so is the
//! `hf download` that moves the bytes: its progress is observed from the hub cache, so a
//! checkpoint fetched here is interchangeable with one fetched by the official tool.

use vstd::prelude::*;
use vstd::string::*;
use vstd::utf8::encode_utf8;
use crate::config::Config;
use crate::ft::proc::{env_views, Waited};
use crate::json::{Json, JsonView};
use crate::models::cache_dir_name;
use crate::order::{keyed, lemma_ordered_mapped, mapped, ordered, sorted_values, values};
use crate::paths::{expand_tilde, expanded, join, joined_path, parent, parent_of};
use crate::text::{
    after_last, byte_len, cat2, cat3, cat4, cat5, cat7, chars_of, clip, clipped, contains,
    contains_char, dec, dec_int, decimal, decimal_int, ends_with, lemma_texts_push, lines,
    lines_of, lossy, lossy_text, occurs, opt_str, opt_text, parse_u64, replace, same, starts_with,
    tail_after, text_of, texts, trim, trimmed, unsigned_of,
};
use crate::util::{bytes, bytes_text, larger, less, max, min, sat_sub, smaller};

verus! {

// ---------------------------------------------------------------- API types

#[derive(Debug)]
pub struct RepoSummary {
    pub id: String,
    pub downloads: u64,
    pub likes: u64,
    pub last_modified: Option<String>,
    pub tags: Vec<String>,
    pub gated: Json,
    pub private: bool,
}

/// A repo is gated unless it says `false` or nothing.
pub open spec fn gated_by(v: JsonView) -> bool {
    v != JsonView::Bool(false) && v != JsonView::Null
}

fn gates(v: &Json) -> (r: bool)
    ensures
        r == gated_by(v@),
{
    match v {
        Json::Bool(b) => *b,
        Json::Null => false,
        _ => true,
    }
}

/// A tag that says nothing useful in a narrow list.
pub open spec fn noise(tag: Seq<char>) -> bool {
    "base_model:"@.is_prefix_of(tag) || "license:"@.is_prefix_of(tag) || "region:"@.is_prefix_of(
        tag,
    ) || "arxiv:"@.is_prefix_of(tag)
}

/// The first six tags that are not noise.
pub open spec fn useful(tags: Seq<Seq<char>>) -> Seq<Seq<char>>
    decreases tags.len(),
{
    if tags.len() == 0 {
        Seq::empty()
    } else {
        let head = useful(tags.drop_last());
        if head.len() < 6 && !noise(tags.last()) {
            head.push(tags.last())
        } else {
            head
        }
    }
}

impl RepoSummary {
    pub fn is_gated(&self) -> (r: bool)
        ensures
            r == gated_by(self.gated@),
    {
        gates(&self.gated)
    }

    /// Tags that say something useful in a narrow list: parameter count, quantization,
    /// architecture. The Hub attaches dozens; most are noise here.
    pub fn interesting_tags(&self) -> (r: Vec<String>)
        ensures
            texts(r@) == useful(texts(self.tags@)),
    {
        let ghost all = texts(self.tags@);
        let mut out: Vec<String> = Vec::new();
        let mut i: usize = 0;
        assert(all.take(0) =~= Seq::<Seq<char>>::empty());
        assert(texts(out@) =~= Seq::<Seq<char>>::empty());
        while i < self.tags.len()
            invariant
                i <= self.tags.len(),
                all == texts(self.tags@),
                texts(out@) == useful(all.take(i as int)),
            decreases self.tags.len() - i,
        {
            assert(all.take(i + 1).drop_last() =~= all.take(i as int));
            assert(all.take(i + 1).last() == self.tags@[i as int]@);
            assert(texts(out@).len() == out.len());
            let t = self.tags[i].as_str();
            let dull = starts_with(t, "base_model:") || starts_with(t, "license:") || starts_with(
                t,
                "region:",
            ) || starts_with(t, "arxiv:");
            if out.len() < 6 && !dull {
                proof {
                    lemma_texts_push(out@, self.tags@[i as int]);
                }
                out.push(self.tags[i].clone());
            }
            i = i + 1;
        }
        assert(all.take(i as int) =~= all);
        out
    }
}

#[derive(Debug)]
pub struct RepoInfo {
    pub id: String,
    /// The commit the requested revision resolved to.
    pub sha: Option<String>,
    pub gated: Json,
    pub siblings: Vec<Sibling>,
}

impl RepoInfo {
    pub fn is_gated(&self) -> (r: bool)
        ensures
            r == gated_by(self.gated@),
    {
        gates(&self.gated)
    }
}

#[derive(Debug, Clone)]
pub struct Sibling {
    pub path: String,
    pub size: Option<u64>,
}

impl Sibling {
    pub fn copy(&self) -> (r: Self)
        ensures
            r == *self,
    {
        Sibling { path: self.path.clone(), size: self.size }
    }
}

/// The files of a listing that hold a template, under keys that put those at the repo root
/// before those below a directory.
pub open spec fn templates_in(siblings: Seq<Sibling>) -> Seq<(Seq<char>, Sibling)>
    decreases siblings.len(),
{
    if siblings.len() == 0 {
        Seq::empty()
    } else {
        let head = templates_in(siblings.drop_last());
        let s = siblings.last();
        if ".jinja"@.is_suffix_of(s.path@) {
            head.push(
                (
                    (if s.path@.contains('/') {
                        "1"@
                    } else {
                        "0"@
                    }) + s.path@,
                    s,
                ),
            )
        } else {
            head
        }
    }
}

/// The `.jinja` files in a repo listing, which is what a chat-template repo holds. Repo-root
/// templates first: that is the current one, with archives beneath it.
pub fn jinja_files(siblings: &Vec<Sibling>) -> (r: Vec<Sibling>)
    ensures
        r@ == values(ordered(templates_in(siblings@))),
{
    let ghost all = siblings@;
    let mut out: Vec<(String, Sibling)> = Vec::new();
    let mut i: usize = 0;
    assert(all.take(0) =~= Seq::<Sibling>::empty());
    assert(keyed(out@) =~= Seq::<(Seq<char>, Sibling)>::empty());
    while i < siblings.len()
        invariant
            i <= siblings.len(),
            all == siblings@,
            keyed(out@) == templates_in(all.take(i as int)),
        decreases siblings.len() - i,
    {
        assert(all.take(i + 1).drop_last() =~= all.take(i as int));
        assert(all.take(i + 1).last() == siblings@[i as int]);
        let ghost before = out@;
        let path = siblings[i].path.as_str();
        if ends_with(path, ".jinja") {
            let key = cat2(
                if contains_char(path, '/') {
                    "1"
                } else {
                    "0"
                },
                path,
            );
            let s = siblings[i].copy();
            out.push((key, s));
            assert(keyed(out@) =~= keyed(before).push((key@, s)));
        }
        i = i + 1;
    }
    assert(all.take(i as int) =~= all);
    sorted_values(out)
}

/// A file resolved for download: path within the repo plus its size.
#[derive(Debug, Clone)]
pub struct RepoFile {
    pub path: String,
    pub size: u64,
    /// Whether it is selected for download.
    pub wanted: bool,
}

pub struct RepoFileView {
    pub path: Seq<char>,
    pub size: u64,
    pub wanted: bool,
}

impl View for RepoFile {
    type V = RepoFileView;

    open spec fn view(&self) -> RepoFileView {
        RepoFileView { path: self.path@, size: self.size, wanted: self.wanted }
    }
}

impl RepoFile {
    pub fn copy(&self) -> (r: Self)
        ensures
            r == *self,
    {
        RepoFile { path: self.path.clone(), size: self.size, wanted: self.wanted }
    }
}

// ---------------------------------------------------------------- requests

/// The Hub, by its address and the token to use there.
#[derive(Debug, Clone)]
pub struct Hub {
    pub endpoint: String,
    pub token: Option<String>,
}

impl Hub {
    pub fn new(endpoint: &str, token: Option<String>) -> (r: Self)
        ensures
            r.endpoint@ == crate::ft::api::without_slashes(endpoint@),
            r.token == token,
    {
        Hub { endpoint: crate::ft::api::Client::new(endpoint).base, token }
    }

    pub fn has_token(&self) -> (r: bool)
        ensures
            r == (self.token is Some),
    {
        self.token.is_some()
    }

    /// Where to search, and what to ask: full text, the most downloaded first.
    pub fn search(&self, query: &str, limit: u32) -> (r: (String, Vec<(String, String)>))
        ensures
            r.0@ == self.endpoint@ + "/api/models"@,
            env_views(r.1@) == seq![
                ("search"@, query@),
                ("limit"@, dec(limit as nat)),
                ("sort"@, "downloads"@),
                ("direction"@, "-1"@),
                ("full"@, "false"@),
            ],
    {
        let asked: Vec<(String, String)> = vec![
            ("search".to_owned(), query.to_owned()),
            ("limit".to_owned(), decimal(limit as u64)),
            ("sort".to_owned(), "downloads".to_owned()),
            ("direction".to_owned(), "-1".to_owned()),
            ("full".to_owned(), "false".to_owned()),
        ];
        assert(env_views(asked@) =~= seq![
            ("search"@, query@),
            ("limit"@, dec(limit as nat)),
            ("sort"@, "downloads"@),
            ("direction"@, "-1"@),
            ("full"@, "false"@),
        ]);
        (cat2(self.endpoint.as_str(), "/api/models"), asked)
    }

    /// Where to ask for a repo's metadata, and what to ask for: the file listing with sizes.
    pub fn info(&self, repo: &str, revision: &str) -> (r: (String, Vec<(String, String)>))
        ensures
            r.0@ == self.endpoint@ + "/api/models/"@ + repo@ + "/revision/"@ + encoded(
                encode_utf8(revision@),
            ),
            env_views(r.1@) == seq![("blobs"@, "true"@)],
    {
        let asked: Vec<(String, String)> = vec![("blobs".to_owned(), "true".to_owned())];
        assert(env_views(asked@) =~= seq![("blobs"@, "true"@)]);
        (
            cat5(
                self.endpoint.as_str(),
                "/api/models/",
                repo,
                "/revision/",
                urlencode(revision).as_str(),
            ),
            asked,
        )
    }

    /// Where a file of a repo stands.
    pub fn resolve_url(&self, repo: &str, revision: &str, path: &str) -> (r: String)
        ensures
            r@ == self.endpoint@ + "/"@ + repo@ + "/resolve/"@ + encoded(encode_utf8(revision@))
                + "/"@ + path@,
    {
        cat7(
            self.endpoint.as_str(),
            "/",
            repo,
            "/resolve/",
            urlencode(revision).as_str(),
            "/",
            path,
        )
    }
}

/// The most that a template may hold, in bytes.
pub const MAX_TEMPLATE: usize = 4194304;

/// A small file that was fetched straight into memory, or why it cannot be used. A repo can
/// be large; a template that arrives as tens of megabytes is a sign something other than a
/// template was requested.
pub fn fetched_text(path: &str, status: &str, success: bool, text: String) -> (r: Result<
    String,
    String,
>)
    ensures
        match r {
            Ok(t) => success && encode_utf8(text@).len() <= MAX_TEMPLATE && t == text,
            Err(e) => if !success {
                e@ == path@ + ": HTTP "@ + status@
            } else {
                encode_utf8(text@).len() > MAX_TEMPLATE && e@ == path@ + " is "@ + bytes_text(
                    encode_utf8(text@).len(),
                ) + " — too large to be a chat template"@
            },
        },
{
    if !success {
        return Err(cat3(path, ": HTTP ", status));
    }
    let n = byte_len(text.as_str());
    if n <= MAX_TEMPLATE {
        Ok(text)
    } else {
        Err(cat4(path, " is ", bytes(n as u64).as_str(), " — too large to be a chat template"))
    }
}

/// Why a reply about `what` cannot be used, when the Hub refused.
pub fn refused(what: &str, status: &str, body: &Vec<u8>) -> (r: String)
    ensures
        r@ == what@ + ": "@ + status@ + " "@ + clipped(lossy_text(body@), 200),
{
    cat5(what, ": ", status, " ", clip(lossy(body).as_str(), 200).as_str())
}

/// The size that the headers of a file declare: the CDN redirect carries the real one, and
/// the content length stands in where there is no such header.
pub fn head_size(linked: Option<&str>, length: Option<&str>) -> (r: Option<u64>)
    ensures
        r == (match (linked, length) {
            (Some(v), _) => size_of(v@),
            (None, Some(v)) => size_of(v@),
            (None, None) => None,
        }),
{
    match (linked, length) {
        (Some(v), _) => parse_u64(v),
        (None, Some(v)) => parse_u64(v),
        (None, None) => None,
    }
}

pub open spec fn size_of(s: Seq<char>) -> Option<u64> {
    match unsigned_of(s) {
        Some(n) if n <= u64::MAX => Some(n as u64),
        _ => None,
    }
}

/// A byte that stands for itself in a path segment.
pub open spec fn unreserved(b: u8) -> bool {
    (65 <= b <= 90) || (97 <= b <= 122) || (48 <= b <= 57) || b == 45 || b == 95 || b == 46 || b
        == 126
}

pub open spec fn hex_digit(n: u8) -> char {
    if n < 10 {
        (48 + n) as char
    } else {
        (55 + n) as char
    }
}

/// A byte as it is written in a path segment.
pub open spec fn encoded_byte(b: u8) -> Seq<char> {
    if unreserved(b) {
        seq![b as char]
    } else {
        seq!['%', hex_digit(b / 16), hex_digit(b % 16)]
    }
}

pub open spec fn encoded(s: Seq<u8>) -> Seq<char>
    decreases s.len(),
{
    if s.len() == 0 {
        Seq::empty()
    } else {
        encoded(s.drop_last()) + encoded_byte(s.last())
    }
}

fn hex(n: u8) -> (r: char)
    requires
        n < 16,
    ensures
        r == hex_digit(n),
{
    if n < 10 {
        (48 + n) as char
    } else {
        (55 + n) as char
    }
}

/// Percent-encode a path segment. Revisions can be branch names with slashes, which the
/// Hub expects encoded.
pub fn urlencode(s: &str) -> (r: String)
    ensures
        r@ == encoded(encode_utf8(s@)),
{
    let v = s.as_bytes();
    let ghost all = encode_utf8(s@);
    let mut out = String::new();
    let mut i: usize = 0;
    assert(all.take(0) =~= Seq::<u8>::empty());
    assert(out@ =~= Seq::<char>::empty());
    while i < v.len()
        invariant
            i <= v.len(),
            v@ == all,
            out@ == encoded(all.take(i as int)),
        decreases v.len() - i,
    {
        assert(all.take(i + 1).drop_last() =~= all.take(i as int));
        assert(all.take(i + 1).last() == v@[i as int]);
        let ghost before = out@;
        let b = v[i];
        let plain = (65 <= b && b <= 90) || (97 <= b && b <= 122) || (48 <= b && b <= 57) || b == 45
            || b == 95 || b == 46 || b == 126;
        if plain {
            out.push(b as char);
            assert(out@ =~= before + encoded_byte(b));
        } else {
            out.push('%');
            out.push(hex(b / 16));
            out.push(hex(b % 16));
            assert(out@ =~= before + encoded_byte(b));
        }
        i = i + 1;
    }
    assert(all.take(i as int) =~= all);
    out
}

/// An encoded segment holds nothing but unreserved characters and escapes: in particular no
/// slash, so it stays one segment.
pub proof fn law_an_encoded_segment_has_no_slash(s: Seq<u8>)
    ensures
        !encoded(s).contains('/'),
        !encoded(s).contains('?'),
        !encoded(s).contains('#'),
    decreases s.len(),
{
    if s.len() > 0 {
        law_an_encoded_segment_has_no_slash(s.drop_last());
        let (head, tail) = (encoded(s.drop_last()), encoded_byte(s.last()));
        let r = encoded(s);
        assert forall|i: int| 0 <= i < r.len() implies r[i] != '/' && r[i] != '?' && r[i] != '#' by {
            if i < head.len() {
                assert(head.contains(r[i]));
            } else {
                assert(r[i] == tail[i - head.len()]);
            }
        }
    }
}

// ---------------------------------------------------------------- file selection

/// `s` without the stars at its start.
pub open spec fn without_leading_stars(s: Seq<char>) -> Seq<char>
    decreases s.len(),
{
    if s.len() > 0 && s[0] == '*' {
        without_leading_stars(s.drop_first())
    } else {
        s
    }
}

/// `s` without the stars at its end.
pub open spec fn without_trailing_stars(s: Seq<char>) -> Seq<char>
    decreases s.len(),
{
    if s.len() > 0 && s.last() == '*' {
        without_trailing_stars(s.drop_last())
    } else {
        s
    }
}

/// A pattern covers a name: a star at its start stands for any beginning, one at its end for
/// any end, and without either the name is the pattern.
pub open spec fn covers(pattern: Seq<char>, name: Seq<char>) -> bool {
    let starts = pattern.len() > 0 && pattern[0] == '*';
    let ends = pattern.len() > 0 && pattern.last() == '*';
    if starts && ends {
        let inner = without_trailing_stars(without_leading_stars(pattern));
        inner.len() == 0 || occurs(name, inner)
    } else if starts {
        pattern.drop_first().is_suffix_of(name)
    } else if ends {
        pattern.drop_last().is_prefix_of(name)
    } else {
        pattern == name
    }
}

fn trim_stars(s: &str) -> (r: String)
    ensures
        r@ == without_trailing_stars(without_leading_stars(s@)),
{
    let v = chars_of(s);
    let mut a: usize = 0;
    assert(v@.skip(0) =~= v@);
    while a < v.len() && v[a] == '*'
        invariant
            a <= v.len(),
            without_leading_stars(v@) == without_leading_stars(v@.skip(a as int)),
        decreases v.len() - a,
    {
        assert(v@.skip(a as int).drop_first() =~= v@.skip(a + 1));
        a = a + 1;
    }
    let ghost mid = v@.skip(a as int);
    assert(mid == without_leading_stars(v@));
    let mut b: usize = v.len();
    assert(mid.take(b - a) =~= mid);
    while b > a && v[b - 1] == '*'
        invariant
            a <= b <= v.len(),
            mid == v@.skip(a as int),
            without_trailing_stars(mid) == without_trailing_stars(mid.take(b - a)),
        decreases b,
    {
        assert(mid.take(b - a).drop_last() =~= mid.take(b - a - 1));
        assert(mid.take(b - a).last() == v@[b - 1]);
        b = b - 1;
    }
    let r = text_of(&v, a, b);
    assert(r@ =~= mid.take(b - a));
    assert(b > a ==> mid.take(b - a).last() == v@[b - 1]);
    r
}

/// A deliberately small glob: `*` at either end, literal otherwise. That covers the
/// `*.bin` shapes the ignore list actually uses without pulling in a glob crate.
pub fn glob_match(pattern: &str, name: &str) -> (r: bool)
    ensures
        r == covers(pattern@, name@),
{
    let v = chars_of(pattern);
    let n = v.len();
    let starts = n > 0 && v[0] == '*';
    let ends = n > 0 && v[n - 1] == '*';
    if starts && ends {
        let inner = trim_stars(pattern);
        inner.as_str().is_empty() || contains(name, inner.as_str())
    } else if starts {
        let suffix = text_of(&v, 1, n);
        assert(suffix@ =~= pattern@.drop_first());
        ends_with(name, suffix.as_str())
    } else if ends {
        let prefix = text_of(&v, 0, n - 1);
        assert(prefix@ =~= pattern@.drop_last());
        starts_with(name, prefix.as_str())
    } else {
        same(pattern, name)
    }
}

pub open spec fn ignored(name: Seq<char>, ignore: Seq<Seq<char>>) -> bool {
    exists|i: int| 0 <= i < ignore.len() && covers(#[trigger] ignore[i], name)
}

/// A file is pulled by default: it is not hidden, not ignored, not a GGUF beside
/// safetensors, not a consolidated mirror of the sharded weights (pure duplication), and not
/// below a directory that a serving engine never reads.
pub open spec fn pulled(path: Seq<char>, ignore: Seq<Seq<char>>, has_safetensors: bool) -> bool {
    let name = after_last(path, '/');
    &&& !"."@.is_prefix_of(name)
    &&& !ignored(name, ignore)
    &&& !(".gguf"@.is_suffix_of(name) && has_safetensors)
    &&& !"consolidated"@.is_prefix_of(name)
    &&& !"onnx/"@.is_prefix_of(path)
    &&& !"coreml/"@.is_prefix_of(path)
    &&& !"openvino/"@.is_prefix_of(path)
    &&& !"tflite/"@.is_prefix_of(path)
}

fn is_ignored(name: &str, ignore: &Vec<String>) -> (r: bool)
    ensures
        r == ignored(name@, texts(ignore@)),
{
    let mut i: usize = 0;
    assert(texts(ignore@).len() == ignore.len());
    while i < ignore.len()
        invariant
            i <= ignore.len(),
            texts(ignore@).len() == ignore.len(),
            forall|j: int| 0 <= j < i ==> !covers(#[trigger] texts(ignore@)[j], name@),
        decreases ignore.len() - i,
    {
        assert(texts(ignore@)[i as int] == ignore@[i as int]@);
        if glob_match(ignore[i].as_str(), name) {
            return true;
        }
        i = i + 1;
    }
    false
}

fn wanted_by_default(path: &str, ignore: &Vec<String>, has_safetensors: bool) -> (r: bool)
    ensures
        r == pulled(path@, texts(ignore@), has_safetensors),
{
    let name = tail_after(path, '/');
    if starts_with(name.as_str(), ".") {
        return false;
    }
    if is_ignored(name.as_str(), ignore) {
        return false;
    }
    if ends_with(name.as_str(), ".gguf") && has_safetensors {
        return false;
    }
    if starts_with(name.as_str(), "consolidated") {
        return false;
    }
    !starts_with(path, "onnx/") && !starts_with(path, "coreml/") && !starts_with(path, "openvino/")
        && !starts_with(path, "tflite/")
}

pub open spec fn any_safetensors(siblings: Seq<Sibling>) -> bool {
    exists|i: int|
        0 <= i < siblings.len() && ".safetensors"@.is_suffix_of((#[trigger] siblings[i]).path@)
}

/// The files of a listing, each with whether it is pulled; a path that ends in a slash is
/// none.
pub open spec fn files_in(siblings: Seq<Sibling>, ignore: Seq<Seq<char>>, has_safetensors: bool)
    -> Seq<(Seq<char>, RepoFileView)>
    decreases siblings.len(),
{
    if siblings.len() == 0 {
        Seq::empty()
    } else {
        let head = files_in(siblings.drop_last(), ignore, has_safetensors);
        let s = siblings.last();
        if "/"@.is_suffix_of(s.path@) {
            head
        } else {
            head.push(
                (
                    s.path@,
                    RepoFileView {
                        path: s.path@,
                        size: match s.size {
                            Some(n) => n,
                            None => 0,
                        },
                        wanted: pulled(s.path@, ignore, has_safetensors),
                    },
                ),
            )
        }
    }
}

pub open spec fn selected(siblings: Seq<Sibling>, ignore: Seq<Seq<char>>) -> Seq<RepoFileView> {
    values(ordered(files_in(siblings, ignore, any_safetensors(siblings))))
}

pub open spec fn file_views(v: Seq<RepoFile>) -> Seq<RepoFileView> {
    Seq::new(v.len(), |i: int| v[i]@)
}

pub open spec fn pair_views(v: Seq<(Seq<char>, RepoFile)>) -> Seq<(Seq<char>, RepoFileView)> {
    Seq::new(v.len(), |i: int| (v[i].0, v[i].1@))
}

proof fn lemma_ordered_views(s: Seq<(Seq<char>, RepoFile)>)
    ensures
        pair_views(ordered(s)) == ordered(pair_views(s)),
{
    let f = |file: RepoFile| file@;
    lemma_ordered_mapped(s, f);
    assert(pair_views(s) =~= mapped(s, f));
    assert(pair_views(ordered(s)) =~= mapped(ordered(s), f));
}

fn has_safetensors(siblings: &Vec<Sibling>) -> (r: bool)
    ensures
        r == any_safetensors(siblings@),
{
    let mut i: usize = 0;
    while i < siblings.len()
        invariant
            i <= siblings.len(),
            forall|j: int|
                0 <= j < i ==> !".safetensors"@.is_suffix_of((#[trigger] siblings@[j]).path@),
        decreases siblings.len() - i,
    {
        if ends_with(siblings[i].path.as_str(), ".safetensors") {
            return true;
        }
        i = i + 1;
    }
    false
}

/// Decide which files to pull. Weights, tokenizer and config are wanted; alternate
/// serialization formats are not, because a repo that ships both safetensors and `.bin`
/// would otherwise double the download for nothing.
///
/// GGUF is a *usable* format for FreeToken (Gemma-4), not a redundant one, but pulling it
/// alongside safetensors is still waste, so it is only kept when the repo has no
/// safetensors.
pub fn select_files(siblings: &Vec<Sibling>, ignore: &Vec<String>) -> (r: Vec<RepoFile>)
    ensures
        file_views(r@) == selected(siblings@, texts(ignore@)),
{
    let tensors = has_safetensors(siblings);
    let ghost all = siblings@;
    let ghost skip = texts(ignore@);
    let mut out: Vec<(String, RepoFile)> = Vec::new();
    let mut i: usize = 0;
    assert(all.take(0) =~= Seq::<Sibling>::empty());
    assert(pair_views(keyed(out@)) =~= Seq::<(Seq<char>, RepoFileView)>::empty());
    while i < siblings.len()
        invariant
            i <= siblings.len(),
            all == siblings@,
            skip == texts(ignore@),
            tensors == any_safetensors(all),
            pair_views(keyed(out@)) == files_in(all.take(i as int), skip, tensors),
        decreases siblings.len() - i,
    {
        assert(all.take(i + 1).drop_last() =~= all.take(i as int));
        assert(all.take(i + 1).last() == siblings@[i as int]);
        let ghost before = out@;
        let s = &siblings[i];
        if !ends_with(s.path.as_str(), "/") {
            let file = RepoFile {
                path: s.path.clone(),
                size: match s.size {
                    Some(n) => n,
                    None => 0,
                },
                wanted: wanted_by_default(s.path.as_str(), ignore, tensors),
            };
            let key = s.path.clone();
            out.push((key, file));
            assert(pair_views(keyed(out@)) =~= pair_views(keyed(before)).push((key@, file@)));
        }
        i = i + 1;
    }
    assert(all.take(i as int) =~= all);
    let ghost pairs = keyed(out@);
    let r = sorted_values(out);
    proof {
        lemma_ordered_views(pairs);
        assert(file_views(r@) =~= values(pair_views(ordered(pairs))));
    }
    r
}

/// GGUF is kept exactly when the repo has no safetensors, as far as nothing else excludes
/// it.
pub proof fn law_gguf_is_kept_only_without_safetensors(path: Seq<char>, ignore: Seq<Seq<char>>)
    requires
        ".gguf"@.is_suffix_of(after_last(path, '/')),
    ensures
        !pulled(path, ignore, true),
{
}

// ---------------------------------------------------------------- download

#[derive(Debug)]
pub enum DownloadEvent {
    /// The file that just started transferring.
    Progress { id: u64, current: String },
    /// One file finished; the UI keeps its own completed count.
    FileDone { id: u64 },
    Finished { id: u64, result: Result<String, String> },
}

pub enum DownloadEventView {
    Progress { id: u64, current: Seq<char> },
    FileDone { id: u64 },
    Finished { id: u64, result: Result<Seq<char>, Seq<char>> },
}

impl View for DownloadEvent {
    type V = DownloadEventView;

    open spec fn view(&self) -> DownloadEventView {
        match self {
            DownloadEvent::Progress { id, current } => DownloadEventView::Progress {
                id: *id,
                current: current@,
            },
            DownloadEvent::FileDone { id } => DownloadEventView::FileDone { id: *id },
            DownloadEvent::Finished { id, result } => DownloadEventView::Finished {
                id: *id,
                result: match result {
                    Ok(p) => Ok(p@),
                    Err(e) => Err(e@),
                },
            },
        }
    }
}

pub open spec fn event_views(v: Seq<DownloadEvent>) -> Seq<DownloadEventView> {
    Seq::new(v.len(), |i: int| v[i]@)
}

#[derive(Debug, Clone, PartialEq)]
pub enum DownloadStatus {
    Running,
    Done,
    Failed(String),
    Canceled,
}

/// One repo download as it is tracked. Wall-clock times are Unix milliseconds.
#[derive(Debug)]
pub struct Download {
    pub id: u64,
    pub repo: String,
    pub revision: String,
    pub target: String,
    pub total_bytes: u64,
    pub done_bytes: u64,
    pub file_count: usize,
    pub files_done: usize,
    pub current: String,
    pub status: DownloadStatus,
    pub started_at: i64,
    pub finished_at: Option<i64>,
    /// When the transfer rate was last sampled, in nanoseconds on a clock that never goes
    /// back, and how much was done by then.
    pub last_sample: (u64, u64),
    /// The transfer is to be stopped.
    pub cancel_requested: bool,
}

/// The least time, in nanoseconds, between two samples of the transfer rate.
pub const RATE_INTERVAL: u64 = 250_000_000;

impl Download {
    pub fn is_running(&self) -> (r: bool)
        ensures
            r == (self.status is Running),
    {
        matches!(self.status, DownloadStatus::Running)
    }

    pub fn cancel(&mut self, now: i64)
        ensures
            *final(self) == (Download {
                cancel_requested: true,
                status: DownloadStatus::Canceled,
                finished_at: Some(now),
                ..*old(self)
            }),
    {
        self.cancel_requested = true;
        self.status = DownloadStatus::Canceled;
        self.finished_at = Some(now);
    }

    pub fn done(&self) -> (r: u64)
        ensures
            r == self.done_bytes,
    {
        self.done_bytes
    }

    /// How much is transferred, of how much.
    pub fn share(&self) -> (r: (u64, u64))
        ensures
            r == (self.done_bytes, self.total_bytes),
    {
        (self.done_bytes, self.total_bytes)
    }

    /// What the smoothed transfer rate takes in: the bytes since the last sample and the
    /// nanoseconds they took, once enough time has gone by.
    pub fn sample_rate(&mut self, now: u64) -> (r: Option<(u64, u64)>)
        ensures
            ({
                let dt = less(now as int, old(self).last_sample.0 as int);
                if dt >= RATE_INTERVAL {
                    &&& r == Some(
                        (
                            less(old(self).done_bytes as int, old(self).last_sample.1 as int) as u64,
                            dt as u64,
                        ),
                    )
                    &&& *final(self) == (Download {
                        last_sample: (now, old(self).done_bytes),
                        ..*old(self)
                    })
                } else {
                    r is None && *final(self) == *old(self)
                }
            }),
    {
        let (then, before) = self.last_sample;
        let dt = sat_sub(now, then);
        if dt >= RATE_INTERVAL {
            let delta = sat_sub(self.done_bytes, before);
            self.last_sample = (now, self.done_bytes);
            Some((delta, dt))
        } else {
            None
        }
    }

    /// How long the download has run, or ran, in milliseconds.
    pub fn elapsed(&self, now: i64) -> (r: u64)
        ensures
            r == less(
                (match self.finished_at {
                    Some(end) => end,
                    None => now,
                }) as int,
                self.started_at as int,
            ),
    {
        let end: i64 = match self.finished_at {
            Some(end) => end,
            None => now,
        };
        if end > self.started_at {
            (end as i128 - self.started_at as i128) as u64
        } else {
            0
        }
    }
}

/// Where the `hf` CLI may stand.
///
/// Order: an explicit `hub.cli`, then the FreeToken venv (FreeToken depends on
/// `huggingface_hub`, so `hf` is installed right beside `ft`), then beside an explicitly
/// configured `ft` binary, then PATH.
#[derive(Debug)]
pub struct CliPlaces {
    pub configured: Option<String>,
    pub in_venv: Option<String>,
    pub beside_ft: Option<String>,
}

pub struct CliPlacesView {
    pub configured: Option<Seq<char>>,
    pub in_venv: Option<Seq<char>>,
    pub beside_ft: Option<Seq<char>>,
}

impl View for CliPlaces {
    type V = CliPlacesView;

    open spec fn view(&self) -> CliPlacesView {
        CliPlacesView {
            configured: opt_text(self.configured),
            in_venv: opt_text(self.in_venv),
            beside_ft: opt_text(self.beside_ft),
        }
    }
}

pub open spec fn places_of(cfg: Config, ft_program: Option<Seq<char>>, home: Option<Seq<char>>)
    -> CliPlacesView {
    CliPlacesView {
        configured: match cfg.hub.cli {
            Some(p) => Some(expanded(p@, home)),
            None => None,
        },
        in_venv: match cfg.freetoken.venv {
            Some(v) => Some(joined_path(expanded(v@, home), "bin/hf"@)),
            None => None,
        },
        beside_ft: match ft_program {
            Some(p) => match parent_of(p) {
                Some(d) => Some(joined_path(d, "hf"@)),
                None => None,
            },
            None => None,
        },
    }
}

/// The places to look for the `hf` CLI, other than PATH.
pub fn cli_places(cfg: &Config, ft_program: Option<&str>, home: Option<&str>) -> (r: CliPlaces)
    ensures
        r@ == places_of(*cfg, opt_str(ft_program), opt_str(home)),
{
    CliPlaces {
        configured: match &cfg.hub.cli {
            Some(p) => Some(expand_tilde(p.as_str(), home)),
            None => None,
        },
        in_venv: match &cfg.freetoken.venv {
            Some(v) => Some(join(expand_tilde(v.as_str(), home).as_str(), "bin/hf")),
            None => None,
        },
        beside_ft: match ft_program {
            Some(p) => match parent(p) {
                Some(d) => Some(join(d.as_str(), "hf")),
                None => None,
            },
            None => None,
        },
    }
}

/// Which of the places hold an executable, and what PATH leads to.
#[derive(Debug)]
pub struct CliFound {
    pub configured: bool,
    pub in_venv: bool,
    pub beside_ft: bool,
    pub on_path: Option<String>,
}

/// The `hf` CLI to use, or why there is none.
pub open spec fn cli_of(places: CliPlacesView, found: CliFound, config_path: Seq<char>) -> Result<
    Seq<char>,
    Seq<char>,
> {
    if places.configured is Some {
        if found.configured {
            Ok(places.configured->0)
        } else {
            Err("hub.cli is set to "@ + places.configured->0 + ", which is not an executable"@)
        }
    } else if places.in_venv is Some && found.in_venv {
        Ok(places.in_venv->0)
    } else if places.beside_ft is Some && found.beside_ft {
        Ok(places.beside_ft->0)
    } else {
        match found.on_path {
            Some(p) => Ok(p@),
            None => Err(
                "could not find the `hf` CLI (looked in the FreeToken venv, beside the `ft` binary, and on PATH). It ships with huggingface_hub; set hub.cli in "@
                    + config_path + " to point at it."@,
            ),
        }
    }
}

/// Locate the `hf` CLI.
pub fn locate_cli(places: &CliPlaces, found: &CliFound, config_path: &str) -> (r: Result<
    String,
    String,
>)
    ensures
        (match r {
            Ok(p) => Ok(p@),
            Err(e) => Err(e@),
        }) == cli_of(places@, *found, config_path@),
{
    if let Some(p) = &places.configured {
        if found.configured {
            return Ok(p.clone());
        }
        return Err(cat3("hub.cli is set to ", p.as_str(), ", which is not an executable"));
    }
    if let Some(p) = &places.in_venv {
        if found.in_venv {
            return Ok(p.clone());
        }
    }
    if let Some(p) = &places.beside_ft {
        if found.beside_ft {
            return Ok(p.clone());
        }
    }
    if let Some(p) = &found.on_path {
        return Ok(p.clone());
    }
    Err(
        cat3(
            "could not find the `hf` CLI (looked in the FreeToken venv, beside the `ft` binary, and on PATH). It ships with huggingface_hub; set hub.cli in ",
            config_path,
            " to point at it.",
        ),
    )
}

/// Hugging Face's own installer for the `hf` CLI, exactly as their CLI guide documents it
/// under "Standalone installer (Recommended)".
///
/// Deliberately not a hand-rolled `pip install` into some virtualenv paddock picked: which
/// environment a CLI belongs in is the packager's decision, not this tool's, and an
/// invented install path is one more thing to be wrong about when it moves.
///
/// `--exclude-skill` is theirs too. The installer otherwise also writes agent skills into
/// `~/.agents/skills`, which is a surprising thing for "paddock could not find a downloader"
/// to do to someone's home directory.
pub const INSTALL_COMMAND: &'static str =
    "curl -LsSf https://hf.co/cli/install.sh | bash -s -- --exclude-skill";

/// Where the documented installer may have put `hf`. The script installs into
/// `~/.local/bin`, which is not necessarily on the PATH paddock inherited, so the result is
/// looked for there explicitly.
pub fn installed_places(home: Option<&str>) -> (r: (String, String))
    ensures
        ({
            let h = match home {
                Some(h) => h@,
                None => "."@,
            };
            r.0@ == joined_path(h, ".local/bin/hf"@) && r.1@ == joined_path(h, ".cargo/bin/hf"@)
        }),
{
    let h = match home {
        Some(h) => h,
        None => ".",
    };
    (join(h, ".local/bin/hf"), join(h, ".cargo/bin/hf"))
}

pub open spec fn shown_code(code: Option<i32>) -> Seq<char> {
    dec_int(
        match code {
            Some(c) => c as int,
            None => -1,
        },
    )
}

fn show_code(code: Option<i32>) -> (r: String)
    ensures
        r@ == shown_code(code),
{
    decimal_int(
        match code {
            Some(c) => c as i64,
            None => -1,
        },
    )
}

/// How the documented installer ended: where `hf` ended up, or why it did not. `first` and
/// `second` are the places of [`installed_places`] that are executable, in their order.
pub fn install_cli(
    ran: &Waited,
    err: &str,
    first: Option<String>,
    second: Option<String>,
    on_path: Option<String>,
) -> (r: Result<String, String>)
    ensures
        match ran {
            Waited::Lost(e) => r is Err && r->Err_0@ == "could not run the installer: "@ + e@,
            Waited::Exited { code, .. } => if *code != Some(0i32) {
                r is Err && r->Err_0@ == "the installer exited "@ + shown_code(*code) + ": "@
                    + closing_line(lines_of(err@))
            } else if first is Some {
                r == Ok::<String, String>(first->0)
            } else if second is Some {
                r == Ok::<String, String>(second->0)
            } else if on_path is Some {
                r == Ok::<String, String>(on_path->0)
            } else {
                r is Err && r->Err_0@
                    == "the installer reported success but `hf` is still not on PATH; open a new shell and restart ft-man, or set hub.cli in the config"@
            },
        },
{
    match ran {
        Waited::Lost(e) => Err(cat2("could not run the installer: ", e.as_str())),
        Waited::Exited { code, .. } => {
            let done = match code {
                Some(c) => *c == 0,
                None => false,
            };
            if !done {
                return Err(
                    cat4(
                        "the installer exited ",
                        show_code(*code).as_str(),
                        ": ",
                        last_line(err).as_str(),
                    ),
                );
            }
            match first {
                Some(p) => Ok(p),
                None => match second {
                    Some(p) => Ok(p),
                    None => match on_path {
                        Some(p) => Ok(p),
                        None => Err(
                            "the installer reported success but `hf` is still not on PATH; open a new shell and restart ft-man, or set hub.cli in the config".to_owned(),
                        ),
                    },
                },
            }
        },
    }
}

/// The cache directory a repo occupies: `<cache>/models--org--name`.
pub fn cache_repo_dir(cache: &str, repo: &str) -> (r: String)
    ensures
        r@ == joined_path(cache@, cache_dir_name(repo@)),
{
    join(cache, cat2("models--", replace(repo, '/', "--").as_str()).as_str())
}

// ---------------------------------------------------------------- starting a download

/// The files that are wanted, in order.
pub open spec fn wanted_of(files: Seq<RepoFile>) -> Seq<RepoFile>
    decreases files.len(),
{
    if files.len() == 0 {
        files
    } else {
        let head = wanted_of(files.drop_last());
        if files.last().wanted {
            head.push(files.last())
        } else {
            head
        }
    }
}

/// The files to download, or why there is nothing to do.
pub fn wanted_files(files: &Vec<RepoFile>) -> (r: Result<Vec<RepoFile>, String>)
    ensures
        match r {
            Ok(v) => v@ == wanted_of(files@) && v@.len() > 0,
            Err(e) => wanted_of(files@).len() == 0 && e@ == "no files selected"@,
        },
{
    let ghost all = files@;
    let mut out: Vec<RepoFile> = Vec::new();
    let mut i: usize = 0;
    assert(all.take(0) =~= Seq::<RepoFile>::empty());
    while i < files.len()
        invariant
            i <= files.len(),
            all == files@,
            out@ == wanted_of(all.take(i as int)),
        decreases files.len() - i,
    {
        assert(all.take(i + 1).drop_last() =~= all.take(i as int));
        assert(all.take(i + 1).last() == files@[i as int]);
        if files[i].wanted {
            out.push(files[i].copy());
        }
        i = i + 1;
    }
    assert(all.take(i as int) =~= all);
    if out.len() == 0 {
        Err("no files selected".to_owned())
    } else {
        Ok(out)
    }
}

pub open spec fn total_of(files: Seq<RepoFile>) -> nat
    decreases files.len(),
{
    if files.len() == 0 {
        0
    } else {
        total_of(files.drop_last()) + files.last().size as nat
    }
}

/// All bytes to transfer, or `None` when they do not fit 64 bits.
pub fn total_size(files: &Vec<RepoFile>) -> (r: Option<u64>)
    ensures
        match r {
            Some(n) => n == total_of(files@),
            None => total_of(files@) > u64::MAX,
        },
{
    let ghost all = files@;
    let mut total: u64 = 0;
    let mut i: usize = 0;
    assert(all.take(0) =~= Seq::<RepoFile>::empty());
    while i < files.len()
        invariant
            i <= files.len(),
            all == files@,
            total == total_of(all.take(i as int)),
        decreases files.len() - i,
    {
        assert(all.take(i + 1).drop_last() =~= all.take(i as int));
        assert(all.take(i + 1).last() == files@[i as int]);
        if files[i].size > u64::MAX - total {
            proof {
                lemma_total_grows(all, i + 1);
            }
            return None;
        }
        total = total + files[i].size;
        i = i + 1;
    }
    assert(all.take(i as int) =~= all);
    Some(total)
}

proof fn lemma_total_grows(files: Seq<RepoFile>, i: int)
    requires
        0 <= i <= files.len(),
    ensures
        total_of(files.take(i)) <= total_of(files),
    decreases files.len() - i,
{
    if i < files.len() {
        lemma_total_grows(files, i + 1);
        assert(files.take(i + 1).drop_last() =~= files.take(i));
    } else {
        assert(files.take(i) =~= files);
    }
}

pub open spec fn path_list(files: Seq<RepoFile>) -> Seq<Seq<char>> {
    Seq::new(files.len(), |i: int| files[i].path@)
}

/// The arguments of `hf` that download `files`. Exact filenames rather than `--include`
/// globs: the selection is already exact, and a glob would have to be escaped for filenames
/// containing metacharacters.
pub fn download_args(repo: &str, revision: &str, concurrency: usize, files: &Vec<RepoFile>) -> (r:
    Vec<String>)
    ensures
        texts(r@) == seq![
            "download"@,
            repo@,
            "--revision"@,
            revision@,
            "--max-workers"@,
            dec(max(concurrency as nat, 1)),
            "--format"@,
            "json"@,
        ] + path_list(files@),
{
    let workers: u64 = larger(concurrency as u64, 1);
    let mut args: Vec<String> = vec![
        "download".to_owned(),
        repo.to_owned(),
        "--revision".to_owned(),
        revision.to_owned(),
        "--max-workers".to_owned(),
        decimal(workers),
        "--format".to_owned(),
        "json".to_owned(),
    ];
    let ghost head = seq![
        "download"@,
        repo@,
        "--revision"@,
        revision@,
        "--max-workers"@,
        dec(max(concurrency as nat, 1)),
        "--format"@,
        "json"@,
    ];
    assert(texts(args@) =~= head);
    let ghost names = path_list(files@);
    let mut i: usize = 0;
    assert(head + names.take(0) =~= head);
    while i < files.len()
        invariant
            i <= files.len(),
            names == path_list(files@),
            texts(args@) == head + names.take(i as int),
        decreases files.len() - i,
    {
        let name = files[i].path.clone();
        proof {
            lemma_texts_push(args@, name);
            assert(names.take(i + 1) =~= names.take(i as int).push(names[i as int]));
            assert((head + names.take(i as int)).push(names[i as int]) =~= head + names.take(i + 1));
        }
        args.push(name);
        i = i + 1;
    }
    assert(names.take(i as int) =~= names);
    args
}

/// The variables of a download. The token goes into the environment, never in as `--token`:
/// an argument is visible to every user on the machine in `ps`, and this one is a
/// credential. The bars are off because the output is only read for diagnostics.
pub fn download_env(cache_dir: &str, token: Option<&str>) -> (r: Vec<(String, String)>)
    ensures
        env_views(r@) == seq![
            ("HF_HUB_CACHE"@, cache_dir@),
            ("HF_HUB_DISABLE_PROGRESS_BARS"@, "1"@),
        ] + (match token {
            Some(t) => seq![("HF_TOKEN"@, t@)],
            None => Seq::empty(),
        }),
{
    let mut env: Vec<(String, String)> = vec![
        ("HF_HUB_CACHE".to_owned(), cache_dir.to_owned()),
        ("HF_HUB_DISABLE_PROGRESS_BARS".to_owned(), "1".to_owned()),
    ];
    if let Some(t) = token {
        env.push(("HF_TOKEN".to_owned(), t.to_owned()));
    }
    assert(env_views(env@) =~= seq![
        ("HF_HUB_CACHE"@, cache_dir@),
        ("HF_HUB_DISABLE_PROGRESS_BARS"@, "1"@),
    ] + (match token {
        Some(t) => seq![("HF_TOKEN"@, t@)],
        None => Seq::empty(),
    }));
    env
}

/// A download that has started.
pub fn start_download(
    id: u64,
    cache_dir: &str,
    repo: String,
    revision: String,
    total: u64,
    file_count: usize,
    start: &Sample,
    started_at: i64,
    now: u64,
) -> (r: Download)
    ensures
        r.id == id,
        r.repo == repo,
        r.revision == revision,
        r.target@ == joined_path(cache_dir@, cache_dir_name(repo@)),
        r.total_bytes == total,
        r.done_bytes == start.bytes,
        r.file_count == file_count,
        r.files_done == 0,
        r.current@ == ""@,
        r.status is Running,
        r.started_at == started_at,
        r.finished_at is None,
        r.last_sample == (now, 0u64),
        !r.cancel_requested,
{
    let target = cache_repo_dir(cache_dir, repo.as_str());
    Download {
        id,
        repo,
        revision,
        target,
        total_bytes: total,
        done_bytes: start.bytes,
        file_count,
        files_done: 0,
        current: "".to_owned(),
        status: DownloadStatus::Running,
        started_at,
        finished_at: None,
        last_sample: (now, 0),
        cancel_requested: false,
    }
}

// ---------------------------------------------------------------- watching a download

/// What the cache says about a download in progress.
#[derive(Debug)]
pub struct Sample {
    pub bytes: u64,
    pub files_done: usize,
    /// The first wanted file not yet complete, or empty when none remain.
    pub pending: String,
}

pub struct SampleView {
    pub bytes: u64,
    pub files_done: nat,
    pub pending: Seq<char>,
}

impl View for Sample {
    type V = SampleView;

    open spec fn view(&self) -> SampleView {
        SampleView { bytes: self.bytes, files_done: self.files_done as nat, pending: self.pending@ }
    }
}

/// A file is complete: the snapshot holds it at its full size.
pub open spec fn complete(f: RepoFile, held: Option<u64>) -> bool {
    held == Some(f.size) && f.size > 0
}

pub open spec fn complete_bytes(files: Seq<RepoFile>, held: Seq<Option<u64>>) -> nat
    decreases files.len(),
{
    if files.len() == 0 {
        0
    } else {
        complete_bytes(files.drop_last(), held) + if complete(
            files.last(),
            held[files.len() - 1],
        ) {
            files.last().size as nat
        } else {
            0
        }
    }
}

pub open spec fn complete_count(files: Seq<RepoFile>, held: Seq<Option<u64>>) -> nat
    decreases files.len(),
{
    if files.len() == 0 {
        0
    } else {
        complete_count(files.drop_last(), held) + if complete(
            files.last(),
            held[files.len() - 1],
        ) {
            1nat
        } else {
            0
        }
    }
}

/// The path of the first file that is not complete and has a name, or none.
pub open spec fn first_pending(files: Seq<RepoFile>, held: Seq<Option<u64>>) -> Seq<char>
    decreases files.len(),
{
    if files.len() == 0 {
        ""@
    } else {
        let head = first_pending(files.drop_last(), held);
        if head.len() > 0 || complete(files.last(), held[files.len() - 1]) {
            head
        } else {
            files.last().path@
        }
    }
}

pub open spec fn sum(v: Seq<u64>) -> nat
    decreases v.len(),
{
    if v.len() == 0 {
        0
    } else {
        sum(v.drop_last()) + v.last() as nat
    }
}

proof fn lemma_sum_grows(v: Seq<u64>, i: int)
    requires
        0 <= i <= v.len(),
    ensures
        sum(v.take(i)) <= sum(v),
    decreases v.len() - i,
{
    if i < v.len() {
        lemma_sum_grows(v, i + 1);
        assert(v.take(i + 1).drop_last() =~= v.take(i));
    } else {
        assert(v.take(i) =~= v);
    }
}

proof fn lemma_complete_at_most_total(files: Seq<RepoFile>, held: Seq<Option<u64>>)
    ensures
        complete_bytes(files, held) <= total_of(files),
        complete_count(files, held) <= files.len(),
    decreases files.len(),
{
    if files.len() > 0 {
        lemma_complete_at_most_total(files.drop_last(), held);
    }
}

/// How much of the wanted files is in the cache, given the size at which the snapshot holds
/// each, and the sizes of the `.incomplete` blobs.
pub open spec fn sample_of(
    files: Seq<RepoFile>,
    held: Seq<Option<u64>>,
    incomplete: Seq<u64>,
    total: u64,
) -> SampleView {
    SampleView {
        bytes: min(complete_bytes(files, held) + sum(incomplete), total as nat) as u64,
        files_done: complete_count(files, held),
        pending: first_pending(files, held),
    }
}

/// Measure how much of `wanted` is already in the cache.
///
/// Completed files are counted through the snapshot, so a file cached before this download
/// counts immediately and a resumed transfer does not restart the bar at zero. In-flight
/// bytes come from the `.incomplete` blobs `huggingface_hub` stages each file in.
pub fn sample(wanted: &Vec<RepoFile>, held: &Vec<Option<u64>>, incomplete: &Vec<u64>, total: u64)
    -> (r: Sample)
    requires
        held@.len() == wanted@.len(),
        total_of(wanted@) + sum(incomplete@) <= u64::MAX,
    ensures
        r@ == sample_of(wanted@, held@, incomplete@, total),
{
    let ghost all = wanted@;
    let mut done: u64 = 0;
    let mut files_done: usize = 0;
    let mut pending: String = "".to_owned();
    let mut i: usize = 0;
    proof {
        reveal_strlit("");
        assert(all.take(0) =~= Seq::<RepoFile>::empty());
    }
    while i < wanted.len()
        invariant
            i <= wanted.len(),
            all == wanted@,
            held@.len() == wanted@.len(),
            total_of(all) + sum(incomplete@) <= u64::MAX,
            done == complete_bytes(all.take(i as int), held@),
            files_done == complete_count(all.take(i as int), held@),
            files_done <= i,
            pending@ == first_pending(all.take(i as int), held@),
        decreases wanted.len() - i,
    {
        proof {
            assert(all.take(i + 1).drop_last() =~= all.take(i as int));
            assert(all.take(i + 1).last() == wanted@[i as int]);
            lemma_total_grows(all, i + 1);
            lemma_complete_at_most_total(all.take(i + 1), held@);
        }
        let whole = match held[i] {
            Some(n) => n == wanted[i].size && n > 0,
            None => false,
        };
        if whole {
            done = done + wanted[i].size;
            files_done = files_done + 1;
        } else if pending.as_str().is_empty() {
            pending = wanted[i].path.clone();
        }
        i = i + 1;
    }
    proof {
        assert(all.take(i as int) =~= all);
        lemma_complete_at_most_total(all, held@);
    }
    let ghost blobs = incomplete@;
    let ghost base = done as nat;
    let mut k: usize = 0;
    assert(blobs.take(0) =~= Seq::<u64>::empty());
    while k < incomplete.len()
        invariant
            k <= incomplete.len(),
            blobs == incomplete@,
            base + sum(blobs) <= u64::MAX,
            done == base + sum(blobs.take(k as int)),
        decreases incomplete.len() - k,
    {
        proof {
            assert(blobs.take(k + 1).drop_last() =~= blobs.take(k as int));
            assert(blobs.take(k + 1).last() == incomplete@[k as int]);
            lemma_sum_grows(blobs, k + 1);
        }
        done = done + incomplete[k];
        k = k + 1;
    }
    assert(blobs.take(k as int) =~= blobs);
    Sample { bytes: smaller(done, total), files_done, pending }
}

/// What is known of one `hf download` while it runs.
#[derive(Debug)]
pub struct DownloadWatch {
    pub id: u64,
    pub repo_dir: String,
    pub total: u64,
    pub files_done: usize,
    pub done: u64,
    pub pending: String,
}

pub struct WatchView {
    pub id: u64,
    pub repo_dir: Seq<char>,
    pub total: u64,
    pub files_done: nat,
    pub done: u64,
    pub pending: Seq<char>,
}

impl View for DownloadWatch {
    type V = WatchView;

    open spec fn view(&self) -> WatchView {
        WatchView {
            id: self.id,
            repo_dir: self.repo_dir@,
            total: self.total,
            files_done: self.files_done as nat,
            done: self.done,
            pending: self.pending@,
        }
    }
}

impl WatchView {
    /// Taking in what the cache says. Monotonic on purpose: completing a blob is a rename,
    /// and for an instant it is counted by neither the snapshot pass nor the `.incomplete`
    /// sweep.
    pub open spec fn after(self, now: SampleView) -> WatchView {
        WatchView {
            done: max(self.done as nat, now.bytes as nat) as u64,
            files_done: max(self.files_done, now.files_done),
            pending: now.pending,
            ..self
        }
    }

    /// What taking it in reports: each file that finished since, and the first one still
    /// outstanding when that is another one. `hf` runs several workers at once, so there is
    /// no single current file; naming one is approximate and says more than a blank field.
    pub open spec fn reports(self, now: SampleView) -> Seq<DownloadEventView> {
        let finished = less(now.files_done as int, self.files_done as int);
        let files = Seq::new(finished, |i: int| DownloadEventView::FileDone { id: self.id });
        if now.pending != self.pending {
            files.push(DownloadEventView::Progress { id: self.id, current: now.pending })
        } else {
            files
        }
    }
}

/// What `hf download --format json` prints: the revision actually materialized, which is
/// what the rest of paddock needs to act on.
#[derive(Debug, Clone)]
pub struct DownloadReport {
    pub path: String,
}

/// Where a finished download stands: where its report says, and in the repo's directory
/// where there is none that could be read.
pub open spec fn reported_path(report: Option<DownloadReport>, repo_dir: Seq<char>) -> Seq<char> {
    match report {
        Some(r) => r.path@,
        None => repo_dir,
    }
}

/// How a download ended.
pub open spec fn outcome_of(
    ended: Waited,
    report: Option<DownloadReport>,
    err: Seq<char>,
    repo_dir: Seq<char>,
) -> Result<Seq<char>, Seq<char>> {
    match ended {
        Waited::Exited { code, .. } => if code == Some(0i32) {
            Ok(reported_path(report, repo_dir))
        } else {
            Err("hf download exited "@ + shown_code(code) + ": "@ + closing_line(lines_of(err)))
        },
        Waited::Lost(e) => Err("hf download: "@ + e@),
    }
}

impl DownloadWatch {
    /// A tick of a download that was canceled: the child owns the partial `.incomplete`
    /// blobs, and killing it leaves them in place, which is exactly what the next run
    /// resumes from.
    pub fn canceled(&self) -> (r: DownloadEvent)
        ensures
            r@ == (DownloadEventView::Finished {
                id: self@.id,
                result: Err::<Seq<char>, Seq<char>>("canceled"@),
            }),
    {
        DownloadEvent::Finished { id: self.id, result: Err("canceled".to_owned()) }
    }

    /// A tick of a download that runs.
    pub fn tick(&mut self, now: Sample) -> (r: Vec<DownloadEvent>)
        ensures
            final(self)@ == old(self)@.after(now@),
            event_views(r@) == old(self)@.reports(now@),
    {
        let ghost before = self@;
        self.done = larger(self.done, now.bytes);
        let mut events: Vec<DownloadEvent> = Vec::new();
        let mut n: usize = self.files_done;
        while n < now.files_done
            invariant
                before.files_done <= n,
                n <= now.files_done || n == before.files_done,
                self.id == before.id,
                events@.len() == n - before.files_done,
                forall|j: int|
                    0 <= j < events@.len() ==> (#[trigger] events@[j])@
                        == (DownloadEventView::FileDone { id: before.id }),
            decreases now.files_done - n,
        {
            events.push(DownloadEvent::FileDone { id: self.id });
            n = n + 1;
        }
        if now.files_done > self.files_done {
            self.files_done = now.files_done;
        }
        let ghost files = Seq::new(
            less(now@.files_done as int, before.files_done as int),
            |i: int| DownloadEventView::FileDone { id: before.id },
        );
        assert(event_views(events@) =~= files);
        if !same(now.pending.as_str(), self.pending.as_str()) {
            events.push(DownloadEvent::Progress { id: self.id, current: now.pending.clone() });
            self.pending = now.pending;
            assert(event_views(events@) =~= files.push(
                DownloadEventView::Progress { id: before.id, current: now@.pending },
            ));
        }
        events
    }

    /// How a download ended, with what its report decoded to and what it said on the side.
    pub fn finish(&mut self, ended: &Waited, report: Option<DownloadReport>, err: &str) -> (r:
        DownloadEvent)
        ensures
            r@ == (DownloadEventView::Finished {
                id: old(self)@.id,
                result: outcome_of(*ended, report, err@, old(self)@.repo_dir),
            }),
            final(self)@ == (WatchView {
                done: if ended matches Waited::Exited { code, .. } && *code == Some(0i32) {
                    old(self)@.total
                } else {
                    old(self)@.done
                },
                ..old(self)@
            }),
    {
        let result = match ended {
            Waited::Lost(e) => Err(cat2("hf download: ", e.as_str())),
            Waited::Exited { code, .. } => {
                let done = match code {
                    Some(c) => *c == 0,
                    None => false,
                };
                if done {
                    self.done = self.total;
                    match report {
                        Some(r) => Ok(r.path),
                        None => Ok(self.repo_dir.clone()),
                    }
                } else {
                    Err(
                        cat4(
                            "hf download exited ",
                            show_code(*code).as_str(),
                            ": ",
                            last_line(err).as_str(),
                        ),
                    )
                }
            },
        };
        DownloadEvent::Finished { id: self.id, result }
    }
}

/// Progress never goes back: neither the bytes nor the files done shrink from tick to tick.
pub proof fn law_progress_never_goes_back(w: WatchView, now: SampleView)
    ensures
        w.after(now).done >= w.done,
        w.after(now).files_done >= w.files_done,
        w.after(now).total == w.total,
{
}

/// The files reported done add up: after a tick, as many more have been reported as are
/// counted.
pub proof fn law_each_finished_file_is_reported_once(w: WatchView, now: SampleView)
    ensures
        w.after(now).files_done - w.files_done == w.reports(now).filter(
            |e: DownloadEventView| e is FileDone,
        ).len(),
{
    let files = Seq::new(
        less(now.files_done as int, w.files_done as int),
        |i: int| DownloadEventView::FileDone { id: w.id },
    );
    let p = |e: DownloadEventView| e is FileDone;
    lemma_all_kept(files, p);
    if now.pending != w.pending {
        let last = DownloadEventView::Progress { id: w.id, current: now.pending };
        let all = files.push(last);
        assert(all.drop_last() =~= files);
        assert(all.last() == last);
        reveal(Seq::filter);
    }
}

proof fn lemma_all_kept(v: Seq<DownloadEventView>, p: spec_fn(DownloadEventView) -> bool)
    requires
        forall|i: int| 0 <= i < v.len() ==> p(#[trigger] v[i]),
    ensures
        v.filter(p) == v,
    decreases v.len(),
{
    reveal(Seq::filter);
    if v.len() > 0 {
        let head = v.drop_last();
        assert forall|i: int| 0 <= i < head.len() implies p(#[trigger] head[i]) by {
            assert(head[i] == v[i]);
        }
        lemma_all_kept(head, p);
        assert(p(v[v.len() - 1]));
        assert(head.push(v.last()) =~= v);
    }
}

/// The last line that is not blank, trimmed.
pub open spec fn closing_line(lines: Seq<Seq<char>>) -> Seq<char>
    decreases lines.len(),
{
    if lines.len() == 0 {
        "no output"@
    } else if trimmed(lines.last()).len() > 0 {
        trimmed(lines.last())
    } else {
        closing_line(lines.drop_last())
    }
}

/// The most informative line of a failure: `hf` puts the reason last.
pub fn last_line(text: &str) -> (r: String)
    ensures
        r@ == closing_line(lines_of(text@)),
{
    let l = lines(text);
    let ghost all = lines_of(text@);
    let mut n: usize = l.len();
    assert(texts(l@).len() == l.len());
    assert(all.take(n as int) =~= all);
    while n > 0
        invariant
            n <= l.len(),
            texts(l@) == all,
            all == lines_of(text@),
            closing_line(all) == closing_line(all.take(n as int)),
        decreases n,
    {
        n = n - 1;
        assert(all.take(n + 1).drop_last() =~= all.take(n as int));
        assert(all.take(n + 1).last() == l@[n as int]@);
        let t = trim(l[n].as_str());
        if !t.as_str().is_empty() {
            return t;
        }
    }
    "no output".to_owned()
}

// ---------------------------------------------------------------- disk space

/// A path, the directory that holds it, the one above that, and so on.
pub open spec fn ancestors_of(path: Seq<char>) -> Seq<Seq<char>>
    decreases path.len(),
    via ancestors_decrease
{
    match parent_of(path) {
        Some(p) => seq![path] + ancestors_of(p),
        None => seq![path],
    }
}

#[via_fn]
proof fn ancestors_decrease(path: Seq<char>) {
    crate::paths::lemma_parent_shorter(path);
}

/// Where to measure the free space for `path`: the first of these that exists, so a
/// not-yet-created target directory still reports something useful.
///
/// Which one it was is worth surfacing: the walk up to an existing ancestor means a wrong
/// target silently reports a completely different filesystem.
pub fn ancestors(path: &str) -> (r: Vec<String>)
    ensures
        texts(r@) == ancestors_of(path@),
{
    let mut out: Vec<String> = Vec::new();
    let mut p: String = path.to_owned();
    assert(texts(out@) + ancestors_of(p@) =~= ancestors_of(path@));
    loop
        invariant
            texts(out@) + ancestors_of(p@) == ancestors_of(path@),
        decreases p@.len(),
    {
        proof {
            lemma_texts_push(out@, p);
            crate::paths::lemma_parent_shorter(p@);
        }
        let ghost here = p@;
        let ghost before = texts(out@);
        let up = parent(p.as_str());
        out.push(p);
        match up {
            Some(d) => {
                assert(before + (seq![here] + ancestors_of(d@)) =~= texts(out@) + ancestors_of(d@));
                p = d;
            },
            None => {
                assert(before + seq![here] =~= texts(out@));
                return out;
            },
        }
    }
}

} // verus!
