//! What is said to a running FreeToken server, and how its answers are read.
//!
//! Only the control-plane routes matter here: `/health`, `/v1/stats`,
//! `/v1/cache/status`, `/v1/cache/rebuild`, `/v1/requests`, `/v1/models` and the raw
//! `/generate` smoke test. Sending is left to the caller: a reply arrives here as its
//! status and its bytes.

use vstd::prelude::*;
use crate::json::{
    json_of, json_of_bytes, opt_json, parse_json, parse_json_bytes, Json, JsonView,
};
use crate::text::{
    cat2, cat3, cat4, cat5, chars_of, clip, clipped, dec, decimal, lines, lines_of, lossy,
    lossy_text, opt_text, same, strip_prefix, text_of, texts, trim, trimmed, words, words_of,
};

verus! {

/// A server, by its address.
#[derive(Debug, Clone)]
pub struct Client {
    pub base: String,
}

/// `s` without the slashes at its end.
pub open spec fn without_slashes(s: Seq<char>) -> Seq<char>
    decreases s.len(),
{
    if s.len() > 0 && s.last() == '/' {
        without_slashes(s.drop_last())
    } else {
        s
    }
}

impl Client {
    pub fn new(base_url: &str) -> (r: Self)
        ensures
            r.base@ == without_slashes(base_url@),
    {
        let v = chars_of(base_url);
        let mut n: usize = v.len();
        assert(base_url@.take(n as int) =~= base_url@);
        while n > 0 && v[n - 1] == '/'
            invariant
                n <= v.len(),
                v@ == base_url@,
                without_slashes(base_url@) == without_slashes(base_url@.take(n as int)),
            decreases n,
        {
            assert(base_url@.take(n as int).drop_last() =~= base_url@.take(n - 1));
            n = n - 1;
        }
        let base = text_of(&v, 0, n);
        assert(base@ =~= base_url@.take(n as int));
        Client { base }
    }

    pub fn base_url(&self) -> (r: &str)
        ensures
            r@ == self.base@,
    {
        self.base.as_str()
    }

    pub fn url(&self, path: &str) -> (r: String)
        ensures
            r@ == self.base@ + path@,
    {
        cat2(self.base.as_str(), path)
    }
}

/// An address never ends in a slash, so a path can follow it.
pub proof fn law_an_address_ends_in_no_slash(base_url: Seq<char>)
    ensures
        without_slashes(base_url).len() > 0 ==> without_slashes(base_url).last() != '/',
        without_slashes(without_slashes(base_url)) == without_slashes(base_url),
    decreases base_url.len(),
{
    if base_url.len() > 0 && base_url.last() == '/' {
        law_an_address_ends_in_no_slash(base_url.drop_last());
    }
}

/// The most that is asked of the request ring at once.
pub const MAX_REQUESTS: u32 = 512;

/// The route to the requests recorded after `since`.
pub fn requests_path(since: u64, limit: u32) -> (r: String)
    ensures
        r@ == "/v1/requests?since="@ + dec(since as nat) + "&limit="@ + dec(
            if limit < 1 {
                1
            } else if limit > MAX_REQUESTS {
                MAX_REQUESTS as nat
            } else {
                limit as nat
            },
        ),
{
    let n: u32 = if limit < 1 {
        1
    } else if limit > MAX_REQUESTS {
        MAX_REQUESTS
    } else {
        limit
    };
    cat4(
        "/v1/requests?since=",
        decimal(since).as_str(),
        "&limit=",
        decimal(n as u64).as_str(),
    )
}

// ---------------------------------------------------------------- replies

/// The beginning of a body, for a message.
pub open spec fn snippet_of(bytes: Seq<u8>) -> Seq<char> {
    clipped(lossy_text(bytes), 200)
}

fn snippet(bytes: &Vec<u8>) -> (r: String)
    ensures
        r@ == snippet_of(bytes@),
{
    clip(lossy(bytes).as_str(), 200)
}

/// What a refused request says.
pub open spec fn refusal(path: Seq<char>, status: Seq<char>, shown: Seq<char>) -> Seq<char> {
    path + " returned "@ + status + ": "@ + shown
}

/// Why a reply cannot be used, when the server refused: `status` is the status line as it
/// is displayed and `success` whether it stands for one.
pub fn reply_error(path: &str, status: &str, success: bool, body: &Vec<u8>) -> (r: Option<String>)
    ensures
        opt_text(r) == (if success {
            None
        } else {
            Some(refusal(path@, status@, snippet_of(body@)))
        }),
{
    if success {
        None
    } else {
        Some(cat5(path, " returned ", status, ": ", snippet(body).as_str()))
    }
}

/// What is said of a reply that is not what was asked for.
pub fn decoding_error(path: &str, body: &Vec<u8>) -> (r: String)
    ensures
        r@ == "decoding "@ + path@ + ": "@ + snippet_of(body@),
{
    cat4("decoding ", path, ": ", snippet(body).as_str())
}

/// What was decoded of a body, with an error that says which route it came from.
pub open spec fn decoded_of(
    path: Seq<char>,
    body: Seq<u8>,
    decoded: Result<JsonView, Seq<char>>,
) -> Result<JsonView, Seq<char>> {
    match decoded {
        Ok(v) => Ok(v),
        Err(why) => Err("decoding "@ + path + ": "@ + snippet_of(body) + ": "@ + why),
    }
}

/// A reply read as a JSON value.
pub open spec fn reply_of(
    path: Seq<char>,
    status: Seq<char>,
    success: bool,
    body: Seq<u8>,
) -> Result<JsonView, Seq<char>> {
    if !success {
        Err(refusal(path, status, snippet_of(body)))
    } else {
        decoded_of(path, body, json_of_bytes(body))
    }
}

/// What was decoded of a body, with an error that says which route it came from.
pub fn decoded_reply(path: &str, body: &Vec<u8>, decoded: Result<Json, String>) -> (r: Result<
    Json,
    String,
>)
    ensures
        decoded_of(
            path@,
            body@,
            match decoded {
                Ok(v) => Ok(v@),
                Err(e) => Err(e@),
            },
        ) == (match r {
            Ok(v) => Ok(v@),
            Err(e) => Err(e@),
        }),
{
    match decoded {
        Ok(v) => Ok(v),
        Err(why) => Err(cat3(decoding_error(path, body).as_str(), ": ", why.as_str())),
    }
}

/// Read a reply as a JSON value.
pub fn read_reply(path: &str, status: &str, success: bool, body: &Vec<u8>) -> (r: Result<
    Json,
    String,
>)
    ensures
        reply_of(path@, status@, success, body@) == (match r {
            Ok(v) => Ok(v@),
            Err(e) => Err(e@),
        }),
{
    match reply_error(path, status, success, body) {
        Some(e) => {
            return Err(e);
        },
        None => {},
    }
    decoded_reply(path, body, parse_json_bytes(body))
}

// ---------------------------------------------------------------- chat

/// One chat completion to ask for, through the OpenAI-compatible route.
///
/// `/generate` is the raw-completion smoke test and takes no chat template; every
/// model paddock serves is instruction-tuned, so anything that wants an answer rather
/// than a continuation has to go through the template `/v1/chat/completions` applies.
#[derive(Debug)]
pub struct ChatBody {
    pub model: String,
    /// Role and content, in order.
    pub messages: Vec<(String, String)>,
    pub max_tokens: u32,
    /// In tenths. Low, not zero: this is a summary of a diff, where invention is the failure
    /// mode and the wording is not the point.
    pub temperature_tenths: u32,
    pub stream: bool,
    /// Graded by the checkpoint's own template; `/v1/models` advertises the vocabulary.
    /// Omitted rather than guessed when the caller has nothing to say, and harmless where a
    /// template does not read it.
    pub reasoning_effort: Option<String>,
}

pub const CHAT_PATH: &'static str = "/v1/chat/completions";

/// The body of a chat completion.
pub fn chat_body(
    model: &str,
    system: &str,
    user: &str,
    max_tokens: u32,
    reasoning_effort: Option<String>,
) -> (r: ChatBody)
    ensures
        r.model@ == model@,
        r.messages@.len() == 2,
        r.messages@[0].0@ == "system"@ && r.messages@[0].1@ == system@,
        r.messages@[1].0@ == "user"@ && r.messages@[1].1@ == user@,
        r.max_tokens == max_tokens,
        r.temperature_tenths == 2,
        !r.stream,
        r.reasoning_effort == reasoning_effort,
{
    ChatBody {
        model: model.to_owned(),
        messages: vec![
            ("system".to_owned(), system.to_owned()),
            ("user".to_owned(), user.to_owned()),
        ],
        max_tokens,
        temperature_tenths: 2,
        stream: false,
        reasoning_effort,
    }
}

/// The text under `key` of an optional value; empty when there is none.
pub open spec fn text_at(v: Option<JsonView>, key: Seq<char>) -> Seq<char> {
    match v {
        Some(v) => match v.get(key) {
            Some(t) => match t.as_str() {
                Some(s) => s,
                None => ""@,
            },
            None => ""@,
        },
        None => ""@,
    }
}

/// The message of the first choice.
pub open spec fn first_message(v: JsonView) -> Option<JsonView> {
    match v.get("choices"@) {
        Some(choices) => match choices.at(0) {
            Some(choice) => choice.get("message"@),
            None => None,
        },
        None => None,
    }
}

/// What a chat completion answers: the content of its first choice. A reasoning model that
/// spent its whole budget thinking answers with an empty content and a full
/// `reasoning_content`. Saying so beats returning nothing.
pub open spec fn answer_of(v: JsonView, max_tokens: u32) -> Result<Seq<char>, Seq<char>> {
    let text = trimmed(text_at(first_message(v), "content"@));
    let thought = text_at(first_message(v), "reasoning_content"@);
    if text.len() > 0 {
        Ok(text)
    } else if trimmed(thought).len() > 0 {
        Err(
            "the model spent all "@ + dec(max_tokens as nat) + " tokens reasoning ("@ + dec(
                words_of(thought).len(),
            ) + " of them) without writing an answer"@,
        )
    } else {
        Err("the model returned an empty answer"@)
    }
}

pub open spec fn result_text(r: Result<String, String>) -> Result<Seq<char>, Seq<char>> {
    match r {
        Ok(s) => Ok(s@),
        Err(e) => Err(e@),
    }
}

fn text_under(v: Option<&Json>, key: &str) -> (r: String)
    ensures
        r@ == text_at(opt_json(v), key@),
{
    match v {
        Some(v) => match v.get(key) {
            Some(t) => match t.as_str() {
                Some(s) => s.to_owned(),
                None => "".to_owned(),
            },
            None => "".to_owned(),
        },
        None => "".to_owned(),
    }
}

fn message_of(v: &Json) -> (r: Option<&Json>)
    ensures
        opt_json(r) == first_message(v@),
{
    match v.get("choices") {
        Some(choices) => match choices.at(0) {
            Some(choice) => choice.get("message"),
            None => None,
        },
        None => None,
    }
}

/// What a decoded chat completion answers.
pub fn chat_answer(v: &Json, max_tokens: u32) -> (r: Result<String, String>)
    ensures
        result_text(r) == answer_of(v@, max_tokens),
{
    let message = message_of(v);
    let text = trim(text_under(message, "content").as_str());
    if !text.as_str().is_empty() {
        return Ok(text);
    }
    let thought = text_under(message, "reasoning_content");
    if !trim(thought.as_str()).as_str().is_empty() {
        let w = words(thought.as_str());
        assert(texts(w@).len() == w.len());
        return Err(
            cat5(
                "the model spent all ",
                decimal(max_tokens as u64).as_str(),
                " tokens reasoning (",
                decimal(w.len() as u64).as_str(),
                " of them) without writing an answer",
            ),
        );
    }
    Err("the model returned an empty answer".to_owned())
}

/// What the reply to a chat completion answers.
pub fn chat(status: &str, success: bool, body: &Vec<u8>, max_tokens: u32) -> (r: Result<
    String,
    String,
>)
    ensures
        result_text(r) == (match reply_of(CHAT_PATH@, status@, success, body@) {
            Ok(v) => answer_of(v, max_tokens),
            Err(e) => Err(e),
        }),
{
    match read_reply(CHAT_PATH, status, success, body) {
        Ok(v) => chat_answer(&v, max_tokens),
        Err(e) => Err(e),
    }
}

/// A chat never succeeds with nothing to show.
pub proof fn law_an_answer_is_never_empty(v: JsonView, max_tokens: u32)
    ensures
        answer_of(v, max_tokens) matches Ok(text) ==> text.len() > 0,
{
}

// ---------------------------------------------------------------- generate

/// The text of a decoded frame.
pub open spec fn frame_of(v: JsonView) -> Option<Seq<char>> {
    match v.get("text"@) {
        Some(t) => t.as_str(),
        None => None,
    }
}

/// The text that a decoded frame of an event stream carries.
pub fn frame_text(v: &Json) -> (r: Option<String>)
    ensures
        opt_text(r) == frame_of(v@),
{
    match v.get("text") {
        Some(t) => match t.as_str() {
            Some(s) => Some(s.to_owned()),
            None => None,
        },
        None => None,
    }
}

/// What a line of an event stream carries: a frame is `data:` and a JSON value; `[DONE]`
/// closes the stream.
pub open spec fn carried(line: Seq<char>) -> Option<Seq<char>> {
    let payload = trimmed(line.skip("data:"@.len() as int));
    if !"data:"@.is_prefix_of(line) || payload.len() == 0 || payload == "[DONE]"@ {
        None
    } else {
        match json_of(payload) {
            Ok(v) => frame_of(v),
            Err(_) => None,
        }
    }
}

/// The last text that the lines carry; each frame holds all text so far.
pub open spec fn last_carried(lines: Seq<Seq<char>>) -> Seq<char>
    decreases lines.len(),
{
    if lines.len() == 0 {
        ""@
    } else {
        match carried(lines.last()) {
            Some(t) => t,
            None => last_carried(lines.drop_last()),
        }
    }
}

fn line_text(line: &str) -> (r: Option<String>)
    ensures
        opt_text(r) == carried(line@),
{
    let payload = match strip_prefix(line, "data:") {
        Some(p) => trim(p.as_str()),
        None => {
            return None;
        },
    };
    if payload.as_str().is_empty() || same(payload.as_str(), "[DONE]") {
        return None;
    }
    match parse_json(payload.as_str()) {
        Ok(v) => frame_text(&v),
        Err(_) => None,
    }
}

/// Pull the generated text out of a `text/event-stream` body. FreeToken streams
/// `data: {"text": ...}` frames; the last frame carries the full text.
pub fn collect_sse_text(body: &str) -> (r: String)
    ensures
        r@ == last_carried(lines_of(body@)),
{
    let l = lines(body);
    let ghost all = texts(l@);
    let mut last: String = "".to_owned();
    let mut i: usize = 0;
    assert(all.take(0) =~= Seq::<Seq<char>>::empty());
    while i < l.len()
        invariant
            i <= l.len(),
            all == texts(l@),
            last@ == last_carried(all.take(i as int)),
        decreases l.len() - i,
    {
        assert(all.take(i + 1).drop_last() =~= all.take(i as int));
        assert(all.take(i + 1).last() == l@[i as int]@);
        match line_text(l[i].as_str()) {
            Some(t) => {
                last = t;
            },
            None => {},
        }
        i = i + 1;
    }
    assert(all.take(i as int) =~= all);
    last
}

/// What the reply to a raw completion generated. Used by the Dashboard smoke test to prove
/// the engine actually generates.
pub fn generate(status: &str, success: bool, text: &str) -> (r: Result<String, String>)
    ensures
        result_text(r) == (if success {
            Ok(last_carried(lines_of(text@)))
        } else {
            Err(refusal("/generate"@, status@, clipped(text@, 200)))
        }),
{
    if success {
        Ok(collect_sse_text(text))
    } else {
        Err(cat5("/generate", " returned ", status, ": ", clip(text, 200).as_str()))
    }
}

// ---------------------------------------------------------------- cache rebuild

/// Body for `POST /v1/cache/rebuild`. Omitted pools keep their current size.
#[derive(Debug, Clone)]
pub struct CacheRebuild {
    pub moe_cache_size: Option<u64>,
    pub num_pages: Option<u64>,
    pub num_mamba_slots: Option<u64>,
    pub num_swa_pages: Option<u64>,
    /// The server only supports `if_idle` today.
    pub mode: &'static str,
    /// In seconds.
    pub timeout: u64,
}

impl Default for CacheRebuild {
    fn default() -> (r: Self)
        ensures
            r.none_named(),
            r.mode@ == "if_idle"@,
            r.timeout == 300,
    {
        CacheRebuild {
            moe_cache_size: None,
            num_pages: None,
            num_mamba_slots: None,
            num_swa_pages: None,
            mode: "if_idle",
            timeout: 300,
        }
    }
}

pub open spec fn field_if(name: Seq<char>, size: Option<u64>) -> Seq<(Seq<char>, u64)> {
    match size {
        Some(n) => seq![(name, n)],
        None => Seq::empty(),
    }
}

pub open spec fn field_views(v: Seq<(&'static str, u64)>) -> Seq<(Seq<char>, u64)> {
    Seq::new(v.len(), |i: int| (v[i].0@, v[i].1))
}

fn push_field(out: &mut Vec<(&'static str, u64)>, name: &'static str, size: Option<u64>)
    ensures
        field_views(final(out)@) == field_views(old(out)@) + field_if(name@, size),
{
    let ghost before = out@;
    match size {
        Some(n) => {
            out.push((name, n));
        },
        None => {},
    }
    assert(field_views(out@) =~= field_views(before) + field_if(name@, size));
}

impl CacheRebuild {
    /// No pool is named.
    pub open spec fn none_named(self) -> bool {
        self.moe_cache_size is None && self.num_pages is None && self.num_mamba_slots is None
            && self.num_swa_pages is None
    }

    /// The pools to resize, as the body names them.
    pub open spec fn named(self) -> Seq<(Seq<char>, u64)> {
        field_if("moe_cache_size"@, self.moe_cache_size) + field_if("num_pages"@, self.num_pages)
            + field_if("num_mamba_slots"@, self.num_mamba_slots) + field_if(
            "num_swa_pages"@,
            self.num_swa_pages,
        )
    }

    pub fn is_empty(&self) -> (r: bool)
        ensures
            r == self.none_named(),
    {
        self.moe_cache_size.is_none() && self.num_pages.is_none() && self.num_mamba_slots.is_none()
            && self.num_swa_pages.is_none()
    }

    /// The pools to resize, as the body names them; a pool that is not named is left out.
    pub fn fields(&self) -> (r: Vec<(&'static str, u64)>)
        ensures
            field_views(r@) == self.named(),
    {
        let mut out: Vec<(&'static str, u64)> = Vec::new();
        assert(field_views(out@) =~= Seq::<(Seq<char>, u64)>::empty());
        push_field(&mut out, "moe_cache_size", self.moe_cache_size);
        assert(field_views(out@) =~= field_if("moe_cache_size"@, self.moe_cache_size));
        push_field(&mut out, "num_pages", self.num_pages);
        push_field(&mut out, "num_mamba_slots", self.num_mamba_slots);
        push_field(&mut out, "num_swa_pages", self.num_swa_pages);
        out
    }

    /// How long to wait for a rebuild, in seconds. The server only accepts one while the
    /// scheduler is idle, and the call blocks until it finishes, so it gets its own generous
    /// timeout rather than the polling one.
    pub fn wait_for(&self) -> (r: u64)
        requires
            self.timeout <= u64::MAX - 15,
        ensures
            r == self.timeout + 15,
    {
        self.timeout + 15
    }
}

/// A rebuild names nothing exactly when it is empty.
pub proof fn law_an_empty_rebuild_names_no_pool(r: CacheRebuild)
    ensures
        r.none_named() <==> r.named().len() == 0,
{
}

} // verus!
