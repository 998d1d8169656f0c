//! Sampling-default overrides.
//!
//! FreeToken has no flag for the sampling values themselves. `--sampling-defaults=model`,
//! its own default, makes the server read `generation_config.json` out of the model
//! directory once at boot (`load_generation_sampling`), and `none` turns the idea off
//! entirely; there is no `--default-temperature`. So the only way to choose the numbers is
//! to change what that read finds, which is the same shape of problem
//! [`crate::templates`] solves for the prompt template, and this module is deliberately
//! its twin: write into the checkpoint directory, but make it reversible and obvious.
//!
//! * whatever `generation_config.json` was there first is moved aside, never overwritten;
//! * the override is *merged over* that original rather than replacing it: the file also
//!   carries `eos_token_id` and friends, and a replacement that dropped the stop ids would
//!   leave the model generating past the end of its turn;
//! * a marker file records what was applied and whether there was an original, so
//!   [`status`] can report the truth even after paddock restarts;
//! * [`revert`] puts it back exactly.
//!
//! Only `temperature`, `top_k` and `top_p` are offered, because those are the only three
//! keys anything downstream reads: `load_generation_sampling` looks for exactly them, and
//! FreeToken's `SamplingParams` carries exactly them. `min_p` and `repetition_penalty` are
//! not engine concepts here, and writing them would put a number in the file that nothing
//! would ever apply.
//!
//! A temperature or a `top_p` is kept as the decimal numeral that writes it, without an
//! exponent: `0.6`, `1`.

use vstd::prelude::*;
use vstd::string::*;
use crate::json::{
    drop_entry, entries, json_of, lemma_object_view, lemma_with_entry, lemma_without_entry, lookup,
    parse_json, pretty, pretty_of, put_entry, with_entry, without_entry, Json, JsonView,
};
use crate::models::Format;
use crate::numeral::{read_standing, standing_of, Standing};
use crate::overrides::Folder;
use crate::paths::{join, joined_path};
use crate::templates::{copy_opt, Revert};
use crate::text::{
    cat2, cat3, cat4, chars_of, contains_char, cut, dec, dec_int, decimal, decimal_int,
    join as join_texts, joined, opt_text, parse_i64, signed_of, split_once, strip_prefix,
    strip_suffix, text_of, texts,
};

verus! {

/// The file `GenerationConfig.from_pretrained(model_path)` reads.
pub const CONFIG_FILE: &'static str = "generation_config.json";

/// Where the checkpoint's own generation config is parked while an override is in place.
pub const BACKUP_FILE: &'static str = "generation_config.json.ft-man-original";

/// Records what paddock applied, so an override survives a restart visibly.
pub const MARKER_FILE: &'static str = ".ft-man-sampling.json";

/// The sampling defaults a request that specifies nothing will resolve to.
///
/// Every field is optional and `None` means *remove the key*, which lets the engine fall
/// back to its framework default (temperature 0.0, top_k -1, top_p 1.0) for that one
/// value rather than to whatever the checkpoint happened to recommend.
#[derive(Debug, Clone)]
pub struct Sampling {
    pub temperature: Option<String>,
    pub top_k: Option<i64>,
    pub top_p: Option<String>,
}

#[verifier::ext_equal]
pub struct SamplingView {
    pub temperature: Option<Seq<char>>,
    pub top_k: Option<i64>,
    pub top_p: Option<Seq<char>>,
}

impl View for Sampling {
    type V = SamplingView;

    open spec fn view(&self) -> SamplingView {
        SamplingView {
            temperature: opt_text(self.temperature),
            top_k: self.top_k,
            top_p: opt_text(self.top_p),
        }
    }
}

impl Default for Sampling {
    fn default() -> (r: Self)
        ensures
            r@ == (SamplingView { temperature: None, top_k: None, top_p: None }),
    {
        Sampling { temperature: None, top_k: None, top_p: None }
    }
}

// ---------------------------------------------------------------- numerals

pub open spec fn zeros(n: nat) -> Seq<char> {
    Seq::new(n, |i: int| '0')
}

/// The digits of a number with `whole` of them before the point, without an exponent.
pub open spec fn spread_out(digits: Seq<char>, whole: int) -> Seq<char> {
    if whole <= 0 {
        "0."@ + zeros((-whole) as nat) + digits
    } else if whole >= digits.len() {
        digits + zeros((whole - digits.len()) as nat)
    } else {
        digits.take(whole) + "."@ + digits.skip(whole)
    }
}

/// The largest power of ten that a double's numeral is written with.
pub const MAX_POWER: i64 = 400;

/// A numeral as it is written in JSON, without an exponent and without an empty fraction.
pub open spec fn positional(t: Seq<char>) -> Seq<char> {
    match cut(t, 'e') {
        None => if ".0"@.is_suffix_of(t) {
            t.take(t.len() - ".0"@.len())
        } else {
            t
        },
        Some((mantissa, power)) => match signed_of(power) {
            Some(n) if -MAX_POWER <= n <= MAX_POWER => match cut(mantissa, '.') {
                Some((whole, fraction)) => spread_out(whole + fraction, whole.len() + n),
                None => spread_out(mantissa, mantissa.len() + n),
            },
            _ => t,
        },
    }
}

/// A number as a decimal numeral, sign and all.
pub open spec fn number_text(v: JsonView) -> Option<Seq<char>> {
    match v {
        JsonView::Unsigned(n) => Some(dec(n as nat)),
        JsonView::Negative(n) => Some(dec_int(n as int)),
        JsonView::Real(t) => Some(
            if "-"@.is_prefix_of(t) {
                "-"@ + positional(t.skip("-"@.len() as int))
            } else {
                positional(t)
            },
        ),
        _ => None,
    }
}

/// A decimal numeral as a JSON number with a fraction.
pub open spec fn pointed(t: Seq<char>) -> Seq<char> {
    if t.contains('.') {
        t
    } else {
        t + ".0"@
    }
}

fn push_zeros(s: &mut String, n: usize)
    ensures
        final(s)@ == old(s)@ + zeros(n as nat),
{
    let ghost before = s@;
    let mut i: usize = 0;
    assert(before + zeros(0) =~= before);
    while i < n
        invariant
            i <= n,
            s@ == before + zeros(i as nat),
        decreases n - i,
    {
        s.push('0');
        i = i + 1;
        assert(s@ =~= before + zeros(i as nat));
    }
}

fn spread(digits: &str, whole: i128) -> (r: String)
    requires
        -0x2_0000_0000_0000_0000 <= whole <= 0x2_0000_0000_0000_0000,
        whole <= digits@.len() + MAX_POWER,
        whole >= -MAX_POWER,
    ensures
        r@ == spread_out(digits@, whole as int),
{
    let v = chars_of(digits);
    if whole <= 0 {
        let mut s = "0.".to_owned();
        push_zeros(&mut s, (-whole) as usize);
        s.append(digits);
        s
    } else if whole >= v.len() as i128 {
        let mut s = digits.to_owned();
        push_zeros(&mut s, (whole - v.len() as i128) as usize);
        s
    } else {
        let n = whole as usize;
        let a = text_of(&v, 0, n);
        let b = text_of(&v, n, v.len());
        assert(a@ =~= digits@.take(n as int));
        assert(b@ =~= digits@.skip(n as int));
        cat3(a.as_str(), ".", b.as_str())
    }
}

fn unfold(t: &str) -> (r: String)
    ensures
        r@ == positional(t@),
{
    match split_once(t, 'e') {
        None => match strip_suffix(t, ".0") {
            Some(s) => s,
            None => t.to_owned(),
        },
        Some((mantissa, power)) => match parse_i64(power.as_str()) {
            Some(n) => if -MAX_POWER <= n && n <= MAX_POWER {
                match split_once(mantissa.as_str(), '.') {
                    Some((whole, fraction)) => {
                        let k = chars_of(whole.as_str()).len();
                        let digits = cat2(whole.as_str(), fraction.as_str());
                        spread(digits.as_str(), k as i128 + n as i128)
                    },
                    None => {
                        let k = chars_of(mantissa.as_str()).len();
                        spread(mantissa.as_str(), k as i128 + n as i128)
                    },
                }
            } else {
                t.to_owned()
            },
            None => t.to_owned(),
        },
    }
}

fn read_number(v: &Json) -> (r: Option<String>)
    ensures
        opt_text(r) == number_text(v@),
{
    match v {
        Json::Unsigned(n) => Some(decimal(*n)),
        Json::Negative(n) => Some(decimal_int(*n)),
        Json::Real(t) => match strip_prefix(t.as_str(), "-") {
            Some(size) => Some(cat2("-", unfold(size.as_str()).as_str())),
            None => Some(unfold(t.as_str())),
        },
        _ => None,
    }
}

fn write_number(t: &str) -> (r: Json)
    ensures
        r@ == JsonView::Real(pointed(t@)),
{
    if contains_char(t, '.') {
        Json::Real(t.to_owned())
    } else {
        Json::Real(cat2(t, ".0"))
    }
}

// ---------------------------------------------------------------- the values

pub open spec fn whole_of(v: JsonView) -> Option<i64> {
    match v {
        JsonView::Unsigned(n) => if n <= i64::MAX {
            Some(n as i64)
        } else {
            None
        },
        JsonView::Negative(n) => Some(n),
        _ => None,
    }
}

/// The number under `key`.
pub open spec fn number_under(e: Seq<(Seq<char>, JsonView)>, key: Seq<char>) -> Option<Seq<char>> {
    match lookup(e, key) {
        Some(v) => number_text(v),
        None => None,
    }
}

/// The three keys of a `generation_config.json` body. `do_sample: false` reads back as
/// greedy, temperature zero and nothing else, because that is what FreeToken will make of
/// it.
pub open spec fn sampling_in(e: Seq<(Seq<char>, JsonView)>) -> SamplingView {
    if lookup(e, "do_sample"@) == Some(JsonView::Bool(false)) {
        SamplingView { temperature: Some("0"@), top_k: None, top_p: None }
    } else {
        SamplingView {
            temperature: number_under(e, "temperature"@),
            top_k: match lookup(e, "top_k"@) {
                Some(v) => whole_of(v),
                None => None,
            },
            top_p: number_under(e, "top_p"@),
        }
    }
}

fn find_entry<'a>(obj: &'a Vec<(String, Json)>, key: &str) -> (r: Option<&'a Json>)
    ensures
        crate::json::opt_json(r) == lookup(entries(obj@), key@),
{
    let ghost e = entries(obj@);
    let mut i: usize = 0;
    assert(e.skip(0) =~= e);
    while i < obj.len()
        invariant
            i <= obj.len(),
            e == entries(obj@),
            lookup(e, key@) == lookup(e.skip(i as int), key@),
        decreases obj.len() - i,
    {
        assert(e.skip(i as int)[0] == (obj@[i as int].0@, obj@[i as int].1@));
        if crate::text::same(obj[i].0.as_str(), key) {
            return Some(&obj[i].1);
        }
        assert(e.skip(i as int).drop_first() =~= e.skip(i + 1));
        i = i + 1;
    }
    None
}

impl SamplingView {
    pub open spec fn empty(self) -> bool {
        self.temperature is None && self.top_k is None && self.top_p is None
    }

    pub open spec fn greedy(self) -> bool {
        match self.temperature {
            Some(t) => standing_of(t, '2') == Standing::Zero || standing_of(t, '2')
                == Standing::Negative,
            None => false,
        }
    }

    pub open spec fn temperature_fits(self) -> bool {
        match self.temperature {
            Some(t) => standing_of(t, '2') == Standing::Zero || standing_of(t, '2')
                == Standing::Within,
            None => true,
        }
    }

    pub open spec fn top_p_fits(self) -> bool {
        match self.top_p {
            Some(p) => standing_of(p, '1') == Standing::Within,
            None => true,
        }
    }

    pub open spec fn top_k_fits(self) -> bool {
        match self.top_k {
            Some(k) => k == -1 || k >= 1,
            None => true,
        }
    }

    /// Why the engine would refuse or silently mangle these values.
    pub open spec fn problem(self) -> Option<Seq<char>> {
        if self.empty() {
            Some("nothing to apply: set at least one of temperature, top_k, top_p"@)
        } else if !self.temperature_fits() {
            Some("temperature "@ + self.temperature->0 + " is outside 0.0–2.0"@)
        } else if !self.top_p_fits() {
            Some("top_p "@ + self.top_p->0 + " is outside 0.0–1.0 (and cannot be 0)"@)
        } else if !self.top_k_fits() {
            Some("top_k "@ + dec_int(self.top_k->0 as int) + " must be -1 (off) or 1 or more"@)
        } else {
            None
        }
    }

    pub open spec fn filters(self) -> bool {
        self.top_k is Some || self.top_p is Some
    }

    /// What is worth saying out loud that is not an error.
    pub open spec fn remarks(self) -> Seq<Seq<char>> {
        if self.filters() && self.temperature is None {
            seq![
                "temperature is unset, so it resolves to 0.0 (greedy) and top_k/top_p will have no effect"@,
            ]
        } else if self.filters() && self.greedy() {
            seq!["temperature is 0 (greedy), so top_k/top_p will have no effect"@]
        } else {
            Seq::empty()
        }
    }

    pub open spec fn shown(self) -> Seq<char> {
        let t = match self.temperature {
            Some(t) => seq!["temperature "@ + t],
            None => Seq::empty(),
        };
        let p = match self.top_p {
            Some(p) => seq!["top_p "@ + p],
            None => Seq::empty(),
        };
        let k = match self.top_k {
            Some(k) => seq!["top_k "@ + dec_int(k as int)],
            None => Seq::empty(),
        };
        if self.greedy() {
            "greedy (temperature 0)"@
        } else if self.empty() {
            "unset"@
        } else {
            joined(t + p + k, "  "@)
        }
    }
}

impl Sampling {
    pub fn copy(&self) -> (r: Self)
        ensures
            r == *self,
    {
        Sampling {
            temperature: copy_opt(&self.temperature),
            top_k: self.top_k,
            top_p: copy_opt(&self.top_p),
        }
    }

    pub fn is_empty(&self) -> (r: bool)
        ensures
            r == self@.empty(),
    {
        self.temperature.is_none() && self.top_k.is_none() && self.top_p.is_none()
    }

    /// True when these values mean "always take the most likely token".
    ///
    /// Matches FreeToken's own `SamplingParams::is_greedy` on the temperature arm, which
    /// is the one that decides how the override has to be spelled: a greedy override is
    /// written as `do_sample: false`, the form `load_generation_sampling` short-circuits
    /// on, rather than as a temperature the sampler would then have to divide by.
    pub fn is_greedy(&self) -> (r: bool)
        ensures
            r == self@.greedy(),
    {
        match &self.temperature {
            Some(t) => {
                let s = read_standing(t.as_str(), '2');
                s == Standing::Zero || s == Standing::Negative
            },
            None => false,
        }
    }

    /// Read the three keys out of a `generation_config.json` body.
    pub fn from_config(obj: &Vec<(String, Json)>) -> (r: Self)
        ensures
            r@ == sampling_in(entries(obj@)),
    {
        let greedy = match find_entry(obj, "do_sample") {
            Some(Json::Bool(b)) => !*b,
            _ => false,
        };
        if greedy {
            return Sampling { temperature: Some("0".to_owned()), top_k: None, top_p: None };
        }
        Sampling {
            temperature: match find_entry(obj, "temperature") {
                Some(v) => read_number(v),
                None => None,
            },
            top_k: match find_entry(obj, "top_k") {
                Some(Json::Unsigned(n)) => if *n <= i64::MAX as u64 {
                    Some(*n as i64)
                } else {
                    None
                },
                Some(Json::Negative(n)) => Some(*n),
                _ => None,
            },
            top_p: match find_entry(obj, "top_p") {
                Some(v) => read_number(v),
                None => None,
            },
        }
    }

    /// Reject values the engine would refuse or silently mangle. `None` when it is fine.
    pub fn validate(&self) -> (r: Option<String>)
        ensures
            opt_text(r) == self@.problem(),
    {
        if self.is_empty() {
            return Some(
                "nothing to apply: set at least one of temperature, top_k, top_p".to_owned(),
            );
        }
        if let Some(t) = &self.temperature {
            let s = read_standing(t.as_str(), '2');
            if s != Standing::Zero && s != Standing::Within {
                return Some(cat3("temperature ", t.as_str(), " is outside 0.0–2.0"));
            }
        }
        if let Some(p) = &self.top_p {
            if read_standing(p.as_str(), '1') != Standing::Within {
                return Some(cat3("top_p ", p.as_str(), " is outside 0.0–1.0 (and cannot be 0)"));
            }
        }
        if let Some(k) = self.top_k {
            if k != -1 && k < 1 {
                return Some(
                    cat3("top_k ", decimal_int(k).as_str(), " must be -1 (off) or 1 or more"),
                );
            }
        }
        None
    }

    /// Things worth saying out loud that are not errors.
    ///
    /// The one that actually bites: FreeToken resolves an absent temperature to the
    /// framework default of 0.0, which is greedy, and greedy decoding ignores top_k and
    /// top_p entirely. So a top_p set without a temperature does nothing at all, which is
    /// not obvious from the file.
    pub fn warnings(&self) -> (r: Vec<String>)
        ensures
            texts(r@) == self@.remarks(),
    {
        let mut out: Vec<String> = Vec::new();
        let filters = self.top_k.is_some() || self.top_p.is_some();
        if filters && self.temperature.is_none() {
            out.push(
                "temperature is unset, so it resolves to 0.0 (greedy) and top_k/top_p will have no effect".to_owned(),
            );
        }
        if filters && self.is_greedy() {
            out.push("temperature is 0 (greedy), so top_k/top_p will have no effect".to_owned());
        }
        assert(texts(out@) =~= self@.remarks());
        out
    }

    /// One line for a status field: `temperature 0.6  top_p 0.95`.
    ///
    /// Deliberately the same shape as what the Dashboard prints of what the *engine*
    /// reports, so the two can be compared by eye.
    pub fn summary(&self) -> (r: String)
        ensures
            r@ == self@.shown(),
    {
        if self.is_greedy() {
            return "greedy (temperature 0)".to_owned();
        }
        let mut parts: Vec<String> = Vec::new();
        if let Some(t) = &self.temperature {
            parts.push(cat2("temperature ", t.as_str()));
        }
        if let Some(p) = &self.top_p {
            parts.push(cat2("top_p ", p.as_str()));
        }
        if let Some(k) = self.top_k {
            parts.push(cat2("top_k ", decimal_int(k).as_str()));
        }
        let ghost t = match self@.temperature {
            Some(t) => seq!["temperature "@ + t],
            None => Seq::empty(),
        };
        let ghost p = match self@.top_p {
            Some(p) => seq!["top_p "@ + p],
            None => Seq::empty(),
        };
        let ghost k = match self@.top_k {
            Some(k) => seq!["top_k "@ + dec_int(k as int)],
            None => Seq::empty(),
        };
        assert(texts(parts@) =~= t + p + k);
        assert(texts(parts@).len() == parts.len());
        if parts.len() == 0 {
            "unset".to_owned()
        } else {
            join_texts(&parts, "  ")
        }
    }
}

// ---------------------------------------------------------------- merging

/// A value put under a key, or the key removed when there is none: "let the engine use its
/// own default", which a null in the file would not say.
pub open spec fn put_or_drop(
    e: Seq<(Seq<char>, JsonView)>,
    key: Seq<char>,
    v: Option<JsonView>,
) -> Seq<(Seq<char>, JsonView)> {
    match v {
        Some(v) => with_entry(e, key, v),
        None => without_entry(e, key),
    }
}

pub open spec fn json_number(t: Option<Seq<char>>) -> Option<JsonView> {
    match t {
        Some(t) => Some(JsonView::Real(pointed(t))),
        None => None,
    }
}

pub open spec fn json_whole(k: Option<i64>) -> Option<JsonView> {
    match k {
        Some(k) => Some(
            if k >= 0 {
                JsonView::Unsigned(k as u64)
            } else {
                JsonView::Negative(k)
            },
        ),
        None => None,
    }
}

/// An original with the wanted values merged over it. Everything the checkpoint said that is
/// not about sampling survives.
pub open spec fn merged(e: Seq<(Seq<char>, JsonView)>, want: SamplingView) -> Seq<
    (Seq<char>, JsonView),
> {
    if want.greedy() {
        without_entry(
            without_entry(
                without_entry(
                    with_entry(e, "do_sample"@, JsonView::Bool(false)),
                    "temperature"@,
                ),
                "top_k"@,
            ),
            "top_p"@,
        )
    } else {
        put_or_drop(
            put_or_drop(
                put_or_drop(
                    with_entry(e, "do_sample"@, JsonView::Bool(true)),
                    "temperature"@,
                    json_number(want.temperature),
                ),
                "top_p"@,
                json_number(want.top_p),
            ),
            "top_k"@,
            json_whole(want.top_k),
        )
    }
}

fn set_number(obj: &mut Vec<(String, Json)>, key: &str, value: &Option<String>)
    ensures
        entries(final(obj)@) == put_or_drop(entries(old(obj)@), key@, json_number(opt_text(*value))),
{
    match value {
        Some(t) => {
            let v = write_number(t.as_str());
            put_entry(obj, key, v);
        },
        None => {
            drop_entry(obj, key);
        },
    }
}

/// Merge sampling values over a `generation_config.json` body.
pub fn merge(obj: &mut Vec<(String, Json)>, want: &Sampling)
    ensures
        entries(final(obj)@) == merged(entries(old(obj)@), want@),
{
    if want.is_greedy() {
        // The form load_generation_sampling short-circuits on. Leaving a stale top_k/top_p
        // behind would be harmless there but misleading to anything else reading the file.
        put_entry(obj, "do_sample", Json::Bool(false));
        drop_entry(obj, "temperature");
        drop_entry(obj, "top_k");
        drop_entry(obj, "top_p");
    } else {
        // Set it even when the checkpoint said nothing: a checkpoint that ships
        // `do_sample: false` makes the loader return greedy and ignore every value below.
        put_entry(obj, "do_sample", Json::Bool(true));
        set_number(obj, "temperature", &want.temperature);
        set_number(obj, "top_p", &want.top_p);
        match want.top_k {
            Some(k) => {
                let v = if k >= 0 {
                    Json::Unsigned(k as u64)
                } else {
                    Json::Negative(k)
                };
                put_entry(obj, "top_k", v);
            },
            None => {
                drop_entry(obj, "top_k");
            },
        }
    }
}

proof fn lemma_keys_differ()
    ensures
        "do_sample"@ != "temperature"@,
        "do_sample"@ != "top_k"@,
        "do_sample"@ != "top_p"@,
        "temperature"@ != "top_k"@,
        "temperature"@ != "top_p"@,
        "top_k"@ != "top_p"@,
{
    reveal_strlit("do_sample");
    reveal_strlit("temperature");
    reveal_strlit("top_k");
    reveal_strlit("top_p");
    assert("do_sample"@.len() == 9);
    assert("temperature"@.len() == 11);
    assert("top_k"@.len() == 5);
    assert("top_k"@[4] == 'k');
    assert("top_p"@[4] == 'p');
}

proof fn lemma_put_or_drop(
    e: Seq<(Seq<char>, JsonView)>,
    key: Seq<char>,
    v: Option<JsonView>,
    other: Seq<char>,
)
    ensures
        lookup(put_or_drop(e, key, v), other) == (if other == key {
            v
        } else {
            lookup(e, other)
        }),
{
    match v {
        Some(x) => lemma_with_entry(e, key, x, other),
        None => lemma_without_entry(e, key, other),
    }
}

proof fn lemma_merged(e: Seq<(Seq<char>, JsonView)>, want: SamplingView, key: Seq<char>)
    ensures
        lookup(merged(e, want), key) == (if key == "do_sample"@ {
            Some(JsonView::Bool(!want.greedy()))
        } else if key == "temperature"@ {
            if want.greedy() {
                None
            } else {
                json_number(want.temperature)
            }
        } else if key == "top_p"@ {
            if want.greedy() {
                None
            } else {
                json_number(want.top_p)
            }
        } else if key == "top_k"@ {
            if want.greedy() {
                None
            } else {
                json_whole(want.top_k)
            }
        } else {
            lookup(e, key)
        }),
{
    lemma_keys_differ();
    if want.greedy() {
        let e1 = with_entry(e, "do_sample"@, JsonView::Bool(false));
        let e2 = without_entry(e1, "temperature"@);
        let e3 = without_entry(e2, "top_k"@);
        lemma_with_entry(e, "do_sample"@, JsonView::Bool(false), key);
        lemma_without_entry(e1, "temperature"@, key);
        lemma_without_entry(e2, "top_k"@, key);
        lemma_without_entry(e3, "top_p"@, key);
    } else {
        let e1 = with_entry(e, "do_sample"@, JsonView::Bool(true));
        let e2 = put_or_drop(e1, "temperature"@, json_number(want.temperature));
        let e3 = put_or_drop(e2, "top_p"@, json_number(want.top_p));
        lemma_with_entry(e, "do_sample"@, JsonView::Bool(true), key);
        lemma_put_or_drop(e1, "temperature"@, json_number(want.temperature), key);
        lemma_put_or_drop(e2, "top_p"@, json_number(want.top_p), key);
        lemma_put_or_drop(e3, "top_k"@, json_whole(want.top_k), key);
    }
}

/// An override leaves everything that is not about sampling as the checkpoint has it: the
/// stop ids are the reason this is a merge and not a replacement.
pub proof fn law_an_override_keeps_everything_else(
    e: Seq<(Seq<char>, JsonView)>,
    want: SamplingView,
    key: Seq<char>,
)
    requires
        key != "do_sample"@,
        key != "temperature"@,
        key != "top_k"@,
        key != "top_p"@,
    ensures
        lookup(merged(e, want), key) == lookup(e, key),
{
    lemma_merged(e, want, key);
}

/// A numeral as a double displays it when it is not negative: no exponent, and no fraction
/// of zero.
pub open spec fn displayed(t: Seq<char>) -> bool {
    !t.contains('e') && !".0"@.is_suffix_of(t) && !"-"@.is_prefix_of(t) && t.len() > 0
}

proof fn lemma_number_reads_back(t: Seq<char>)
    requires
        displayed(t),
    ensures
        number_text(JsonView::Real(pointed(t))) == Some(t),
{
    reveal_strlit(".0");
    reveal_strlit("-");
    let w = pointed(t);
    assert(!w.contains('e')) by {
        if w.contains('e') {
            let i = choose|i: int| 0 <= i < w.len() && w[i] == 'e';
            if i < t.len() {
                assert(t[i] == 'e');
            }
        }
    }
    crate::text::lemma_position(w, 'e');
    assert(cut(w, 'e') is None);
    assert(!"-"@.is_prefix_of(w)) by {
        if "-"@.is_prefix_of(w) {
            assert(w.subrange(0, 1)[0] == '-');
            assert(t.subrange(0, 1) =~= "-"@);
        }
    }
    if !t.contains('.') {
        assert(w.take(t.len() as int) =~= t);
        assert(w.subrange(w.len() - 2, w.len() as int) =~= ".0"@);
    }
}

/// What was written is what the loader will read: an override that is not greedy reads back
/// as exactly the wanted values, and a greedy one as greedy.
pub proof fn law_an_override_reads_back(e: Seq<(Seq<char>, JsonView)>, want: SamplingView)
    requires
        want.temperature is Some ==> displayed(want.temperature->0),
        want.top_p is Some ==> displayed(want.top_p->0),
    ensures
        !want.greedy() ==> sampling_in(merged(e, want)) == want,
        want.greedy() ==> sampling_in(merged(e, want)) == (SamplingView {
            temperature: Some("0"@),
            top_k: None,
            top_p: None,
        }),
{
    lemma_keys_differ();
    lemma_merged(e, want, "do_sample"@);
    lemma_merged(e, want, "temperature"@);
    lemma_merged(e, want, "top_k"@);
    lemma_merged(e, want, "top_p"@);
    if !want.greedy() {
        if want.temperature is Some {
            lemma_number_reads_back(want.temperature->0);
        }
        if want.top_p is Some {
            lemma_number_reads_back(want.top_p->0);
        }
        assert(sampling_in(merged(e, want)) =~= want);
    }
}

/// Applying over an original lands in the same place whatever override stood there before,
/// because the merge is always made over that original: no key of the last override
/// lingers.
pub proof fn law_a_dropped_key_does_not_linger(
    e: Seq<(Seq<char>, JsonView)>,
    want: SamplingView,
)
    ensures
        want.greedy() || want.temperature is None ==> lookup(merged(e, want), "temperature"@)
            is None,
        want.greedy() || want.top_k is None ==> lookup(merged(e, want), "top_k"@) is None,
        want.greedy() || want.top_p is None ==> lookup(merged(e, want), "top_p"@) is None,
        lookup(merged(e, want), "do_sample"@) == Some(JsonView::Bool(!want.greedy())),
{
    lemma_keys_differ();
    lemma_merged(e, want, "do_sample"@);
    lemma_merged(e, want, "temperature"@);
    lemma_merged(e, want, "top_k"@);
    lemma_merged(e, want, "top_p"@);
}

// ---------------------------------------------------------------- per model

/// What paddock recorded when it applied a sampling override to a checkpoint.
#[derive(Debug, Clone)]
pub struct AppliedSampling {
    pub sampling: Sampling,
    pub applied_at: String,
    /// Whether the checkpoint had its own `generation_config.json` before this.
    pub had_original: bool,
}

impl AppliedSampling {
    pub fn copy(&self) -> (r: Self)
        ensures
            r == *self,
    {
        AppliedSampling {
            sampling: self.sampling.copy(),
            applied_at: self.applied_at.clone(),
            had_original: self.had_original,
        }
    }
}

#[derive(Debug, Clone)]
pub enum Status {
    /// Whatever the checkpoint ships, untouched.
    Checkpoint,
    /// paddock applied an override.
    Overridden(AppliedSampling),
}

impl Default for Status {
    fn default() -> (r: Self)
        ensures
            r is Checkpoint,
    {
        Status::Checkpoint
    }
}

impl Status {
    pub fn is_overridden(&self) -> (r: bool)
        ensures
            r == (self is Overridden),
    {
        matches!(self, Status::Overridden(_))
    }

    pub open spec fn label_text(self) -> Seq<char> {
        match self {
            Status::Checkpoint => "checkpoint's own"@,
            Status::Overridden(a) => a.sampling@.shown(),
        }
    }

    pub fn label(&self) -> (r: String)
        ensures
            r@ == self.label_text(),
    {
        match self {
            Status::Checkpoint => "checkpoint's own".to_owned(),
            Status::Overridden(a) => a.sampling.summary(),
        }
    }

    pub fn copy(&self) -> (r: Self)
        ensures
            r == *self,
    {
        match self {
            Status::Checkpoint => Status::Checkpoint,
            Status::Overridden(a) => Status::Overridden(a.copy()),
        }
    }
}

pub open spec fn refusal(format: Format) -> Option<Seq<char>> {
    match format {
        Format::Gguf => Some(
            "GGUF carries its sampling in the file's own metadata (general.sampling.*), which FreeToken reads before it looks at generation_config.json — an override here would be ignored"@,
        ),
        Format::PartialFtw => Some("this conversion is incomplete and cannot serve"@),
        Format::Hf | Format::Ftw => None,
    }
}

/// Whether a format can take an override at all.
///
/// GGUF is the one that cannot, and it fails *silently* rather than loudly, which is why
/// it is worth refusing up front: `load_generation_sampling` checks `gguf_config_source`
/// first and returns the `general.sampling.*` metadata out of the GGUF itself, so a
/// `generation_config.json` written beside it is never read.
pub fn unsupported(format: Format) -> (r: Option<&'static str>)
    ensures
        (match r {
            Some(s) => Some(s@),
            None => None,
        }) == refusal(format),
{
    match format {
        Format::Gguf => Some(
            "GGUF carries its sampling in the file's own metadata (general.sampling.*), which FreeToken reads before it looks at generation_config.json — an override here would be ignored",
        ),
        Format::PartialFtw => Some("this conversion is incomplete and cannot serve"),
        Format::Hf | Format::Ftw => None,
    }
}

/// The object that a text holds, or why it holds none.
pub open spec fn object_of(path: Seq<char>, decoded: Result<JsonView, Seq<char>>) -> Result<
    Seq<(Seq<char>, JsonView)>,
    Seq<char>,
> {
    match decoded {
        Err(e) => Err(path + " is not valid JSON: "@ + e),
        Ok(JsonView::Object(o)) => Ok(o),
        Ok(_) => Err(path + " is not a JSON object"@),
    }
}

/// The object in what was decoded of a file.
pub fn expect_object(path: &str, decoded: Result<Json, String>) -> (r: Result<
    Vec<(String, Json)>,
    String,
>)
    ensures
        (match r {
            Ok(o) => Ok(entries(o@)),
            Err(e) => Err(e@),
        }) == object_of(
            path@,
            match decoded {
                Ok(v) => Ok(v@),
                Err(e) => Err(e@),
            },
        ),
{
    match decoded {
        Err(e) => Err(cat3(path, " is not valid JSON: ", e.as_str())),
        Ok(v) => match v {
            Json::Object(o) => {
                proof {
                    lemma_object_view(o);
                }
                Ok(o)
            },
            _ => Err(cat2(path, " is not a JSON object")),
        },
    }
}

fn read_object(path: &str, raw: &str) -> (r: Result<Vec<(String, Json)>, String>)
    ensures
        (match r {
            Ok(o) => Ok(entries(o@)),
            Err(e) => Err(e@),
        }) == object_of(path@, json_of(raw@)),
{
    expect_object(path, parse_json(raw))
}

/// What sampling a `generation_config.json` body hands the engine; `None` when it names none
/// of the values.
pub open spec fn effective_of(e: Seq<(Seq<char>, JsonView)>) -> Option<SamplingView> {
    if sampling_in(e).empty() {
        None
    } else {
        Some(sampling_in(e))
    }
}

pub open spec fn opt_sampling(s: Option<Sampling>) -> Option<SamplingView> {
    match s {
        Some(s) => Some(s@),
        None => None,
    }
}

/// What sampling a checkpoint directory will actually hand the engine, by the text of its
/// `generation_config.json`, where it has one.
///
/// Reads the file rather than the marker, so it is equally right for a checkpoint paddock
/// has never touched, which is the whole point of showing it next to an override.
pub fn effective(raw: Option<&str>) -> (r: Option<Sampling>)
    ensures
        opt_sampling(r) == (match raw {
            None => None,
            Some(raw) => match object_of(CONFIG_FILE@, json_of(raw@)) {
                Ok(e) => effective_of(e),
                Err(_) => None,
            },
        }),
{
    let raw = match raw {
        Some(raw) => raw,
        None => {
            return None;
        },
    };
    match read_object(CONFIG_FILE, raw) {
        Ok(obj) => {
            let s = Sampling::from_config(&obj);
            if s.is_empty() {
                None
            } else {
                Some(s)
            }
        },
        Err(_) => None,
    }
}

/// Whether an override is in place, and what it was, by its marker, where one can be read,
/// and by whether the directory holds a `generation_config.json`. The marker is trusted only
/// while the file it describes is still there; someone may have deleted it by hand, or a
/// `hf download` may have replaced it.
pub fn status(marker: Option<&AppliedSampling>, has_file: bool) -> (r: Status)
    ensures
        r == (match marker {
            Some(a) if has_file => Status::Overridden(*a),
            _ => Status::Checkpoint,
        }),
{
    if !has_file {
        return Status::Checkpoint;
    }
    match marker {
        Some(a) => Status::Overridden(a.copy()),
        None => Status::Checkpoint,
    }
}

/// What applying sampling defaults does, in this order.
#[derive(Debug)]
pub struct Apply {
    /// Move the checkpoint's own config aside, to [`BACKUP_FILE`].
    pub back_up: bool,
    /// What to write then, or why that cannot be.
    pub write: Result<Written, String>,
}

#[derive(Debug)]
pub struct Written {
    /// The text of the new [`CONFIG_FILE`].
    pub content: String,
    /// The record for [`MARKER_FILE`].
    pub marker: AppliedSampling,
}

/// The entries that an override is merged over, or why they cannot be had: those of the
/// original, where there is one.
pub open spec fn base_of(
    had_original: bool,
    backup: Seq<char>,
    original: Result<Seq<char>, Seq<char>>,
) -> Result<Seq<(Seq<char>, JsonView)>, Seq<char>> {
    if !had_original {
        Ok(Seq::empty())
    } else {
        let read = match original {
            Ok(raw) => object_of(backup, json_of(raw)),
            Err(e) => Err(e),
        };
        match read {
            Ok(e) => Ok(e),
            Err(e) => Err("reading "@ + backup + ": "@ + e),
        }
    }
}

/// Apply sampling defaults to a checkpoint directory.
///
/// Re-applying over an existing override does not re-back-up: the first backup is
/// the checkpoint's genuine original, and clobbering it with a previous override would
/// make [`revert`] restore the wrong thing. The new file is always built by merging over
/// that original, never over the override it replaces, so applying twice lands in the same
/// place as applying once.
///
/// `original` is the text of the checkpoint's own config, which is parked or about to be,
/// or why it could not be read; it does not count where there is none.
pub fn apply(
    model_dir: &str,
    is_dir: bool,
    marker: Option<&AppliedSampling>,
    has_file: bool,
    original: &Result<String, String>,
    want: &Sampling,
    now: &str,
) -> (r: Result<Apply, String>)
    ensures
        match r {
            Err(e) => if !is_dir {
                e@ == model_dir@ + " is not a directory"@
            } else {
                want@.problem() == Some(e@)
            },
            Ok(a) => {
                let overridden = marker is Some && has_file;
                let had_original = if overridden {
                    marker->0.had_original
                } else {
                    has_file
                };
                let base = base_of(
                    had_original,
                    joined_path(model_dir@, BACKUP_FILE@),
                    match *original {
                        Ok(s) => Ok(s@),
                        Err(e) => Err(e@),
                    },
                );
                &&& is_dir
                &&& want@.problem() is None
                &&& a.back_up == (has_file && !overridden)
                &&& match a.write {
                    Err(e) => base == Err::<Seq<(Seq<char>, JsonView)>, Seq<char>>(e@),
                    Ok(w) => {
                        &&& base is Ok
                        &&& w.content@ == pretty_of(JsonView::Object(merged(base->Ok_0, want@)))
                        &&& w.marker.sampling@ == want@
                        &&& w.marker.applied_at@ == now@
                        &&& w.marker.had_original == had_original
                    },
                }
            },
        },
{
    if !is_dir {
        return Err(cat2(model_dir, " is not a directory"));
    }
    if let Some(problem) = want.validate() {
        return Err(problem);
    }
    let backup = join(model_dir, BACKUP_FILE);
    let (back_up, had_original) = match status(marker, has_file) {
        Status::Overridden(a) => (false, a.had_original),
        Status::Checkpoint => (has_file, has_file),
    };
    let mut obj: Vec<(String, Json)> = Vec::new();
    assert(entries(obj@) =~= Seq::<(Seq<char>, JsonView)>::empty());
    if had_original {
        let read = match original {
            Ok(raw) => read_object(backup.as_str(), raw.as_str()),
            Err(e) => Err(e.clone()),
        };
        match read {
            Ok(o) => {
                obj = o;
            },
            Err(e) => {
                return Ok(
                    Apply {
                        back_up,
                        write: Err(cat4("reading ", backup.as_str(), ": ", e.as_str())),
                    },
                );
            },
        }
    }
    merge(&mut obj, want);
    proof {
        lemma_object_view(obj);
    }
    let content = pretty(&Json::Object(obj));
    Ok(
        Apply {
            back_up,
            write: Ok(
                Written {
                    content,
                    marker: AppliedSampling {
                        sampling: want.copy(),
                        applied_at: now.to_owned(),
                        had_original,
                    },
                },
            ),
        },
    )
}

/// Undo an override, restoring the checkpoint exactly as it was.
pub fn revert(
    model_dir: &str,
    marker: Option<&AppliedSampling>,
    has_file: bool,
    has_backup: bool,
) -> (r: Result<Revert, String>)
    ensures
        match r {
            Err(e) => if marker is None || !has_file {
                e@ == "no ft-man sampling override is in place here"@
            } else {
                marker->0.had_original && !has_backup && e@
                    == "the checkpoint's original generation config is missing from "@
                    + joined_path(model_dir@, BACKUP_FILE@)
            },
            Ok(v) => {
                &&& marker is Some && has_file
                &&& v == (if marker->0.had_original {
                    Revert::Restore
                } else {
                    Revert::Remove
                })
                &&& v == Revert::Restore ==> has_backup
            },
        },
{
    match status(marker, has_file) {
        Status::Overridden(applied) => {
            if !applied.had_original {
                // The checkpoint never had one; a leftover file would keep feeding the engine
                // paddock's numbers, so it has to go.
                return Ok(Revert::Remove);
            }
            if has_backup {
                Ok(Revert::Restore)
            } else {
                Err(
                    cat2(
                        "the checkpoint's original generation config is missing from ",
                        join(model_dir, BACKUP_FILE).as_str(),
                    ),
                )
            }
        },
        Status::Checkpoint => Err("no ft-man sampling override is in place here".to_owned()),
    }
}

/// An applied override is undone exactly: the content that was there comes back, or none
/// where there was none. `content` and `had_original` stand for what an apply wrote down
/// (see [`apply`]).
pub proof fn law_an_applied_override_reverts(
    f: Folder<AppliedSampling>,
    content: Seq<char>,
    marker: AppliedSampling,
)
    requires
        !f.overridden(),
        marker.had_original == (f.file is Some),
    ensures
        f.applied(content, marker).overridden(),
        f.applied(content, marker).reverted(marker.had_original).file == f.file,
        !f.applied(content, marker).reverted(marker.had_original).overridden(),
{
}

/// What [`apply`] writes into a directory whose three files are `f`; `None` when the
/// checkpoint's own config cannot be read.
pub open spec fn written_over(
    f: Folder<AppliedSampling>,
    model_dir: Seq<char>,
    want: SamplingView,
) -> Option<Seq<char>> {
    let had_original = if f.overridden() {
        f.marker->0.had_original
    } else {
        f.file is Some
    };
    let original = if f.overridden() {
        f.backup
    } else {
        f.file
    };
    match base_of(
        had_original,
        joined_path(model_dir, BACKUP_FILE@),
        match original {
            Some(text) => Ok(text),
            None => Err(""@),
        },
    ) {
        Ok(e) => Some(pretty_of(JsonView::Object(merged(e, want)))),
        Err(_) => None,
    }
}

/// The new file is built by merging over the checkpoint's original, never over the override
/// it replaces: whatever override came first, applying lands where it would have landed
/// without it, and so applying twice lands in the same place as applying once.
pub proof fn law_applying_twice_is_applying_once(
    f: Folder<AppliedSampling>,
    model_dir: Seq<char>,
    first: Seq<char>,
    marker: AppliedSampling,
    want: SamplingView,
)
    requires
        !f.overridden(),
        marker.had_original == (f.file is Some),
    ensures
        written_over(f.applied(first, marker), model_dir, want) == written_over(f, model_dir, want),
        f.applied(first, marker).applied(first, marker) == f.applied(first, marker),
{
    assert(f.applied(first, marker).applied(first, marker) =~= f.applied(first, marker));
}

} // verus!
