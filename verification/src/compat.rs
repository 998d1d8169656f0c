//! Judging whether FreeToken can run a checkpoint, from its `config.json` alone.
//!
//! A weights download is tens of gigabytes and half an hour; a `config.json` is a single
//! small request. Almost everything that decides compatibility lives in that file plus
//! the repo's file listing, so the question is worth answering before committing to the
//! download rather than after.
//!
//! What this can decide, and what it cannot: the architecture check is definitive,
//! because FreeToken's own registry is the authority and it is queried directly. The
//! quantization check catches one specific, verified failure mode. Everything else is
//! arithmetic against the hardware. A clean report is not a promise that a model will
//! serve, only that none of the known walls are in the way.

use vstd::prelude::*;
use vstd::string::*;
use crate::json::{json_of, opt_json, parse_json, Json, JsonView};
use crate::plan::{tokens, tokens_text, DEFAULT_KV_RESERVE_TOKENS};
use crate::text::{
    cat2, cat3, contains, dec, decimal, ends_with, occurs, join, joined, listed, lowercase,
    opt_text, same, starts_with, texts, to_lowercase, to_uppercase, uppercase,
};
use crate::util::{
    as_double, bytes, bytes_text, min, nearest_double, nine_tenths, nine_tenths_of, sat_add,
    sat_mul, saturated, smaller, wide_mul,
};

verus! {

#[derive(Debug, Clone, Copy, PartialEq, Eq, PartialOrd, Ord, Structural)]
pub enum Level {
    /// Worth knowing, not a problem.
    Info,
    /// Will work, but constrains how.
    Caution,
    /// Expected to fail.
    Blocker,
}

#[derive(Debug, Clone, Copy, PartialEq, Eq, Structural)]
pub enum Verdict {
    /// No known obstacle.
    Supported,
    /// Will load, but something about it needs attention.
    Caution,
    /// A known wall.
    Unsupported,
    /// Not enough information, usually because the architecture registry is not loaded yet.
    Unknown,
}

impl Verdict {
    pub fn label(&self) -> (r: &'static str)
        ensures
            r@ == (match self {
                Verdict::Supported => "supported"@,
                Verdict::Caution => "supported, with caveats"@,
                Verdict::Unsupported => "not supported"@,
                Verdict::Unknown => "unknown"@,
            }),
    {
        match self {
            Verdict::Supported => "supported",
            Verdict::Caution => "supported, with caveats",
            Verdict::Unsupported => "not supported",
            Verdict::Unknown => "unknown",
        }
    }
}

#[derive(Debug)]
pub struct Report {
    pub arch: Option<String>,
    pub model_type: Option<String>,
    pub is_moe: bool,
    pub num_experts: Option<u64>,
    pub num_layers: Option<u64>,
    pub quant: Option<String>,
    pub context: Option<u64>,
    /// How this checkpoint caches, and what that costs per token. `None` when the config
    /// does not carry enough to price a row.
    pub kv: Option<KvGeometry>,
    /// The largest context this hardware can actually hold, clamped to the checkpoint's
    /// own ceiling. `None` when there is no hardware to price against, or when nothing in
    /// the model grows with the conversation and KV is therefore not the binding limit.
    pub max_servable_context: Option<u64>,
    /// True when the weights that would stay resident could not be priced (an offloaded
    /// MoE, or a listing whose size is not known yet), so `max_servable_context` is a
    /// ceiling the real configuration falls short of rather than a figure to plan on.
    pub context_is_upper_bound: bool,
    /// `(level, message)`, most severe first.
    pub notes: Vec<(Level, String)>,
}

/// What a report says.
pub struct ReportView {
    pub arch: Option<Seq<char>>,
    pub model_type: Option<Seq<char>>,
    pub is_moe: bool,
    pub num_experts: Option<u64>,
    pub num_layers: Option<u64>,
    pub quant: Option<Seq<char>>,
    pub context: Option<u64>,
    pub kv: Option<KvGeometry>,
    pub max_servable_context: Option<u64>,
    pub context_is_upper_bound: bool,
    pub notes: Seq<(Level, Seq<char>)>,
}

pub open spec fn note_views(v: Seq<(Level, String)>) -> Seq<(Level, Seq<char>)> {
    Seq::new(v.len(), |i: int| (v[i].0, v[i].1@))
}

impl View for Report {
    type V = ReportView;

    open spec fn view(&self) -> ReportView {
        ReportView {
            arch: opt_text(self.arch),
            model_type: opt_text(self.model_type),
            is_moe: self.is_moe,
            num_experts: self.num_experts,
            num_layers: self.num_layers,
            quant: opt_text(self.quant),
            context: self.context,
            kv: self.kv,
            max_servable_context: self.max_servable_context,
            context_is_upper_bound: self.context_is_upper_bound,
            notes: note_views(self.notes@),
        }
    }
}

/// Some note has this level.
pub open spec fn some_note(notes: Seq<(Level, Seq<char>)>, level: Level) -> bool {
    exists|i: int| 0 <= i < notes.len() && (#[trigger] notes[i]).0 == level
}

/// The pieces of the one-line summary, with the quantization as it is shown.
pub open spec fn summary_parts(r: ReportView, shown: Option<Seq<char>>) -> Seq<Seq<char>> {
    let arch = match r.arch {
        Some(a) => seq![a],
        None => Seq::empty(),
    };
    let shape = if r.is_moe {
        seq![
            match r.num_experts {
                Some(n) => "MoE x"@ + dec(n as nat),
                None => "MoE"@,
            },
        ]
    } else if r.arch is Some {
        seq!["dense"@]
    } else {
        Seq::empty()
    };
    let quant = match shown {
        Some(q) => seq![q],
        None => Seq::empty(),
    };
    let context = match r.context {
        Some(c) => seq![tokens_text(c as nat) + " ctx"@],
        None => Seq::empty(),
    };
    let kv = match r.kv {
        Some(g) => seq![bytes_text(g.bytes_per_token as nat) + "/tok"@],
        None => Seq::empty(),
    };
    arch + shape + quant + context + kv
}

impl Report {
    fn noted(&self, level: Level) -> (r: bool)
        ensures
            r == some_note(self@.notes, level),
    {
        let mut i: usize = 0;
        while i < self.notes.len()
            invariant
                i <= self.notes.len(),
                forall|j: int| 0 <= j < i ==> (#[trigger] self@.notes[j]).0 != level,
            decreases self.notes.len() - i,
        {
            if self.notes[i].0 == level {
                assert(self@.notes[i as int].0 == level);
                return true;
            }
            i = i + 1;
        }
        false
    }

    pub fn verdict(&self) -> (r: Verdict)
        ensures
            r == (if some_note(self@.notes, Level::Blocker) {
                Verdict::Unsupported
            } else if some_note(self@.notes, Level::Caution) {
                Verdict::Caution
            } else if self@.arch is Some {
                Verdict::Supported
            } else {
                Verdict::Unknown
            }),
    {
        if self.noted(Level::Blocker) {
            Verdict::Unsupported
        } else if self.noted(Level::Caution) {
            Verdict::Caution
        } else if self.arch.is_some() {
            Verdict::Supported
        } else {
            Verdict::Unknown
        }
    }

    /// One-line shape summary for a header.
    pub fn summary(&self) -> (r: String)
        ensures
            r@ == joined(
                summary_parts(
                    self@,
                    match self@.quant {
                        Some(q) => Some(uppercase(q)),
                        None => None,
                    },
                ),
                " · "@,
            ),
    {
        let quant = match &self.quant {
            Some(q) => Some(to_uppercase(q.as_str())),
            None => None,
        };
        self.summary_with(quant)
    }

    /// The summary, given the quantization as it is shown.
    pub fn summary_with(&self, quant: Option<String>) -> (r: String)
        ensures
            r@ == joined(summary_parts(self@, opt_text(quant)), " · "@),
    {
        let ghost shown = opt_text(quant);
        let mut parts: Vec<String> = Vec::new();
        if let Some(a) = &self.arch {
            parts.push(a.clone());
        }
        if self.is_moe {
            parts.push(
                match self.num_experts {
                    Some(n) => cat2("MoE x", decimal(n).as_str()),
                    None => "MoE".to_owned(),
                },
            );
        } else if self.arch.is_some() {
            parts.push("dense".to_owned());
        }
        if let Some(q) = quant {
            parts.push(q);
        }
        if let Some(c) = self.context {
            parts.push(cat2(tokens(c).as_str(), " ctx"));
        }
        // The per-token cost belongs in the one line two candidate repos are compared on:
        // it is what says a 256k ceiling is reachable here, and nothing else on this line
        // scales with the conversation.
        if let Some(kv) = &self.kv {
            parts.push(kv.per_token_label());
        }
        assert(texts(parts@) =~= summary_parts(self@, shown));
        join(&parts, " · ")
    }
}

/// The hardware a candidate would have to run on.
#[derive(Debug, Clone, Copy, Default)]
pub struct Hardware {
    pub vram_bytes: u64,
    pub host_ram_bytes: u64,
    pub free_disk_bytes: u64,
}

// ---------------------------------------------------------------- KV geometry

/// FreeToken caches K and V in bf16, two bytes an element. There is no KV dtype flag to
/// read, so this is a constant rather than a guess.
pub const KV_BYTES_PER_ELEMENT: u64 = 2;

/// Layer kinds whose cache gains a row per token and never gives one back.
///
/// DeepSeek's sparse attention is here because its indexer selects from a full cache
/// rather than shrinking one: the reads are sparse, the storage is not.
pub const GROWING_TYPES: [&'static str; 2] = ["full_attention", "deepseek_sparse_attention"];

/// Layer kinds that cache rows but forget everything past their window.
pub const WINDOWED_TYPES: [&'static str; 2] = ["sliding_attention", "chunked_attention"];

/// Layer kinds that keep a fixed-size state per sequence instead of a row per token.
pub const FLAT_TYPES: [&'static str; 6] = [
    "linear_attention",
    "kda",
    "mamba",
    "mamba2",
    "gated_deltanet",
    "recurrent",
];

/// The shape of one caching layer's per-token row.
#[derive(Debug, Clone, Copy, PartialEq, Eq, Structural)]
pub enum KvRow {
    /// Ordinary MHA/GQA: a key vector and a value vector for every KV head.
    Grouped { kv_heads: u64, head_dim: u64 },
    /// MLA (DeepSeek, GLM): one compressed latent for the whole layer rather than one
    /// vector per head, which is why an MLA checkpoint can cache an order of magnitude
    /// cheaper than a GQA one of the same size.
    Latent { width: u64 },
}

impl KvRow {
    /// The bytes of a row: a key row and a value row for grouped heads.
    pub open spec fn size(self) -> nat {
        match self {
            KvRow::Grouped { kv_heads, head_dim } => 4 * (kv_heads as nat * head_dim as nat),
            KvRow::Latent { width } => 2 * width as nat,
        }
    }

    pub fn bytes(self) -> (r: u64)
        requires
            self.size() <= u64::MAX,
        ensures
            r == self.size(),
    {
        match self {
            // Times two because a key row and a value row are both kept.
            KvRow::Grouped { kv_heads, head_dim } => {
                let n = wide_mul(kv_heads, head_dim);
                2 * (n as u64) * KV_BYTES_PER_ELEMENT
            },
            KvRow::Latent { width } => width * KV_BYTES_PER_ELEMENT,
        }
    }

    pub fn describe(self) -> (r: String)
        ensures
            r@ == (match self {
                KvRow::Grouped { kv_heads, head_dim } => dec(kv_heads as nat) + " kv heads x "@
                    + dec(head_dim as nat),
                KvRow::Latent { width } => "MLA latent "@ + dec(width as nat),
            }),
    {
        match self {
            KvRow::Grouped { kv_heads, head_dim } => cat3(
                decimal(kv_heads).as_str(),
                " kv heads x ",
                decimal(head_dim).as_str(),
            ),
            KvRow::Latent { width } => cat2("MLA latent ", decimal(width).as_str()),
        }
    }
}

/// How a checkpoint's layers cache, and what that costs per token.
///
/// The KV cache is not one buffer a conversation accumulates into. A token is attended to
/// once per layer, by that layer's own attention, over that layer's own inputs. So each
/// layer keeps its own key and value row for every token it has seen. N caching layers
/// means N independent caches, each one row per token:
///
/// ```text
/// bytes/token = 2 (K and V) x layers that keep a growing cache x KV width x bytes/element
/// ```
///
/// The multiplier that dominates is how many layers keep a *growing* cache at all, and it
/// is usually fewer than `num_hidden_layers`, so it has to be derived rather than read.
#[derive(Debug, Clone, Copy)]
pub struct KvGeometry {
    /// `num_hidden_layers`, kept for the "10 of 40" comparison that is the finding.
    pub layers: u64,
    /// Layers whose cache gains a row for every token, forever.
    pub growing_layers: u64,
    /// Sliding-window layers. They do keep rows, but forget everything past `window`, so
    /// their cost stops growing once the window is full.
    pub windowed_layers: u64,
    /// Linear-attention and state-space layers. Each folds every token into a fixed-size
    /// running state and overwrites it, so the cost is the same at one token as at 256k.
    pub flat_layers: u64,
    /// The shape of one caching layer's row.
    pub row: KvRow,
    /// Bytes one caching layer keeps per token.
    pub row_bytes: u64,
    /// `growing_layers x row_bytes`: the one figure that makes two candidate repos
    /// comparable at a glance, and the only one that scales with the conversation.
    pub bytes_per_token: u64,
    /// The sliding window's span, when any layer slides.
    pub window: Option<u64>,
}

impl KvGeometry {
    /// The rows that a sliding layer keeps of `context` tokens.
    pub open spec fn window_rows(self, context: nat) -> nat {
        match self.window {
            Some(w) => min(context, w as nat),
            None => context,
        }
    }

    /// What the sliding layers cost at `context`.
    pub open spec fn window_cost(self, context: nat) -> nat {
        self.windowed_layers as nat * self.row_bytes as nat * self.window_rows(context)
    }

    /// What all layers cost at `context`.
    pub open spec fn cost(self, context: nat) -> nat {
        self.bytes_per_token as nat * context + self.window_cost(context)
    }

    /// What the sliding-window layers cost at `context`: flat once the window is full.
    pub fn windowed_bytes(&self, context: u64) -> (r: u64)
        ensures
            r == saturated(self.window_cost(context as nat) as int),
    {
        let rows = match self.window {
            Some(w) => smaller(context, w),
            None => context,
        };
        let row = sat_mul(self.windowed_layers, self.row_bytes);
        proof {
            let exact = (self.windowed_layers * self.row_bytes) as nat;
            lemma_saturated_times(exact, rows as nat);
        }
        sat_mul(row, rows)
    }

    /// Total KV bytes needed to hold `context` tokens.
    pub fn bytes_for_context(&self, context: u64) -> (r: u64)
        ensures
            r == saturated(self.cost(context as nat) as int),
    {
        sat_add(sat_mul(self.bytes_per_token, context), self.windowed_bytes(context))
    }

    /// The largest context `budget` bytes of VRAM can hold.
    ///
    /// `None` when nothing grows: an all-linear or all-windowed checkpoint whose cache
    /// stops expanding, so KV is not what bounds its context. Callers clamp the answer to
    /// the checkpoint's own ceiling; this function does not know it.
    pub fn context_for_budget(&self, budget: u64) -> (r: Option<u64>)
        ensures
            self.bytes_per_token == 0 ==> r is None,
            r is Some == self.affords(budget as nat) is Some,
            r is Some ==> r->0 == self.affords(budget as nat)->0,
    {
        if self.bytes_per_token == 0 {
            return None;
        }
        let window = match self.window {
            Some(w) => w,
            None => 0,
        };
        let win_per_token = sat_mul(self.windowed_layers, self.row_bytes);
        // Past the window, the sliding layers cost a constant. Solve there first: it is
        // the case that holds for any context large enough to be worth reporting.
        let capped = sat_mul(win_per_token, window);
        if budget >= capped {
            let left: u64 = budget - capped;
            let n = left / self.bytes_per_token;
            if n >= window {
                return Some(n);
            }
        }
        // Inside the window every caching layer is still growing, sliding ones included.
        let per_token = sat_add(self.bytes_per_token, win_per_token);
        Some(budget / per_token)
    }

    /// What one token costs in the sliding layers, as far as 64 bits tell.
    pub open spec fn sliding_per_token(self) -> nat {
        saturated(self.windowed_layers * self.row_bytes)
    }

    pub open spec fn window_span(self) -> nat {
        match self.window {
            Some(w) => w as nat,
            None => 0,
        }
    }

    /// The context that a budget affords: past the window where it reaches that far, and
    /// inside it otherwise. `None` when nothing grows.
    pub open spec fn affords(self, budget: nat) -> Option<nat> {
        let full = saturated((self.sliding_per_token() * self.window_span()) as int);
        let past = (budget - full) / self.bytes_per_token as int;
        let inside = saturated((self.bytes_per_token + self.sliding_per_token()) as int);
        if self.bytes_per_token == 0 {
            None
        } else if budget >= full && past >= self.window_span() {
            Some(past as nat)
        } else {
            Some(budget / inside)
        }
    }

    /// The per-token cost alone, for a one-line summary: `20.0 KiB/tok`.
    pub fn per_token_label(&self) -> (r: String)
        ensures
            r@ == bytes_text(self.bytes_per_token as nat) + "/tok"@,
    {
        cat2(bytes(self.bytes_per_token).as_str(), "/tok")
    }

    /// The cost and the layer split.
    pub open spec fn description(self) -> Seq<char> {
        let head = bytes_text(self.bytes_per_token as nat) + "/token, "@ + dec(
            self.growing_layers as nat,
        ) + " of "@ + dec(self.layers as nat) + " layers cache"@;
        let slide = if self.windowed_layers > 0 {
            head + ", "@ + (match self.window {
                Some(w) => dec(self.windowed_layers as nat) + " slide within "@ + tokens_text(
                    w as nat,
                ),
                None => dec(self.windowed_layers as nat) + " slide"@,
            })
        } else {
            head
        };
        if self.flat_layers > 0 {
            slide + ", "@ + (dec(self.flat_layers as nat) + " keep a fixed state"@)
        } else {
            slide
        }
    }

    /// The cost and the layer split, for a note: read the second number against the
    /// third, because that is the part nothing else reports.
    pub fn describe(&self) -> (r: String)
        ensures
            r@ == self.description(),
    {
        let mut s = bytes(self.bytes_per_token);
        s.append("/token, ");
        s.append(decimal(self.growing_layers).as_str());
        s.append(" of ");
        s.append(decimal(self.layers).as_str());
        s.append(" layers cache");
        // Commas, not a bracket: this whole phrase is itself parenthesized inside a note,
        // and nesting brackets there reads as a typo.
        if self.windowed_layers > 0 {
            s.append(", ");
            let clause = match self.window {
                Some(w) => cat3(
                    decimal(self.windowed_layers).as_str(),
                    " slide within ",
                    tokens(w).as_str(),
                ),
                None => cat2(decimal(self.windowed_layers).as_str(), " slide"),
            };
            s.append(clause.as_str());
        }
        if self.flat_layers > 0 {
            s.append(", ");
            s.append(cat2(decimal(self.flat_layers).as_str(), " keep a fixed state").as_str());
        }
        s
    }
}

/// Saturating a factor first does not show in a saturated product.
proof fn lemma_saturated_times(a: nat, b: nat)
    ensures
        saturated((saturated(a as int) * b) as int) == saturated((a * b) as int),
{
    if a > u64::MAX && b >= 1 {
        assert(a * b >= a) by (nonlinear_arith)
            requires
                b >= 1,
        ;
        assert(u64::MAX * b >= u64::MAX) by (nonlinear_arith)
            requires
                b >= 1,
        ;
    } else if b == 0 {
        assert(a * b == 0 && saturated(a as int) * b == 0) by (nonlinear_arith)
            requires
                b == 0,
        ;
    }
}

// ---------------------------------------------------------------- laws of the geometry

/// A sliding layer stops costing once its window is full.
pub proof fn law_a_full_window_costs_no_more(kv: KvGeometry, context: nat, more: nat)
    requires
        kv.window is Some,
        kv.window->0 <= context <= more,
    ensures
        kv.window_cost(more) == kv.window_cost(context),
{
}

/// A longer context never costs less.
pub proof fn law_cost_grows_with_context(kv: KvGeometry, a: nat, b: nat)
    requires
        a <= b,
    ensures
        kv.cost(a) <= kv.cost(b),
{
    let w = kv.windowed_layers as nat * kv.row_bytes as nat;
    let ra = kv.window_rows(a);
    let rb = kv.window_rows(b);
    assert(w * ra <= w * rb) by (nonlinear_arith)
        requires
            ra <= rb,
    ;
    assert(kv.bytes_per_token as nat * a <= kv.bytes_per_token as nat * b) by (nonlinear_arith)
        requires
            a <= b,
    ;
}

/// What the sliding layers cost once their windows are full still fits 64 bits, and they
/// slide only where there is a window.
pub open spec fn measurable(kv: KvGeometry) -> bool {
    &&& kv.windowed_layers as nat * kv.row_bytes as nat * kv.window_span() <= u64::MAX
    &&& kv.windowed_layers * kv.row_bytes + kv.bytes_per_token <= u64::MAX
    &&& kv.window is None ==> kv.windowed_layers == 0
}

/// The context that a budget affords is the longest that costs no more than the budget,
/// also across the seam where the window fills up.
pub proof fn law_the_context_afforded_inverts_the_cost(kv: KvGeometry, budget: nat)
    requires
        measurable(kv),
        budget <= u64::MAX,
        kv.affords(budget) is Some,
    ensures
        kv.cost(kv.affords(budget)->0) <= budget,
        kv.cost(kv.affords(budget)->0 + 1) > budget,
{
    let b = kv.bytes_per_token as nat;
    let w = kv.windowed_layers as nat * kv.row_bytes as nat;
    let span = kv.window_span();
    let full = w * span;
    let n = kv.affords(budget)->0;
    if kv.window is None {
        assert(w == 0) by (nonlinear_arith)
            requires
                w == kv.windowed_layers as nat * kv.row_bytes as nat,
                kv.windowed_layers == 0,
        ;
        assert(full == 0) by (nonlinear_arith)
            requires
                full == w * span,
                w == 0,
        ;
        assert(w * n == 0 && w * (n + 1) == 0) by (nonlinear_arith)
            requires
                w == 0,
        ;
    }
    let past = (budget - full) / b as int;
    if b > 0 && budget >= full && past >= span {
        assert(b * n <= budget - full) by (nonlinear_arith)
            requires
                n == (budget - full) / b as int,
                b > 0,
        ;
        assert(b * (n + 1) > budget - full) by (nonlinear_arith)
            requires
                n == (budget - full) / b as int,
                b > 0,
                budget >= full,
        ;
        if kv.window is Some {
            assert(kv.window_rows(n) == span);
            assert(kv.window_rows(n + 1) == span);
        }
    } else {
        let per = b + w;
        assert(kv.window is Some);
        assert(per > 0 && n == budget / per);
        assert(per * n <= budget < per * (n + 1)) by (nonlinear_arith)
            requires
                per > 0,
                n == budget / per,
        ;
        // The budget does not reach past the window.
        assert(n < span) by {
            assert(per * span > budget) by {
                assert(per * span == b * span + full) by (nonlinear_arith)
                    requires
                        per == b + w,
                        full == w * span,
                ;
                if budget >= full {
                    assert(b > 0);
                    assert(b * span > budget - full) by (nonlinear_arith)
                        requires
                            ((budget - full) / (b as int)) < span,
                            b > 0,
                    ;
                } else {
                    assert(b * span >= 0) by (nonlinear_arith);
                }
            }
            assert(n < span) by (nonlinear_arith)
                requires
                    per * n <= budget,
                    per * span > budget,
                    per > 0,
            ;
        }
        assert(kv.window_rows(n) == n && kv.window_rows(n + 1) == n + 1);
        assert(per * n == b * n + w * n) by (nonlinear_arith)
            requires
                per == b + w,
        ;
        assert(per * (n + 1) == b * (n + 1) + w * (n + 1)) by (nonlinear_arith)
            requires
                per == b + w,
        ;
    }
}

/// A cache that does not grow is not bounded by any budget, however many of its layers
/// slide, and one that grows is bounded by every budget.
pub proof fn law_what_does_not_grow_is_not_bounded(kv: KvGeometry, budget: nat)
    ensures
        kv.affords(budget) is None <==> kv.bytes_per_token == 0,
{
}

// ---------------------------------------------------------------- reading a config

/// A field of the config: at the top level or, for a multimodal wrapper that keeps the
/// whole language model there, under `text_config`. A null counts as absent.
pub open spec fn field_of(config: JsonView, key: Seq<char>) -> Option<JsonView> {
    match config.get(key) {
        Some(v) if !v.is_null() => Some(v),
        _ => match config.get("text_config"@) {
            Some(t) => match t.get(key) {
                Some(v) if !v.is_null() => Some(v),
                _ => None,
            },
            None => None,
        },
    }
}

pub open spec fn num_of(config: JsonView, key: Seq<char>) -> Option<u64> {
    match field_of(config, key) {
        Some(v) => v.as_u64(),
        None => None,
    }
}

pub open spec fn positive(n: Option<u64>) -> Option<u64> {
    match n {
        Some(x) if x > 0 => Some(x),
        _ => None,
    }
}

fn field<'a>(config: &'a Json, key: &str) -> (r: Option<&'a Json>)
    ensures
        opt_json(r) == field_of(config@, key@),
{
    if let Some(v) = config.get(key) {
        if !v.is_null() {
            return Some(v);
        }
    }
    if let Some(t) = config.get("text_config") {
        if let Some(v) = t.get(key) {
            if !v.is_null() {
                return Some(v);
            }
        }
    }
    None
}

fn num(config: &Json, key: &str) -> (r: Option<u64>)
    ensures
        r == num_of(config@, key@),
{
    match field(config, key) {
        Some(v) => v.as_u64(),
        None => None,
    }
}

fn above_zero(n: Option<u64>) -> (r: Option<u64>)
    ensures
        r == positive(n),
{
    match n {
        Some(x) => if x > 0 {
            Some(x)
        } else {
            None
        },
        None => None,
    }
}

/// The window counts only when the checkpoint says it is using it: plenty of configs carry
/// a `sliding_window` value with `use_sliding_window: false` beside it.
pub open spec fn window_of(config: JsonView) -> Option<u64> {
    let used = match field_of(config, "use_sliding_window"@) {
        Some(v) => match v.as_bool() {
            Some(b) => b,
            None => true,
        },
        None => true,
    };
    if !used {
        None
    } else {
        positive(
            match num_of(config, "sliding_window"@) {
                Some(w) => Some(w),
                None => num_of(config, "attention_chunk_size"@),
            },
        )
    }
}

/// The width of an MLA latent: the compressed part and the rotary part beside it.
pub open spec fn latent_width(config: JsonView) -> Option<nat> {
    match positive(num_of(config, "kv_lora_rank"@)) {
        Some(rank) => Some(
            rank as nat + (match num_of(config, "qk_rope_head_dim"@) {
                Some(n) => n as nat,
                None => 0,
            }),
        ),
        None => None,
    }
}

/// The KV heads and the head dimension of ordinary attention.
pub open spec fn head_shape(config: JsonView) -> Option<(u64, u64)> {
    match positive(num_of(config, "num_attention_heads"@)) {
        None => None,
        Some(heads) => {
            let kv_heads = match positive(num_of(config, "num_key_value_heads"@)) {
                Some(n) => n,
                None => heads,
            };
            let derived = match num_of(config, "hidden_size"@) {
                Some(h) => Some((h / heads) as u64),
                None => None,
            };
            let head_dim = match positive(num_of(config, "head_dim"@)) {
                Some(d) => Some(d),
                None => positive(derived),
            };
            match head_dim {
                Some(d) => Some((kv_heads, d)),
                None => None,
            }
        },
    }
}

/// The row of a config, when it carries enough to price one.
pub open spec fn row_of(config: JsonView) -> Option<KvRow> {
    match latent_width(config) {
        Some(w) => Some(KvRow::Latent { width: w as u64 }),
        None => match head_shape(config) {
            Some((kv_heads, head_dim)) => Some(KvRow::Grouped { kv_heads, head_dim }),
            None => None,
        },
    }
}

/// The bytes of a row fit a machine word.
pub open spec fn row_fits(config: JsonView) -> bool {
    match latent_width(config) {
        Some(w) => 2 * w <= u64::MAX,
        None => match head_shape(config) {
            Some((kv_heads, head_dim)) => 4 * (kv_heads as nat * head_dim as nat) <= u64::MAX,
            None => true,
        },
    }
}

#[derive(Debug, Clone, Copy, PartialEq, Eq, Structural)]
pub enum LayerKind {
    Growing,
    Windowed,
    Flat,
}

/// How a layer caches, by the name of its kind. Everything unrecognized, and any windowed
/// name with no window to cap it, is priced as the expensive case: a layer kind this does
/// not know is a reason to over-estimate the cache, never to drop it silently.
pub open spec fn layer_kind(entry: JsonView, has_window: bool) -> LayerKind {
    let name = match entry.as_str() {
        Some(s) => s,
        None => ""@,
    };
    if arr_strs(FLAT_TYPES@).contains(name) {
        LayerKind::Flat
    } else if arr_strs(WINDOWED_TYPES@).contains(name) && has_window {
        LayerKind::Windowed
    } else {
        LayerKind::Growing
    }
}

pub open spec fn arr_strs(v: Seq<&'static str>) -> Seq<Seq<char>> {
    crate::text::strs(v)
}

/// How many of the layers are of a kind.
pub open spec fn layers_of(list: Seq<JsonView>, has_window: bool, kind: LayerKind) -> nat
    decreases list.len(),
{
    if list.len() == 0 {
        0
    } else {
        layers_of(list.drop_last(), has_window, kind) + (if layer_kind(list.last(), has_window)
            == kind {
            1nat
        } else {
            0
        })
    }
}

/// The growing, windowed and flat layers.
pub open spec fn split_of(
    types: Option<JsonView>,
    layers: u64,
    window: Option<u64>,
    max_window_layers: Option<u64>,
) -> (nat, nat, nat) {
    match types {
        Some(JsonView::List(list)) if list.len() > 0 => (
            layers_of(list, window is Some, LayerKind::Growing),
            layers_of(list, window is Some, LayerKind::Windowed),
            layers_of(list, window is Some, LayerKind::Flat),
        ),
        _ => match window {
            Some(_) => {
                let windowed = min(
                    match max_window_layers {
                        Some(n) => n as nat,
                        None => layers as nat,
                    },
                    layers as nat,
                );
                ((layers - windowed) as nat, windowed, 0)
            },
            None => (layers as nat, 0, 0),
        },
    }
}

pub open spec fn config_split(config: JsonView, layers: u64) -> (nat, nat, nat) {
    split_of(
        field_of(config, "layer_types"@),
        layers,
        window_of(config),
        num_of(config, "max_window_layers"@),
    )
}

/// The KV geometry of a config; `None` when the config does not carry enough to price a row.
pub open spec fn geometry_of(config: JsonView) -> Option<KvGeometry> {
    match (positive(num_of(config, "num_hidden_layers"@)), row_of(config)) {
        (Some(layers), Some(row)) => {
            let (growing, windowed, flat) = config_split(config, layers);
            Some(
                KvGeometry {
                    layers,
                    growing_layers: growing as u64,
                    windowed_layers: windowed as u64,
                    flat_layers: flat as u64,
                    row,
                    row_bytes: row.size() as u64,
                    bytes_per_token: saturated((growing * row.size()) as int) as u64,
                    window: window_of(config),
                },
            )
        },
        _ => None,
    }
}

/// Every listed layer is accounted for as growing, windowed or flat.
pub proof fn law_every_layer_is_accounted_for(list: Seq<JsonView>, has_window: bool)
    ensures
        layers_of(list, has_window, LayerKind::Growing) + layers_of(
            list,
            has_window,
            LayerKind::Windowed,
        ) + layers_of(list, has_window, LayerKind::Flat) == list.len(),
    decreases list.len(),
{
    if list.len() > 0 {
        law_every_layer_is_accounted_for(list.drop_last(), has_window);
    }
}

/// Without a list of kinds the three counts add up to the layers.
pub proof fn law_the_older_fields_account_for_every_layer(
    types: Option<JsonView>,
    layers: u64,
    window: Option<u64>,
    max_window_layers: Option<u64>,
)
    requires
        match types {
            Some(JsonView::List(list)) => list.len() == 0,
            _ => true,
        },
    ensures
        ({
            let (growing, windowed, flat) = split_of(types, layers, window, max_window_layers);
            growing + windowed + flat == layers
        }),
{
}

/// No layer slides where there is no window.
pub proof fn law_nothing_slides_without_a_window(list: Seq<JsonView>)
    ensures
        layers_of(list, false, LayerKind::Windowed) == 0,
    decreases list.len(),
{
    if list.len() > 0 {
        law_nothing_slides_without_a_window(list.drop_last());
    }
}

fn kind_of_layer(entry: &Json, has_window: bool) -> (r: LayerKind)
    ensures
        r == layer_kind(entry@, has_window),
{
    let name: &str = match entry.as_str() {
        Some(s) => s,
        None => "",
    };
    if crate::text::one_of(name, FLAT_TYPES.as_slice()) {
        LayerKind::Flat
    } else if crate::text::one_of(name, WINDOWED_TYPES.as_slice()) && has_window {
        LayerKind::Windowed
    } else {
        LayerKind::Growing
    }
}

/// Split the layers into growing, windowed and flat.
///
/// `layer_types` is the modern spelling and is believed when present. Without it the
/// shape has to come from the older fields: a checkpoint declaring an active
/// `sliding_window` slides on its lowest `max_window_layers` layers and attends fully
/// above them, which is Qwen2's convention and the only one these fields can express.
pub fn classify_layers(
    types: Option<&Json>,
    layers: u64,
    window: Option<u64>,
    max_window_layers: Option<u64>,
) -> (r: (u64, u64, u64))
    ensures
        (r.0 as nat, r.1 as nat, r.2 as nat) == split_of(
            opt_json(types),
            layers,
            window,
            max_window_layers,
        ),
{
    if let Some(t) = types {
        if let Some(list) = t.as_array() {
            if list.len() > 0 {
                let ghost all = t@->List_0;
                let has_window = window.is_some();
                let mut growing: u64 = 0;
                let mut windowed: u64 = 0;
                let mut flat: u64 = 0;
                let mut i: usize = 0;
                assert(all.take(0) =~= Seq::<JsonView>::empty());
                while i < list.len()
                    invariant
                        i <= list.len(),
                        all.len() == list@.len(),
                        forall|j: int| 0 <= j < list@.len() ==> #[trigger] all[j] == list@[j]@,
                        growing == layers_of(all.take(i as int), has_window, LayerKind::Growing),
                        windowed == layers_of(all.take(i as int), has_window, LayerKind::Windowed),
                        flat == layers_of(all.take(i as int), has_window, LayerKind::Flat),
                        growing + windowed + flat == i,
                    decreases list.len() - i,
                {
                    assert(all.take(i + 1).drop_last() =~= all.take(i as int));
                    assert(all.take(i + 1).last() == list@[i as int]@);
                    match kind_of_layer(&list[i], has_window) {
                        LayerKind::Flat => {
                            flat = flat + 1;
                        },
                        LayerKind::Windowed => {
                            windowed = windowed + 1;
                        },
                        LayerKind::Growing => {
                            growing = growing + 1;
                        },
                    }
                    i = i + 1;
                }
                assert(all.take(i as int) =~= all);
                return (growing, windowed, flat);
            }
        }
    }
    match window {
        Some(_) => {
            let windowed = smaller(
                match max_window_layers {
                    Some(n) => n,
                    None => layers,
                },
                layers,
            );
            (layers - windowed, windowed, 0)
        },
        None => (layers, 0, 0),
    }
}

/// Whether the bytes of a row fit a machine word.
pub fn row_is_measurable(config: &Json) -> (r: bool)
    ensures
        r == row_fits(config@),
{
    if let Some(rank) = above_zero(num(config, "kv_lora_rank")) {
        let rope = match num(config, "qk_rope_head_dim") {
            Some(n) => n,
            None => 0,
        };
        return 2 * ((rank as u128) + (rope as u128)) <= u64::MAX as u128;
    }
    match read_head_shape(config) {
        Some((kv_heads, head_dim)) => wide_mul(kv_heads, head_dim) <= (u64::MAX / 4) as u128,
        None => true,
    }
}

fn read_head_shape(config: &Json) -> (r: Option<(u64, u64)>)
    ensures
        r == head_shape(config@),
{
    let heads = match above_zero(num(config, "num_attention_heads")) {
        Some(n) => n,
        None => {
            return None;
        },
    };
    let kv_heads = match above_zero(num(config, "num_key_value_heads")) {
        Some(n) => n,
        None => heads,
    };
    let derived: Option<u64> = match num(config, "hidden_size") {
        Some(h) => Some(h / heads),
        None => None,
    };
    let head_dim = match above_zero(num(config, "head_dim")) {
        Some(d) => Some(d),
        None => above_zero(derived),
    };
    match head_dim {
        Some(d) => Some((kv_heads, d)),
        None => None,
    }
}

/// Read a checkpoint's KV geometry out of its `config.json`.
///
/// `None` when the config does not carry enough to price a row: no layer count, or an
/// attention shape with no head geometry. Saying nothing beats reporting a made-up
/// number against which someone would decide not to download.
pub fn kv_geometry(config: &Json) -> (r: Option<KvGeometry>)
    requires
        row_fits(config@),
    ensures
        r == geometry_of(config@),
{
    let layers = match above_zero(num(config, "num_hidden_layers")) {
        Some(n) => n,
        None => {
            return None;
        },
    };
    let used = match field(config, "use_sliding_window") {
        Some(v) => match v.as_bool() {
            Some(b) => b,
            None => true,
        },
        None => true,
    };
    let window = if used {
        above_zero(
            match num(config, "sliding_window") {
                Some(w) => Some(w),
                None => num(config, "attention_chunk_size"),
            },
        )
    } else {
        None
    };
    let row = match above_zero(num(config, "kv_lora_rank")) {
        // MLA stores one compressed latent plus the un-compressible rotary part.
        Some(rank) => {
            let rope = match num(config, "qk_rope_head_dim") {
                Some(n) => n,
                None => 0,
            };
            KvRow::Latent { width: rank + rope }
        },
        None => match read_head_shape(config) {
            Some((kv_heads, head_dim)) => KvRow::Grouped { kv_heads, head_dim },
            None => {
                return None;
            },
        },
    };
    assert(row_of(config@) == Some(row));
    let (growing_layers, windowed_layers, flat_layers) = classify_layers(
        field(config, "layer_types"),
        layers,
        window,
        num(config, "max_window_layers"),
    );
    let row_bytes = row.bytes();
    Some(
        KvGeometry {
            layers,
            growing_layers,
            windowed_layers,
            flat_layers,
            row,
            row_bytes,
            bytes_per_token: sat_mul(growing_layers, row_bytes),
            window,
        },
    )
}

// ---------------------------------------------------------------- the cache against the card

/// What this card can actually hold of a checkpoint's context, and how sure that is.
#[derive(Debug, Clone, Copy)]
pub struct KvBudget {
    /// VRAM left for the cache after the weights that must stay resident.
    pub budget: u64,
    /// Largest context the budget affords, already clamped to the checkpoint's ceiling.
    /// `None` when KV is not what bounds it.
    pub servable: Option<u64>,
    /// What else wants this budget but could not be priced from a config.
    pub unpriced: Unpriced,
}

/// Costs that come out of the same VRAM as the KV cache and that a `config.json` cannot
/// settle. Each one makes `servable` a ceiling rather than a plan, and each has to be
/// named: "at most" with no reason attached is a hedge, not a finding.
#[derive(Debug, Clone, Copy, PartialEq, Eq, Structural)]
pub struct Unpriced {
    /// An offloaded MoE keeps an unknowable share of its expert banks in VRAM: how much
    /// is `--moe-cache-*`, a choice the reader has not made yet.
    pub weights: bool,
    /// Linear-attention layers hold a fixed state per slot, and the pool is sized by
    /// `--max-running-requests` against dimensions no config spells out.
    pub state_pool: bool,
}

impl Unpriced {
    pub open spec fn something(self) -> bool {
        self.weights || self.state_pool
    }

    pub open spec fn caveat_text(self) -> Seq<char> {
        if self.weights && self.state_pool {
            ", before any weights, expert cache or state pool"@
        } else if self.weights {
            ", before any weights or expert cache"@
        } else if self.state_pool {
            ", before its linear-attention state pool"@
        } else {
            ""@
        }
    }

    pub open spec fn hedge_text(self) -> Seq<char> {
        if self.something() {
            "at most about "@
        } else {
            "about "@
        }
    }

    pub fn any(self) -> (r: bool)
        ensures
            r == self.something(),
    {
        self.weights || self.state_pool
    }

    pub fn caveat(self) -> (r: &'static str)
        ensures
            r@ == self.caveat_text(),
    {
        if self.weights && self.state_pool {
            ", before any weights, expert cache or state pool"
        } else if self.weights {
            ", before any weights or expert cache"
        } else if self.state_pool {
            ", before its linear-attention state pool"
        } else {
            ""
        }
    }

    /// "at most about" where the figure is a ceiling, "about" where it is the answer.
    pub fn hedge(self) -> (r: &'static str)
        ensures
            r@ == self.hedge_text(),
    {
        if self.any() {
            "at most about "
        } else {
            "about "
        }
    }
}

/// The cache priced against the card: nine tenths of it are used for weights, the expert
/// cache and KV together, which is the default of `--memory-ratio`.
pub open spec fn budget_of(
    kv: KvGeometry,
    ceiling: Option<u64>,
    download_bytes: u64,
    vram: u64,
) -> KvBudget {
    let usable = nine_tenths_of(vram as nat);
    let resident = 0 < download_bytes <= usable;
    let budget = if resident {
        (usable - download_bytes) as nat
    } else {
        usable
    };
    KvBudget {
        budget: budget as u64,
        servable: match (kv.affords(budget), ceiling) {
            (Some(n), Some(c)) => Some(min(n, c as nat) as u64),
            (Some(n), None) => Some(n as u64),
            (None, _) => None,
        },
        unpriced: Unpriced { weights: !resident, state_pool: kv.flat_layers > 0 },
    }
}

/// Price the cache against the card.
///
/// The subtlety is what counts as resident. A dense model is served resident and its
/// whole download sits in VRAM. A MoE small enough to fit does the same, on the fused
/// backend. A MoE too large for the card runs offloaded, and how much of its expert banks
/// stays in VRAM is a choice the operator has not made yet, so rather than invent a
/// split, this prices the cache against a card holding *no* weights and says that the
/// answer is an upper bound.
pub fn kv_budget(kv: &KvGeometry, ceiling: Option<u64>, download_bytes: u64, vram: u64) -> (r:
    KvBudget)
    ensures
        r == budget_of(*kv, ceiling, download_bytes, vram),
{
    let usable = nine_tenths(vram);
    let fits_resident = download_bytes > 0 && download_bytes <= usable;
    let resident = if fits_resident {
        download_bytes
    } else {
        0
    };
    let unpriced = Unpriced { weights: !fits_resident, state_pool: kv.flat_layers > 0 };
    let budget: u64 = usable - resident;
    let servable = match kv.context_for_budget(budget) {
        // Never advertise past the checkpoint's own ceiling: the card having room for 400k
        // of a 256k model means it has room for 256k.
        Some(n) => match ceiling {
            Some(c) => Some(smaller(n, c)),
            None => Some(n),
        },
        // Nothing grows, so KV is not what bounds the context.
        None => None,
    };
    KvBudget { budget, servable, unpriced }
}

/// The least context worth having, and where that number came from.
#[derive(Debug, Clone, Copy, PartialEq, Eq, Structural)]
pub struct KvFloor {
    pub tokens: u64,
    /// True when the reader set `--kv-reserve-tokens` themselves, which changes the
    /// sentence: a blocker against their own stated requirement reads very differently
    /// from one against a default they have never seen.
    pub chosen: bool,
}

pub open spec fn floor_of(wanted: Option<u64>) -> KvFloor {
    match wanted {
        Some(w) if w > 0 => KvFloor { tokens: w, chosen: true },
        _ => KvFloor { tokens: DEFAULT_KV_RESERVE_TOKENS, chosen: false },
    }
}

impl KvFloor {
    pub fn new(wanted: Option<u64>) -> (r: Self)
        ensures
            r == floor_of(wanted),
    {
        match above_zero(wanted) {
            Some(tokens) => KvFloor { tokens, chosen: true },
            None => KvFloor { tokens: DEFAULT_KV_RESERVE_TOKENS, chosen: false },
        }
    }

    pub open spec fn phrase(self) -> Seq<char> {
        if self.chosen {
            "the "@ + tokens_text(self.tokens as nat)
                + " of context --kv-reserve-tokens asks for"@
        } else {
            "even "@ + tokens_text(self.tokens as nat) + " of context"@
        }
    }

    /// The whole noun phrase, not just the number: "even 8k of context" and "the 256k of
    /// context --kv-reserve-tokens asks for" need different sentences around them.
    pub fn describe(self) -> (r: String)
        ensures
            r@ == self.phrase(),
    {
        let t = tokens(self.tokens);
        if self.chosen {
            cat3("the ", t.as_str(), " of context --kv-reserve-tokens asks for")
        } else {
            cat3("even ", t.as_str(), " of context")
        }
    }
}

/// Below a quarter of what a repo advertises, the gap stops being a detail and becomes the
/// reason not to download. The two are compared as doubles.
pub open spec fn severe_gap(servable: u64, ceiling: u64) -> bool {
    4 * nearest_double(servable as nat) < nearest_double(ceiling as nat)
}

/// What this card holds of this checkpoint's context, and at what cost.
pub open spec fn note_of(
    kv: KvGeometry,
    ceiling: Option<u64>,
    floor: KvFloor,
    b: KvBudget,
) -> (Level, Seq<char>) {
    let caveat = b.unpriced.caveat_text();
    let detail = kv.description();
    match b.servable {
        None => (
            Level::Info,
            "its cache does not grow with the conversation — "@ + detail,
        ),
        Some(servable) => if servable < floor.tokens {
            (
                Level::Blocker,
                "cannot hold "@ + floor.phrase() + " on this card: "@ + bytes_text(
                    saturated(kv.cost(floor.tokens as nat) as int),
                ) + " of KV against "@ + bytes_text(b.budget as nat) + " of VRAM budget"@ + caveat
                    + " ("@ + detail + ")"@,
            )
        } else {
            match ceiling {
                None => (
                    Level::Info,
                    "this card's KV budget holds "@ + b.unpriced.hedge_text() + tokens_text(
                        servable as nat,
                    ) + caveat + " ("@ + detail + ")"@,
                ),
                Some(c) => if servable >= c {
                    (
                        Level::Info,
                        "holds its full "@ + tokens_text(c as nat) + " of context here"@ + caveat
                            + " ("@ + detail + ")"@,
                    )
                } else {
                    (
                        if severe_gap(servable, c) {
                            Level::Caution
                        } else {
                            Level::Info
                        },
                        "serves "@ + b.unpriced.hedge_text() + tokens_text(servable as nat)
                            + " of its advertised "@ + tokens_text(c as nat) + " on this card"@
                            + caveat + " ("@ + detail + ")"@,
                    )
                },
            }
        },
    }
}

/// The note: what this card holds of this checkpoint's context, and at what cost.
///
/// `floor` is the least context worth having, which is the reader's own
/// `--kv-reserve-tokens` where they have set one and the engine's default where they have
/// not. Taking it from there rather than picking a number means the blocker answers *this*
/// reader's requirement.
pub fn kv_note(kv: &KvGeometry, ceiling: Option<u64>, floor: KvFloor, b: &KvBudget) -> (r: (
    Level,
    String,
))
    ensures
        (r.0, r.1@) == note_of(*kv, ceiling, floor, *b),
{
    // Said once, wherever the figure is a ceiling rather than a plan, and always with
    // the reason: "at most" on its own tells a reader to distrust the number without
    // telling them what would sharpen it.
    let caveat = b.unpriced.caveat();
    let servable = match b.servable {
        Some(n) => n,
        None => {
            // Nothing grows and nothing bounds it. Worth saying plainly, because a cache
            // that does not grow with the conversation is the least intuitive good news.
            return (
                Level::Info,
                cat2(
                    "its cache does not grow with the conversation — ",
                    kv.describe().as_str(),
                ),
            );
        },
    };
    if servable < floor.tokens {
        let mut s = "cannot hold ".to_owned();
        s.append(floor.describe().as_str());
        s.append(" on this card: ");
        s.append(bytes(kv.bytes_for_context(floor.tokens)).as_str());
        s.append(" of KV against ");
        s.append(bytes(b.budget).as_str());
        s.append(" of VRAM budget");
        s.append(caveat);
        s.append(" (");
        s.append(kv.describe().as_str());
        s.append(")");
        return (Level::Blocker, s);
    }
    let ceiling = match ceiling {
        Some(c) => c,
        None => {
            let mut s = "this card's KV budget holds ".to_owned();
            s.append(b.unpriced.hedge());
            s.append(tokens(servable).as_str());
            s.append(caveat);
            s.append(" (");
            s.append(kv.describe().as_str());
            s.append(")");
            return (Level::Info, s);
        },
    };
    if servable >= ceiling {
        let mut s = "holds its full ".to_owned();
        s.append(tokens(ceiling).as_str());
        s.append(" of context here");
        s.append(caveat);
        s.append(" (");
        s.append(kv.describe().as_str());
        s.append(")");
        return (Level::Info, s);
    }
    // The gap is the finding, so the note names both numbers whatever its severity.
    let severe = 4 * as_double(servable as u128) < as_double(ceiling as u128);
    let level = if severe {
        Level::Caution
    } else {
        Level::Info
    };
    let mut s = "serves ".to_owned();
    s.append(b.unpriced.hedge());
    s.append(tokens(servable).as_str());
    s.append(" of its advertised ");
    s.append(tokens(ceiling).as_str());
    s.append(" on this card");
    s.append(caveat);
    s.append(" (");
    s.append(kv.describe().as_str());
    s.append(")");
    (level, s)
}

// ---------------------------------------------------------------- the verdict

/// The text of a field of the quantization block, in lower case.
pub open spec fn quant_word(quant: JsonView, key: Seq<char>) -> Seq<char> {
    lowercase(
        match quant.get(key) {
            Some(v) => match v.as_str() {
                Some(s) => s,
                None => ""@,
            },
            None => ""@,
        },
    )
}

pub open spec fn quant_algo(quant: JsonView) -> Seq<char> {
    let a = quant_word(quant, "quant_algo"@);
    if a.len() == 0 {
        quant_word(quant, "quant_method"@)
    } else {
        a
    }
}

/// A module of routed experts, with an algorithm, in lower case, that FreeToken resolves.
pub open spec fn resolves_experts(module: Seq<char>, algo: Seq<char>) -> bool {
    &&& ".mlp.experts"@.is_suffix_of(module) || occurs(module, ".mlp.experts."@)
    &&& occurs(algo, "fp4"@) || occurs(algo, "fp8"@)
}

/// An entry of the per-layer map that covers the routed experts.
pub open spec fn covers_experts(entry: (Seq<char>, JsonView)) -> bool {
    match entry.1.get("quant_algo"@) {
        Some(v) => match v.as_str() {
            Some(a) => resolves_experts(entry.0, lowercase(a)),
            None => false,
        },
        None => false,
    }
}

/// Some entry of the per-layer map covers the routed experts.
pub open spec fn experts_covered(quant: JsonView) -> bool {
    match quant.get("quantized_layers"@) {
        Some(JsonView::Object(m)) => some_covers(m),
        _ => false,
    }
}

pub open spec fn some_covers(m: Seq<(Seq<char>, JsonView)>) -> bool {
    exists|i: int| 0 <= i < m.len() && covers_experts(#[trigger] m[i])
}

/// The finding on the routed experts, from the algorithm in lower case, whether the block
/// gives a `weight_block_size`, and whether the per-layer map covers the experts.
pub open spec fn experts_finding(algo: Seq<char>, blocked: bool, covered: bool) -> Option<
    (Level, Seq<char>),
> {
    if occurs(algo, "fp4"@) || (algo == "fp8"@ && blocked) {
        None
    } else if occurs(algo, "mixed"@) && !covered {
        Some(
            (
                Level::Caution,
                "the checkpoint is a MIXED_PRECISION export but its quantized_layers map lists                  no .mlp.experts entry, so FreeToken reads the routed experts as unquantized.                  If the tensors are in fact quantized, the loader rejects the checkpoint for                  disagreeing with its own quant config"@,
            ),
        )
    } else {
        None
    }
}

pub open spec fn experts_note(quant: Option<JsonView>) -> Option<(Level, Seq<char>)> {
    match quant {
        None => None,
        Some(q) => experts_finding(
            quant_algo(q),
            q.get("weight_block_size"@) is Some,
            experts_covered(q),
        ),
    }
}

/// What `unresolvable_experts` returned.
pub open spec fn finding_view(found: Option<(Level, String)>) -> Option<(Level, Seq<char>)> {
    match found {
        Some((level, reason)) => Some((level, reason@)),
        None => None,
    }
}

fn word(quant: &Json, key: &str) -> (r: String)
    ensures
        r@ == quant_word(quant@, key@),
{
    to_lowercase(
        match quant.get(key) {
            Some(v) => match v.as_str() {
                Some(s) => s,
                None => "",
            },
            None => "",
        },
    )
}

/// Whether an entry of the per-layer map, named `module` and quantized with `algo`, in lower
/// case, covers routed experts.
pub fn resolves(module: &str, algo: &str) -> (r: bool)
    ensures
        r == resolves_experts(module@, algo@),
{
    (ends_with(module, ".mlp.experts") || contains(module, ".mlp.experts.")) && (contains(
        algo,
        "fp4",
    ) || contains(algo, "fp8"))
}

fn covers(name: &str, spec_of: &Json) -> (r: bool)
    ensures
        r == covers_experts((name@, spec_of@)),
{
    match spec_of.get("quant_algo") {
        Some(v) => match v.as_str() {
            Some(a) => resolves(name, to_lowercase(a).as_str()),
            None => false,
        },
        None => false,
    }
}

fn any_covers(quant: &Json) -> (r: bool)
    ensures
        r == experts_covered(quant@),
{
    let layers = match quant.get("quantized_layers") {
        Some(l) => l,
        None => {
            return false;
        },
    };
    match layers.as_object() {
        None => false,
        Some(m) => {
            let ghost all = layers@->Object_0;
            let mut i: usize = 0;
            while i < m.len()
                invariant
                    i <= m.len(),
                    quant@.get("quantized_layers"@) == Some(JsonView::Object(all)),
                    all.len() == m@.len(),
                    forall|j: int| 0 <= j < m@.len() ==> #[trigger] all[j] == (m@[j].0@, m@[j].1@),
                    forall|j: int| 0 <= j < i ==> !covers_experts(#[trigger] all[j]),
                decreases m.len() - i,
            {
                if covers(m[i].0.as_str(), &m[i].1) {
                    proof {
                        assert(all[i as int] == (m@[i as int].0@, m@[i as int].1@));
                        assert(covers_experts(all[i as int]));
                        assert(some_covers(all));
                    }
                    return true;
                }
                i = i + 1;
            }
            false
        },
    }
}

/// The severity and the reason, from the algorithm in lower case, whether the block gives a
/// `weight_block_size`, and whether the per-layer map covers the experts.
pub fn judge_experts(algo: &str, blocked: bool, covered: bool) -> (r: Option<(Level, String)>)
    ensures
        finding_view(r) == experts_finding(algo@, blocked, covered),
{
    // Block-FP8 and anything naming fp4 outright are recognized.
    if contains(algo, "fp4") || (same(algo, "fp8") && blocked) {
        return None;
    }
    // modelopt MIXED_PRECISION: the routed experts carry their own algo in a per-layer map.
    if contains(algo, "mixed") && !covered {
        return Some(
            (
                Level::Caution,
                "the checkpoint is a MIXED_PRECISION export but its quantized_layers map lists                  no .mlp.experts entry, so FreeToken reads the routed experts as unquantized.                  If the tensors are in fact quantized, the loader rejects the checkpoint for                  disagreeing with its own quant config".to_owned(),
            ),
        );
    }
    // compressed-tensors (llm-compressor) exports are read natively: the dialect declares
    // its own tensor names, so no family needs a table of its own.
    None
}

/// Whether FreeToken will struggle to resolve a MoE checkpoint's routed-expert
/// quantization.
///
/// A dialect is chosen from `quant_method`/`quant_algo`, and each module's scheme is then
/// looked up by name. compressed-tensors and plain modelopt exports both answer for
/// themselves, so the only shape still worth flagging is a modelopt `MIXED_PRECISION`
/// allow-list with no entry covering the experts: the checkpoint's own config saying the
/// experts are unquantized when its tensors are not.
///
/// Returns the severity and the reason, or `None` when the experts resolve or there is
/// not enough evidence to say.
pub fn unresolvable_experts(quant: Option<&Json>) -> (r: Option<(Level, String)>)
    ensures
        finding_view(r) == experts_note(opt_json(quant)),
{
    let q = match quant {
        Some(q) => q,
        None => {
            return None;
        },
    };
    let a = word(q, "quant_algo");
    let algo = if a.as_str().is_empty() {
        word(q, "quant_method")
    } else {
        a
    };
    judge_experts(algo.as_str(), q.get("weight_block_size").is_some(), any_covers(q))
}

/// A field of the config, or of its `text_config` when the config has none of that name.
pub open spec fn either_of(config: JsonView, key: Seq<char>) -> Option<JsonView> {
    match config.get(key) {
        Some(v) => Some(v),
        None => match config.get("text_config"@) {
            Some(t) => t.get(key),
            None => None,
        },
    }
}

/// The first architecture that the config declares.
pub open spec fn arch_of(config: JsonView) -> Option<Seq<char>> {
    match either_of(config, "architectures"@) {
        Some(JsonView::List(l)) => if l.len() > 0 {
            l[0].as_str()
        } else {
            None
        },
        _ => None,
    }
}

pub open spec fn str_of(config: JsonView, key: Seq<char>) -> Option<Seq<char>> {
    match field_of(config, key) {
        Some(v) => v.as_str(),
        None => None,
    }
}

/// The routed experts of a layer, under whichever of the three names comes first.
pub open spec fn experts_of(config: JsonView) -> Option<u64> {
    positive(
        match num_of(config, "num_experts"@) {
            Some(n) => Some(n),
            None => match num_of(config, "num_local_experts"@) {
                Some(n) => Some(n),
                None => num_of(config, "n_routed_experts"@),
            },
        },
    )
}

/// The architecture has `moe` in its name, in any case.
pub open spec fn named_moe(config: JsonView) -> bool {
    match arch_of(config) {
        Some(a) => occurs(lowercase(a), "moe"@),
        None => false,
    }
}

pub open spec fn block_word(q: JsonView, key: Seq<char>) -> Option<Seq<char>> {
    match q.get(key) {
        Some(v) => v.as_str(),
        None => None,
    }
}

/// The name of the quantization, under whichever of the three names comes first.
pub open spec fn quant_of(config: JsonView) -> Option<Seq<char>> {
    match either_of(config, "quantization_config"@) {
        None => None,
        Some(q) => match block_word(q, "format"@) {
            Some(s) => Some(s),
            None => match block_word(q, "quant_algo"@) {
                Some(s) => Some(s),
                None => block_word(q, "quant_method"@),
            },
        },
    }
}

/// The architecture: FreeToken's registry is the authority.
pub open spec fn arch_notes(arch: Option<Seq<char>>, known: Option<Seq<Seq<char>>>) -> Seq<
    (Level, Seq<char>),
> {
    match (arch, known) {
        (None, _) => seq![
            (
                Level::Blocker,
                "config.json declares no architecture; FreeToken cannot dispatch a loader"@,
            ),
        ],
        (Some(a), Some(k)) => if k.contains(a) {
            Seq::empty()
        } else {
            seq![(Level::Blocker, a + " is not in FreeToken's model registry"@)]
        },
        (Some(_), None) => seq![
            (
                Level::Caution,
                "could not consult FreeToken's model registry, so architecture support is unverified"@,
            ),
        ],
    }
}

pub open spec fn expert_notes(is_moe: bool, finding: Option<(Level, Seq<char>)>) -> Seq<
    (Level, Seq<char>),
> {
    match finding {
        Some(n) if is_moe => seq![n],
        _ => Seq::empty(),
    }
}

/// The download against the disk it goes to. FTW conversion writes a second full copy.
pub open spec fn disk_notes(download: u64, hw: Hardware) -> Seq<(Level, Seq<char>)> {
    if download == 0 || hw.free_disk_bytes == 0 {
        Seq::empty()
    } else if download > hw.free_disk_bytes {
        seq![
            (
                Level::Blocker,
                "needs "@ + bytes_text(download as nat) + " but only "@ + bytes_text(
                    hw.free_disk_bytes as nat,
                ) + " is free on the download filesystem"@,
            ),
        ]
    } else if 2 * download > hw.free_disk_bytes {
        seq![
            (
                Level::Caution,
                bytes_text(hw.free_disk_bytes as nat)
                    + " free leaves no room to also convert it to FTW, which writes a second copy of about "@
                    + bytes_text(download as nat),
            ),
        ]
    } else {
        Seq::empty()
    }
}

pub open spec fn ram_notes(download: u64, hw: Hardware) -> Seq<(Level, Seq<char>)> {
    if hw.host_ram_bytes > 0 && download > hw.host_ram_bytes {
        seq![
            (
                Level::Caution,
                "offloaded expert banks live in host RAM: "@ + bytes_text(download as nat)
                    + " of weights against "@ + bytes_text(hw.host_ram_bytes as nat)
                    + " of RAM"@,
            ),
        ]
    } else {
        Seq::empty()
    }
}

pub open spec fn offload_notes(download: u64, hw: Hardware) -> Seq<(Level, Seq<char>)> {
    if hw.vram_bytes > 0 && download > hw.vram_bytes {
        seq![
            (
                Level::Info,
                "larger than "@ + bytes_text(hw.vram_bytes as nat)
                    + " of VRAM, so it needs an offload MoE backend rather than fused"@,
            ),
        ]
    } else {
        Seq::empty()
    }
}

/// Dense models resolve to the resident backend, which has nowhere to spill.
pub open spec fn resident_notes(download: u64, hw: Hardware) -> Seq<(Level, Seq<char>)> {
    if hw.vram_bytes > 0 && download > hw.vram_bytes {
        seq![
            (
                Level::Blocker,
                "a dense model is served resident, and "@ + bytes_text(download as nat)
                    + " of weights does not fit in "@ + bytes_text(hw.vram_bytes as nat)
                    + " of VRAM"@,
            ),
        ]
    } else {
        Seq::empty()
    }
}

/// The weights against the memory they are served from.
pub open spec fn weight_notes(is_moe: bool, download: u64, hw: Hardware) -> Seq<
    (Level, Seq<char>),
> {
    if download == 0 {
        Seq::empty()
    } else if is_moe {
        ram_notes(download, hw) + offload_notes(download, hw)
    } else {
        resident_notes(download, hw)
    }
}

pub open spec fn is_deepseek(model_type: Option<Seq<char>>, arch: Option<Seq<char>>) -> bool {
    ||| match model_type {
        Some(m) => occurs(m, "deepseek"@),
        None => false,
    }
    ||| match arch {
        Some(a) => "DeepseekV4"@.is_prefix_of(a),
        None => false,
    }
}

pub open spec fn deepseek_notes(model_type: Option<Seq<char>>, arch: Option<Seq<char>>) -> Seq<
    (Level, Seq<char>),
> {
    if is_deepseek(model_type, arch) {
        seq![
            (
                Level::Caution,
                "DeepSeek-V4 reads its authoritative args from an inference/config.json subdirectory; make sure the repo ships one"@,
            ),
        ]
    } else {
        Seq::empty()
    }
}

/// The notes of one level, in their order.
pub open spec fn of_level(notes: Seq<(Level, Seq<char>)>, level: Level) -> Seq<(Level, Seq<char>)>
    decreases notes.len(),
{
    if notes.len() == 0 {
        Seq::empty()
    } else if notes.last().0 == level {
        of_level(notes.drop_last(), level).push(notes.last())
    } else {
        of_level(notes.drop_last(), level)
    }
}

/// The notes with the most severe first, and otherwise in their order.
pub open spec fn by_severity(notes: Seq<(Level, Seq<char>)>) -> Seq<(Level, Seq<char>)> {
    of_level(notes, Level::Blocker) + of_level(notes, Level::Caution) + of_level(
        notes,
        Level::Info,
    )
}

/// What is said of the cache, when the config prices one and there is a card.
pub open spec fn kv_part(
    config: JsonView,
    download: u64,
    hw: Hardware,
    wanted: Option<u64>,
) -> Option<((Level, Seq<char>), KvBudget)> {
    match geometry_of(config) {
        Some(kv) if hw.vram_bytes > 0 => {
            let ceiling = positive(num_of(config, "max_position_embeddings"@));
            let b = budget_of(kv, ceiling, download, hw.vram_bytes);
            Some((note_of(kv, ceiling, floor_of(wanted), b), b))
        },
        _ => None,
    }
}

/// The report on a config.
pub open spec fn report_of(
    config: JsonView,
    download: u64,
    known: Option<Seq<Seq<char>>>,
    hw: Hardware,
    wanted: Option<u64>,
) -> ReportView {
    report_with(
        config,
        named_moe(config),
        experts_note(either_of(config, "quantization_config"@)),
        download,
        known,
        hw,
        wanted,
    )
}

/// The report on a config whose architecture is named for a mixture of experts or not, with
/// what was found of its routed experts.
pub open spec fn report_with(
    config: JsonView,
    named: bool,
    finding: Option<(Level, Seq<char>)>,
    download: u64,
    known: Option<Seq<Seq<char>>>,
    hw: Hardware,
    wanted: Option<u64>,
) -> ReportView {
    let arch = arch_of(config);
    let model_type = str_of(config, "model_type"@);
    let is_moe = experts_of(config) is Some || named;
    let part = kv_part(config, download, hw, wanted);
    let notes = arch_notes(arch, known) + expert_notes(is_moe, finding) + disk_notes(download, hw)
        + weight_notes(is_moe, download, hw) + deepseek_notes(model_type, arch);
    ReportView {
        arch,
        model_type,
        is_moe,
        num_experts: experts_of(config),
        num_layers: num_of(config, "num_hidden_layers"@),
        quant: quant_of(config),
        context: num_of(config, "max_position_embeddings"@),
        kv: geometry_of(config),
        max_servable_context: match part {
            Some((_, b)) => b.servable,
            None => None,
        },
        context_is_upper_bound: match part {
            Some((_, b)) => b.unpriced.something(),
            None => false,
        },
        notes: by_severity(
            match part {
                Some((n, _)) => notes.push(n),
                None => notes,
            },
        ),
    }
}

fn either<'a>(config: &'a Json, key: &str) -> (r: Option<&'a Json>)
    ensures
        opt_json(r) == either_of(config@, key@),
{
    match config.get(key) {
        Some(v) => Some(v),
        None => match config.get("text_config") {
            Some(t) => t.get(key),
            None => None,
        },
    }
}

fn own(s: Option<&str>) -> (r: Option<String>)
    ensures
        opt_text(r) == (match s {
            Some(t) => Some(t@),
            None => None,
        }),
{
    match s {
        Some(t) => Some(t.to_owned()),
        None => None,
    }
}

fn read_arch(config: &Json) -> (r: Option<String>)
    ensures
        opt_text(r) == arch_of(config@),
{
    match either(config, "architectures") {
        None => None,
        Some(v) => match v.as_array() {
            None => None,
            Some(l) => {
                if l.len() > 0 {
                    assert(v@->List_0[0] == l@[0]@);
                    own(l[0].as_str())
                } else {
                    None
                }
            },
        },
    }
}

fn read_experts(config: &Json) -> (r: Option<u64>)
    ensures
        r == experts_of(config@),
{
    above_zero(
        match num(config, "num_experts") {
            Some(n) => Some(n),
            None => match num(config, "num_local_experts") {
                Some(n) => Some(n),
                None => num(config, "n_routed_experts"),
            },
        },
    )
}

fn read_block_word(q: &Json, key: &str) -> (r: Option<String>)
    ensures
        opt_text(r) == block_word(q@, key@),
{
    match q.get(key) {
        Some(v) => own(v.as_str()),
        None => None,
    }
}

fn read_quant(config: &Json) -> (r: Option<String>)
    ensures
        opt_text(r) == quant_of(config@),
{
    match either(config, "quantization_config") {
        None => None,
        Some(q) => match read_block_word(q, "format") {
            Some(s) => Some(s),
            None => match read_block_word(q, "quant_algo") {
                Some(s) => Some(s),
                None => read_block_word(q, "quant_method"),
            },
        },
    }
}

fn add_note(notes: &mut Vec<(Level, String)>, level: Level, text: String)
    ensures
        note_views(final(notes)@) == note_views(old(notes)@).push((level, text@)),
{
    let ghost before = notes@;
    notes.push((level, text));
    assert(note_views(notes@) =~= note_views(before).push((level, text@)));
}

fn judge_arch(notes: &mut Vec<(Level, String)>, arch: &Option<String>, known: Option<&Vec<String>>)
    ensures
        note_views(final(notes)@) == note_views(old(notes)@) + arch_notes(
            opt_text(*arch),
            match known {
                Some(k) => Some(texts(k@)),
                None => None,
            },
        ),
{
    let ghost before = note_views(notes@);
    assert(before + Seq::empty() =~= before);
    match arch {
        None => {
            add_note(
                notes,
                Level::Blocker,
                "config.json declares no architecture; FreeToken cannot dispatch a loader".to_owned(),
            );
        },
        Some(a) => match known {
            Some(k) => {
                if !listed(a.as_str(), k) {
                    add_note(
                        notes,
                        Level::Blocker,
                        cat2(a.as_str(), " is not in FreeToken's model registry"),
                    );
                }
            },
            None => {
                add_note(
                    notes,
                    Level::Caution,
                    "could not consult FreeToken's model registry, so architecture support is unverified".to_owned(),
                );
            },
        },
    }
    assert(note_views(notes@) =~= before + arch_notes(
        opt_text(*arch),
        match known {
            Some(k) => Some(texts(k@)),
            None => None,
        },
    ));
}

fn judge_disk(notes: &mut Vec<(Level, String)>, download: u64, hw: Hardware)
    ensures
        note_views(final(notes)@) == note_views(old(notes)@) + disk_notes(download, hw),
{
    let ghost before = note_views(notes@);
    if download == 0 || hw.free_disk_bytes == 0 {
    } else if download > hw.free_disk_bytes {
        let mut s = "needs ".to_owned();
        s.append(bytes(download).as_str());
        s.append(" but only ");
        s.append(bytes(hw.free_disk_bytes).as_str());
        s.append(" is free on the download filesystem");
        add_note(notes, Level::Blocker, s);
    } else if 2 * (download as u128) > hw.free_disk_bytes as u128 {
        let mut s = bytes(hw.free_disk_bytes);
        s.append(
            " free leaves no room to also convert it to FTW, which writes a second copy of about ",
        );
        s.append(bytes(download).as_str());
        add_note(notes, Level::Caution, s);
    }
    assert(note_views(notes@) =~= before + disk_notes(download, hw));
}

fn judge_weights(notes: &mut Vec<(Level, String)>, is_moe: bool, download: u64, hw: Hardware)
    ensures
        note_views(final(notes)@) == note_views(old(notes)@) + weight_notes(is_moe, download, hw),
{
    let ghost before = note_views(notes@);
    if download == 0 {
    } else if is_moe {
        if hw.host_ram_bytes > 0 && download > hw.host_ram_bytes {
            let mut s = "offloaded expert banks live in host RAM: ".to_owned();
            s.append(bytes(download).as_str());
            s.append(" of weights against ");
            s.append(bytes(hw.host_ram_bytes).as_str());
            s.append(" of RAM");
            add_note(notes, Level::Caution, s);
        }
        assert(note_views(notes@) =~= before + ram_notes(download, hw));
        if hw.vram_bytes > 0 && download > hw.vram_bytes {
            let mut s = "larger than ".to_owned();
            s.append(bytes(hw.vram_bytes).as_str());
            s.append(" of VRAM, so it needs an offload MoE backend rather than fused");
            add_note(notes, Level::Info, s);
        }
    } else if hw.vram_bytes > 0 && download > hw.vram_bytes {
        let mut s = "a dense model is served resident, and ".to_owned();
        s.append(bytes(download).as_str());
        s.append(" of weights does not fit in ");
        s.append(bytes(hw.vram_bytes).as_str());
        s.append(" of VRAM");
        add_note(notes, Level::Blocker, s);
    }
    assert(note_views(notes@) =~= before + weight_notes(is_moe, download, hw));
}

fn judge_deepseek(
    notes: &mut Vec<(Level, String)>,
    model_type: &Option<String>,
    arch: &Option<String>,
)
    ensures
        note_views(final(notes)@) == note_views(old(notes)@) + deepseek_notes(
            opt_text(*model_type),
            opt_text(*arch),
        ),
{
    let ghost before = note_views(notes@);
    let by_type = match model_type {
        Some(m) => contains(m.as_str(), "deepseek"),
        None => false,
    };
    let by_arch = match arch {
        Some(a) => starts_with(a.as_str(), "DeepseekV4"),
        None => false,
    };
    if by_type || by_arch {
        add_note(
            notes,
            Level::Caution,
            "DeepSeek-V4 reads its authoritative args from an inference/config.json subdirectory; make sure the repo ships one".to_owned(),
        );
    }
    assert(note_views(notes@) =~= before + deepseek_notes(opt_text(*model_type), opt_text(*arch)));
}

/// Copies the notes of one level behind `out`.
fn pick(notes: &Vec<(Level, String)>, level: Level, out: &mut Vec<(Level, String)>)
    ensures
        note_views(final(out)@) == note_views(old(out)@) + of_level(note_views(notes@), level),
{
    let ghost all = note_views(notes@);
    let ghost before = note_views(out@);
    let mut i: usize = 0;
    assert(all.take(0) =~= Seq::<(Level, Seq<char>)>::empty());
    assert(before + of_level(all.take(0), level) =~= before);
    while i < notes.len()
        invariant
            i <= notes.len(),
            all == note_views(notes@),
            note_views(out@) == before + of_level(all.take(i as int), level),
        decreases notes.len() - i,
    {
        assert(all.take(i + 1).drop_last() =~= all.take(i as int));
        assert(all.take(i + 1).last() == all[i as int]);
        if notes[i].0 == level {
            add_note(out, level, notes[i].1.clone());
            assert((before + of_level(all.take(i as int), level)).push(all[i as int]) =~= before + (
            of_level(all.take(i as int), level).push(all[i as int])));
        }
        i = i + 1;
    }
    assert(all.take(i as int) =~= all);
}

/// `evaluate`, given whether the architecture is named for a mixture of experts and what
/// was found of the routed experts.
pub fn evaluate_with(
    config: &Json,
    named: bool,
    experts: Option<(Level, String)>,
    download_bytes: u64,
    supported_archs: Option<&Vec<String>>,
    hw: Hardware,
    wanted_context: Option<u64>,
) -> (r: Report)
    requires
        row_fits(config@),
    ensures
        r@ == report_with(
            config@,
            named,
            finding_view(experts),
            download_bytes,
            match supported_archs {
                Some(k) => Some(texts(k@)),
                None => None,
            },
            hw,
            wanted_context,
        ),
{
    let ghost finding = finding_view(experts);
    let arch = read_arch(config);
    let model_type = match field(config, "model_type") {
        Some(v) => own(v.as_str()),
        None => None,
    };
    let num_layers = num(config, "num_hidden_layers");
    let context = num(config, "max_position_embeddings");
    let num_experts = read_experts(config);
    let is_moe = num_experts.is_some() || named;
    let quant = read_quant(config);
    let mut notes: Vec<(Level, String)> = Vec::new();
    assert(note_views(notes@) =~= Seq::<(Level, Seq<char>)>::empty());
    judge_arch(&mut notes, &arch, supported_archs);
    let ghost n1 = note_views(notes@);
    // What remains of the expert check is the one case a config can still get wrong on its
    // own terms: a modelopt MIXED_PRECISION allow-list that never names the experts.
    if is_moe {
        if let Some((level, reason)) = experts {
            add_note(&mut notes, level, reason);
        }
    }
    assert(note_views(notes@) =~= n1 + expert_notes(is_moe, finding));
    judge_disk(&mut notes, download_bytes, hw);
    judge_weights(&mut notes, is_moe, download_bytes, hw);
    judge_deepseek(&mut notes, &model_type, &arch);
    // The cache is the wall that weights offload past and the cache cannot. It is judged
    // also without a download size: the per-token cost comes from the config alone, so it
    // is knowable before the file listing has landed.
    let kv = kv_geometry(config);
    let mut max_servable_context: Option<u64> = None;
    let mut context_is_upper_bound = false;
    if let Some(g) = &kv {
        if hw.vram_bytes > 0 {
            let ceiling = above_zero(context);
            let budget = kv_budget(g, ceiling, download_bytes, hw.vram_bytes);
            let (level, msg) = kv_note(g, ceiling, KvFloor::new(wanted_context), &budget);
            max_servable_context = budget.servable;
            context_is_upper_bound = budget.unpriced.any();
            add_note(&mut notes, level, msg);
        }
    }
    // Most severe first: the blocker must be the first thing read.
    let mut sorted: Vec<(Level, String)> = Vec::new();
    assert(note_views(sorted@) =~= Seq::<(Level, Seq<char>)>::empty());
    pick(&notes, Level::Blocker, &mut sorted);
    pick(&notes, Level::Caution, &mut sorted);
    pick(&notes, Level::Info, &mut sorted);
    assert(note_views(sorted@) =~= by_severity(note_views(notes@)));
    let r = Report {
        arch,
        model_type,
        is_moe,
        num_experts,
        num_layers,
        quant,
        context,
        kv,
        max_servable_context,
        context_is_upper_bound,
        notes: sorted,
    };
    assert(r@.notes == report_with(
        config@,
        named,
        finding,
        download_bytes,
        match supported_archs {
            Some(k) => Some(texts(k@)),
            None => None,
        },
        hw,
        wanted_context,
    ).notes);
    r
}

/// Evaluate a repo from its config and the size of the files that would be downloaded.
///
/// `supported_archs` is FreeToken's own registry; `None` means it could not be consulted,
/// which is reported rather than guessed at.
///
/// `wanted_context` is the reader's own `--kv-reserve-tokens`, when they have set one. It
/// is what the KV blocker is judged against, so the verdict answers the context this
/// reader actually serves rather than a floor paddock picked on their behalf.
pub fn evaluate(
    config: &Json,
    download_bytes: u64,
    supported_archs: Option<&Vec<String>>,
    hw: Hardware,
    wanted_context: Option<u64>,
) -> (r: Report)
    requires
        row_fits(config@),
    ensures
        r@ == report_of(
            config@,
            download_bytes,
            match supported_archs {
                Some(k) => Some(texts(k@)),
                None => None,
            },
            hw,
            wanted_context,
        ),
{
    let named = match read_arch(config) {
        Some(a) => contains(to_lowercase(a.as_str()).as_str(), "moe"),
        None => false,
    };
    let experts = unresolvable_experts(either(config, "quantization_config"));
    evaluate_with(config, named, experts, download_bytes, supported_archs, hw, wanted_context)
}

/// Read a repo's `config.json` for judging it.
pub fn read_config(raw: &str) -> (r: Result<Json, String>)
    ensures
        match (r, json_of(raw@)) {
            (Ok(j), Ok(v)) => j@ == v,
            (Err(e), Err(why)) => e@ == "config.json is not JSON: "@ + why,
            _ => false,
        },
{
    config_reading(parse_json(raw))
}

/// A reading of `config.json`, with an error that says which file it is about.
pub fn config_reading(read: Result<Json, String>) -> (r: Result<Json, String>)
    ensures
        match (read, r) {
            (Ok(j), Ok(k)) => j == k,
            (Err(why), Err(e)) => e@ == "config.json is not JSON: "@ + why@,
            _ => false,
        },
{
    match read {
        Ok(j) => Ok(j),
        Err(e) => Err(cat2("config.json is not JSON: ", e.as_str())),
    }
}

// ---------------------------------------------------------------- laws of a report

pub open spec fn severity(level: Level) -> int {
    match level {
        Level::Info => 0,
        Level::Caution => 1,
        Level::Blocker => 2,
    }
}

proof fn lemma_of_level(notes: Seq<(Level, Seq<char>)>, level: Level)
    ensures
        forall|i: int|
            0 <= i < of_level(notes, level).len() ==> (#[trigger] of_level(notes, level)[i]).0
                == level,
        forall|n: (Level, Seq<char>)| #[trigger]
            of_level(notes, level).contains(n) <==> n.0 == level && notes.contains(n),
    decreases notes.len(),
{
    if notes.len() > 0 {
        let head = notes.drop_last();
        lemma_of_level(head, level);
        let p = of_level(head, level);
        assert forall|n: (Level, Seq<char>)| #[trigger]
            of_level(notes, level).contains(n) <==> n.0 == level && notes.contains(n) by {
            assert(notes.contains(n) <==> head.contains(n) || n == notes.last()) by {
                if notes.contains(n) {
                    let k = notes.index_of(n);
                    assert(notes[k] == n);
                    if k < head.len() {
                        assert(head[k] == n);
                    }
                }
                if head.contains(n) {
                    let k = head.index_of(n);
                    assert(notes[k] == n);
                }
                assert(notes[notes.len() - 1] == notes.last());
            }
            if notes.last().0 == level {
                assert(p.push(notes.last()).contains(n) <==> p.contains(n) || n == notes.last())
                    by {
                    if p.push(notes.last()).contains(n) {
                        let k = p.push(notes.last()).index_of(n);
                        assert(p.push(notes.last())[k] == n);
                        if k < p.len() {
                            assert(p[k] == n);
                        }
                    }
                    if p.contains(n) {
                        let k = p.index_of(n);
                        assert(p.push(notes.last())[k] == n);
                    }
                    assert(p.push(notes.last())[p.len() as int] == notes.last());
                }
            }
        }
    }
}

proof fn lemma_levels_add_up(notes: Seq<(Level, Seq<char>)>)
    ensures
        of_level(notes, Level::Blocker).len() + of_level(notes, Level::Caution).len() + of_level(
            notes,
            Level::Info,
        ).len() == notes.len(),
    decreases notes.len(),
{
    if notes.len() > 0 {
        lemma_levels_add_up(notes.drop_last());
    }
}

/// The most severe note comes first, none is lost and none is made up.
pub proof fn law_notes_stand_most_severe_first(notes: Seq<(Level, Seq<char>)>)
    ensures
        forall|i: int, j: int|
            0 <= i < j < by_severity(notes).len() ==> severity((#[trigger] by_severity(notes)[i]).0)
                >= severity((#[trigger] by_severity(notes)[j]).0),
        by_severity(notes).len() == notes.len(),
        forall|n: (Level, Seq<char>)| #[trigger]
            by_severity(notes).contains(n) <==> notes.contains(n),
{
    let b = of_level(notes, Level::Blocker);
    let c = of_level(notes, Level::Caution);
    let f = of_level(notes, Level::Info);
    lemma_of_level(notes, Level::Blocker);
    lemma_of_level(notes, Level::Caution);
    lemma_of_level(notes, Level::Info);
    lemma_levels_add_up(notes);
    let s = by_severity(notes);
    assert forall|i: int| 0 <= i < s.len() implies (#[trigger] s[i]).0 == (if i < b.len() {
        Level::Blocker
    } else if i < b.len() + c.len() {
        Level::Caution
    } else {
        Level::Info
    }) by {
        if i < b.len() {
            assert(s[i] == b[i]);
        } else if i < b.len() + c.len() {
            assert(s[i] == c[i - b.len()]);
        } else {
            assert(s[i] == f[i - b.len() - c.len()]);
        }
    }
    assert forall|n: (Level, Seq<char>)| #[trigger] s.contains(n) <==> notes.contains(n) by {
        if s.contains(n) {
            let k = s.index_of(n);
            assert(s[k] == n);
            if k < b.len() {
                assert(b[k] == n);
                assert(b.contains(n));
            } else if k < b.len() + c.len() {
                assert(c[k - b.len()] == n);
                assert(c.contains(n));
            } else {
                assert(f[k - b.len() - c.len()] == n);
                assert(f.contains(n));
            }
        }
        if notes.contains(n) {
            match n.0 {
                Level::Blocker => {
                    assert(b.contains(n));
                    let k = b.index_of(n);
                    assert(s[k] == n);
                },
                Level::Caution => {
                    assert(c.contains(n));
                    let k = c.index_of(n);
                    assert(s[b.len() + k] == n);
                },
                Level::Info => {
                    assert(f.contains(n));
                    let k = f.index_of(n);
                    assert(s[b.len() + c.len() + k] == n);
                },
            }
        }
    }
}

/// A report never promises more context than the checkpoint declares.
pub proof fn law_context_is_never_advertised_past_the_ceiling(
    config: JsonView,
    download: u64,
    known: Option<Seq<Seq<char>>>,
    hw: Hardware,
    wanted: Option<u64>,
)
    ensures
        ({
            let r = report_of(config, download, known, hw, wanted);
            r.context is Some && r.context->0 > 0 && r.max_servable_context is Some
                ==> r.max_servable_context->0 <= r.context->0
        }),
{
}

/// Without a card there is no claim about context.
pub proof fn law_no_card_no_context_claim(
    config: JsonView,
    download: u64,
    known: Option<Seq<Seq<char>>>,
    hw: Hardware,
    wanted: Option<u64>,
)
    requires
        hw.vram_bytes == 0,
    ensures
        report_of(config, download, known, hw, wanted).max_servable_context is None,
        !report_of(config, download, known, hw, wanted).context_is_upper_bound,
{
}

/// Where nothing grows with the conversation there is no claim about context either: KV is
/// not the binding limit, whatever the card and however small its budget.
pub proof fn law_nothing_growing_no_context_claim(
    config: JsonView,
    download: u64,
    known: Option<Seq<Seq<char>>>,
    hw: Hardware,
    wanted: Option<u64>,
)
    requires
        geometry_of(config) is Some,
        geometry_of(config)->0.bytes_per_token == 0,
    ensures
        report_of(config, download, known, hw, wanted).max_servable_context is None,
{
}

/// A config without an architecture, or with one that the registry does not know, is a
/// blocker, whatever else it says.
pub proof fn law_an_unknown_architecture_blocks(
    config: JsonView,
    download: u64,
    known: Option<Seq<Seq<char>>>,
    hw: Hardware,
    wanted: Option<u64>,
)
    requires
        arch_of(config) is None || (known is Some && !known->0.contains(arch_of(config)->0)),
    ensures
        some_note(report_of(config, download, known, hw, wanted).notes, Level::Blocker),
{
    let arch = arch_of(config);
    let r = report_of(config, download, known, hw, wanted);
    let part = kv_part(config, download, hw, wanted);
    let is_moe = experts_of(config) is Some || named_moe(config);
    let finding = experts_note(either_of(config, "quantization_config"@));
    let rest = arch_notes(arch, known) + expert_notes(is_moe, finding) + disk_notes(download, hw)
        + weight_notes(is_moe, download, hw) + deepseek_notes(
        str_of(config, "model_type"@),
        arch,
    );
    let all = match part {
        Some((n, _)) => rest.push(n),
        None => rest,
    };
    let first = arch_notes(arch, known)[0];
    assert(all[0] == first);
    law_notes_stand_most_severe_first(all);
    assert(all.contains(first));
    assert(r.notes.contains(first));
    let k = r.notes.index_of(first);
    assert(r.notes[k] == first);
}

} // verus!
