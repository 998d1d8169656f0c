//! Deciding how to serve a model on this machine, and saying why.
//!
//! FreeToken resolves nearly everything itself. The two places it deliberately does not
//! are the two that decide whether a serve is fast and whether it can use the context the
//! checkpoint advertises:
//!
//! **The cache split is MoE-first, and the loser is silent.** With `--moe-cache-auto`, on
//! by default for every offload-family backend, `plan_cache_budget` reserves
//! `--kv-reserve-tokens` (default 8192) for KV, lets the expert cache greedily take the
//! rest, and gives KV whatever survives. The engine then sets
//! `max_seq_len = min(model_ceiling, num_pages * page_size)` with no warning, while
//! `/v1/models` keeps advertising the model ceiling on purpose. So a 256k checkpoint can
//! serve 8k and nothing anywhere says so. The lever back is `--kv-reserve-tokens`: set it
//! to the context you actually want and the MoE-first split reserves that first.
//!
//! **`--moe-backend auto` never picks `fused`**, because the engine cannot know whether
//! the experts would fit in HBM and a wrong guess is a weight-load OOM rather than a
//! slower-but-working run.
//!
//! Everything here is integer arithmetic over quantities the engine has already measured
//! and published. A plan is built only from a [`Costs`] the engine reported, and its
//! absence is reported rather than guessed around.

use vstd::prelude::*;
use vstd::string::*;
use crate::ft::types::{at_least_one, or_one, BenchProfile, CacheGeometry};
use crate::knobs::{
    after_set, clears, excluded_by, find_knob, flag_of, is_on, knob, place_of, schema_place,
    value_of, ServeConfig,
};
use crate::models::{extension, extension_of, newest, newest_snapshot};
use crate::paths::{join as join_path, joined_path};
use crate::text::{
    cat2, cat3, cat4, dec, decimal, is_text, law_a_numeral_reads_back,
    lemma_dec_starts_with_a_digit, lowercase, opt_str, opt_text, parse_u64, same, to_lowercase,
    unsigned_of,
};
use crate::text_map::TextMap;
use crate::util::{
    above_half, as_double, bytes, bytes_text, is_above_half, larger, less, max, min, nearest_double,
    one_decimal, percent, percent_of, sat_mul, sat_sub, saturated, show_tenths, smaller, wide_mul,
};

verus! {

/// FreeToken's own default for `--kv-reserve-tokens`: the KV floor the MoE-first split
/// holds back before experts take the rest.
pub const DEFAULT_KV_RESERVE_TOKENS: u64 = 8192;

// ---------------------------------------------------------------- costs

/// The per-unit VRAM costs a plan is priced against, exactly as the engine reported them.
///
/// Every field here comes from `GET /v1/cache/status`; none of it is derived from a
/// checkpoint on disk. The per-token KV cost depends on the attention group layout, the
/// cache dtype, the TP shard and any sliding-window split, and the per-expert cost depends
/// on the packed quantization format. Asking the engine once and remembering the answer is
/// both exact and stable across upgrades.
#[derive(Debug, Clone, Copy, PartialEq, Eq, Default, Structural)]
pub struct Costs {
    /// The engine's net VRAM budget for the MoE and KV pools together, after weights and
    /// the fixed (non-paged) cache, before the `(1 - memory_ratio)` graph headroom.
    pub cache_budget_bytes: u64,
    pub kv_bytes_per_token: u64,
    pub moe_bytes_per_expert: u64,
    /// KV page granularity. Usable context is `num_pages * page_size`.
    pub page_size: u64,
    /// Per-layer expert count, the floor unit for the slot cache.
    pub experts_per_layer: u64,
    /// Every expert slot the model has, the ceiling for the MoE cache.
    pub total_experts: u64,
    /// Bytes one GDN (linear-attention) state slot occupies. Zero for a model without a
    /// linear group. These are big, tens of MiB each, so the pool is not a rounding error.
    pub mamba_bytes_per_slot: u64,
    /// PHYSICAL state slots, which is one more than the geometry reports: the padding
    /// sink is allocated but is not a usable slot, and it still costs VRAM.
    pub mamba_slots: u64,
}

impl Costs {
    /// A token and a page cost something, so that a budget can be divided by them.
    pub open spec fn priced(self) -> bool {
        self.kv_bytes_per_token > 0 && self.page_size > 0
    }

    pub open spec fn moe(self) -> bool {
        self.moe_bytes_per_expert > 0 && self.total_experts > 0
    }

    pub open spec fn hybrid_linear(self) -> bool {
        self.mamba_bytes_per_slot > 0 && self.mamba_slots > 0
    }

    pub open spec fn state_bytes(self) -> nat {
        saturated(self.mamba_slots * self.mamba_bytes_per_slot)
    }

    /// What the state pool leaves of the budget.
    pub open spec fn net(self) -> nat {
        less(self.cache_budget_bytes as int, self.mamba_slots * self.mamba_bytes_per_slot)
    }

    /// The context that is left once `slots` experts are resident, in whole pages.
    pub open spec fn context_at(self, slots: nat) -> nat {
        less(self.net() as int, (slots * self.moe_bytes_per_expert) as int)
            / self.kv_bytes_per_token as nat / self.page_size as nat * self.page_size as nat
    }

    /// The most experts that leave room for `tokens` of context.
    pub open spec fn slots_at(self, tokens: nat) -> Option<nat> {
        let kv = (tokens * self.kv_bytes_per_token) as nat;
        if kv > self.net() {
            None
        } else if !self.moe() {
            Some(0)
        } else {
            Some(
                min(
                    ((self.net() - kv) as nat) / self.moe_bytes_per_expert as nat,
                    self.total_experts as nat,
                ),
            )
        }
    }

    /// The smallest expert cache the engine will build.
    pub open spec fn floor(self, prefill_overlap: bool) -> nat {
        if !self.moe() {
            0
        } else {
            min(
                if prefill_overlap {
                    2 * self.experts_per_layer as nat
                } else {
                    self.experts_per_layer as nat
                },
                self.total_experts as nat,
            )
        }
    }

    /// The largest context this budget can serve.
    pub open spec fn reach(self, prefill_overlap: bool) -> nat {
        self.context_at(self.floor(prefill_overlap))
    }

    /// Read the costs off a live engine's geometry.
    ///
    /// `None` when the engine has not published its `unit_bytes` ack yet: a server that
    /// is still loading answers `/v1/cache/status` with zeros, and pricing a plan against
    /// a zero divides by it.
    pub fn from_geometry(geo: &CacheGeometry) -> (r: Option<Self>)
        requires
            geo.counted(),
            geo.num_mamba_slots < u64::MAX,
        ensures
            r == (if geo.unit_bytes.kv_per_token == 0 || geo.cache_budget_bytes == 0 {
                None
            } else {
                Some(
                    Costs {
                        cache_budget_bytes: geo.cache_budget_bytes,
                        kv_bytes_per_token: geo.unit_bytes.kv_per_token,
                        moe_bytes_per_expert: geo.unit_bytes.moe_per_expert,
                        page_size: at_least_one(geo.page_size) as u64,
                        experts_per_layer: geo.num_experts,
                        total_experts: geo.experts() as u64,
                        mamba_bytes_per_slot: geo.unit_bytes.mamba_per_slot,
                        mamba_slots: if geo.num_mamba_slots > 0 {
                            (geo.num_mamba_slots + 1) as u64
                        } else {
                            0
                        },
                    },
                )
            }),
            r is Some ==> r->0.priced(),
    {
        let u = &geo.unit_bytes;
        if u.kv_per_token == 0 || geo.cache_budget_bytes == 0 {
            return None;
        }
        Some(
            Costs {
                cache_budget_bytes: geo.cache_budget_bytes,
                kv_bytes_per_token: u.kv_per_token,
                moe_bytes_per_expert: u.moe_per_expert,
                page_size: or_one(geo.page_size),
                experts_per_layer: geo.num_experts,
                total_experts: geo.total_experts(),
                mamba_bytes_per_slot: u.mamba_per_slot,
                // The geometry reports usable slots; the pool also allocates a padding sink.
                mamba_slots: if geo.num_mamba_slots > 0 {
                    geo.num_mamba_slots + 1
                } else {
                    0
                },
            },
        )
    }

    /// True when the model has an expert cache competing with KV for the budget. A dense
    /// model hands the whole budget to KV and none of the MoE trade-off applies.
    pub fn is_moe(&self) -> (r: bool)
        ensures
            r == self.moe(),
    {
        self.moe_bytes_per_expert > 0 && self.total_experts > 0
    }

    /// True when the model carries a GDN/linear-attention state pool.
    pub fn is_hybrid_linear(&self) -> (r: bool)
        ensures
            r == self.hybrid_linear(),
    {
        self.mamba_bytes_per_slot > 0 && self.mamba_slots > 0
    }

    /// VRAM the GDN state pool occupies.
    pub fn mamba_bytes(&self) -> (r: u64)
        ensures
            r == self.state_bytes(),
    {
        sat_mul(self.mamba_slots, self.mamba_bytes_per_slot)
    }

    /// What is actually left for the MoE and KV pools.
    ///
    /// `cache_budget_bytes` is the engine's total for *every* paged pool, and on a
    /// hybrid-linear model the GDN state pool is one of them: the engine subtracts it
    /// before solving for KV. Pricing context against the gross budget overstates it by
    /// the whole state pool.
    pub fn net_budget(&self) -> (r: u64)
        ensures
            r == self.net(),
    {
        sat_sub(self.cache_budget_bytes, self.mamba_bytes())
    }

    /// The same costs with the state pool resized, as a different
    /// `--max-running-requests` would size it.
    pub fn with_mamba_slots(&self, slots: u64) -> (r: Self)
        ensures
            r == (Costs { mamba_slots: slots, ..*self }),
    {
        Costs { mamba_slots: slots, ..*self }
    }

    /// Context, in tokens, that the budget affords once `slots` experts are resident.
    /// Nothing when the slots alone overrun the budget.
    pub fn context_for_slots(&self, slots: u64) -> (r: u64)
        requires
            self.priced(),
        ensures
            r == self.context_at(slots as nat),
    {
        let spent = sat_mul(slots, self.moe_bytes_per_expert);
        let left = sat_sub(self.net_budget(), spent);
        let tokens = left / self.kv_bytes_per_token;
        // Context is only usable a whole page at a time.
        assert(tokens / self.page_size * self.page_size <= tokens) by (nonlinear_arith)
            requires
                self.page_size > 0,
        ;
        tokens / self.page_size * self.page_size
    }

    /// The most experts that can stay resident while still leaving room for `tokens` of
    /// context, clamped to what the model actually has.
    ///
    /// `None` when the budget cannot hold that much context at any slot count: the caller
    /// reports the ceiling instead of pretending a plan exists.
    pub fn slots_for_context(&self, tokens: u64) -> (r: Option<u64>)
        ensures
            r is Some == self.slots_at(tokens as nat) is Some,
            r is Some ==> r->0 == self.slots_at(tokens as nat)->0,
    {
        let kv_bytes = wide_mul(tokens, self.kv_bytes_per_token);
        let net = self.net_budget();
        if kv_bytes > net as u128 {
            return None;
        }
        let left: u64 = net - kv_bytes as u64;
        if !self.is_moe() {
            return Some(0);
        }
        Some(smaller(left / self.moe_bytes_per_expert, self.total_experts))
    }

    /// The smallest expert cache the engine will build.
    ///
    /// One full layer of experts, doubled when prefill overlap is on: the overlap borrows
    /// two whole expert-layer buffers, so it raises the floor and therefore lowers the
    /// context that can be reached. This is why `--disable-moe-prefill-overlap` is
    /// sometimes what buys the last of the context.
    pub fn floor_slots(&self, prefill_overlap: bool) -> (r: u64)
        ensures
            r == self.floor(prefill_overlap),
    {
        if !self.is_moe() {
            return 0;
        }
        let floor = if prefill_overlap {
            sat_mul(2, self.experts_per_layer)
        } else {
            self.experts_per_layer
        };
        smaller(floor, self.total_experts)
    }

    /// The largest context this budget can serve, which is what is left once the expert
    /// cache is squeezed to its floor.
    pub fn max_context(&self, prefill_overlap: bool) -> (r: u64)
        requires
            self.priced(),
        ensures
            r == self.reach(prefill_overlap),
    {
        self.context_for_slots(self.floor_slots(prefill_overlap))
    }
}

// ---------------------------------------------------------------- context fit

/// What the engine will actually serve against what the checkpoint claims.
///
/// The two numbers are different and nothing else puts them side by side: `usable` is
/// `num_pages * page_size` and `ceiling` is what `/v1/models` reports.
#[derive(Debug, Clone, Copy, PartialEq, Eq, Structural)]
pub struct ContextFit {
    pub usable: u64,
    pub ceiling: u64,
}

impl ContextFit {
    /// Compare a live geometry against the served model's advertised context.
    ///
    /// `None` when either number is missing: a server still loading has published neither,
    /// and "0 of 0 tokens" is a worse thing to show than nothing.
    pub fn measure(geo: &CacheGeometry, ceiling: u64) -> (r: Option<Self>)
        ensures
            r == ({
                let usable = geo.num_pages * at_least_one(geo.page_size);
                if 0 < usable <= u64::MAX && ceiling > 0 {
                    Some(ContextFit { usable: usable as u64, ceiling })
                } else {
                    None
                }
            }),
    {
        let usable = wide_mul(geo.num_pages, or_one(geo.page_size));
        if 0 < usable && usable <= u64::MAX as u128 && ceiling > 0 {
            Some(ContextFit { usable: usable as u64, ceiling })
        } else {
            None
        }
    }

    /// True when the engine will refuse prompts the model's own card says it accepts.
    pub fn is_truncated(&self) -> (r: bool)
        ensures
            r == (self.usable < self.ceiling),
    {
        self.usable < self.ceiling
    }

    /// How much of the advertised context is really there: a part and the whole.
    pub fn share(&self) -> (r: (u64, u64))
        ensures
            r == (min(self.usable as nat, self.ceiling as nat) as u64, self.ceiling),
    {
        (smaller(self.usable, self.ceiling), self.ceiling)
    }

    /// A short phrase for a status line: `"32k of 256k"`.
    pub fn summary(&self) -> (r: String)
        ensures
            r@ == tokens_text(self.usable as nat) + " of "@ + tokens_text(self.ceiling as nat),
    {
        cat3(tokens(self.usable).as_str(), " of ", tokens(self.ceiling).as_str())
    }
}

/// A token count in units of 1024 or of 1024 times 1024: whole where it is a multiple, to
/// one decimal where it is not.
pub open spec fn tokens_text(n: nat) -> Seq<char> {
    if n >= 0x10_0000 && n % 0x10_0000 == 0 {
        dec(n / 0x10_0000) + "M"@
    } else if n >= 0x10_0000 {
        one_decimal(n, 0x10_0000) + "M"@
    } else if n >= 0x400 && n % 0x400 == 0 {
        dec(n / 0x400) + "k"@
    } else if n >= 0x400 {
        one_decimal(n, 0x400) + "k"@
    } else {
        dec(n)
    }
}

/// Token counts read better in k/M than in full digits, and every context number in the
/// UI is one of a small set of round values.
pub fn tokens(n: u64) -> (r: String)
    ensures
        r@ == tokens_text(n as nat),
{
    if n >= 0x10_0000 && n % 0x10_0000 == 0 {
        cat2(decimal(n / 0x10_0000).as_str(), "M")
    } else if n >= 0x10_0000 {
        cat2(show_tenths(n, 0x10_0000).as_str(), "M")
    } else if n >= 0x400 && n % 0x400 == 0 {
        cat2(decimal(n / 0x400).as_str(), "k")
    } else if n >= 0x400 {
        cat2(show_tenths(n, 0x400).as_str(), "k")
    } else {
        decimal(n)
    }
}

// ---------------------------------------------------------------- startup budget

/// The geometry `--moe-cache-auto` will settle on at startup.
#[derive(Debug, Clone, Copy, PartialEq, Eq, Structural)]
pub struct Startup {
    pub moe_cache_size: u64,
    pub num_pages: u64,
    pub prefill_overlap: bool,
}

impl Startup {
    pub fn usable_tokens(&self, page_size: u64) -> (r: u64)
        requires
            self.num_pages * at_least_one(page_size) <= u64::MAX,
        ensures
            r == self.num_pages * at_least_one(page_size),
    {
        self.num_pages * or_one(page_size)
    }
}

/// `a / b`, rounded up.
pub open spec fn div_up(a: nat, b: nat) -> nat {
    if a % b == 0 {
        a / b
    } else {
        a / b + 1
    }
}

/// The bytes of one KV page.
pub open spec fn page_bytes(c: Costs) -> nat {
    c.kv_bytes_per_token as nat * at_least_one(c.page_size)
}

/// Whether the engine starts with the prefill overlap on: it needs two full layers.
pub open spec fn overlap_possible(c: Costs, prefill_overlap: bool) -> bool {
    prefill_overlap && c.total_experts >= 2 * c.experts_per_layer
}

/// The expert cache of a MoE-first split: what the reserve leaves, no less than the floor
/// and no more than the model has.
pub open spec fn split_slots(c: Costs, reserve_pages: nat, prefill_overlap: bool) -> nat {
    let hi = c.total_experts as nat;
    let lo = if overlap_possible(c, prefill_overlap) {
        2 * c.experts_per_layer as nat
    } else {
        c.experts_per_layer as nat
    };
    let raw = less(c.net() as int, (reserve_pages * page_bytes(c)) as int)
        / c.moe_bytes_per_expert as nat;
    min(max(raw, min(lo, hi)), hi)
}

/// The KV pages of a MoE-first split: what the experts leave, no less than the reserve.
pub open spec fn split_pages(c: Costs, reserve_pages: nat, slots: nat) -> nat {
    max(
        less(c.net() as int, (slots * c.moe_bytes_per_expert) as int) / page_bytes(c),
        reserve_pages,
    )
}

/// The bytes of a split.
pub open spec fn split_bytes(c: Costs, slots: nat, pages: nat) -> nat {
    (slots * c.moe_bytes_per_expert) as nat + pages * page_bytes(c)
}

/// What `--kv-reserve-tokens` leads to, or why it leads to nothing.
pub open spec fn startup_of(
    c: Costs,
    kv_reserve_tokens: nat,
    prefill_overlap: bool,
) -> Result<Startup, Seq<char>> {
    let reserve = div_up(kv_reserve_tokens, at_least_one(c.page_size));
    let dense_pages = c.net() / page_bytes(c);
    let slots = split_slots(c, reserve, prefill_overlap);
    let pages = split_pages(c, reserve, slots);
    let total = split_bytes(c, slots, pages);
    if c.kv_bytes_per_token == 0 {
        Err("the engine has not published a KV cost yet"@)
    } else if !c.moe() {
        if dense_pages <= 1 {
            Err("not enough VRAM for a KV cache"@)
        } else {
            Ok(
                Startup {
                    moe_cache_size: 0,
                    num_pages: dense_pages as u64,
                    prefill_overlap: false,
                },
            )
        }
    } else if total > c.net() {
        Err(
            "the smallest possible plan ("@ + dec(slots) + " expert slots + "@ + tokens_text(
                saturated((pages * at_least_one(c.page_size)) as int),
            ) + " KV tokens) needs "@ + bytes_text(saturated(total as int))
                + ", over the engine's "@ + bytes_text(c.net()) + " cache budget"@,
        )
    } else if pages <= 1 {
        Err("not enough VRAM for a KV cache after the expert cache"@)
    } else {
        Ok(
            Startup {
                moe_cache_size: slots as u64,
                num_pages: pages as u64,
                prefill_overlap: overlap_possible(c, prefill_overlap) && slots >= 2
                    * c.experts_per_layer,
            },
        )
    }
}

proof fn lemma_quotient(a: nat, b: nat)
    requires
        b > 0,
    ensures
        a / b <= a,
        a / b * b <= a,
{
    assert(a / b <= a && a / b * b <= a) by (nonlinear_arith)
        requires
            b > 0,
    ;
}

/// `n` in 64 bits, or the most that they hold.
fn capped(n: u128) -> (r: u64)
    ensures
        r == saturated(n as int),
{
    if n > u64::MAX as u128 {
        u64::MAX
    } else {
        n as u64
    }
}

/// A product of a 64-bit number and one of up to 128 bits, or the most that 128 bits hold
/// below half.
fn scaled(n: u64, size: u128) -> (r: u128)
    ensures
        n * size <= 0x3fff_ffff_ffff_ffff_ffff_ffff_ffff_ffff ==> r == n * size,
        n * size > 0x3fff_ffff_ffff_ffff_ffff_ffff_ffff_ffff ==> r
            == 0x3fff_ffff_ffff_ffff_ffff_ffff_ffff_ffff,
{
    let top: u128 = 0x3fff_ffff_ffff_ffff_ffff_ffff_ffff_ffff;
    if n == 0 {
        assert(n * size == 0) by (nonlinear_arith)
            requires
                n == 0,
        ;
        return 0;
    }
    if size <= top / (n as u128) {
        assert(n * size <= top) by (nonlinear_arith)
            requires
                n > 0,
                size <= top / (n as u128),
        ;
        (n as u128) * size
    } else {
        assert(n * size > top) by (nonlinear_arith)
            requires
                n > 0,
                size > top / (n as u128),
        ;
        top
    }
}

/// Predict the MoE-first split for a given `--kv-reserve-tokens`.
///
/// Kept in step with FreeToken's `cache_budget.plan_cache_budget` deliberately: this is
/// what lets paddock say what a configuration *will* do before the engine spends four
/// minutes loading weights to demonstrate it. The impossible cases are an `Err`. Where a
/// sum outgrows 64 bits the message shows the most they hold.
pub fn plan_cache_budget(costs: &Costs, kv_reserve_tokens: u64, prefill_overlap: bool) -> (r:
    Result<Startup, String>)
    ensures
        (match r {
            Ok(s) => Ok(s),
            Err(e) => Err(e@),
        }) == startup_of(*costs, kv_reserve_tokens as nat, prefill_overlap),
{
    if costs.kv_bytes_per_token == 0 {
        return Err("the engine has not published a KV cost yet".to_owned());
    }
    let page_size = or_one(costs.page_size);
    let cache_per_page: u128 = wide_mul(costs.kv_bytes_per_token, page_size);
    assert(cache_per_page == page_bytes(*costs));
    assert(cache_per_page >= 1) by (nonlinear_arith)
        requires
            cache_per_page == costs.kv_bytes_per_token * page_size,
            costs.kv_bytes_per_token >= 1,
            page_size >= 1,
    ;
    let kv_reserve_pages: u64 = if kv_reserve_tokens % page_size == 0 {
        kv_reserve_tokens / page_size
    } else {
        proof {
            lemma_quotient(kv_reserve_tokens as nat, page_size as nat);
        }
        assert(page_size >= 2 ==> kv_reserve_tokens / page_size < u64::MAX) by (nonlinear_arith)
            requires
                page_size >= 1,
        ;
        kv_reserve_tokens / page_size + 1
    };
    let budget = costs.net_budget();
    if !costs.is_moe() {
        // A dense model has no expert cache; the whole budget is KV.
        let num_pages: u128 = (budget as u128) / cache_per_page;
        proof {
            lemma_quotient(budget as nat, cache_per_page as nat);
        }
        if num_pages <= 1 {
            return Err("not enough VRAM for a KV cache".to_owned());
        }
        return Ok(
            Startup {
                moe_cache_size: 0,
                num_pages: num_pages as u64,
                prefill_overlap: false,
            },
        );
    }
    let hi = costs.total_experts;
    // Prefill overlap borrows two full expert-layer buffers, so it needs at least twice the
    // per-layer expert count; below that the engine turns it off rather than fail.
    let doubled: u128 = 2 * (costs.experts_per_layer as u128);
    let overlap = prefill_overlap && (hi as u128) >= doubled;
    let lo: u64 = if overlap {
        2 * costs.experts_per_layer
    } else {
        costs.experts_per_layer
    };
    let kv_reserve_bytes = scaled(kv_reserve_pages, cache_per_page);
    let after_reserve: u64 = if kv_reserve_bytes >= budget as u128 {
        0
    } else {
        budget - kv_reserve_bytes as u64
    };
    let raw = after_reserve / costs.moe_bytes_per_expert;
    let moe_cache_size = smaller(larger(raw, smaller(lo, hi)), hi);
    let moe_bytes = wide_mul(moe_cache_size, costs.moe_bytes_per_expert);
    let remaining: u64 = if moe_bytes >= budget as u128 {
        0
    } else {
        budget - moe_bytes as u64
    };
    let fill: u128 = (remaining as u128) / cache_per_page;
    proof {
        lemma_quotient(remaining as nat, cache_per_page as nat);
    }
    let num_pages = larger(fill as u64, kv_reserve_pages);
    // The floor can push the plan past the budget when VRAM is genuinely too tight; the
    // engine asserts here, so refuse in arithmetic rather than let it OOM at load.
    let kv_bytes = scaled(num_pages, cache_per_page);
    let ghost slots = split_slots(*costs, kv_reserve_pages as nat, prefill_overlap);
    let ghost pages = split_pages(*costs, kv_reserve_pages as nat, slots);
    assert(moe_cache_size == slots);
    assert(num_pages == pages);
    assert(moe_bytes <= 0xffff_ffff_ffff_ffff_ffff_ffff_ffff_ffff - 0x4000_0000_0000_0000_0000_0000_0000_0000
        || moe_bytes > budget) by (nonlinear_arith);
    let over = moe_bytes > budget as u128 || kv_bytes > budget as u128 || moe_bytes + kv_bytes
        > budget as u128;
    assert(over == (split_bytes(*costs, slots, pages) > costs.net())) by {
        assert(split_bytes(*costs, slots, pages) == moe_bytes + num_pages * cache_per_page);
    }
    if over {
        let total: u64 = if moe_bytes > u64::MAX as u128 || kv_bytes > u64::MAX as u128 {
            u64::MAX
        } else {
            capped(moe_bytes + kv_bytes)
        };
        assert(total == saturated(split_bytes(*costs, slots, pages) as int));
        let kv_tokens = sat_mul(num_pages, page_size);
        let mut s = "the smallest possible plan (".to_owned();
        s.append(decimal(moe_cache_size).as_str());
        s.append(" expert slots + ");
        s.append(tokens(kv_tokens).as_str());
        s.append(" KV tokens) needs ");
        s.append(bytes(total).as_str());
        s.append(", over the engine's ");
        s.append(bytes(budget).as_str());
        s.append(" cache budget");
        return Err(s);
    }
    if num_pages <= 1 {
        return Err("not enough VRAM for a KV cache after the expert cache".to_owned());
    }
    Ok(
        Startup {
            moe_cache_size,
            num_pages,
            prefill_overlap: overlap && (moe_cache_size as u128) >= doubled,
        },
    )
}

// ---------------------------------------------------------------- laws of the split

/// Holding the slots that a context leaves room for leaves at least that context, to the
/// page.
pub proof fn law_slots_leave_their_context(c: Costs, tokens: nat)
    requires
        c.priced(),
        c.slots_at(tokens) is Some,
    ensures
        c.context_at(c.slots_at(tokens)->0) + c.page_size > tokens,
        tokens % c.page_size as nat == 0 ==> c.context_at(c.slots_at(tokens)->0) >= tokens,
{
    let slots = c.slots_at(tokens)->0;
    let kv = c.kv_bytes_per_token as nat;
    let ps = c.page_size as nat;
    let left = less(c.net() as int, (slots * c.moe_bytes_per_expert) as int);
    if c.moe() {
        let room = (c.net() - tokens * kv) as nat;
        let b = c.moe_bytes_per_expert as nat;
        assert(slots * b <= room) by (nonlinear_arith)
            requires
                slots <= room / b,
                b > 0,
        ;
    } else {
        assert(slots * c.moe_bytes_per_expert == 0) by (nonlinear_arith)
            requires
                slots == 0,
        ;
    }
    assert(left >= tokens * kv);
    let t = left / kv;
    assert(t >= tokens) by (nonlinear_arith)
        requires
            t == left / kv,
            left >= tokens * kv,
            kv > 0,
    ;
    assert(t / ps * ps + ps > t) by (nonlinear_arith)
        requires
            ps > 0,
    ;
    if tokens % ps == 0 {
        assert(t / ps * ps >= tokens) by (nonlinear_arith)
            requires
                ps > 0,
                t >= tokens,
                tokens % ps == 0,
        ;
    }
}

/// One slot more than a context leaves room for would not leave that context, unless the
/// model has no more slots.
pub proof fn law_slots_are_the_most(c: Costs, tokens: nat)
    requires
        c.priced(),
        c.moe(),
        c.slots_at(tokens) is Some,
        c.slots_at(tokens)->0 < c.total_experts,
        tokens > 0,
    ensures
        c.context_at(c.slots_at(tokens)->0 + 1) < tokens,
{
    let slots = c.slots_at(tokens)->0;
    let kv = c.kv_bytes_per_token as nat;
    let ps = c.page_size as nat;
    let b = c.moe_bytes_per_expert as nat;
    let room = (c.net() - tokens * kv) as nat;
    let left = less(c.net() as int, ((slots + 1) * b) as int);
    assert((slots + 1) * b > room) by (nonlinear_arith)
        requires
            slots == room / b,
            b > 0,
    ;
    assert(tokens * kv >= 1) by (nonlinear_arith)
        requires
            tokens >= 1,
            kv >= 1,
    ;
    assert(left < tokens * kv);
    let t = left / kv;
    assert(t < tokens) by (nonlinear_arith)
        requires
            t == left / kv,
            left < tokens * kv,
            kv > 0,
    ;
    lemma_quotient(t, ps);
}

/// More resident experts never leave more context.
pub proof fn law_context_shrinks_as_slots_grow(c: Costs, a: nat, b: nat)
    requires
        c.priced(),
        a <= b,
    ensures
        c.context_at(b) <= c.context_at(a),
{
    let e = c.moe_bytes_per_expert as nat;
    let kv = c.kv_bytes_per_token as nat;
    let ps = c.page_size as nat;
    assert(a * e <= b * e) by (nonlinear_arith)
        requires
            a <= b,
    ;
    let la = less(c.net() as int, (a * e) as int);
    let lb = less(c.net() as int, (b * e) as int);
    assert(lb / kv <= la / kv) by (nonlinear_arith)
        requires
            lb <= la,
            kv > 0,
    ;
    let ta = la / kv;
    let tb = lb / kv;
    assert(tb / ps * ps <= ta / ps * ps) by (nonlinear_arith)
        requires
            tb <= ta,
            ps > 0,
    ;
}

/// Context comes in whole pages.
pub proof fn law_context_is_whole_pages(c: Costs, slots: nat)
    requires
        c.priced(),
    ensures
        c.context_at(slots) % c.page_size as nat == 0,
{
    let ps = c.page_size as nat;
    let n = less(c.net() as int, (slots * c.moe_bytes_per_expert) as int)
        / c.kv_bytes_per_token as nat / ps;
    assert((n * ps) % ps == 0) by (nonlinear_arith)
        requires
            ps > 0,
    ;
}

/// The prefill overlap never lowers the floor, never more than doubles it, and so never
/// raises the context that can be reached.
pub proof fn law_overlap_costs_context(c: Costs)
    requires
        c.priced(),
    ensures
        c.floor(false) <= c.floor(true) <= 2 * c.floor(false),
        c.floor(true) <= c.total_experts,
        c.reach(true) <= c.reach(false),
{
    law_context_shrinks_as_slots_grow(c, c.floor(false), c.floor(true));
}

/// A split that is given fits the budget, keeps the experts between their floor and what
/// the model has, and holds at least the reserve in KV where experts compete for it.
pub proof fn law_a_split_keeps_its_promises(c: Costs, reserve: nat, prefill_overlap: bool)
    requires
        startup_of(c, reserve, prefill_overlap) is Ok,
    ensures
        ({
            let s = startup_of(c, reserve, prefill_overlap)->Ok_0;
            &&& s.num_pages > 1
            &&& s.moe_cache_size * c.moe_bytes_per_expert + s.num_pages * page_bytes(c) <= c.net()
            &&& s.moe_cache_size <= c.total_experts
            &&& c.moe() ==> s.moe_cache_size >= min(
                c.experts_per_layer as nat,
                c.total_experts as nat,
            )
            &&& c.moe() ==> s.num_pages * at_least_one(c.page_size) >= reserve
            &&& s.prefill_overlap ==> prefill_overlap && s.moe_cache_size >= 2
                * c.experts_per_layer
        }),
{
    let ps = at_least_one(c.page_size);
    let r = div_up(reserve, ps);
    let pb = page_bytes(c);
    assert(pb >= 1) by (nonlinear_arith)
        requires
            pb == c.kv_bytes_per_token as nat * ps,
            c.kv_bytes_per_token >= 1,
            ps >= 1,
    ;
    if !c.moe() {
        lemma_quotient(c.net(), pb);
        assert(0 * c.moe_bytes_per_expert == 0);
    } else {
        let slots = split_slots(c, r, prefill_overlap);
        let pages = split_pages(c, r, slots);
        assert(pages <= pages * pb) by (nonlinear_arith)
            requires
                pb >= 1,
        ;
        assert(r * ps >= reserve) by (nonlinear_arith)
            requires
                ps >= 1,
                r == (if reserve % ps == 0 {
                    reserve / ps
                } else {
                    reserve / ps + 1
                }),
        ;
        assert(pages * ps >= r * ps) by (nonlinear_arith)
            requires
                pages >= r,
        ;
    }
}

/// A context within reach can be reserved: where it spans more than a page, the engine
/// starts with the reserve and its pages hold it.
pub proof fn law_a_reachable_context_can_be_reserved(c: Costs, tokens: nat, prefill_overlap: bool)
    requires
        c.priced(),
        c.page_size < tokens <= c.reach(prefill_overlap),
    ensures
        startup_of(c, tokens, prefill_overlap) is Ok,
        startup_of(c, tokens, prefill_overlap)->Ok_0.num_pages * c.page_size >= tokens,
{
    let ps = c.page_size as nat;
    let kv = c.kv_bytes_per_token as nat;
    let b = c.moe_bytes_per_expert as nat;
    let pb = page_bytes(c);
    let net = c.net();
    let floor = c.floor(prefill_overlap);
    let left = less(net as int, (floor * b) as int);
    let k = left / kv / ps;
    let r = div_up(tokens, ps);
    assert(pb >= 1 && pb == kv * ps) by (nonlinear_arith)
        requires
            pb == kv * ps,
            kv >= 1,
            ps >= 1,
    ;
    assert(k >= 1 && r <= k && r >= 2 && r * ps >= tokens) by (nonlinear_arith)
        requires
            ps >= 1,
            ps < tokens <= k * ps,
            r == (if tokens % ps == 0 {
                tokens / ps
            } else {
                tokens / ps + 1
            }),
    ;
    // The pages of the reserve and the experts of the floor fit the budget together.
    assert(k * pb <= left) by (nonlinear_arith)
        requires
            k == left / kv / ps,
            pb == kv * ps,
            kv >= 1,
            ps >= 1,
    ;
    assert(r * pb <= k * pb && r * pb >= 1) by (nonlinear_arith)
        requires
            2 <= r <= k,
            pb >= 1,
    ;
    assert(floor * b + r * pb <= net);
    if !c.moe() {
        assert(floor * b == 0) by (nonlinear_arith)
            requires
                floor == 0,
        ;
        let pages = net / pb;
        assert(pages >= r) by (nonlinear_arith)
            requires
                pages == net / pb,
                r * pb <= net,
                pb >= 1,
        ;
        lemma_quotient(net, pb);
        assert(pages * ps >= r * ps) by (nonlinear_arith)
            requires
                pages >= r,
        ;
    } else {
        let room = (net - r * pb) as nat;
        let raw = room / b;
        assert(raw >= floor) by (nonlinear_arith)
            requires
                raw == room / b,
                floor * b <= room,
                b >= 1,
        ;
        let slots = split_slots(c, r, prefill_overlap);
        assert(slots <= raw);
        assert(slots * b <= room) by (nonlinear_arith)
            requires
                slots <= room / b,
                b >= 1,
        ;
        let rest = (net - slots * b) as nat;
        let pages = rest / pb;
        assert(pages >= r && pages * pb <= rest) by (nonlinear_arith)
            requires
                pages == rest / pb,
                r * pb <= rest,
                pb >= 1,
        ;
        assert(split_pages(c, r, slots) == pages);
        law_a_split_keeps_its_promises(c, tokens, prefill_overlap);
    }
}

/// Reserving more context never makes the expert cache larger.
pub proof fn law_context_is_paid_for_in_slots(
    c: Costs,
    less_tokens: nat,
    more_tokens: nat,
    prefill_overlap: bool,
)
    requires
        c.moe(),
        c.priced(),
        less_tokens <= more_tokens,
        startup_of(c, less_tokens, prefill_overlap) is Ok,
        startup_of(c, more_tokens, prefill_overlap) is Ok,
    ensures
        startup_of(c, more_tokens, prefill_overlap)->Ok_0.moe_cache_size <= startup_of(
            c,
            less_tokens,
            prefill_overlap,
        )->Ok_0.moe_cache_size,
{
    let ps = at_least_one(c.page_size);
    let a = div_up(less_tokens, ps);
    let b = div_up(more_tokens, ps);
    let pb = page_bytes(c);
    assert(a <= b) by {
        assert(less_tokens / ps <= more_tokens / ps) by (nonlinear_arith)
            requires
                less_tokens <= more_tokens,
                ps >= 1,
        ;
        if less_tokens / ps == more_tokens / ps && more_tokens % ps == 0 {
            assert(less_tokens % ps == 0) by (nonlinear_arith)
                requires
                    less_tokens <= more_tokens,
                    less_tokens / ps == more_tokens / ps,
                    more_tokens % ps == 0,
                    ps >= 1,
            ;
        }
    }
    assert(a * pb <= b * pb) by (nonlinear_arith)
        requires
            a <= b,
    ;
    let e = c.moe_bytes_per_expert as nat;
    let la = less(c.net() as int, (a * pb) as int);
    let lb = less(c.net() as int, (b * pb) as int);
    assert(lb / e <= la / e) by (nonlinear_arith)
        requires
            lb <= la,
            e > 0,
    ;
}

// ---------------------------------------------------------------- GDN state pool

/// A positive double: the whole number `mantissa`, of at most 53 bits, over a power of two.
#[derive(Debug, Clone, Copy)]
pub struct Ratio {
    pub mantissa: u64,
    pub over: u64,
}

impl Ratio {
    pub open spec fn valid(self) -> bool {
        self.mantissa < 0x20_0000_0000_0000 && self.over >= 1
    }
}

/// FreeToken's own default for `linear_state_cache_ratio`, which is 2. Not a CLI flag: it is
/// a `ServerArgs` field with no argparse entry, so a plan can read it but never set it.
pub const LINEAR_STATE_CACHE_RATIO: u64 = 2;

/// FreeToken's own default for `--max-running-requests`.
pub const DEFAULT_MAX_RUNNING: u64 = 4;

/// Free host RAM below which the CPU-side backends stop being safe to recommend.
/// The banks themselves are already pinned by then; this is the room everything
/// *else* needs: the CPU executor's buffers, the page cache, the tokenizer procs.
pub const HOST_RAM_HEADROOM: u64 = 0x1_0000_0000;

/// The whole part of `ratio` times `n`, as doubles compute it.
pub open spec fn ratio_times(ratio: Ratio, n: nat) -> nat {
    saturated((nearest_double(ratio.mantissa as nat * nearest_double(n)) / ratio.over as nat) as int)
}

/// Physical GDN state slots for `max_running` concurrent requests.
pub open spec fn state_slots(max_running: nat, hybrid_radix: bool, cache_ratio: Ratio) -> nat {
    let mr = max(max_running, 1);
    if !hybrid_radix {
        mr + 1
    } else {
        4 * mr + max(ratio_times(cache_ratio, mr), 4) + 1
    }
}

pub open spec fn default_ratio() -> Ratio {
    Ratio { mantissa: LINEAR_STATE_CACHE_RATIO, over: 1 }
}

fn state_slots_wide(max_running: u64, hybrid_radix: bool, cache_ratio: Ratio) -> (r: u128)
    requires
        cache_ratio.valid(),
    ensures
        r == state_slots(max_running as nat, hybrid_radix, cache_ratio),
        r <= 0x10_0000_0000_0000_0000,
{
    let mr = larger(max_running, 1);
    if !hybrid_radix {
        return (mr as u128) + 1;
    }
    let d = as_double(mr as u128);
    let m: u128 = cache_ratio.mantissa as u128;
    assert(m * d <= 0x20_0000_0000_0000 * 0x2_0000_0000_0000_0000) by (nonlinear_arith)
        requires
            m <= 0x20_0000_0000_0000,
            d <= 0x2_0000_0000_0000_0000,
    ;
    let p = as_double(m * d);
    let n_cache = larger(capped(p / (cache_ratio.over as u128)), 4);
    4 * (mr as u128) + (n_cache as u128) + 1
}

/// Physical GDN state slots the engine allocates for `max_running` concurrent requests.
///
/// The hybrid-radix pool holds four slots per running request (one live, two ping-pong,
/// one committed snapshot locked through decode), plus a cross-request snapshot cache and a
/// padding sink; the naive path keeps the older `max_running + 1`. The engine picks the
/// hybrid-radix variant automatically for any GDN model unless `--cache-type naive` was
/// asked for.
///
/// This is the whole reason `--max-running-requests` is a memory knob and not just a
/// scheduling one: at 61 MiB a slot, going from one request to four costs a gigabyte.
pub fn mamba_slots_for(max_running: u64, hybrid_radix: bool, cache_ratio: Ratio) -> (r: u64)
    requires
        cache_ratio.valid(),
        state_slots(max_running as nat, hybrid_radix, cache_ratio) <= u64::MAX,
    ensures
        r == state_slots(max_running as nat, hybrid_radix, cache_ratio),
{
    state_slots_wide(max_running, hybrid_radix, cache_ratio) as u64
}

// ---------------------------------------------------------------- the plan

#[derive(Debug, Clone, Copy, PartialEq, Eq, PartialOrd, Ord, Structural)]
pub enum Level {
    /// Worth knowing; nothing to change.
    Info,
    /// A knob that should be set differently.
    Advice,
    /// Something will not work as configured.
    Warning,
}

/// One recommendation: a knob to set, or a fact worth stating.
#[derive(Debug)]
pub struct Step {
    pub level: Level,
    /// The knob to change, and what to change it to. `None` for a note that carries no
    /// edit: a missing bench profile is a job to run, not a flag to set.
    pub set: Option<(&'static str, String)>,
    /// Why. Shown verbatim, so it says what it knows and how it knows it.
    pub reason: String,
}

pub struct StepView {
    pub level: Level,
    pub set: Option<(Seq<char>, Seq<char>)>,
    pub reason: Seq<char>,
}

impl View for Step {
    type V = StepView;

    open spec fn view(&self) -> StepView {
        StepView {
            level: self.level,
            set: match self.set {
                Some((k, v)) => Some((k@, v@)),
                None => None,
            },
            reason: self.reason@,
        }
    }
}

pub open spec fn a_note(level: Level, reason: Seq<char>) -> StepView {
    StepView { level, set: None, reason }
}

pub open spec fn an_edit(
    level: Level,
    key: Seq<char>,
    value: Seq<char>,
    reason: Seq<char>,
) -> StepView {
    StepView { level, set: Some((key, value)), reason }
}

impl Step {
    pub fn note(level: Level, reason: String) -> (r: Self)
        ensures
            r@ == a_note(level, reason@),
    {
        Step { level, set: None, reason }
    }

    pub fn set(level: Level, key: &'static str, value: String, reason: String) -> (r: Self)
        ensures
            r@ == an_edit(level, key@, value@, reason@),
    {
        Step { level, set: Some((key, value)), reason }
    }

    /// How the change reads in a list: `--kv-reserve-tokens 262144`.
    pub fn label(&self) -> (r: String)
        ensures
            r@ == (match self@.set {
                Some((key, value)) => if value == "true"@ {
                    flag_of(key)
                } else {
                    flag_of(key) + " "@ + value
                },
                None => "—"@,
            }),
    {
        match &self.set {
            Some((key, value)) => {
                let flag: &str = match knob(key) {
                    Some(k) => k.flag,
                    None => key,
                };
                if same(value.as_str(), "true") {
                    flag.to_owned()
                } else {
                    cat3(flag, " ", value.as_str())
                }
            },
            None => "—".to_owned(),
        }
    }
}

/// What a planning run concluded.
#[derive(Debug)]
pub struct Plan {
    pub steps: Vec<Step>,
    /// The context the plan expects to deliver, and the model's ceiling.
    pub fit: Option<ContextFit>,
    /// Set when there was not enough measured information to plan the memory split.
    pub unpriced: Option<String>,
}

pub struct PlanView {
    pub steps: Seq<StepView>,
    pub fit: Option<ContextFit>,
    pub unpriced: Option<Seq<char>>,
}

pub open spec fn step_views(s: Seq<Step>) -> Seq<StepView> {
    Seq::new(s.len(), |i: int| s[i]@)
}

impl View for Plan {
    type V = PlanView;

    open spec fn view(&self) -> PlanView {
        PlanView {
            steps: step_views(self.steps@),
            fit: self.fit,
            unpriced: opt_text(self.unpriced),
        }
    }
}

/// The edits of a run of steps, in order.
pub open spec fn edits_of(s: Seq<StepView>) -> Seq<(Seq<char>, Seq<char>)>
    decreases s.len(),
{
    if s.len() == 0 {
        Seq::empty()
    } else {
        match s.last().set {
            Some(e) => edits_of(s.drop_last()).push(e),
            None => edits_of(s.drop_last()),
        }
    }
}

/// `x` among edits that stand in schema order, behind those of its own place.
pub open spec fn placed(s: Seq<(Seq<char>, Seq<char>)>, x: (Seq<char>, Seq<char>)) -> Seq<
    (Seq<char>, Seq<char>),
>
    decreases s.len(),
{
    if s.len() > 0 && schema_place(x.0) < schema_place(s.last().0) {
        placed(s.drop_last(), x).push(s.last())
    } else {
        s.push(x)
    }
}

/// Edits in schema order. Those of one place keep their order.
pub open spec fn in_schema_order(s: Seq<(Seq<char>, Seq<char>)>) -> Seq<(Seq<char>, Seq<char>)>
    decreases s.len(),
{
    if s.len() == 0 {
        Seq::empty()
    } else {
        placed(in_schema_order(s.drop_last()), s.last())
    }
}

/// The edits of a run of steps, in schema order.
pub open spec fn schema_edits(s: Seq<StepView>) -> Seq<(Seq<char>, Seq<char>)> {
    in_schema_order(edits_of(s))
}

proof fn lemma_placed(s: Seq<(Seq<char>, Seq<char>)>, x: (Seq<char>, Seq<char>), k: int)
    requires
        0 <= k <= s.len(),
        forall|i: int|
            k <= i < s.len() ==> schema_place(x.0) < schema_place((#[trigger] s[i]).0),
        k > 0 ==> schema_place(s[k - 1].0) <= schema_place(x.0),
    ensures
        placed(s, x) == s.insert(k, x),
    decreases s.len(),
{
    if k < s.len() {
        lemma_placed(s.drop_last(), x, k);
        assert(s.drop_last().insert(k, x).push(s.last()) =~= s.insert(k, x));
    } else {
        assert(s.insert(k, x) =~= s.push(x));
    }
}

/// Puts an edit among edits that stand in schema order.
fn place(out: &mut Vec<(&'static str, String)>, key: &'static str, value: String)
    ensures
        edit_views(final(out)@) == placed(edit_views(old(out)@), (key@, value@)),
{
    let ghost before = out@;
    let at = place_of(key);
    let mut k: usize = out.len();
    while k > 0 && at < place_of(out[k - 1].0)
        invariant
            k <= out.len(),
            out@ == before,
            at == schema_place(key@),
            forall|i: int|
                k <= i < out.len() ==> schema_place(key@) < schema_place(
                    (#[trigger] edit_views(out@)[i]).0,
                ),
        decreases k,
    {
        k = k - 1;
    }
    proof {
        lemma_placed(edit_views(before), (key@, value@), k as int);
    }
    out.insert(k, (key, value));
    assert(edit_views(out@) =~= edit_views(before).insert(k as int, (key@, value@)));
}

/// A configuration after a run of edits, and how many of them changed it.
pub open spec fn applied(
    m: Map<Seq<char>, Seq<char>>,
    edits: Seq<(Seq<char>, Seq<char>)>,
) -> (Map<Seq<char>, Seq<char>>, nat)
    decreases edits.len(),
{
    if edits.len() == 0 {
        (m, 0)
    } else {
        let (before, changed) = applied(m, edits.drop_last());
        let (key, value) = edits.last();
        let next = after_set(before, key, value);
        if value_of(before, key) == Some(value) {
            (before, changed)
        } else if value_of(next, key) == value_of(before, key) {
            // There was nothing to clear.
            (next, changed)
        } else {
            (next, changed + 1)
        }
    }
}

impl Plan {
    pub fn empty() -> (r: Self)
        ensures
            r@ == (PlanView { steps: Seq::empty(), fit: None, unpriced: None }),
    {
        let r = Plan { steps: Vec::new(), fit: None, unpriced: None };
        assert(r@.steps =~= Seq::<StepView>::empty());
        r
    }

    /// The edits, in schema order, ready to fold into a [`ServeConfig`].
    pub fn edits(&self) -> (r: Vec<(&'static str, String)>)
        ensures
            edit_views(r@) == schema_edits(self@.steps),
    {
        let mut out: Vec<(&'static str, String)> = Vec::new();
        let mut i: usize = 0;
        let ghost all = self@.steps;
        assert(all.take(0) =~= Seq::<StepView>::empty());
        assert(edit_views(out@) =~= Seq::<(Seq<char>, Seq<char>)>::empty());
        while i < self.steps.len()
            invariant
                i <= self.steps.len(),
                all == self@.steps,
                edit_views(out@) == schema_edits(all.take(i as int)),
            decreases self.steps.len() - i,
        {
            assert(all.take(i + 1).drop_last() =~= all.take(i as int));
            assert(all.take(i + 1).last() == self.steps@[i as int]@);
            if let Some((k, v)) = &self.steps[i].set {
                let ghost before = edits_of(all.take(i as int));
                assert(before.push((k@, v@)).drop_last() =~= before);
                place(&mut out, *k, v.clone());
            }
            i = i + 1;
        }
        assert(all.take(i as int) =~= all);
        out
    }

    pub fn is_empty(&self) -> (r: bool)
        ensures
            r == (self@.steps.len() == 0),
    {
        self.steps.len() == 0
    }

    /// Apply every edit. Returns how many knobs actually changed, so the UI can say
    /// "already optimal" rather than claim it did something.
    pub fn apply(&self, serve: &mut ServeConfig) -> (r: usize)
        ensures
            (final(serve)@, r as nat) == applied(old(serve)@, schema_edits(self@.steps)),
    {
        let edits = self.edits();
        let ghost all = schema_edits(self@.steps);
        let ghost m0 = serve@;
        let mut changed: usize = 0;
        let mut i: usize = 0;
        assert(all.take(0) =~= Seq::<(Seq<char>, Seq<char>)>::empty());
        while i < edits.len()
            invariant
                i <= edits.len(),
                changed <= i,
                edit_views(edits@) == all,
                (serve@, changed as nat) == applied(m0, all.take(i as int)),
            decreases edits.len() - i,
        {
            assert(all.take(i + 1).drop_last() =~= all.take(i as int));
            assert(all.take(i + 1).last() == (edits@[i as int].0@, edits@[i as int].1@));
            let key = edits[i].0;
            let value = edits[i].1.as_str();
            if !is_text(serve.get(key), value) {
                let had = serve.is_set(key);
                serve.set(key, value);
                if had || serve.is_set(key) {
                    changed = changed + 1;
                }
            }
            i = i + 1;
        }
        assert(all.take(i as int) =~= all);
        changed
    }

    fn push(&mut self, step: Step)
        ensures
            final(self)@ == (PlanView { steps: old(self)@.steps.push(step@), ..old(self)@ }),
    {
        let ghost before = self.steps@;
        self.steps.push(step);
        assert(step_views(self.steps@) =~= step_views(before).push(step@));
    }
}

pub open spec fn edit_views(v: Seq<(&'static str, String)>) -> Seq<(Seq<char>, Seq<char>)> {
    Seq::new(v.len(), |i: int| (v[i].0@, v[i].1@))
}

/// What the planner knows about the machine it is planning for.
#[derive(Debug, Clone, Default)]
pub struct Machine {
    pub gpu_name: Option<String>,
    /// Host RAM, which the offload backends spend as freely as VRAM: every expert lives
    /// in pinned host banks, and the CPU MoE executor wants working room on top.
    pub host_ram_total: u64,
    pub host_ram_available: u64,
    /// Physical cores, which is what the CPU MoE executor wants, not SMT threads.
    pub physical_cores: usize,
    pub pcie_link: Option<String>,
}

/// The model being planned for.
#[derive(Debug, Clone, Default)]
pub struct Target {
    pub name: String,
    /// `max_position_embeddings`: the context the checkpoint claims.
    pub ceiling: Option<u64>,
    pub is_moe: bool,
    /// The expert format, as the checkpoint declares it, by which the bench profile is
    /// looked up.
    pub quant: Option<String>,
}

impl Target {
    /// The checkpoint declares a context to plan for.
    pub open spec fn sized(self) -> bool {
        self.ceiling is Some && self.ceiling->0 > 0
    }
}

/// The number that a knob is set to, when it is one.
pub open spec fn number_at(m: Map<Seq<char>, Seq<char>>, key: Seq<char>) -> Option<u64> {
    match value_of(m, key) {
        Some(v) => match unsigned_of(v) {
            Some(n) if n <= u64::MAX => Some(n as u64),
            _ => None,
        },
        None => None,
    }
}

fn number(serve: &ServeConfig, key: &str) -> (r: Option<u64>)
    ensures
        r == number_at(serve@, key@),
{
    match serve.get(key) {
        Some(v) => parse_u64(v),
        None => None,
    }
}

// ---------------------------------------------------------------- context

pub open spec fn overlap_step(c: Costs, ceiling: nat) -> StepView {
    an_edit(
        Level::Advice,
        "disable_moe_prefill_overlap"@,
        "true"@,
        "the two-buffer prefill overlap pins "@ + dec((c.floor(true) - c.floor(false)) as nat)
            + " expert slots that context could be using. Giving it up slows prefill copies and raises the reachable context from "@
            + tokens_text(c.reach(true)) + " to "@ + tokens_text(min(c.reach(false), ceiling))
            + "."@,
    )
}

pub open spec fn no_fit_step(name: Seq<char>, c: Costs) -> StepView {
    a_note(
        Level::Warning,
        name + " does not fit on this GPU: the "@ + dec(c.floor(false))
            + "-slot expert floor alone spends the engine's whole "@ + bytes_text(c.net())
            + " cache budget, leaving nothing for KV. A smaller checkpoint, or a card with more VRAM, is the only way through."@,
    )
}

pub open spec fn short_step(
    name: Seq<char>,
    c: Costs,
    ceiling: nat,
    reachable: nat,
    overlap: bool,
) -> StepView {
    a_note(
        Level::Warning,
        "this GPU cannot hold "@ + tokens_text(ceiling) + " of context for "@ + name
            + ": with the expert cache squeezed to its "@ + dec(
            c.floor(overlap && reachable == c.reach(true)),
        ) + "-slot floor the budget affords "@ + tokens_text(reachable)
            + ". Everything below plans for that."@,
    )
}

/// What a reserve yields today.
pub open spec fn context_yielded(c: Costs, reserve: nat, overlap: bool) -> nat {
    match startup_of(c, reserve, overlap) {
        Ok(s) => (s.num_pages * at_least_one(c.page_size)) as nat,
        Err(_) => 0,
    }
}

pub open spec fn slots_or_none(c: Costs, tokens: nat) -> nat {
    match c.slots_at(tokens) {
        Some(n) => n,
        None => 0,
    }
}

pub open spec fn current_reserve(m: Map<Seq<char>, Seq<char>>) -> nat {
    match number_at(m, "kv_reserve_tokens"@) {
        Some(n) => n as nat,
        None => DEFAULT_KV_RESERVE_TOKENS as nat,
    }
}

pub open spec fn reserve_step(
    c: Costs,
    want: nat,
    ceiling: nat,
    m: Map<Seq<char>, Seq<char>>,
    overlap: bool,
) -> StepView {
    let current = current_reserve(m);
    if current >= want {
        a_note(
            Level::Info,
            "--kv-reserve-tokens is already "@ + tokens_text(current) + ", which reserves the "@
                + tokens_text(want) + " this plan wants"@,
        )
    } else {
        an_edit(
            Level::Advice,
            "kv_reserve_tokens"@,
            dec(want),
            if c.moe() {
                "reserve "@ + (if want == ceiling {
                    "the full"@
                } else {
                    "the reachable"@
                }) + " "@ + tokens_text(want)
                    + " of context before the expert cache takes the rest. At the current "@
                    + tokens_text(current) + " the split leaves KV about "@ + tokens_text(
                    context_yielded(c, current, overlap),
                ) + "; the experts give up "@ + dec(
                    less(c.total_experts as int, slots_or_none(c, want) as int),
                ) + " slots of "@ + dec(c.total_experts as nat) + " to pay for it."@
            } else {
                "hold "@ + tokens_text(want) + " of KV rather than the "@ + tokens_text(current)
                    + " default"@
            },
        )
    }
}

/// Giving up the prefill overlap buys context that is wanted.
pub open spec fn gives_up_overlap(c: Costs, ceiling: nat, overlap: bool) -> bool {
    overlap && c.reach(true) < ceiling && c.reach(false) > c.reach(true)
}

/// The context half of a plan for which the costs are known.
pub open spec fn priced_context(
    name: Seq<char>,
    ceiling: u64,
    c: Costs,
    m: Map<Seq<char>, Seq<char>>,
) -> PlanView {
    let overlap = !is_on(m, "disable_moe_prefill_overlap"@);
    let give_up = gives_up_overlap(c, ceiling as nat, overlap);
    let reachable = if give_up {
        c.reach(false)
    } else {
        c.reach(overlap)
    };
    let want = min(ceiling as nat, reachable);
    let head = if give_up {
        seq![overlap_step(c, ceiling as nat)]
    } else {
        Seq::empty()
    };
    let middle = if reachable < ceiling {
        head.push(short_step(name, c, ceiling as nat, reachable, overlap))
    } else {
        head
    };
    PlanView {
        steps: if want == 0 {
            head.push(no_fit_step(name, c))
        } else {
            middle.push(reserve_step(c, want, ceiling as nat, m, overlap))
        },
        fit: Some(ContextFit { usable: want as u64, ceiling }),
        unpriced: None,
    }
}

pub open spec fn unpriced_plan(why: Seq<char>) -> PlanView {
    PlanView { steps: Seq::empty(), fit: None, unpriced: Some(why) }
}

/// The context half of a plan.
pub open spec fn context_plan(
    target: Target,
    costs: Option<Costs>,
    m: Map<Seq<char>, Seq<char>>,
) -> PlanView {
    match target.ceiling {
        Some(ceiling) if ceiling > 0 => match costs {
            None => unpriced_plan(
                "no VRAM costs have been measured for this model yet, so the cache split cannot be planned; serve it once and the plan will be exact"@,
            ),
            Some(c) => priced_context(target.name@, ceiling, c, m),
        },
        _ => unpriced_plan("the checkpoint does not declare a context length"@),
    }
}

proof fn lemma_reach_is_a_word(c: Costs, overlap: bool)
    requires
        c.priced(),
    ensures
        c.reach(overlap) <= u64::MAX,
{
    let left = less(c.net() as int, (c.floor(overlap) * c.moe_bytes_per_expert) as int);
    lemma_quotient(left, c.kv_bytes_per_token as nat);
    lemma_quotient(left / c.kv_bytes_per_token as nat, c.page_size as nat);
}

proof fn lemma_yield_is_a_word(c: Costs, reserve: nat, overlap: bool)
    requires
        c.priced(),
        startup_of(c, reserve, overlap) is Ok,
    ensures
        startup_of(c, reserve, overlap)->Ok_0.num_pages * at_least_one(c.page_size) <= u64::MAX,
{
    law_a_split_keeps_its_promises(c, reserve, overlap);
    let pages = startup_of(c, reserve, overlap)->Ok_0.num_pages as nat;
    let slots = startup_of(c, reserve, overlap)->Ok_0.moe_cache_size as nat;
    let ps = at_least_one(c.page_size);
    assert(pages * ps <= pages * page_bytes(c)) by (nonlinear_arith)
        requires
            page_bytes(c) == c.kv_bytes_per_token as nat * ps,
            c.kv_bytes_per_token >= 1,
            ps >= 1,
    ;
    assert(slots * c.moe_bytes_per_expert >= 0) by (nonlinear_arith);
}

/// The step that sets the reserve, or says that it needs no setting.
fn plan_reserve(costs: &Costs, want: u64, ceiling: u64, serve: &ServeConfig, overlap: bool) -> (r:
    Step)
    requires
        costs.priced(),
    ensures
        r@ == reserve_step(*costs, want as nat, ceiling as nat, serve@, overlap),
{
    let current = match number(serve, "kv_reserve_tokens") {
        Some(n) => n,
        None => DEFAULT_KV_RESERVE_TOKENS,
    };
    if current >= want {
        let mut s = "--kv-reserve-tokens is already ".to_owned();
        s.append(tokens(current).as_str());
        s.append(", which reserves the ");
        s.append(tokens(want).as_str());
        s.append(" this plan wants");
        return Step::note(Level::Info, s);
    }
    let slots = match costs.slots_for_context(want) {
        Some(n) => n,
        None => 0,
    };
    // What today's reserve actually yields, under the overlap setting in force now: that is
    // the number the user can check against the running engine.
    let default_ctx = match plan_cache_budget(costs, current, overlap) {
        Ok(st) => {
            proof {
                lemma_yield_is_a_word(*costs, current as nat, overlap);
            }
            st.usable_tokens(costs.page_size)
        },
        Err(_) => 0,
    };
    let reason = if costs.is_moe() {
        let mut s = "reserve ".to_owned();
        s.append(
            if want == ceiling {
                "the full"
            } else {
                "the reachable"
            },
        );
        s.append(" ");
        s.append(tokens(want).as_str());
        s.append(" of context before the expert cache takes the rest. At the current ");
        s.append(tokens(current).as_str());
        s.append(" the split leaves KV about ");
        s.append(tokens(default_ctx).as_str());
        s.append("; the experts give up ");
        s.append(decimal(sat_sub(costs.total_experts, slots)).as_str());
        s.append(" slots of ");
        s.append(decimal(costs.total_experts).as_str());
        s.append(" to pay for it.");
        s
    } else {
        let mut s = "hold ".to_owned();
        s.append(tokens(want).as_str());
        s.append(" of KV rather than the ");
        s.append(tokens(current).as_str());
        s.append(" default");
        s
    };
    Step::set(Level::Advice, "kv_reserve_tokens", decimal(want), reason)
}

/// The context half: spend the budget on KV first, up to the model's ceiling.
pub fn plan_context(target: &Target, costs: Option<&Costs>, serve: &ServeConfig) -> (r: Plan)
    requires
        target.sized() && costs is Some ==> costs->0.priced(),
    ensures
        r@ == context_plan(*target, opt_costs(costs), serve@),
{
    let mut plan = Plan::empty();
    let ceiling = match target.ceiling {
        Some(c) => c,
        None => 0,
    };
    if ceiling == 0 {
        plan.unpriced = Some("the checkpoint does not declare a context length".to_owned());
        return plan;
    }
    let costs: &Costs = match costs {
        Some(c) => c,
        None => {
            plan.unpriced = Some(
                "no VRAM costs have been measured for this model yet, so the cache split cannot be planned; serve it once and the plan will be exact".to_owned(),
            );
            return plan;
        },
    };
    proof {
        lemma_reach_is_a_word(*costs, true);
        lemma_reach_is_a_word(*costs, false);
        law_overlap_costs_context(*costs);
    }
    // Prefill overlap doubles the expert floor, so it is sometimes the reason context is
    // short. Giving it up costs prefill-copy speed; running out of context is a wall, so
    // the plan trades the first for the second whenever the trade actually buys context
    // that is wanted, not only when it reaches the whole ceiling.
    let overlap = !serve.flag("disable_moe_prefill_overlap");
    let mut reachable = costs.max_context(overlap);
    if overlap && reachable < ceiling && costs.max_context(false) > reachable {
        let freed = costs.max_context(false);
        let mut s = "the two-buffer prefill overlap pins ".to_owned();
        s.append(decimal(costs.floor_slots(true) - costs.floor_slots(false)).as_str());
        s.append(
            " expert slots that context could be using. Giving it up slows prefill copies and raises the reachable context from ",
        );
        s.append(tokens(reachable).as_str());
        s.append(" to ");
        s.append(tokens(smaller(freed, ceiling)).as_str());
        s.append(".");
        plan.push(
            Step::set(Level::Advice, "disable_moe_prefill_overlap", "true".to_owned(), s),
        );
        reachable = freed;
    }
    let ghost head = plan@.steps;
    assert(head =~= (if gives_up_overlap(*costs, ceiling as nat, overlap) {
        seq![overlap_step(*costs, ceiling as nat)]
    } else {
        Seq::empty()
    }));
    let want = smaller(ceiling, reachable);
    plan.fit = Some(ContextFit { usable: want, ceiling });
    // A budget that cannot seat the expert floor and a usable KV pool at once is not a
    // context problem, it is a "this model does not fit on this card" problem, and no
    // amount of --kv-reserve-tokens fixes it.
    if want == 0 {
        let mut s = target.name.clone();
        s.append(" does not fit on this GPU: the ");
        s.append(decimal(costs.floor_slots(false)).as_str());
        s.append("-slot expert floor alone spends the engine's whole ");
        s.append(bytes(costs.net_budget()).as_str());
        s.append(
            " cache budget, leaving nothing for KV. A smaller checkpoint, or a card with more VRAM, is the only way through.",
        );
        plan.push(Step::note(Level::Warning, s));
        return plan;
    }
    if reachable < ceiling {
        let mut s = "this GPU cannot hold ".to_owned();
        s.append(tokens(ceiling).as_str());
        s.append(" of context for ");
        s.append(target.name.as_str());
        s.append(": with the expert cache squeezed to its ");
        s.append(
            decimal(
                costs.floor_slots(overlap && reachable == costs.max_context(true)),
            ).as_str(),
        );
        s.append("-slot floor the budget affords ");
        s.append(tokens(reachable).as_str());
        s.append(". Everything below plans for that.");
        plan.push(Step::note(Level::Warning, s));
    }
    // --kv-reserve-tokens is the lever: the MoE-first split reserves it for KV before
    // experts take the rest, so setting it to the wanted context buys exactly that.
    plan.push(plan_reserve(costs, want, ceiling, serve, overlap));
    plan
}

pub open spec fn opt_costs(c: Option<&Costs>) -> Option<Costs> {
    match c {
        Some(c) => Some(*c),
        None => None,
    }
}

// ---------------------------------------------------------------- concurrency

/// Whether the state pool is laid out for prefix reuse.
pub open spec fn hybrid_radix(m: Map<Seq<char>, Seq<char>>) -> bool {
    value_of(m, "cache_type"@) != Some("naive"@)
}

pub open spec fn current_running(m: Map<Seq<char>, Seq<char>>) -> u64 {
    match number_at(m, "max_running_requests"@) {
        Some(n) => n,
        None => DEFAULT_MAX_RUNNING,
    }
}

/// The experts that stay resident at the planned context once one request runs at a time.
pub open spec fn slots_at_one(c: Costs, usable: nat, radix: bool) -> nat {
    let resized = Costs { mamba_slots: state_slots(1, radix, default_ratio()) as u64, ..c };
    match resized.slots_at(usable) {
        Some(n) => n,
        None => slots_or_none(c, usable),
    }
}

/// What is said about `--max-running-requests` on a hybrid-linear model, where it is a
/// memory knob.
pub open spec fn concurrency_steps(
    costs: Option<Costs>,
    fit: Option<ContextFit>,
    m: Map<Seq<char>, Seq<char>>,
) -> Seq<StepView> {
    let running = current_running(m);
    let radix = hybrid_radix(m);
    match (costs, fit) {
        (Some(c), Some(f)) => if !c.hybrid_linear() || !c.moe() || running <= 1 {
            Seq::empty()
        } else if state_slots(running as nat, radix, default_ratio()) != c.mamba_slots {
            seq![
                a_note(
                    Level::Info,
                    "the GDN state pool holds "@ + dec(c.mamba_slots as nat) + " slots ("@
                        + bytes_text(c.state_bytes())
                        + "); this build sizes it differently than expected for --max-running-requests "@
                        + dec(running as nat) + ", so it is left alone"@,
                ),
            ]
        } else {
            let now = slots_or_none(c, f.usable as nat);
            let after = slots_at_one(c, f.usable as nat, radix);
            if now >= c.total_experts || after <= now {
                Seq::empty()
            } else {
                seq![
                    an_edit(
                        Level::Advice,
                        "max_running_requests"@,
                        "1"@,
                        concurrency_reason(c, f, running as nat, now, after, radix),
                    ),
                ]
            }
        },
        _ => Seq::empty(),
    }
}

pub open spec fn concurrency_reason(
    c: Costs,
    f: ContextFit,
    running: nat,
    now: nat,
    after: nat,
    radix: bool,
) -> Seq<char> {
    let freed = saturated(
        (less(c.mamba_slots as int, state_slots(1, radix, default_ratio()) as int)
            * c.mamba_bytes_per_slot) as int,
    );
    "the GDN state pool costs "@ + bytes_text(c.state_bytes()) + " at "@ + dec(running)
        + " running requests, four slots each at "@ + bytes_text(c.mamba_bytes_per_slot as nat)
        + ". KV holds "@ + tokens_text(f.usable as nat) + ", which is one request at the "@
        + tokens_text(f.ceiling as nat)
        + " this plan reserves, so most of that pool cannot be used at this context. Dropping to 1 frees "@
        + bytes_text(freed) + " and grows the expert cache from "@ + dec(now) + " to "@ + dec(after)
        + " slots of "@ + dec(c.total_experts as nat) + " ("@ + dec(
        percent_of(after, c.total_experts as nat),
    )
        + "% resident), which is fewer PCIe fetches per decode step. The cost is real: "@
        + dec(running) + " shorter requests could otherwise run at once, so keep "@ + dec(running)
        + " if you serve more than one caller."@
}

proof fn lemma_slots_at_one(radix: bool)
    ensures
        state_slots(1, radix, default_ratio()) <= 9,
{
    crate::util::law_small_numbers_are_doubles(1);
    crate::util::law_small_numbers_are_doubles(2);
}

/// `--max-running-requests` on a hybrid-linear model, where it is a memory knob.
///
/// Two facts collide here. The GDN state pool costs four slots per running request at
/// tens of MiB each, out of the same budget the expert cache draws on. And the KV pool
/// holds a fixed number of tokens, so at full context it may only have room for *one*
/// request anyway. When both are true, concurrency is being paid for and cannot be
/// delivered, and handing those slots to the expert cache is close to free.
pub fn plan_concurrency(
    costs: Option<&Costs>,
    fit: Option<ContextFit>,
    serve: &ServeConfig,
) -> (r: Vec<Step>)
    ensures
        step_views(r@) == concurrency_steps(opt_costs(costs), fit, serve@),
{
    let mut out: Vec<Step> = Vec::new();
    assert(step_views(out@) =~= Seq::<StepView>::empty());
    let (c, f): (&Costs, ContextFit) = match (costs, fit) {
        (Some(c), Some(f)) => (c, f),
        _ => {
            return out;
        },
    };
    let current = match number(serve, "max_running_requests") {
        Some(n) => n,
        None => DEFAULT_MAX_RUNNING,
    };
    if !c.is_hybrid_linear() || !c.is_moe() || current <= 1 {
        return out;
    }
    let radix = !is_text(serve.get("cache_type"), "naive");
    let ratio = Ratio { mantissa: LINEAR_STATE_CACHE_RATIO, over: 1 };
    // Only advise when the formula reproduces what the engine actually allocated. If it
    // does not, this build sizes the pool differently and a recommendation derived from
    // the formula would be arithmetic about nothing.
    let predicted = state_slots_wide(current, radix, ratio);
    if predicted != c.mamba_slots as u128 {
        let mut s = "the GDN state pool holds ".to_owned();
        s.append(decimal(c.mamba_slots).as_str());
        s.append(" slots (");
        s.append(bytes(c.mamba_bytes()).as_str());
        s.append("); this build sizes it differently than expected for --max-running-requests ");
        s.append(decimal(current).as_str());
        s.append(", so it is left alone");
        out.push(Step::note(Level::Info, s));
        assert(step_views(out@) =~= concurrency_steps(opt_costs(costs), fit, serve@));
        return out;
    }
    // The trade only pays when the expert cache is capped by the budget. If every expert
    // is already resident, freeing state slots buys nothing and cutting concurrency would
    // be a downgrade paid for no gain.
    let now = match c.slots_for_context(f.usable) {
        Some(n) => n,
        None => 0,
    };
    if now >= c.total_experts {
        return out;
    }
    proof {
        lemma_slots_at_one(radix);
    }
    let target_slots = mamba_slots_for(1, radix, ratio);
    let freed = sat_mul(sat_sub(c.mamba_slots, target_slots), c.mamba_bytes_per_slot);
    let after = match c.with_mamba_slots(target_slots).slots_for_context(f.usable) {
        Some(n) => n,
        None => now,
    };
    if after <= now {
        return out;
    }
    // KV is pinned at its reserve, so the MoE-first split spends the freed bytes on
    // experts, which is the point: a bigger resident cache is fewer PCIe fetches.
    let mut s = "the GDN state pool costs ".to_owned();
    s.append(bytes(c.mamba_bytes()).as_str());
    s.append(" at ");
    s.append(decimal(current).as_str());
    s.append(" running requests, four slots each at ");
    s.append(bytes(c.mamba_bytes_per_slot).as_str());
    s.append(". KV holds ");
    s.append(tokens(f.usable).as_str());
    s.append(", which is one request at the ");
    s.append(tokens(f.ceiling).as_str());
    s.append(
        " this plan reserves, so most of that pool cannot be used at this context. Dropping to 1 frees ",
    );
    s.append(bytes(freed).as_str());
    s.append(" and grows the expert cache from ");
    s.append(decimal(now).as_str());
    s.append(" to ");
    s.append(decimal(after).as_str());
    s.append(" slots of ");
    s.append(decimal(c.total_experts).as_str());
    s.append(" (");
    s.append(percent(after, c.total_experts).as_str());
    s.append("% resident), which is fewer PCIe fetches per decode step. The cost is real: ");
    s.append(decimal(current).as_str());
    s.append(" shorter requests could otherwise run at once, so keep ");
    s.append(decimal(current).as_str());
    s.append(" if you serve more than one caller.");
    out.push(Step::set(Level::Advice, "max_running_requests", "1".to_owned(), s));
    assert(step_views(out@) =~= concurrency_steps(opt_costs(costs), fit, serve@));
    out
}

// ---------------------------------------------------------------- host memory

/// What is said about host RAM, which the offload family spends as freely as VRAM.
pub open spec fn host_steps(machine: Machine, costs: Option<Costs>) -> Seq<StepView> {
    match costs {
        Some(c) if c.moe() && machine.host_ram_total > 0 => {
            let banks = saturated(c.total_experts * c.moe_bytes_per_expert);
            if machine.host_ram_available < HOST_RAM_HEADROOM {
                seq![
                    a_note(
                        Level::Warning,
                        "host RAM is nearly spoken for: "@ + bytes_text(
                            machine.host_ram_available as nat,
                        ) + " free of "@ + bytes_text(machine.host_ram_total as nat)
                            + ", with about "@ + bytes_text(banks)
                            + " of it pinned expert banks. That rules out --moe-backend hybrid (its CPU executor needs working room) and makes --expert-load parallel risky, since it buffers a whole shard."@,
                    ),
                ]
            } else if above_half(banks, machine.host_ram_total as nat) {
                seq![
                    a_note(
                        Level::Info,
                        "the pinned expert banks are about "@ + bytes_text(banks)
                            + " of this host's "@ + bytes_text(machine.host_ram_total as nat)
                            + " of RAM ("@ + dec(percent_of(banks, machine.host_ram_total as nat))
                            + "%);                  keep --expert-load on auto rather than parallel, which buffers a whole shard"@,
                    ),
                ]
            } else {
                Seq::empty()
            }
        },
        _ => Seq::empty(),
    }
}

/// Host RAM, which the offload family spends as freely as VRAM.
///
/// Every expert lives in pinned host banks whether or not it is resident on the GPU, so
/// the host-side footprint is the *whole* model's experts, not the cache. On a box where
/// that is most of RAM, hybrid and `--expert-load parallel` stop being free choices.
pub fn plan_host_memory(machine: &Machine, costs: Option<&Costs>) -> (r: Vec<Step>)
    ensures
        step_views(r@) == host_steps(*machine, opt_costs(costs)),
{
    let mut out: Vec<Step> = Vec::new();
    assert(step_views(out@) =~= Seq::<StepView>::empty());
    let c: &Costs = match costs {
        Some(c) => c,
        None => {
            return out;
        },
    };
    if !c.is_moe() || machine.host_ram_total == 0 {
        return out;
    }
    let banks = sat_mul(c.total_experts, c.moe_bytes_per_expert);
    if machine.host_ram_available < HOST_RAM_HEADROOM {
        let mut s = "host RAM is nearly spoken for: ".to_owned();
        s.append(bytes(machine.host_ram_available).as_str());
        s.append(" free of ");
        s.append(bytes(machine.host_ram_total).as_str());
        s.append(", with about ");
        s.append(bytes(banks).as_str());
        s.append(
            " of it pinned expert banks. That rules out --moe-backend hybrid (its CPU executor needs working room) and makes --expert-load parallel risky, since it buffers a whole shard.",
        );
        out.push(Step::note(Level::Warning, s));
    } else if is_above_half(banks, machine.host_ram_total) {
        let mut s = "the pinned expert banks are about ".to_owned();
        s.append(bytes(banks).as_str());
        s.append(" of this host's ");
        s.append(bytes(machine.host_ram_total).as_str());
        s.append(" of RAM (");
        s.append(percent(banks, machine.host_ram_total).as_str());
        s.append(
            "%);                  keep --expert-load on auto rather than parallel, which buffers a whole shard",
        );
        out.push(Step::note(Level::Info, s));
    }
    assert(step_views(out@) =~= host_steps(*machine, opt_costs(costs)));
    out
}

// ---------------------------------------------------------------- backend

/// FreeToken's name of an expert format for the bandwidth benchmark.
pub open spec fn bench_format_of(quant: Option<Seq<char>>) -> Seq<char> {
    bench_key_of(
        lowercase(
            match quant {
                Some(q) => q,
                None => "bf16"@,
            },
        ),
    )
}

/// The benchmark's key of a format whose name is in lower case.
pub open spec fn bench_key_of(q: Seq<char>) -> Seq<char> {
    if q == "mxfp4"@ {
        "mxfp4_triton"@
    } else if q == "none"@ || q == ""@ {
        "bf16"@
    } else {
        q
    }
}

/// The benchmark's key of a format whose name is in lower case. An unmapped format falls
/// through unchanged, which then simply finds no entry.
pub fn bench_key(lower: &str) -> (r: String)
    ensures
        r@ == bench_key_of(lower@),
{
    if same(lower, "mxfp4") {
        "mxfp4_triton".to_owned()
    } else if same(lower, "none") || same(lower, "") {
        "bf16".to_owned()
    } else {
        lower.to_owned()
    }
}

/// FreeToken's `expert_quant` to benchbw format key, as `bench_profile.py` maps it.
pub fn bench_format(quant: Option<&str>) -> (r: String)
    ensures
        r@ == bench_format_of(opt_str(quant)),
{
    let q = to_lowercase(
        match quant {
            Some(q) => q,
            None => "bf16",
        },
    );
    bench_key(q.as_str())
}

/// Every expert fits in VRAM beside the whole context.
pub open spec fn fits_fused(c: Costs, ceiling: nat) -> bool {
    c.moe() && ceiling > 0 && c.total_experts * c.moe_bytes_per_expert + ceiling
        * c.kv_bytes_per_token <= c.net()
}

pub open spec fn or_this_gpu(name: Option<Seq<char>>) -> Seq<char> {
    match name {
        Some(n) => n,
        None => "this GPU"@,
    }
}

/// The benchmark's verdict on an expert format.
pub open spec fn verdict_on(bench: BenchProfile, format: Seq<char>) -> Option<Seq<char>> {
    if bench.dtypes@.dom().contains(format) {
        opt_text(bench.dtypes@[format])
    } else {
        None
    }
}

pub open spec fn fused_step(c: Costs, ceiling: nat) -> StepView {
    an_edit(
        Level::Advice,
        "moe_backend"@,
        "fused"@,
        "every expert fits in VRAM ("@ + bytes_text(
            (c.total_experts * c.moe_bytes_per_expert) as nat,
        ) + ") alongside "@ + tokens_text(ceiling) + " of KV, inside the engine's "@ + bytes_text(
            c.net(),
        )
            + " budget. Resident experts skip the PCIe stream entirely; auto will never pick this because it cannot prove the fit."@,
    )
}

pub open spec fn no_bench_step(machine: Machine) -> StepView {
    a_note(
        Level::Warning,
        "no `ft bench bw` profile for "@ + or_this_gpu(opt_text(machine.gpu_name))
            + ", so --moe-backend auto can only ever pick offload and --moe-hybrid-max-fetch auto falls back to a fixed cap of 1. Run a bandwidth benchmark from the Jobs tab"@
            + (match machine.pcie_link {
            Some(link) => " — on a "@ + link@ + " link with "@ + dec(machine.physical_cores as nat)
                + " physical cores, hybrid is worth measuring"@,
            None => Seq::empty(),
        }) + "."@,
    )
}

pub open spec fn verdict_step(
    machine: Machine,
    bench: BenchProfile,
    format: Seq<char>,
    m: Map<Seq<char>, Seq<char>>,
) -> StepView {
    match verdict_on(bench, format) {
        Some(verdict) => {
            let detail = "the benchmark on "@ + or_this_gpu(opt_text(bench.gpu.name))
                + " recommends "@ + verdict + " for "@ + format + " experts"@;
            if verdict == "hybrid"@ && machine.host_ram_total > 0 && machine.host_ram_available
                < HOST_RAM_HEADROOM {
                a_note(
                    Level::Warning,
                    detail + ", but only "@ + bytes_text(machine.host_ram_available as nat)
                        + " of host RAM is free — hybrid's CPU executor needs working room on top of the pinned banks, so this stays on offload until there is more headroom"@,
                )
            } else if verdict != "auto"@ && value_of(m, "moe_backend"@) == Some(verdict) {
                a_note(Level::Info, "--moe-backend is already "@ + verdict + "; "@ + detail)
            } else {
                an_edit(Level::Advice, "moe_backend"@, verdict, detail)
            }
        },
        None => a_note(
            Level::Info,
            "the bench profile has no verdict for "@ + format + " experts; `ft bench bw --dtype "@
                + format + "` would settle the offload/hybrid choice"@,
        ),
    }
}

/// The backend half of a plan.
pub open spec fn backend_steps(
    target: Target,
    machine: Machine,
    costs: Option<Costs>,
    bench: Option<BenchProfile>,
    m: Map<Seq<char>, Seq<char>>,
) -> Seq<StepView> {
    let ceiling = match target.ceiling {
        Some(c) => c as nat,
        None => 0,
    };
    if !target.is_moe {
        Seq::empty()
    } else if costs is Some && fits_fused(costs->0, ceiling) {
        seq![fused_step(costs->0, ceiling)]
    } else {
        match bench {
            None => seq![no_bench_step(machine)],
            Some(b) => seq![
                verdict_step(machine, b, bench_format_of(opt_text(target.quant)), m),
            ],
        }
    }
}

/// The offload half of the backend choice, which the benchmark decides.
pub fn plan_verdict(
    machine: &Machine,
    bench: &BenchProfile,
    format: String,
    serve: &ServeConfig,
) -> (r: Step)
    ensures
        r@ == verdict_step(*machine, *bench, format@, serve@),
{
    let verdict: Option<&String> = match bench.dtypes.get(format.as_str()) {
        Some(Some(v)) => Some(v),
        _ => None,
    };
    match verdict {
        Some(verdict) => {
            let mut detail = "the benchmark on ".to_owned();
            detail.append(
                match &bench.gpu.name {
                    Some(n) => n.as_str(),
                    None => "this GPU",
                },
            );
            detail.append(" recommends ");
            detail.append(verdict.as_str());
            detail.append(" for ");
            detail.append(format.as_str());
            detail.append(" experts");
            // A benched hybrid verdict is about bandwidth, and bandwidth is not the only
            // thing hybrid spends: its CPU executor wants host RAM that the pinned expert
            // banks may already have taken. Recommending it into a host with no headroom
            // trades a working serve for a faster one that cannot allocate.
            let starved = same(verdict.as_str(), "hybrid") && machine.host_ram_total > 0
                && machine.host_ram_available < HOST_RAM_HEADROOM;
            if starved {
                let mut s = detail;
                s.append(", but only ");
                s.append(bytes(machine.host_ram_available).as_str());
                s.append(
                    " of host RAM is free — hybrid's CPU executor needs working room on top of the pinned banks, so this stays on offload until there is more headroom",
                );
                Step::note(Level::Warning, s)
            } else if !same(verdict.as_str(), "auto") && is_text(
                serve.get("moe_backend"),
                verdict.as_str(),
            ) {
                let s = cat4(
                    "--moe-backend is already ",
                    verdict.as_str(),
                    "; ",
                    detail.as_str(),
                );
                Step::note(Level::Info, s)
            } else {
                Step::set(Level::Advice, "moe_backend", verdict.clone(), detail)
            }
        },
        None => {
            let mut s = "the bench profile has no verdict for ".to_owned();
            s.append(format.as_str());
            s.append(" experts; `ft bench bw --dtype ");
            s.append(format.as_str());
            s.append("` would settle the offload/hybrid choice");
            Step::note(Level::Info, s)
        },
    }
}

/// The backend half: the choice `auto` will not make for itself.
pub fn plan_backend(
    target: &Target,
    machine: &Machine,
    costs: Option<&Costs>,
    bench: Option<&BenchProfile>,
    serve: &ServeConfig,
) -> (r: Vec<Step>)
    ensures
        step_views(r@) == backend_steps(
            *target,
            *machine,
            opt_costs(costs),
            opt_bench(bench),
            serve@,
        ),
{
    let mut out: Vec<Step> = Vec::new();
    assert(step_views(out@) =~= Seq::<StepView>::empty());
    if !target.is_moe {
        return out;
    }
    // `fused` keeps every expert resident. auto refuses to pick it because a wrong guess
    // is an OOM at weight load; with a measured per-expert cost the guess is arithmetic.
    if let Some(c) = costs {
        let all_experts = wide_mul(c.total_experts, c.moe_bytes_per_expert);
        let ceiling = match target.ceiling {
            Some(n) => n,
            None => 0,
        };
        let context = wide_mul(ceiling, c.kv_bytes_per_token);
        let net = c.net_budget();
        if c.is_moe() && ceiling > 0 && all_experts <= net as u128 && context <= net as u128
            && all_experts + context <= net as u128 {
            let mut s = "every expert fits in VRAM (".to_owned();
            s.append(bytes(all_experts as u64).as_str());
            s.append(") alongside ");
            s.append(tokens(ceiling).as_str());
            s.append(" of KV, inside the engine's ");
            s.append(bytes(net).as_str());
            s.append(
                " budget. Resident experts skip the PCIe stream entirely; auto will never pick this because it cannot prove the fit.",
            );
            out.push(Step::set(Level::Advice, "moe_backend", "fused".to_owned(), s));
            assert(step_views(out@) =~= backend_steps(
                *target,
                *machine,
                opt_costs(costs),
                opt_bench(bench),
                serve@,
            ));
            return out;
        }
    }
    // Otherwise it is the offload family, and the profile decides offload vs hybrid.
    match bench {
        None => {
            let mut s = "no `ft bench bw` profile for ".to_owned();
            s.append(
                match &machine.gpu_name {
                    Some(n) => n.as_str(),
                    None => "this GPU",
                },
            );
            s.append(
                ", so --moe-backend auto can only ever pick offload and --moe-hybrid-max-fetch auto falls back to a fixed cap of 1. Run a bandwidth benchmark from the Jobs tab",
            );
            let link = match &machine.pcie_link {
                Some(link) => {
                    let mut l = " — on a ".to_owned();
                    l.append(link.as_str());
                    l.append(" link with ");
                    l.append(decimal(machine.physical_cores as u64).as_str());
                    l.append(" physical cores, hybrid is worth measuring");
                    l
                },
                None => String::new(),
            };
            s.append(link.as_str());
            s.append(".");
            out.push(Step::note(Level::Warning, s));
        },
        Some(b) => {
            let quant: Option<&str> = match &target.quant {
                Some(q) => Some(q.as_str()),
                None => None,
            };
            assert(opt_str(quant) == opt_text(target.quant));
            out.push(plan_verdict(machine, b, bench_format(quant), serve));
        },
    }
    assert(step_views(out@) =~= backend_steps(
        *target,
        *machine,
        opt_costs(costs),
        opt_bench(bench),
        serve@,
    ));
    out
}

pub open spec fn opt_bench(b: Option<&BenchProfile>) -> Option<BenchProfile> {
    match b {
        Some(b) => Some(*b),
        None => None,
    }
}

// ---------------------------------------------------------------- speed

pub open spec fn capture_step(running: nat) -> StepView {
    an_edit(
        Level::Advice,
        "cuda_graph_max_bs"@,
        dec(running),
        "capture CUDA graphs up to the "@ + dec(running)
            + " requests the scheduler will actually run; batches above the captured size decode eager"@,
    )
}

pub open spec fn threads_step(threads: nat, cores: nat) -> StepView {
    an_edit(
        Level::Advice,
        "moe_cpu_threads"@,
        "0"@,
        "--moe-cpu-threads "@ + dec(threads) + " oversubscribes "@ + dec(cores)
            + " physical cores; 0 means one worker per core, which is what the executor wants"@,
    )
}

/// A thread count that oversubscribes the cores.
pub open spec fn too_many_threads(machine: Machine, m: Map<Seq<char>, Seq<char>>) -> bool {
    match number_at(m, "moe_cpu_threads"@) {
        Some(n) => n <= usize::MAX && machine.physical_cores > 0 && n > machine.physical_cores,
        None => false,
    }
}

/// The knobs that cost nothing to get right and are never chosen for you.
pub open spec fn speed_steps(machine: Machine, m: Map<Seq<char>, Seq<char>>) -> Seq<StepView> {
    let captured = number_at(m, "cuda_graph_max_bs"@);
    let capture = match number_at(m, "max_running_requests"@) {
        Some(running) if captured is None || captured->0 < running => seq![
            capture_step(running as nat),
        ],
        _ => Seq::empty(),
    };
    if too_many_threads(machine, m) {
        capture.push(
            threads_step(
                number_at(m, "moe_cpu_threads"@)->0 as nat,
                machine.physical_cores as nat,
            ),
        )
    } else {
        capture
    }
}

/// The knobs that cost nothing to get right and are never chosen for you.
pub fn plan_speed(machine: &Machine, serve: &ServeConfig) -> (r: Vec<Step>)
    ensures
        step_views(r@) == speed_steps(*machine, serve@),
{
    let mut out: Vec<Step> = Vec::new();
    assert(step_views(out@) =~= Seq::<StepView>::empty());
    // CUDA graphs are captured up to --cuda-graph-max-bs, which defaults to
    // --max-running-requests. Raising concurrency without it leaves the larger batches
    // running eager.
    if let Some(running) = number(serve, "max_running_requests") {
        let covered = match number(serve, "cuda_graph_max_bs") {
            Some(c) => c >= running,
            None => false,
        };
        if !covered {
            let mut s = "capture CUDA graphs up to the ".to_owned();
            s.append(decimal(running).as_str());
            s.append(
                " requests the scheduler will actually run; batches above the captured size decode eager",
            );
            out.push(Step::set(Level::Advice, "cuda_graph_max_bs", decimal(running), s));
        }
    }
    let ghost capture = step_views(out@);
    assert(capture =~= (match number_at(serve@, "max_running_requests"@) {
        Some(running) if number_at(serve@, "cuda_graph_max_bs"@) is None || number_at(
            serve@,
            "cuda_graph_max_bs"@,
        )->0 < running => seq![capture_step(running as nat)],
        _ => Seq::empty(),
    }));
    // The CPU MoE executor wants one worker per physical core. Its own default (0) already
    // means that, so this is only worth saying when the knob is set to something else.
    if let Some(threads) = number(serve, "moe_cpu_threads") {
        if threads <= usize::MAX as u64 && machine.physical_cores > 0 && threads
            > machine.physical_cores as u64 {
            let mut s = "--moe-cpu-threads ".to_owned();
            s.append(decimal(threads).as_str());
            s.append(" oversubscribes ");
            s.append(decimal(machine.physical_cores as u64).as_str());
            s.append(
                " physical cores; 0 means one worker per core, which is what the executor wants",
            );
            out.push(Step::set(Level::Advice, "moe_cpu_threads", "0".to_owned(), s));
            assert(step_views(out@) =~= capture.push(
                threads_step(threads as nat, machine.physical_cores as nat),
            ));
        }
    }
    out
}

// ---------------------------------------------------------------- all of it

/// The whole plan.
pub open spec fn plan_of(
    target: Target,
    machine: Machine,
    costs: Option<Costs>,
    bench: Option<BenchProfile>,
    m: Map<Seq<char>, Seq<char>>,
) -> PlanView {
    let context = context_plan(target, costs, m);
    PlanView {
        steps: context.steps + concurrency_steps(costs, context.fit, m) + backend_steps(
            target,
            machine,
            costs,
            bench,
            m,
        ) + host_steps(machine, costs) + speed_steps(machine, m),
        ..context
    }
}

fn append_steps(plan: &mut Plan, more: Vec<Step>)
    ensures
        final(plan)@ == (PlanView {
            steps: old(plan)@.steps + step_views(more@),
            ..old(plan)@
        }),
{
    let ghost before = plan.steps@;
    let ghost tail = more@;
    let mut more = more;
    plan.steps.append(&mut more);
    assert(step_views(plan.steps@) =~= step_views(before) + step_views(tail));
}

/// Build a plan for `target` on `machine`.
///
/// `costs` is what the engine measured for this model, from a live serve or a remembered
/// one; without it the memory half of the plan is skipped and said to be skipped, because
/// the alternative is inventing a KV cost and confidently sizing a cache against it.
pub fn build(
    target: &Target,
    machine: &Machine,
    costs: Option<&Costs>,
    bench: Option<&BenchProfile>,
    serve: &ServeConfig,
) -> (r: Plan)
    requires
        target.sized() && costs is Some ==> costs->0.priced(),
    ensures
        r@ == plan_of(*target, *machine, opt_costs(costs), opt_bench(bench), serve@),
{
    let mut plan = plan_context(target, costs, serve);
    let fit = plan.fit;
    append_steps(&mut plan, plan_concurrency(costs, fit, serve));
    append_steps(&mut plan, plan_backend(target, machine, costs, bench, serve));
    append_steps(&mut plan, plan_host_memory(machine, costs));
    append_steps(&mut plan, plan_speed(machine, serve));
    plan
}

// ---------------------------------------------------------------- bandwidth profiles

pub open spec fn profile_dir(cache: Seq<char>) -> Seq<char> {
    joined_path(joined_path(cache, "freetoken"@), "benchbw"@)
}

/// Where `ft bench bw` writes its profile of one GPU; a card without an identity has none.
pub open spec fn own_profile_of(cache: Seq<char>, uuid: Option<Seq<char>>) -> Option<Seq<char>> {
    match uuid {
        Some(u) if u.len() > 0 => Some(joined_path(profile_dir(cache), u + ".json"@)),
        _ => None,
    }
}

pub fn own_profile(cache: &str, gpu_uuid: Option<&str>) -> (r: Option<String>)
    ensures
        opt_text(r) == own_profile_of(cache@, opt_str(gpu_uuid)),
{
    match gpu_uuid {
        Some(u) => if u.is_empty() {
            None
        } else {
            let dir = join_path(join_path(cache, "freetoken").as_str(), "benchbw");
            Some(join_path(dir.as_str(), cat2(u, ".json").as_str()))
        },
        None => None,
    }
}

/// The profiles among the files of a directory, each with when it was written.
pub open spec fn profiles_among(files: Seq<(u64, String)>) -> Seq<(u64, String)>
    decreases files.len(),
{
    if files.len() == 0 {
        files
    } else if extension_of(files.last().1@) == Some("json"@) {
        profiles_among(files.drop_last()).push(files.last())
    } else {
        profiles_among(files.drop_last())
    }
}

pub open spec fn profile_found(
    cache: Seq<char>,
    uuid: Option<Seq<char>>,
    own_is_file: bool,
    files: Seq<(u64, String)>,
    legacy_is_file: bool,
) -> Option<Seq<char>> {
    let own = own_profile_of(cache, uuid);
    if own is Some && own_is_file {
        own
    } else {
        match newest(profiles_among(files)) {
            Some(name) => Some(joined_path(profile_dir(cache), name@)),
            None => if legacy_is_file {
                Some(joined_path(joined_path(cache, "freetoken"@), "benchbw.json"@))
            } else {
                None
            },
        }
    }
}

/// The `ft bench bw` profile written for a GPU, if there is one.
///
/// The lookup mirrors FreeToken's own (`moe/bench_profile.py`): the per-GPU file first,
/// because bandwidth differs between slots, then the newest of whatever else was benched,
/// then the legacy single-file path. `own_is_file` says of [`own_profile`] whether it is a
/// file, `files` are those beside it with when each was written, and `legacy_is_file` says
/// of `freetoken/benchbw.json` whether it is one.
pub fn bench_profile_status(
    cache: Option<&str>,
    gpu_uuid: Option<&str>,
    own_is_file: bool,
    files: &Vec<(u64, String)>,
    legacy_is_file: bool,
) -> (r: Option<String>)
    ensures
        opt_text(r) == (match cache {
            Some(c) => profile_found(
                c@,
                opt_str(gpu_uuid),
                own_is_file,
                files@,
                legacy_is_file,
            ),
            None => None,
        }),
{
    let cache = match cache {
        Some(c) => c,
        None => {
            return None;
        },
    };
    let own = own_profile(cache, gpu_uuid);
    if own.is_some() && own_is_file {
        return own;
    }
    let root = join_path(cache, "freetoken");
    let ghost all = files@;
    let mut profiles: Vec<(u64, String)> = Vec::new();
    let mut i: usize = 0;
    assert(all.take(0) =~= Seq::<(u64, String)>::empty());
    while i < files.len()
        invariant
            i <= files.len(),
            all == files@,
            profiles@ == profiles_among(all.take(i as int)),
        decreases files.len() - i,
    {
        assert(all.take(i + 1).drop_last() =~= all.take(i as int));
        assert(all.take(i + 1).last() == files@[i as int]);
        let json = match extension(files[i].1.as_str()) {
            Some(e) => same(e.as_str(), "json"),
            None => false,
        };
        if json {
            profiles.push((files[i].0, files[i].1.clone()));
        }
        i = i + 1;
    }
    assert(all.take(i as int) =~= all);
    match newest_snapshot(&profiles) {
        Some(name) => Some(
            join_path(join_path(root.as_str(), "benchbw").as_str(), name.as_str()),
        ),
        None => if legacy_is_file {
            Some(join_path(root.as_str(), "benchbw.json"))
        } else {
            None
        },
    }
}

// ---------------------------------------------------------------- remembering costs

/// What the engine measured, remembered across runs, keyed by served model name.
///
/// The per-unit costs only become knowable once a model has actually been loaded, which
/// is exactly too late to plan its launch. Writing them down the first time turns that
/// into a one-serve cost: the second launch of a model is planned exactly.
///
/// Keyed by the served model name rather than the checkpoint path, because that is what
/// both `/v1/stats` and a launch configuration agree on.
pub struct CostStore {
    pub models: TextMap<Costs>,
}

impl View for CostStore {
    type V = Map<Seq<char>, Costs>;

    open spec fn view(&self) -> Map<Seq<char>, Costs> {
        self.models@
    }
}

impl CostStore {
    pub fn new() -> (r: Self)
        ensures
            r@ == Map::<Seq<char>, Costs>::empty(),
    {
        CostStore { models: TextMap::new() }
    }

    /// Where the store is kept under the state directory.
    pub fn path(state_dir: &str) -> (r: String)
        ensures
            r@ == crate::paths::joined_path(state_dir@, "costs.json"@),
    {
        crate::paths::join(state_dir, "costs.json")
    }

    pub fn get(&self, model: &str) -> (r: Option<&Costs>)
        ensures
            match r {
                Some(c) => self@.dom().contains(model@) && *c == self@[model@],
                None => !self@.dom().contains(model@),
            },
    {
        self.models.get(model)
    }

    /// Record what an engine reported. Returns true when this is new information, so the
    /// caller only writes to disk when there is something to write.
    pub fn observe(&mut self, model: &str, costs: Costs) -> (r: bool)
        ensures
            final(self)@ == old(self)@.insert(model@, costs),
            r == !(old(self)@.dom().contains(model@) && old(self)@[model@] == costs),
    {
        let known = match self.models.get(model) {
            Some(c) => *c == costs,
            None => false,
        };
        if known {
            assert(self@ =~= self@.insert(model@, costs));
            return false;
        }
        self.models.insert(model, costs);
        true
    }
}

// ---------------------------------------------------------------- laws of a plan

/// Edits that cannot get in each other's way: no key twice, none that clears its knob, and
/// none that excludes another.
pub open spec fn settled(edits: Seq<(Seq<char>, Seq<char>)>) -> bool {
    forall|i: int, j: int|
        0 <= i < edits.len() && 0 <= j < edits.len() && i != j ==> (#[trigger] edits[i]).0 != (
        #[trigger] edits[j]).0 && !excluded_by(edits[i].0).contains(edits[j].0)
}

/// An edit is in force: the knob has the value, or none when the value is one that clears
/// it.
pub open spec fn in_force(m: Map<Seq<char>, Seq<char>>, edit: (Seq<char>, Seq<char>)) -> bool {
    value_of(m, edit.0) == Some(edit.1) || (clears(edit.0, edit.1) && value_of(m, edit.0) is None)
}

proof fn lemma_applied_holds(
    m: Map<Seq<char>, Seq<char>>,
    edits: Seq<(Seq<char>, Seq<char>)>,
    i: int,
)
    requires
        settled(edits),
        0 <= i < edits.len(),
    ensures
        in_force(applied(m, edits).0, edits[i]),
    decreases edits.len(),
{
    let head = edits.drop_last();
    assert(edits[edits.len() - 1] == edits.last());
    if i < head.len() {
        assert forall|a: int, b: int|
            0 <= a < head.len() && 0 <= b < head.len() && a != b implies (#[trigger] head[a]).0 != (
        #[trigger] head[b]).0 && !excluded_by(head[a].0).contains(head[b].0) by {
            assert(head[a] == edits[a] && head[b] == edits[b]);
        }
        lemma_applied_holds(m, head, i);
        assert(head[i] == edits[i]);
    }
}

proof fn lemma_nothing_to_apply(m: Map<Seq<char>, Seq<char>>, edits: Seq<(Seq<char>, Seq<char>)>)
    requires
        forall|i: int| 0 <= i < edits.len() ==> in_force(m, #[trigger] edits[i]),
    ensures
        applied(m, edits) == (m, 0nat),
    decreases edits.len(),
{
    if edits.len() > 0 {
        let head = edits.drop_last();
        assert forall|i: int| 0 <= i < head.len() implies in_force(m, #[trigger] head[i]) by {
            assert(head[i] == edits[i]);
        }
        lemma_nothing_to_apply(m, head);
        let last = edits.last();
        assert(in_force(m, edits[edits.len() - 1]));
        if value_of(m, last.0) is None {
            assert(after_set(m, last.0, last.1) =~= m);
        }
    }
}

/// Applying the same edits again changes nothing, and every edit is in force after the
/// first time.
pub proof fn law_reapplying_changes_nothing(
    m: Map<Seq<char>, Seq<char>>,
    edits: Seq<(Seq<char>, Seq<char>)>,
)
    requires
        settled(edits),
    ensures
        applied(applied(m, edits).0, edits) == (applied(m, edits).0, 0nat),
        forall|i: int|
            0 <= i < edits.len() ==> in_force(applied(m, edits).0, #[trigger] edits[i]),
{
    let n = applied(m, edits).0;
    assert forall|i: int| 0 <= i < edits.len() implies in_force(n, #[trigger] edits[i]) by {
        lemma_applied_holds(m, edits, i);
    }
    lemma_nothing_to_apply(n, edits);
}

pub proof fn lemma_edits_concat(a: Seq<StepView>, b: Seq<StepView>)
    ensures
        edits_of(a + b) == edits_of(a) + edits_of(b),
    decreases b.len(),
{
    if b.len() == 0 {
        assert(a + b =~= a);
        assert(edits_of(a) + edits_of(b) =~= edits_of(a));
    } else {
        assert((a + b).drop_last() =~= a + b.drop_last());
        assert((a + b).last() == b.last());
        lemma_edits_concat(a, b.drop_last());
        match b.last().set {
            Some(e) => {
                assert(edits_of(a) + edits_of(b.drop_last()).push(e) =~= (edits_of(a) + edits_of(
                    b.drop_last(),
                )).push(e));
            },
            None => {},
        }
    }
}

proof fn lemma_edits_of_none(s: Seq<StepView>)
    requires
        forall|i: int| 0 <= i < s.len() ==> (#[trigger] s[i]).set is None,
    ensures
        edits_of(s) == Seq::<(Seq<char>, Seq<char>)>::empty(),
    decreases s.len(),
{
    if s.len() > 0 {
        assert(s.last().set is None);
        lemma_edits_of_none(s.drop_last());
    }
}

proof fn lemma_edits_of_one(s: StepView)
    ensures
        edits_of(seq![s]) == (match s.set {
            Some(e) => seq![e],
            None => Seq::empty(),
        }),
{
    assert(seq![s].drop_last() =~= Seq::<StepView>::empty());
    assert(edits_of(seq![s].drop_last()) =~= Seq::<(Seq<char>, Seq<char>)>::empty());
    assert(edits_of(seq![s]) =~= (match s.set {
        Some(e) => seq![e],
        None => Seq::empty(),
    }));
}

/// The keys that a plan can edit, in the order in which it does.
pub open spec fn edit_rank(key: Seq<char>) -> int {
    if key == "disable_moe_prefill_overlap"@ {
        0
    } else if key == "kv_reserve_tokens"@ {
        1
    } else if key == "max_running_requests"@ {
        2
    } else if key == "moe_backend"@ {
        3
    } else if key == "cuda_graph_max_bs"@ {
        4
    } else if key == "moe_cpu_threads"@ {
        5
    } else {
        -1
    }
}

proof fn lemma_edit_ranks()
    ensures
        edit_rank("disable_moe_prefill_overlap"@) == 0,
        edit_rank("kv_reserve_tokens"@) == 1,
        edit_rank("max_running_requests"@) == 2,
        edit_rank("moe_backend"@) == 3,
        edit_rank("cuda_graph_max_bs"@) == 4,
        edit_rank("moe_cpu_threads"@) == 5,
{
    reveal_strlit("disable_moe_prefill_overlap");
    reveal_strlit("kv_reserve_tokens");
    reveal_strlit("max_running_requests");
    reveal_strlit("moe_backend");
    reveal_strlit("cuda_graph_max_bs");
    reveal_strlit("moe_cpu_threads");
    assert("disable_moe_prefill_overlap"@.len() == 27);
    assert("kv_reserve_tokens"@.len() == 17 && "kv_reserve_tokens"@[0] == 'k');
    assert("max_running_requests"@.len() == 20);
    assert("moe_backend"@.len() == 11);
    assert("cuda_graph_max_bs"@.len() == 17 && "cuda_graph_max_bs"@[0] == 'c');
    assert("moe_cpu_threads"@.len() == 15);
}

/// Ascending ranks within bounds.
spec fn in_rank_order(e: Seq<(Seq<char>, Seq<char>)>, from: int, to: int) -> bool {
    &&& forall|i: int|
        0 <= i < e.len() ==> from <= edit_rank((#[trigger] e[i]).0) < to
    &&& forall|i: int, j: int|
        0 <= i < j < e.len() ==> edit_rank((#[trigger] e[i]).0) < edit_rank((#[trigger] e[j]).0)
}

proof fn lemma_rank_order_concat(
    a: Seq<(Seq<char>, Seq<char>)>,
    b: Seq<(Seq<char>, Seq<char>)>,
    from: int,
    mid: int,
    to: int,
)
    requires
        from <= mid <= to,
        in_rank_order(a, from, mid),
        in_rank_order(b, mid, to),
    ensures
        in_rank_order(a + b, from, to),
{
    let e = a + b;
    assert forall|i: int| 0 <= i < e.len() implies from <= edit_rank((#[trigger] e[i]).0) < to by {
        if i < a.len() {
            assert(e[i] == a[i]);
        } else {
            assert(e[i] == b[i - a.len()]);
        }
    }
    assert forall|i: int, j: int| 0 <= i < j < e.len() implies edit_rank((#[trigger] e[i]).0)
        < edit_rank((#[trigger] e[j]).0) by {
        if j < a.len() {
            assert(e[i] == a[i] && e[j] == a[j]);
        } else if i < a.len() {
            assert(e[i] == a[i] && e[j] == b[j - a.len()]);
        } else {
            assert(e[i] == b[i - a.len()] && e[j] == b[j - a.len()]);
        }
    }
}

proof fn lemma_context_edits(target: Target, costs: Option<Costs>, m: Map<Seq<char>, Seq<char>>)
    ensures
        in_rank_order(edits_of(context_plan(target, costs, m).steps), 0, 2),
{
    lemma_edit_ranks();
    let steps = context_plan(target, costs, m).steps;
    match target.ceiling {
        Some(ceiling) if ceiling > 0 && costs is Some => {
            let c = costs->0;
            let name = target.name@;
            let overlap = !is_on(m, "disable_moe_prefill_overlap"@);
            let give_up = gives_up_overlap(c, ceiling as nat, overlap);
            let reachable = if give_up {
                c.reach(false)
            } else {
                c.reach(overlap)
            };
            let want = min(ceiling as nat, reachable);
            let head: Seq<StepView> = if give_up {
                seq![overlap_step(c, ceiling as nat)]
            } else {
                Seq::empty()
            };
            lemma_edits_of_one(overlap_step(c, ceiling as nat));
            assert(in_rank_order(edits_of(head), 0, 1));
            if want == 0 {
                assert(head.push(no_fit_step(name, c)).drop_last() =~= head);
            } else {
                let short = short_step(name, c, ceiling as nat, reachable, overlap);
                let middle = if reachable < ceiling {
                    head.push(short)
                } else {
                    head
                };
                assert(head.push(short).drop_last() =~= head);
                assert(edits_of(middle) == edits_of(head));
                let last = reserve_step(c, want, ceiling as nat, m, overlap);
                assert(middle.push(last).drop_last() =~= middle);
                match last.set {
                    Some(e) => {
                        assert(in_rank_order(seq![e], 1, 2));
                        lemma_rank_order_concat(edits_of(head), seq![e], 0, 1, 2);
                        assert(edits_of(head) + seq![e] =~= edits_of(head).push(e));
                        assert(steps =~= middle.push(last));
                    },
                    None => {},
                }
            }
        },
        _ => {
            assert(steps =~= Seq::<StepView>::empty());
        },
    }
}

/// The edits of a plan: those of its context half, and behind them those of other keys.
proof fn lemma_plan_edits(
    target: Target,
    machine: Machine,
    costs: Option<Costs>,
    bench: Option<BenchProfile>,
    m: Map<Seq<char>, Seq<char>>,
) -> (rest: Seq<(Seq<char>, Seq<char>)>)
    ensures
        edits_of(plan_of(target, machine, costs, bench, m).steps) == edits_of(
            context_plan(target, costs, m).steps,
        ) + rest,
        in_rank_order(edits_of(context_plan(target, costs, m).steps), 0, 2),
        in_rank_order(rest, 2, 6),
{
    lemma_edit_ranks();
    let context = context_plan(target, costs, m);
    let a = context.steps;
    let b = concurrency_steps(costs, context.fit, m);
    let c = backend_steps(target, machine, costs, bench, m);
    let d = host_steps(machine, costs);
    let e = speed_steps(machine, m);
    lemma_context_edits(target, costs, m);
    if b.len() > 0 {
        lemma_edits_of_one(b[0]);
        assert(b =~= seq![b[0]]);
    }
    assert(in_rank_order(edits_of(b), 2, 3));
    if c.len() > 0 {
        lemma_edits_of_one(c[0]);
        assert(c =~= seq![c[0]]);
    }
    assert(in_rank_order(edits_of(c), 3, 4));
    lemma_edits_of_none(d);
    assert(in_rank_order(edits_of(d), 4, 4));
    lemma_speed_edits(machine, m);
    lemma_edits_concat(a, b);
    lemma_edits_concat(a + b, c);
    lemma_edits_concat(a + b + c, d);
    lemma_edits_concat(a + b + c + d, e);
    let rest = edits_of(b) + edits_of(c) + edits_of(d) + edits_of(e);
    lemma_rank_order_concat(edits_of(b), edits_of(c), 2, 3, 4);
    lemma_rank_order_concat(edits_of(b) + edits_of(c), edits_of(d), 2, 4, 4);
    lemma_rank_order_concat(edits_of(b) + edits_of(c) + edits_of(d), edits_of(e), 2, 4, 6);
    assert(edits_of(a + b + c + d + e) =~= edits_of(a) + rest);
    rest
}

/// The edits of a plan that was built here can be applied again and again: each key occurs
/// once, and none of them excludes another.
pub proof fn law_built_plans_are_settled(
    target: Target,
    machine: Machine,
    costs: Option<Costs>,
    bench: Option<BenchProfile>,
    m: Map<Seq<char>, Seq<char>>,
)
    ensures
        settled(schema_edits(plan_of(target, machine, costs, bench, m).steps)),
{
    let rest = lemma_plan_edits(target, machine, costs, bench, m);
    let first = edits_of(context_plan(target, costs, m).steps);
    lemma_rank_order_concat(first, rest, 0, 2, 6);
    let all = first + rest;
    assert forall|i: int, j: int|
        0 <= i < all.len() && 0 <= j < all.len() && i != j implies (#[trigger] all[i]).0 != (
    #[trigger] all[j]).0 && !excluded_by(all[i].0).contains(all[j].0) by {
        if i < j {
            assert(edit_rank(all[i].0) < edit_rank(all[j].0));
        } else {
            assert(edit_rank(all[j].0) < edit_rank(all[i].0));
        }
        lemma_editable_is_not_excluded(all[i].0, all[j].0);
    }
    lemma_order_stays_settled(all);
}

/// The value that the last edit of `key` gives it, if there is one.
spec fn edited(edits: Seq<(Seq<char>, Seq<char>)>, key: Seq<char>) -> Option<Seq<char>>
    decreases edits.len(),
{
    if edits.len() == 0 {
        None
    } else if edits.last().0 == key {
        Some(edits.last().1)
    } else {
        edited(edits.drop_last(), key)
    }
}

/// What a plan can edit has the value of its last edit afterwards, and its old value where
/// there was none.
proof fn lemma_edited_value(
    m: Map<Seq<char>, Seq<char>>,
    edits: Seq<(Seq<char>, Seq<char>)>,
    key: Seq<char>,
)
    requires
        edit_rank(key) >= 0,
        edited(edits, key) is Some ==> !clears(key, edited(edits, key)->0),
    ensures
        value_of(applied(m, edits).0, key) == (match edited(edits, key) {
            Some(v) => Some(v),
            None => value_of(m, key),
        }),
    decreases edits.len(),
{
    if edits.len() > 0 {
        let last = edits.last();
        if last.0 != key {
            lemma_edited_value(m, edits.drop_last(), key);
            lemma_editable_is_not_excluded(last.0, key);
        }
    }
}

/// Where no two edits have one key, an edit is the last of its key.
proof fn lemma_edited_is_among(edits: Seq<(Seq<char>, Seq<char>)>, key: Seq<char>)
    requires
        settled(edits),
    ensures
        forall|v: Seq<char>| #[trigger] edits.contains((key, v)) ==> edited(edits, key) == Some(v),
        edited(edits, key) is Some ==> edits.contains((key, edited(edits, key)->0)),
    decreases edits.len(),
{
    if edits.len() > 0 {
        let head = edits.drop_last();
        let n = edits.len() - 1;
        assert(edits[n] == edits.last());
        assert(settled(head)) by {
            assert forall|i: int, j: int|
                0 <= i < head.len() && 0 <= j < head.len() && i != j implies (
            #[trigger] head[i]).0 != (#[trigger] head[j]).0 && !excluded_by(head[i].0).contains(
                head[j].0,
            ) by {
                assert(head[i] == edits[i] && head[j] == edits[j]);
            }
        }
        lemma_edited_is_among(head, key);
        assert forall|v: Seq<char>| #[trigger] edits.contains((key, v)) implies edited(edits, key)
            == Some(v) by {
            let i = choose|i: int| 0 <= i < edits.len() && edits[i] == (key, v);
            if i < n {
                assert(head[i] == edits[i]);
                assert(head.contains((key, v)));
                assert(edits[i].0 != edits[n].0);
            }
        }
        if edits.last().0 == key {
            assert(edits.contains((key, edits.last().1)));
        } else if edited(head, key) is Some {
            let v = edited(head, key)->0;
            let i = choose|i: int| 0 <= i < head.len() && head[i] == (key, v);
            assert(edits[i] == (key, v));
        }
    }
}

/// Schema order keeps every edit.
proof fn lemma_order_keeps(s: Seq<(Seq<char>, Seq<char>)>, x: (Seq<char>, Seq<char>))
    ensures
        in_schema_order(s).contains(x) == s.contains(x),
    decreases s.len(),
{
    if s.len() > 0 {
        let head = s.drop_last();
        let last = s.last();
        let o = in_schema_order(head);
        lemma_order_keeps(head, x);
        let k = lemma_placed_at(o, last);
        let n = o.insert(k, last);
        if s.contains(x) {
            let i = choose|i: int| 0 <= i < s.len() && s[i] == x;
            if i < head.len() {
                assert(head[i] == x);
                let j = choose|j: int| 0 <= j < o.len() && o[j] == x;
                if j < k {
                    assert(n[j] == x);
                } else {
                    assert(n[j + 1] == x);
                }
            } else {
                assert(n[k] == x);
            }
        }
        if n.contains(x) {
            let i = choose|i: int| 0 <= i < n.len() && n[i] == x;
            if i == k {
                assert(s[s.len() - 1] == x);
            } else {
                let j = if i < k {
                    i
                } else {
                    i - 1
                };
                assert(o[j] == x);
                assert(head.contains(x));
                let z = choose|z: int| 0 <= z < head.len() && head[z] == x;
                assert(s[z] == x);
            }
        }
    }
}

/// The edits of a plan's context half.
pub proof fn lemma_context_edit_list(target: Target, c: Costs, m: Map<Seq<char>, Seq<char>>)
    requires
        target.sized(),
    ensures
        ({
            let ceiling = target.ceiling->0 as nat;
            let overlap = !is_on(m, "disable_moe_prefill_overlap"@);
            let give_up = gives_up_overlap(c, ceiling, overlap);
            let want = min(ceiling, c.reach(overlap && !give_up));
            edits_of(context_plan(target, Some(c), m).steps) == (if give_up {
                seq![("disable_moe_prefill_overlap"@, "true"@)]
            } else {
                Seq::empty()
            }) + (if want > 0 && current_reserve(m) < want {
                seq![("kv_reserve_tokens"@, dec(want))]
            } else {
                Seq::empty()
            })
        }),
{
    let name = target.name@;
    let ceiling = target.ceiling->0 as nat;
    let steps = context_plan(target, Some(c), m).steps;
    let overlap = !is_on(m, "disable_moe_prefill_overlap"@);
    let give_up = gives_up_overlap(c, ceiling, overlap);
    let reachable = c.reach(overlap && !give_up);
    let want = min(ceiling, reachable);
    let head: Seq<StepView> = if give_up {
        seq![overlap_step(c, ceiling)]
    } else {
        Seq::empty()
    };
    lemma_edits_of_one(overlap_step(c, ceiling));
    if want == 0 {
        assert(head.push(no_fit_step(name, c)).drop_last() =~= head);
        assert(edits_of(steps) =~= edits_of(head));
    } else {
        let short = short_step(name, c, ceiling, reachable, overlap);
        let middle = if reachable < ceiling {
            head.push(short)
        } else {
            head
        };
        assert(head.push(short).drop_last() =~= head);
        assert(edits_of(middle) == edits_of(head));
        let last = reserve_step(c, want, ceiling, m, overlap);
        assert(middle.push(last).drop_last() =~= middle);
        assert(steps =~= middle.push(last));
    }
}

/// The reserve that a plan recommends can be delivered once the plan is applied: the engine
/// starts with it, and its pages hold at least that context. The reserve is in force then,
/// and a larger one that was set before stays.
pub proof fn law_a_planned_reserve_is_delivered(
    target: Target,
    machine: Machine,
    c: Costs,
    bench: Option<BenchProfile>,
    m: Map<Seq<char>, Seq<char>>,
)
    requires
        c.priced(),
        target.sized(),
        plan_of(target, machine, Some(c), bench, m).fit->0.usable > c.page_size,
    ensures
        ({
            let plan = plan_of(target, machine, Some(c), bench, m);
            let after = applied(m, schema_edits(plan.steps)).0;
            let reserve = plan.fit->0.usable as nat;
            let started = startup_of(c, reserve, !is_on(after, "disable_moe_prefill_overlap"@));
            &&& plan.fit is Some
            &&& started is Ok
            &&& started->Ok_0.num_pages * c.page_size >= reserve
            &&& current_reserve(after) == max(current_reserve(m), reserve)
        }),
{
    let overlap_key = "disable_moe_prefill_overlap"@;
    let reserve_key = "kv_reserve_tokens"@;
    let plan = plan_of(target, machine, Some(c), bench, m);
    let ceiling = target.ceiling->0 as nat;
    let overlap = !is_on(m, overlap_key);
    let give_up = gives_up_overlap(c, ceiling, overlap);
    let reserve = min(ceiling, c.reach(overlap && !give_up));
    let edits = schema_edits(plan.steps);
    let after = applied(m, edits).0;
    let first = edits_of(context_plan(target, Some(c), m).steps);
    let rest = lemma_plan_edits(target, machine, Some(c), bench, m);
    let all = first + rest;
    lemma_context_edit_list(target, c, m);
    law_built_plans_are_settled(target, machine, Some(c), bench, m);
    lemma_edit_ranks();
    assert(plan.fit->0.usable == reserve);
    // The prefill overlap is as the context half left it.
    lemma_edited_is_among(edits, overlap_key);
    if give_up {
        assert(first[0] == (overlap_key, "true"@));
        assert(all[0] == first[0]);
        lemma_order_keeps(all, (overlap_key, "true"@));
        assert(edited(edits, overlap_key) == Some("true"@));
        reveal_strlit("true");
        reveal_strlit("false");
        assert("true"@.len() == 4 && "false"@.len() == 5);
    } else if edited(edits, overlap_key) is Some {
        let v = edited(edits, overlap_key)->0;
        lemma_order_keeps(all, (overlap_key, v));
        let i = choose|i: int| 0 <= i < all.len() && all[i] == (overlap_key, v);
        if i < first.len() {
            assert(first[i] == all[i]);
        } else {
            assert(rest[i - first.len()] == all[i]);
        }
        assert(false);
    }
    lemma_edited_value(m, edits, overlap_key);
    assert(is_on(after, overlap_key) == !(overlap && !give_up));
    law_a_reachable_context_can_be_reserved(c, reserve, overlap && !give_up);
    // And so is the reserve.
    lemma_edited_is_among(edits, reserve_key);
    lemma_dec_starts_with_a_digit(reserve);
    law_a_numeral_reads_back(reserve);
    if current_reserve(m) < reserve {
        let e = (reserve_key, dec(reserve));
        assert(first.last() == e);
        assert(all[first.len() - 1] == e);
        lemma_order_keeps(all, e);
        assert(edited(edits, reserve_key) == Some(dec(reserve)));
        reveal_strlit("false");
        assert("false"@[0] == 'f');
    } else if edited(edits, reserve_key) is Some {
        let v = edited(edits, reserve_key)->0;
        lemma_order_keeps(all, (reserve_key, v));
        let i = choose|i: int| 0 <= i < all.len() && all[i] == (reserve_key, v);
        if i < first.len() {
            assert(first[i] == all[i]);
        } else {
            assert(rest[i - first.len()] == all[i]);
        }
        assert(false);
    }
    lemma_edited_value(m, edits, reserve_key);
}

proof fn lemma_placed_at(s: Seq<(Seq<char>, Seq<char>)>, x: (Seq<char>, Seq<char>)) -> (k: int)
    ensures
        0 <= k <= s.len(),
        placed(s, x) == s.insert(k, x),
        forall|i: int|
            k <= i < s.len() ==> schema_place(x.0) < schema_place((#[trigger] s[i]).0),
        k > 0 ==> schema_place(s[k - 1].0) <= schema_place(x.0),
    decreases s.len(),
{
    if s.len() > 0 && schema_place(x.0) < schema_place(s.last().0) {
        let k = lemma_placed_at(s.drop_last(), x);
        assert forall|i: int| k <= i < s.len() implies schema_place(x.0) < schema_place(
            (#[trigger] s[i]).0,
        ) by {
            if i < s.len() - 1 {
                assert(s.drop_last()[i] == s[i]);
            }
        }
        lemma_placed(s, x, k);
        k
    } else {
        lemma_placed(s, x, s.len() as int);
        s.len() as int
    }
}

/// Putting edits in schema order keeps them settled, and keeps which edits there are.
proof fn lemma_order_stays_settled(s: Seq<(Seq<char>, Seq<char>)>)
    requires
        settled(s),
    ensures
        settled(in_schema_order(s)),
        forall|x: (Seq<char>, Seq<char>)| #[trigger] in_schema_order(s).contains(x) ==> s.contains(x),
    decreases s.len(),
{
    if s.len() > 0 {
        let head = s.drop_last();
        let last = s.last();
        assert(settled(head)) by {
            assert forall|i: int, j: int|
                0 <= i < head.len() && 0 <= j < head.len() && i != j implies (
            #[trigger] head[i]).0 != (#[trigger] head[j]).0 && !excluded_by(head[i].0).contains(
                head[j].0,
            ) by {
                assert(head[i] == s[i] && head[j] == s[j]);
            }
        }
        lemma_order_stays_settled(head);
        let o = in_schema_order(head);
        let k = lemma_placed_at(o, last);
        let n = o.insert(k, last);
        assert(s[s.len() - 1] == last);
        // Where each edit of the new order comes from: the old order, or the last edit.
        assert forall|i: int| 0 <= i < n.len() implies #[trigger] n[i] == (if i < k {
            o[i]
        } else if i == k {
            last
        } else {
            o[i - 1]
        }) by {}
        assert forall|i: int| 0 <= i < o.len() implies exists|j: int|
            0 <= j < head.len() && #[trigger] s[j] == #[trigger] o[i] by {
            assert(o.contains(o[i]));
            let j = choose|j: int| 0 <= j < head.len() && head[j] == o[i];
            assert(s[j] == o[i]);
        }
        assert forall|i: int, j: int|
            0 <= i < n.len() && 0 <= j < n.len() && i != j implies (#[trigger] n[i]).0 != (
        #[trigger] n[j]).0 && !excluded_by(n[i].0).contains(n[j].0) by {
            if i == k {
                let y = if j < k { j } else { j - 1 };
                let z = choose|z: int| 0 <= z < head.len() && #[trigger] s[z] == o[y];
                assert(n[j] == s[z] && n[i] == s[s.len() - 1]);
            } else if j == k {
                let y = if i < k { i } else { i - 1 };
                let z = choose|z: int| 0 <= z < head.len() && #[trigger] s[z] == o[y];
                assert(n[i] == s[z] && n[j] == s[s.len() - 1]);
            } else {
                let y = if i < k { i } else { i - 1 };
                let z = if j < k { j } else { j - 1 };
                assert(n[i] == o[y] && n[j] == o[z]);
            }
        }
        assert forall|x: (Seq<char>, Seq<char>)| #[trigger] n.contains(x) implies s.contains(x) by {
            let i = choose|i: int| 0 <= i < n.len() && n[i] == x;
            if i == k {
                assert(s[s.len() - 1] == x);
            } else {
                let y = if i < k { i } else { i - 1 };
                let z = choose|z: int| 0 <= z < head.len() && #[trigger] s[z] == o[y];
                assert(s[z] == x);
            }
        }
    }
}

/// A plan's edits stand in schema order.
pub proof fn law_edits_stand_in_schema_order(steps: Seq<StepView>)
    ensures
        forall|i: int, j: int|
            0 <= i <= j < schema_edits(steps).len() ==> schema_place(
                (#[trigger] schema_edits(steps)[i]).0,
            ) <= schema_place((#[trigger] schema_edits(steps)[j]).0),
        schema_edits(steps).to_multiset() == edits_of(steps).to_multiset(),
{
    lemma_in_schema_order(edits_of(steps));
}

proof fn lemma_in_schema_order(s: Seq<(Seq<char>, Seq<char>)>)
    ensures
        forall|i: int, j: int|
            0 <= i <= j < in_schema_order(s).len() ==> schema_place(
                (#[trigger] in_schema_order(s)[i]).0,
            ) <= schema_place((#[trigger] in_schema_order(s)[j]).0),
        in_schema_order(s).to_multiset() == s.to_multiset(),
    decreases s.len(),
{
    broadcast use vstd::seq_lib::group_to_multiset_ensures;

    if s.len() == 0 {
        assert(in_schema_order(s) =~= s);
    } else {
        let head = s.drop_last();
        lemma_in_schema_order(head);
        let o = in_schema_order(head);
        let k = lemma_placed_at(o, s.last());
        let n = o.insert(k, s.last());
        assert forall|i: int, j: int| 0 <= i <= j < n.len() implies schema_place(
            (#[trigger] n[i]).0,
        ) <= schema_place((#[trigger] n[j]).0) by {
            if i < k && j == k {
                assert(schema_place(o[i].0) <= schema_place(o[k - 1].0));
            } else if i == k && j > k {
                assert(n[j] == o[j - 1]);
            } else if i != k && j != k {
                assert(n[i] == o[if i < k { i } else { i - 1 }]);
                assert(n[j] == o[if j < k { j } else { j - 1 }]);
            }
        }
        assert(s =~= head.push(s.last()));
        assert(n.to_multiset() =~= o.to_multiset().insert(s.last()));
    }
}

proof fn lemma_speed_edits(machine: Machine, m: Map<Seq<char>, Seq<char>>)
    ensures
        in_rank_order(edits_of(speed_steps(machine, m)), 4, 6),
{
    lemma_edit_ranks();
    let captured = number_at(m, "cuda_graph_max_bs"@);
    let capture: Seq<StepView> = match number_at(m, "max_running_requests"@) {
        Some(running) if captured is None || captured->0 < running => seq![
            capture_step(running as nat),
        ],
        _ => Seq::empty(),
    };
    match number_at(m, "max_running_requests"@) {
        Some(running) => {
            lemma_edits_of_one(capture_step(running as nat));
        },
        None => {},
    }
    assert(in_rank_order(edits_of(capture), 4, 5));
    if too_many_threads(machine, m) {
        let t = threads_step(
            number_at(m, "moe_cpu_threads"@)->0 as nat,
            machine.physical_cores as nat,
        );
        assert(capture.push(t).drop_last() =~= capture);
        let e = t.set->0;
        assert(in_rank_order(seq![e], 5, 6));
        lemma_rank_order_concat(edits_of(capture), seq![e], 4, 5, 6);
        assert(edits_of(capture) + seq![e] =~= edits_of(capture).push(e));
    }
}

/// No knob excludes one that a plan edits.
proof fn lemma_editable_is_not_excluded(a: Seq<char>, b: Seq<char>)
    requires
        edit_rank(b) >= 0,
    ensures
        !excluded_by(a).contains(b),
{
    reveal_strlit("disable_moe_prefill_overlap");
    reveal_strlit("kv_reserve_tokens");
    reveal_strlit("max_running_requests");
    reveal_strlit("moe_backend");
    reveal_strlit("cuda_graph_max_bs");
    reveal_strlit("moe_cpu_threads");
    reveal_strlit("num_pages");
    reveal_strlit("num_tokens");
    reveal_strlit("moe_cache_size");
    reveal_strlit("moe_cache_rate");
    reveal_strlit("moe_cache_auto");
    if excluded_by(a).contains(b) {
        let keys = find_knob(a)->0.exclusive_with.keys();
        let i = keys.index_of(b);
        assert(keys[i] == b);
        assert("num_pages"@.len() == 9 && "num_tokens"@.len() == 10 && "moe_cache_size"@.len() == 14
            && "moe_cache_rate"@.len() == 14 && "moe_cache_auto"@.len() == 14);
        assert(b.len() == 9 || b.len() == 10 || b.len() == 14);
    }
}

/// What was recorded reads back, and recording it again is no news.
pub proof fn law_recorded_costs_read_back(
    store: Map<Seq<char>, Costs>,
    model: Seq<char>,
    costs: Costs,
)
    ensures
        store.insert(model, costs)[model] == costs,
        store.insert(model, costs).insert(model, costs) == store.insert(model, costs),
{
    assert(store.insert(model, costs).insert(model, costs) =~= store.insert(model, costs));
}

} // verus!
