//! Pool geometry: bounds, current size and unit for each resizable cache pool.
//!
//! Two things have to line up with the engine and neither is visible when it goes wrong.
//! The limit key is the one FreeToken publishes (`_LIMIT_KEYS` in its `cache_report.py`),
//! and the unit is the one it denominates that bound in: tokens for the paged pools, slots
//! for the others. Every pool is sized in the unit `/v1/cache/rebuild` accepts, which for
//! KV and the window is *pages*, so those two convert: invisible on a model with
//! `page_size` 1 and a factor of 128 on DSV4.

use vstd::prelude::*;
use vstd::string::*;
use crate::ft::types::{at_least_one, or_one, CacheGeometry};
use crate::text::{cat2, cat4, dec};
use crate::util::{
    count, count_text, larger, max, min, percent, percent_of, sat_mul, saturated, smaller,
};

verus! {

/// A cache pool that can be resized on a live engine.
#[derive(Debug, Clone, Copy, PartialEq, Eq, Structural)]
pub enum Pool {
    Moe,
    Kv,
    Mamba,
    Swa,
}

impl Pool {
    pub const ALL: [Pool; 4] = [Pool::Moe, Pool::Kv, Pool::Mamba, Pool::Swa];

    pub open spec fn label_text(self) -> Seq<char> {
        match self {
            Pool::Moe => "MoE"@,
            Pool::Kv => "KV"@,
            Pool::Mamba => "Mamba"@,
            Pool::Swa => "SWA"@,
        }
    }

    pub fn label(self) -> (r: &'static str)
        ensures
            r@ == self.label_text(),
    {
        match self {
            Pool::Moe => "MoE",
            Pool::Kv => "KV",
            Pool::Mamba => "Mamba",
            Pool::Swa => "SWA",
        }
    }

    pub open spec fn unit_text(self) -> Seq<char> {
        match self {
            Pool::Moe => "experts"@,
            Pool::Kv => "pages"@,
            Pool::Mamba => "slots"@,
            Pool::Swa => "pages"@,
        }
    }

    /// The unit that the pool is sized in.
    pub fn unit(self) -> (r: &'static str)
        ensures
            r@ == self.unit_text(),
    {
        match self {
            Pool::Moe => "experts",
            Pool::Kv => "pages",
            Pool::Mamba => "slots",
            Pool::Swa => "pages",
        }
    }
}

/// One pool's bounds and current size, every number already in the pool's own unit.
#[derive(Debug, Clone, Copy)]
pub struct PoolGeometry {
    pub current: u64,
    /// The effective lower bound, never below 1: a pool resized to zero is a pool the
    /// engine no longer has.
    pub min: u64,
    /// The effective upper bound, never below `current` and never below 1.
    pub max: u64,
    pub unit: &'static str,
}

impl PoolGeometry {
    /// A request brought inside the bounds: `max` wins over `min`.
    pub open spec fn clamped(&self, value: nat) -> nat {
        min(max(value, self.min as nat), self.max as nat)
    }

    /// Bring a requested size inside the bounds. `min` is applied first and `max` wins,
    /// so a degenerate geometry cannot produce an empty range.
    pub fn clamp(&self, value: u64) -> (r: u64)
        ensures
            r == self.clamped(value as nat),
    {
        smaller(larger(value, self.min), self.max)
    }
}

/// The pool's size right now, in its own unit.
pub open spec fn current_size(geo: CacheGeometry, pool: Pool) -> u64 {
    match pool {
        Pool::Moe => geo.moe_cache_size,
        Pool::Kv => geo.num_pages,
        Pool::Mamba => geo.num_mamba_slots,
        Pool::Swa => geo.num_swa_pages,
    }
}

/// FreeToken's own name for a pool's bounds.
pub open spec fn key_of(pool: Pool) -> Seq<char> {
    match pool {
        Pool::Moe => "moe_experts"@,
        Pool::Kv => "kv_tokens"@,
        Pool::Mamba => "mamba_slots"@,
        Pool::Swa => "swa_tokens"@,
    }
}

/// How many published tokens make one unit of the pool.
pub open spec fn tokens_in_unit(geo: CacheGeometry, pool: Pool) -> nat {
    match pool {
        Pool::Moe => 1,
        Pool::Mamba => 1,
        Pool::Kv => at_least_one(geo.page_size),
        Pool::Swa => at_least_one(geo.swa_page_size),
    }
}

/// The upper bound in the pool's own unit: the published one, or a local estimate when
/// none was published.
pub open spec fn upper_bound(geo: CacheGeometry, pool: Pool) -> nat {
    match geo.bound(key_of(pool), "max"@) {
        Some(m) if m > 0 => max(m as nat / tokens_in_unit(geo, pool), 1),
        _ => match pool {
            Pool::Moe => max(geo.experts(), geo.moe_cache_size as nat),
            Pool::Kv => max(saturated(geo.num_pages * 4), 1),
            Pool::Mamba => max(saturated(geo.num_mamba_slots * 4), 1),
            Pool::Swa => max(
                saturated(geo.num_pages * at_least_one(geo.page_size)),
                geo.num_swa_pages as nat,
            ),
        },
    }
}

/// The published lower bound in the pool's own unit.
pub open spec fn lower_bound(geo: CacheGeometry, pool: Pool) -> Option<nat> {
    match geo.bound(key_of(pool), "min"@) {
        Some(m) => Some(m as nat / tokens_in_unit(geo, pool)),
        None => None,
    }
}

/// The pool is one that the model exposes.
pub open spec fn has_pool(geo: CacheGeometry, pool: Pool) -> bool {
    match pool {
        Pool::Moe => geo.moe_cache_size > 0 || geo.experts() > 0,
        Pool::Kv => geo.num_pages > 0,
        Pool::Mamba => geo.num_mamba_slots > 0,
        Pool::Swa => geo.num_swa_pages > 0 && geo.swa_page_size > 0,
    }
}

pub open spec fn pool_max(geo: CacheGeometry, pool: Pool) -> nat {
    max(max(upper_bound(geo, pool), current_size(geo, pool) as nat), 1)
}

pub open spec fn pool_min(geo: CacheGeometry, pool: Pool) -> nat {
    min(
        max(
            match lower_bound(geo, pool) {
                Some(m) => m,
                None => 1,
            },
            1,
        ),
        pool_max(geo, pool),
    )
}

/// Everything the UI and the actions need about one pool, in one read of the geometry.
pub fn geometry(geo: &CacheGeometry, pool: Pool) -> (r: PoolGeometry)
    requires
        geo.counted(),
    ensures
        r.current == current_size(*geo, pool),
        r.max == pool_max(*geo, pool),
        r.min == pool_min(*geo, pool),
        r.unit@ == pool.unit_text(),
{
    let now = current(geo, pool);
    let high = larger(larger(published_max(geo, pool), now), 1);
    let published = match published_min(geo, pool) {
        Some(m) => m,
        None => 1,
    };
    let low = smaller(larger(published, 1), high);
    PoolGeometry { current: now, min: low, max: high, unit: pool.unit() }
}

/// Whether this model exposes the pool at all.
pub fn present(geo: &CacheGeometry, pool: Pool) -> (r: bool)
    requires
        geo.counted(),
    ensures
        r == has_pool(*geo, pool),
{
    match pool {
        Pool::Moe => geo.moe_cache_size > 0 || geo.total_experts() > 0,
        Pool::Kv => geo.num_pages > 0,
        Pool::Mamba => geo.num_mamba_slots > 0,
        Pool::Swa => geo.num_swa_pages > 0 && geo.swa_page_size > 0,
    }
}

/// The pool's size right now, in its own unit.
pub fn current(geo: &CacheGeometry, pool: Pool) -> (r: u64)
    ensures
        r == current_size(*geo, pool),
{
    match pool {
        Pool::Moe => geo.moe_cache_size,
        Pool::Kv => geo.num_pages,
        Pool::Mamba => geo.num_mamba_slots,
        Pool::Swa => geo.num_swa_pages,
    }
}

/// FreeToken's own name for a pool's bounds, as its `cache_report.py` publishes them.
pub fn limit_key(pool: Pool) -> (r: &'static str)
    ensures
        r@ == key_of(pool),
{
    match pool {
        Pool::Moe => "moe_experts",
        Pool::Kv => "kv_tokens",
        Pool::Mamba => "mamba_slots",
        Pool::Swa => "swa_tokens",
    }
}

/// How many published tokens make one of the units this pool is sized in. The paged pools
/// are published in tokens and rebuilt in pages; the others are one to one.
pub fn tokens_per_unit(geo: &CacheGeometry, pool: Pool) -> (r: u64)
    ensures
        r == tokens_in_unit(*geo, pool),
        r >= 1,
{
    match pool {
        Pool::Moe | Pool::Mamba => 1,
        Pool::Kv => or_one(geo.page_size),
        Pool::Swa => or_one(geo.swa_page_size),
    }
}

/// The engine's published lower bound, in the pool's own unit. `None` when it published
/// none.
fn published_min(geo: &CacheGeometry, pool: Pool) -> (r: Option<u64>)
    ensures
        r is Some == lower_bound(*geo, pool) is Some,
        r is Some ==> r->0 == lower_bound(*geo, pool)->0,
{
    match geo.limit(limit_key(pool), "min") {
        Some(min) => Some(min / tokens_per_unit(geo, pool)),
        None => None,
    }
}

/// The engine's published upper bound, in the pool's own unit, or a defensible local
/// fallback when it published none.
fn published_max(geo: &CacheGeometry, pool: Pool) -> (r: u64)
    requires
        geo.counted(),
    ensures
        r == upper_bound(*geo, pool),
{
    if let Some(max) = geo.limit(limit_key(pool), "max") {
        if max > 0 {
            return larger(max / tokens_per_unit(geo, pool), 1);
        }
    }
    match pool {
        // An expert cache larger than the model's total expert count is pointless.
        Pool::Moe => larger(geo.total_experts(), geo.moe_cache_size),
        Pool::Kv => larger(sat_mul(geo.num_pages, 4), 1),
        Pool::Mamba => larger(sat_mul(geo.num_mamba_slots, 4), 1),
        Pool::Swa => larger(
            sat_mul(geo.num_pages, or_one(geo.page_size)),
            geo.num_swa_pages,
        ),
    }
}

/// What a given size means in practice.
pub open spec fn note_text(geo: CacheGeometry, pool: Pool, value: u64) -> Seq<char> {
    match pool {
        Pool::Moe => if geo.experts() == 0 {
            Seq::empty()
        } else {
            dec(percent_of(value as nat, geo.experts())) + "% of "@ + count_text(geo.experts())
                + " experts resident"@
        },
        Pool::Kv => count_text((value * at_least_one(geo.page_size)) as nat) + " tokens"@,
        Pool::Mamba => Seq::empty(),
        Pool::Swa => count_text((value * at_least_one(geo.swa_page_size)) as nat)
            + " tokens of window"@,
    }
}

/// A short explanation of what a given size means in practice.
pub fn note(geo: &CacheGeometry, pool: Pool, value: u64) -> (r: String)
    requires
        geo.counted(),
        value * tokens_in_unit(*geo, pool) <= u64::MAX,
    ensures
        r@ == note_text(*geo, pool, value),
{
    match pool {
        Pool::Moe => {
            let total = geo.total_experts();
            if total == 0 {
                return String::new();
            }
            cat4(percent(value, total).as_str(), "% of ", count(total).as_str(), " experts resident")
        },
        Pool::Kv => cat2(count(value * or_one(geo.page_size)).as_str(), " tokens"),
        Pool::Mamba => String::new(),
        Pool::Swa => cat2(count(value * or_one(geo.swa_page_size)).as_str(), " tokens of window"),
    }
}

// ---------------------------------------------------------------- laws

/// The bounds of a pool are never empty: its minimum is at least one and at most its
/// maximum, and its current size is at most its maximum.
pub proof fn law_bounds_are_usable(geo: CacheGeometry, pool: Pool)
    ensures
        1 <= pool_min(geo, pool) <= pool_max(geo, pool),
        current_size(geo, pool) <= pool_max(geo, pool),
{
}

/// Whatever the bounds, a clamped request lies inside them, one inside them is kept, a larger
/// request is never clamped to less, and clamping again changes nothing. Where the bounds
/// cross, the maximum alone holds.
pub proof fn law_clamping(p: PoolGeometry, value: nat, more: nat)
    requires
        value <= more,
    ensures
        min(p.min as nat, p.max as nat) <= p.clamped(value) <= p.max,
        min(p.min as nat, p.max as nat) <= value <= p.max ==> p.clamped(value) == value,
        p.clamped(value) <= p.clamped(more),
        p.clamped(p.clamped(value)) == p.clamped(value),
{
}

} // verus!
