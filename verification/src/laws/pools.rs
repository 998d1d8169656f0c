//! What the bounds of a cache pool owe to what the engine publishes.

use vstd::prelude::*;
use crate::cache_pools::{current_size, has_pool, note_text, pool_max, pool_min, Pool, PoolGeometry};
use crate::ft::types::CacheGeometry;
use crate::json::JsonView;
use crate::util::count_text;

verus! {

/// The name under which the engine publishes the bounds of a pool.
pub open spec fn published_name(pool: Pool) -> Seq<char> {
    match pool {
        Pool::Moe => "moe_experts"@,
        Pool::Kv => "kv_tokens"@,
        Pool::Mamba => "mamba_slots"@,
        Pool::Swa => "swa_tokens"@,
    }
}

/// The engine publishes `n` as the bound `which` of a pool.
pub open spec fn publishes(geo: CacheGeometry, pool: Pool, which: Seq<char>, n: u64) -> bool {
    &&& geo.limits is Some
    &&& geo.limits->0@.get(published_name(pool)) is Some
    &&& geo.limits->0@.get(published_name(pool))->0.get(which) == Some(JsonView::Unsigned(n))
}

/// The engine publishes no number as the bound `which` of a pool.
pub open spec fn publishes_none(geo: CacheGeometry, pool: Pool, which: Seq<char>) -> bool {
    forall|n: u64| !#[trigger] publishes(geo, pool, which, n)
}

/// The tokens of one page, for a pool that is made of pages; the others are sized in what
/// they are published in.
pub open spec fn page_of(geo: CacheGeometry, pool: Pool) -> int {
    match pool {
        Pool::Kv if geo.page_size > 1 => geo.page_size as int,
        Pool::Swa if geo.swa_page_size > 1 => geo.swa_page_size as int,
        _ => 1,
    }
}

/// A published minimum is honoured for every pool: the least size is the number of whole
/// units in it, as far as that is a size at all and does not cross the maximum.
pub proof fn law_a_published_minimum_is_honoured(geo: CacheGeometry, pool: Pool, b: u64)
    requires
        publishes(geo, pool, "min"@, b),
    ensures
        1 <= b as int / page_of(geo, pool) <= pool_max(geo, pool) ==> pool_min(geo, pool) == b as int
            / page_of(geo, pool),
        b as int / page_of(geo, pool) < 1 ==> pool_min(geo, pool) == 1,
        b as int / page_of(geo, pool) > pool_max(geo, pool) ==> pool_min(geo, pool) == pool_max(
            geo,
            pool,
        ),
        page_of(geo, pool) == 1 && 1 <= b <= pool_max(geo, pool) ==> pool_min(geo, pool) == b,
{
}

/// A published maximum is honoured for every pool, unless the pool is larger already.
pub proof fn law_a_published_maximum_is_honoured(geo: CacheGeometry, pool: Pool, b: u64)
    requires
        publishes(geo, pool, "max"@, b),
        b > 0,
    ensures
        b as int / page_of(geo, pool) >= 1 && b as int / page_of(geo, pool) >= current_size(
            geo,
            pool,
        ) ==> pool_max(geo, pool) == b as int / page_of(geo, pool),
        b as int / page_of(geo, pool) < current_size(geo, pool) && current_size(geo, pool) >= 1
            ==> pool_max(geo, pool) == current_size(geo, pool),
        b as int / page_of(geo, pool) < 1 && current_size(geo, pool) <= 1 ==> pool_max(geo, pool)
            == 1,
        page_of(geo, pool) == 1 && b >= current_size(geo, pool) ==> pool_max(geo, pool) == b,
{
}

/// Without a published minimum a pool can shrink to one unit.
pub proof fn law_an_unpublished_minimum_is_one(geo: CacheGeometry, pool: Pool)
    requires
        publishes_none(geo, pool, "min"@),
    ensures
        pool_min(geo, pool) == 1,
{
    let l = geo.limits->0@.get(published_name(pool))->0.get("min"@);
    if let Some(JsonView::Unsigned(n)) = l {
        assert(!publishes(geo, pool, "min"@, n));
    }
}

/// Without a published maximum the expert cache can hold every expert of the model, KV and
/// the state pool can grow to four times what they are, and the window never grows past one
/// page for each token that KV holds.
pub proof fn law_an_unpublished_maximum_leaves_room(geo: CacheGeometry, pool: Pool)
    requires
        publishes_none(geo, pool, "max"@),
        4 * geo.num_pages <= u64::MAX,
        4 * geo.num_mamba_slots <= u64::MAX,
        geo.num_pages * geo.page_size <= u64::MAX,
    ensures
        pool is Moe && geo.num_experts * geo.num_moe_layers >= geo.moe_cache_size
            && geo.num_experts * geo.num_moe_layers >= 1 ==> pool_max(geo, pool)
            == geo.num_experts * geo.num_moe_layers,
        pool is Kv && geo.num_pages > 0 ==> pool_max(geo, pool) == 4 * geo.num_pages,
        pool is Mamba && geo.num_mamba_slots > 0 ==> pool_max(geo, pool) == 4
            * geo.num_mamba_slots,
        pool is Swa && geo.page_size >= 1 && 1 <= geo.num_swa_pages <= geo.num_pages
            * geo.page_size ==> pool_max(geo, pool) == geo.num_pages * geo.page_size,
        pool is Kv && geo.num_pages == 0 ==> pool_max(geo, pool) == 1,
        pool is Mamba && geo.num_mamba_slots == 0 ==> pool_max(geo, pool) == 1,
        pool_max(geo, pool) >= current_size(geo, pool),
{
    let l = geo.limits->0@.get(published_name(pool))->0.get("max"@);
    if let Some(JsonView::Unsigned(n)) = l {
        assert(!publishes(geo, pool, "max"@, n));
    }
}

/// The size of a pool is the one that the engine reports for it.
pub proof fn law_each_pool_has_its_own_size(geo: CacheGeometry)
    ensures
        current_size(geo, Pool::Moe) == geo.moe_cache_size,
        current_size(geo, Pool::Kv) == geo.num_pages,
        current_size(geo, Pool::Mamba) == geo.num_mamba_slots,
        current_size(geo, Pool::Swa) == geo.num_swa_pages,
{
}

/// A pool that holds something is shown, and one that could hold nothing is not.
pub proof fn law_a_pool_in_use_is_shown(geo: CacheGeometry, pool: Pool)
    ensures
        !(pool is Swa) && current_size(geo, pool) > 0 ==> has_pool(geo, pool),
        pool is Swa && geo.num_swa_pages > 0 && geo.swa_page_size > 0 ==> has_pool(geo, pool),
        pool is Moe && geo.num_experts > 0 && geo.num_moe_layers > 0 ==> has_pool(geo, pool),
        has_pool(geo, pool) && !(pool is Moe) ==> current_size(geo, pool) > 0,
        has_pool(geo, pool) && pool is Moe ==> geo.moe_cache_size > 0 || geo.num_experts
            * geo.num_moe_layers > 0,
{
    if geo.num_experts > 0 && geo.num_moe_layers > 0 {
        assert(geo.num_experts * geo.num_moe_layers > 0) by (nonlinear_arith)
            requires
                geo.num_experts > 0,
                geo.num_moe_layers > 0,
        ;
    }
}

/// A request is brought to the nearest size inside the bounds: what is below goes up to the
/// minimum, what is above goes down to the maximum, and the rest stays.
pub proof fn law_a_request_goes_to_the_nearest_size(p: PoolGeometry, value: nat)
    requires
        p.min <= p.max,
    ensures
        value < p.min ==> p.clamped(value) == p.min,
        value > p.max ==> p.clamped(value) == p.max,
        p.min <= value <= p.max ==> p.clamped(value) == value,
{
}

/// What is said of a paged pool is how many tokens its pages hold.
pub proof fn law_a_note_counts_in_tokens(geo: CacheGeometry, value: u64)
    requires
        geo.page_size >= 1,
        geo.swa_page_size >= 1,
    ensures
        note_text(geo, Pool::Kv, value) == count_text((value * geo.page_size) as nat)
            + " tokens"@,
        note_text(geo, Pool::Swa, value) == count_text((value * geo.swa_page_size) as nat)
            + " tokens of window"@,
        note_text(geo, Pool::Mamba, value).len() == 0,
{
}

} // verus!
