use paddock::cache_pools::{
    current, geometry, limit_key, note, present, tokens_per_unit, Pool, PoolGeometry,
};
use paddock::compat::read_config;
use paddock::ft::types::{CacheGeometry, UnitBytes};
use paddock::json::Json;

fn json(text: &str) -> Json {
    read_config(text).unwrap()
}

fn geo() -> CacheGeometry {
    CacheGeometry {
        num_pages: 8192,
        page_size: 1,
        moe_cache_size: 512,
        num_experts: 128,
        num_moe_layers: 48,
        unit_bytes: UnitBytes {
            kv_per_token: 1024,
            moe_per_expert: 1 << 20,
            ..Default::default()
        },
        cache_budget_bytes: 8 << 30,
        ..Default::default()
    }
}

#[test]
fn moe_capacity_is_capped_at_the_models_expert_count() {
    assert_eq!(geometry(&geo(), Pool::Moe).max, 128 * 48);
}

#[test]
fn a_pool_with_no_slots_is_hidden() {
    let g = geo();
    assert!(present(&g, Pool::Moe));
    assert!(present(&g, Pool::Kv));
    assert!(!present(&g, Pool::Mamba));
    assert!(!present(&g, Pool::Swa));
}

/// The keys are FreeToken's, not paddock's own names for the pools: a mismatch here is
/// silent, because every lookup simply misses and falls back to the local estimate.
#[test]
fn server_published_limits_win_over_the_fallback() {
    let mut g = geo();
    g.limits = Some(json(r#"{"moe_experts": {"min": 128, "max": 900}}"#));
    let p = geometry(&g, Pool::Moe);
    assert_eq!(p.max, 900);
    assert_eq!(p.min, 128);
}

/// KV and the window are published in tokens but sized in pages everywhere else, so a
/// paged model must not get a bound `page_size` times too generous.
#[test]
fn a_paged_pool_converts_the_published_token_bound_into_pages() {
    let mut g = geo();
    g.page_size = 128;
    g.num_pages = 1024;
    g.limits = Some(json(r#"{"kv_tokens": {"min": 128, "max": 262144}}"#));
    let p = geometry(&g, Pool::Kv);
    assert_eq!(p.max, 2048, "262,144 tokens is 2,048 pages of 128");
    assert_eq!(p.min, 1, "128 tokens is one page");
}

/// The minimum is never null and never zero: a slider needs a floor, and a pool of
/// zero pages is not something the engine can rebuild into.
#[test]
fn the_minimum_is_always_at_least_one_and_never_above_the_maximum() {
    let mut g = geo();
    assert_eq!(geometry(&g, Pool::Kv).min, 1, "no published bound still floors at 1");

    g.num_pages = 2;
    g.limits = Some(json(r#"{"kv_tokens": {"min": 0, "max": 4}}"#));
    let p = geometry(&g, Pool::Kv);
    assert_eq!(p.min, 1);
    assert!(p.min <= p.max);

    // A nonsense pair (min above max) must still clamp into a usable range.
    g.limits = Some(json(r#"{"kv_tokens": {"min": 99999, "max": 4}}"#));
    let p = geometry(&g, Pool::Kv);
    assert_eq!(p.clamp(1), 1.max(p.min.min(p.max)));
    assert!(p.clamp(u64::MAX) <= p.max);
}

#[test]
fn clamping_holds_a_request_inside_the_published_bounds() {
    let mut g = geo();
    g.limits = Some(json(r#"{"moe_experts": {"min": 128, "max": 900}}"#));
    let p = geometry(&g, Pool::Moe);
    assert_eq!(p.clamp(1), 128);
    assert_eq!(p.clamp(500), 500);
    assert_eq!(p.clamp(100_000), 900);
}

#[test]
fn each_pool_has_its_own_key_unit_and_size() {
    let mut g = geo();
    g.page_size = 128;
    g.swa_page_size = 64;
    g.num_swa_pages = 3;
    g.num_mamba_slots = 5;
    assert_eq!(limit_key(Pool::Swa), "swa_tokens");
    assert_eq!(tokens_per_unit(&g, Pool::Kv), 128);
    assert_eq!(tokens_per_unit(&g, Pool::Swa), 64);
    assert_eq!(tokens_per_unit(&g, Pool::Mamba), 1);
    assert_eq!(current(&g, Pool::Swa), 3);
    assert_eq!(current(&g, Pool::Mamba), 5);
    assert_eq!(geometry(&g, Pool::Mamba).max, 20);
    assert_eq!(Pool::ALL.len(), 4);
}

#[test]
fn a_note_reads_in_the_units_of_its_pool() {
    let g = geo();
    assert_eq!(note(&g, Pool::Kv, 8192), "8,192 tokens");
    assert_eq!(note(&g, Pool::Moe, 512), "8% of 6,144 experts resident");
    assert_eq!(note(&g, Pool::Mamba, 5), "");
}

#[test]
fn crossed_bounds_still_clamp() {
    let crossed = PoolGeometry { current: 2, min: 10, max: 3, unit: "pages" };
    assert_eq!([0, 3, 5, 20].map(|n| crossed.clamp(n)), [3, 3, 3, 3]);
    let plain = PoolGeometry { current: 2, min: 3, max: 10, unit: "pages" };
    assert_eq!([0, 3, 5, 20].map(|n| plain.clamp(n)), [3, 3, 5, 10]);
}

#[test]
fn a_share_of_the_experts_is_a_share_of_doubles() {
    let mut g = geo();
    g.num_experts = 200;
    g.num_moe_layers = 1;
    assert_eq!(note(&g, Pool::Moe, 115), "57% of 200 experts resident");
}
