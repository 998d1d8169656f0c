use paddock::ft::types::RequestRecord;
use paddock::reuse::{estimate, is_countable, Reuse};

fn fraction(r: &Reuse) -> f64 {
    r.cached as f64 / r.total as f64
}

/// Tokens per second.
fn cold_rate(r: &Reuse) -> f64 {
    r.cold_tokens as f64 * 1000.0 / r.cold_ms as f64
}

fn req(prompt: u64, ttft_ms: u64) -> RequestRecord {
    RequestRecord {
        status: 200,
        prompt_tokens: Some(prompt),
        ttft_ms: Some(ttft_ms),
        ..Default::default()
    }
}

#[test]
fn a_heavily_cached_session_reports_high_reuse() {
    // One cold 70k request at ~3k tok/s, then the same prompt served from cache.
    let entries =
        vec![req(70_000, 23_300), req(70_100, 780), req(70_500, 790), req(71_000, 800)];
    let r = estimate(&entries).expect("a clear spread should estimate");
    assert!(fraction(&r) > 0.7, "expected heavy reuse, got {:.2}", fraction(&r));
    assert!((cold_rate(&r) - 3004.0).abs() < 50.0, "anchor {:.0}", cold_rate(&r));
}

#[test]
fn the_slowest_request_anchors_the_scale_and_scores_zero_itself() {
    let entries = vec![req(60_000, 20_000), req(60_000, 1_000), req(60_000, 1_000)];
    let r = estimate(&entries).unwrap();
    // The anchor request contributes no cached tokens by construction.
    assert_eq!(cold_rate(&r), 3000.0);
    // Two of three were ~95% cached, so the mean lands near two thirds.
    assert!(0.55 < fraction(&r) && fraction(&r) < 0.70, "{:.2}", fraction(&r));
}

#[test]
fn uniform_requests_yield_no_estimate_because_they_are_ambiguous() {
    // All fast. Could be a cached session or a quick GPU; nothing here can tell.
    let entries = vec![req(50_000, 1_000), req(50_000, 1_010), req(50_000, 990)];
    assert!(estimate(&entries).is_none(), "no spread means no honest answer");
}

#[test]
fn too_few_usable_requests_yield_no_estimate() {
    assert!(estimate(&vec![]).is_none());
    assert!(estimate(&vec![req(50_000, 20_000), req(50_000, 500)]).is_none());
}

#[test]
fn small_prompts_are_ignored_because_ttft_is_mostly_overhead() {
    let entries = vec![req(100, 200), req(150, 210), req(120, 190), req(80, 205)];
    assert!(estimate(&entries).is_none(), "sub-2k prompts must not anchor anything");
}

#[test]
fn non_streaming_requests_are_skipped_rather_than_counted_as_instant() {
    // ttft is null for a non-streamed request; treating that as 0 would imply
    // infinite reuse.
    let mut r = req(50_000, 0);
    r.ttft_ms = None;
    let entries = vec![r, req(50_000, 20_000), req(50_000, 700), req(50_000, 710)];
    let est = estimate(&entries).unwrap();
    assert_eq!(est.samples, 3, "the non-streamed request should not be a sample");
}

#[test]
fn failed_requests_do_not_pollute_the_anchor() {
    let mut bad = req(50_000, 5);
    bad.status = 500;
    let entries = vec![bad, req(50_000, 20_000), req(50_000, 700), req(50_000, 700)];
    let est = estimate(&entries).unwrap();
    assert_eq!(est.samples, 3);
    assert_eq!(cold_rate(&est), 2500.0, "a 5 ms error must not become the cold rate");
}

#[test]
fn reuse_never_exceeds_one_or_falls_below_zero() {
    let entries = vec![req(200_000, 60_000), req(200_000, 1), req(200_000, 2)];
    let r = estimate(&entries).unwrap();
    assert!((0.0..=1.0).contains(&fraction(&r)));
}

#[test]
fn the_summary_is_marked_as_an_estimate() {
    let r = Reuse {
        cached: 968,
        total: 1000,
        cold_tokens: 2950,
        cold_ms: 1000,
        samples: 12,
    };
    assert_eq!(r.summary(), "~97%  (est. from 12 reqs)");
}

#[test]
fn what_no_word_can_count_is_told_apart() {
    assert!(is_countable(&vec![req(60_000, 20_000), req(60_000, 1_000), req(60_000, 1_000)]));
}
