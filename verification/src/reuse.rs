//! Estimating how much of each prompt the engine served from its prefix cache.
//!
//! FreeToken reports this exactly, but only in the `usage.prompt_tokens_details`
//! block of a completion response, which paddock never sees: it polls the control plane
//! and does not proxy model traffic. Neither `/v1/stats` nor the request ring carries a
//! cached-token count, so the number has to be inferred from what the ring does report.
//!
//! The inference rests on one fact: time-to-first-token is dominated by prefill, and
//! prefill only runs over the part of the prompt that was *not* already cached. A 70k
//! prompt that reaches first token in 0.8 s on hardware that prefills ~3k tokens/s cannot
//! have prefilled 70k tokens: it prefilled about 2k and read the rest from the cache.
//!
//! The one unknown is that cold prefill rate, and it is learned rather than assumed:
//! across a spread of requests, the *slowest* observed tokens-per-second is the closest
//! thing to an uncached run, so it anchors the scale. That makes the estimate
//! deliberately conservative: if every request in the window was partly cached, the
//! anchor is too fast and the reported reuse is too low. Better to understate a number
//! this soft than to overstate it.
//!
//! The estimate has a known bias worth stating: prefill runs *faster per token* on short
//! prompts than long ones (measured on one RTX 5070 Ti: ~3,400 tok/s at 4k against
//! ~1,900 tok/s at 246k). A single cold rate cannot capture that, so a window mixing very
//! short and very long prompts will read the short ones as more cached than they were. In
//! the case this exists for, one agent session whose prompts are all large and grow
//! slowly, the sizes cluster and the bias is small.
//!
//! Two guards keep it from reporting nonsense. Requests below [`MIN_PROMPT_TOKENS`] are
//! ignored, because at small sizes TTFT is mostly request overhead rather than prefill.
//! And unless the window contains both a slow and a fast request (the fastest at least one
//! and a half times the slowest), no estimate is produced at all: uniformly fast requests
//! are equally consistent with "every prompt was cached" and "this GPU is quick", and there
//! is no way to tell them apart from outside. A missing answer is the honest one there.
//!
//! Rates and shares are kept as exact fractions of whole numbers.

use vstd::prelude::*;
use crate::ft::types::RequestRecord;
use crate::text::{cat5, dec, decimal};
use crate::util::{half_even, wide_mul};

verus! {

/// Below this, time-to-first-token is dominated by queueing and request overhead rather
/// than prefill, and the implied rate is meaningless.
pub const MIN_PROMPT_TOKENS: u64 = 2048;

/// Fewer usable samples than this and the anchor is one request's noise.
pub const MIN_SAMPLES: usize = 3;

/// How much of the prompt tokens came from the cache.
#[derive(Debug, Clone, Copy)]
pub struct Reuse {
    /// The part of `total` that was served from cache.
    pub cached: u128,
    /// All prompt tokens, in the unit of `cached`: one token is `cold_ms` of it.
    pub total: u128,
    /// The cold prefill rate the estimate was anchored on: this many tokens...
    pub cold_tokens: u64,
    /// ...in this many milliseconds.
    pub cold_ms: u64,
    pub samples: usize,
}

impl Reuse {
    /// The share of cached tokens is a fraction between 0 and 1.
    pub open spec fn wf(self) -> bool {
        self.cached <= self.total && self.total > 0
    }

    /// The share that came from the cache in percent, to the nearest whole one.
    pub open spec fn percent(self) -> nat {
        half_even(100 * self.cached as nat, self.total as nat)
    }

    /// A short phrase for a status line, always marked as an estimate so it is never
    /// mistaken for the engine's own accounting.
    pub fn summary(&self) -> (r: String)
        requires
            self.wf(),
        ensures
            r@ == "~"@ + dec(self.percent()) + "%  (est. from "@ + dec(self.samples as nat)
                + " reqs)"@,
    {
        let p = hundredfold(self.cached, self.total);
        cat5(
            "~",
            decimal(p).as_str(),
            "%  (est. from ",
            decimal(self.samples as u64).as_str(),
            " reqs)",
        )
    }
}

/// A quotient and its remainder, doubled.
fn doubled(q: u64, rest: u128, n: u128, d: u128, Ghost(k): Ghost<nat>) -> (r: (u64, u128))
    requires
        d > 0,
        rest < d,
        q <= 1000,
        k * n == q * d + rest,
    ensures
        r.1 < d,
        r.0 <= 2 * q + 1,
        2 * k * n == r.0 * d + r.1,
{
    proof {
        assert(2 * k * n == 2 * (k * n)) by (nonlinear_arith);
        assert((2 * q) * d == 2 * (q * d)) by (nonlinear_arith);
        assert((2 * q + 1) * d == 2 * (q * d) + d) by (nonlinear_arith);
    }
    if rest >= d - rest {
        (2 * q + 1, rest - (d - rest))
    } else {
        (2 * q, rest + rest)
    }
}

/// A quotient and its remainder with `n` added, where `n` is at most the divisor.
fn increased(q: u64, rest: u128, n: u128, d: u128, Ghost(k): Ghost<nat>) -> (r: (u64, u128))
    requires
        d > 0,
        rest < d,
        n <= d,
        q <= 1000,
        k * n == q * d + rest,
    ensures
        r.1 < d,
        r.0 <= q + 1,
        (k + 1) * n == r.0 * d + r.1,
{
    proof {
        assert((k + 1) * n == k * n + n) by (nonlinear_arith);
        assert((q + 1) * d == q * d + d) by (nonlinear_arith);
    }
    if rest >= d - n {
        (q + 1, rest - (d - n))
    } else {
        (q, rest + n)
    }
}

/// `100 * n / d` to the nearest whole number, for `n` at most `d`. The quotient is built
/// from the binary digits of 100, so nothing grows past `d`.
fn hundredfold(n: u128, d: u128) -> (r: u64)
    requires
        d > 0,
        n <= d,
    ensures
        r == half_even(100 * n as nat, d as nat),
{
    let (q, rest) = if n < d {
        (0u64, n)
    } else {
        (1u64, 0u128)
    };
    assert(1 * n == q * d + rest) by (nonlinear_arith)
        requires
            (q == 0 && rest == n) || (q == 1 && rest == 0 && n == d),
    ;
    let (q, rest) = doubled(q, rest, n, d, Ghost(1));
    let (q, rest) = increased(q, rest, n, d, Ghost(2));
    let (q, rest) = doubled(q, rest, n, d, Ghost(3));
    let (q, rest) = doubled(q, rest, n, d, Ghost(6));
    let (q, rest) = doubled(q, rest, n, d, Ghost(12));
    let (q, rest) = increased(q, rest, n, d, Ghost(24));
    let (q, rest) = doubled(q, rest, n, d, Ghost(25));
    let (q, rest) = doubled(q, rest, n, d, Ghost(50));
    proof {
        let a = 100 * n as nat;
        assert(a / d as nat == q && a % d as nat == rest) by (nonlinear_arith)
            requires
                a == q * d + rest,
                0 <= rest < d,
        ;
    }
    if rest < d - rest || (rest == d - rest && q % 2 == 0) {
        q
    } else {
        q + 1
    }
}

// ---------------------------------------------------------------- samples

/// A streamed request big enough for its TTFT to mean something. Non-streaming requests
/// report no TTFT at all, so they cannot be used.
pub open spec fn usable(r: RequestRecord) -> bool {
    match (r.prompt_tokens, r.ttft_ms) {
        (Some(tokens), Some(ttft)) => tokens >= MIN_PROMPT_TOKENS && ttft != 0 && r.status < 400,
        _ => false,
    }
}

/// The observations in `entries`: how many tokens reached their first token in how many
/// milliseconds.
pub open spec fn samples_of(entries: Seq<RequestRecord>) -> Seq<(u64, u64)>
    decreases entries.len(),
{
    if entries.len() == 0 {
        Seq::empty()
    } else {
        let head = samples_of(entries.drop_last());
        let r = entries.last();
        if usable(r) {
            head.push((r.prompt_tokens->0, r.ttft_ms->0))
        } else {
            head
        }
    }
}

fn sample(r: &RequestRecord) -> (s: Option<(u64, u64)>)
    ensures
        s == (if usable(*r) {
            Some((r.prompt_tokens->0, r.ttft_ms->0))
        } else {
            None
        }),
{
    match (r.prompt_tokens, r.ttft_ms) {
        (Some(tokens), Some(ttft)) => if tokens < MIN_PROMPT_TOKENS || ttft == 0 || r.status
            >= 400 {
            None
        } else {
            Some((tokens, ttft))
        },
        _ => None,
    }
}

pub open spec fn tokens_in(s: Seq<(u64, u64)>) -> nat
    decreases s.len(),
{
    if s.len() == 0 {
        0
    } else {
        tokens_in(s.drop_last()) + s.last().0 as nat
    }
}

pub open spec fn millis_in(s: Seq<(u64, u64)>) -> nat
    decreases s.len(),
{
    if s.len() == 0 {
        0
    } else {
        millis_in(s.drop_last()) + s.last().1 as nat
    }
}

/// `a` is the lower rate of tokens per millisecond.
pub open spec fn slower(a: (u64, u64), b: (u64, u64)) -> bool {
    a.0 * b.1 < b.0 * a.1
}

/// The observation with the lowest rate; the first of equals.
pub open spec fn coldest(s: Seq<(u64, u64)>) -> (u64, u64)
    decreases s.len(),
{
    if s.len() <= 1 {
        s[0]
    } else {
        let c = coldest(s.drop_last());
        if slower(s.last(), c) {
            s.last()
        } else {
            c
        }
    }
}

/// The observation with the highest rate; the first of equals.
pub open spec fn hottest(s: Seq<(u64, u64)>) -> (u64, u64)
    decreases s.len(),
{
    if s.len() <= 1 {
        s[0]
    } else {
        let h = hottest(s.drop_last());
        if slower(h, s.last()) {
            s.last()
        } else {
            h
        }
    }
}

/// The fastest observation beats the slowest by half as much again, which is taken as
/// evidence of caching rather than of ordinary variation.
pub open spec fn spread(s: Seq<(u64, u64)>) -> bool {
    let (cold, hot) = (coldest(s), hottest(s));
    2 * (hot.0 * cold.1) >= 3 * (cold.0 * hot.1)
}

/// Every observation has tokens and took time.
pub open spec fn measured(s: Seq<(u64, u64)>) -> bool {
    forall|i: int| 0 <= i < s.len() ==> (#[trigger] s[i]).0 > 0 && s[i].1 > 0
}

proof fn lemma_slower_transitive(a: (u64, u64), b: (u64, u64), c: (u64, u64))
    requires
        a.1 > 0,
        b.1 > 0,
        c.1 > 0,
        !slower(b, a),
        !slower(c, b),
    ensures
        !slower(c, a),
{
    // a <= b and b <= c: multiply out by the middle one.
    let (a0, a1, b0, b1, c0, c1) = (
        a.0 as int,
        a.1 as int,
        b.0 as int,
        b.1 as int,
        c.0 as int,
        c.1 as int,
    );
    assert(a0 * c1 <= c0 * a1) by (nonlinear_arith)
        requires
            b0 * a1 >= a0 * b1,
            c0 * b1 >= b0 * c1,
            a1 > 0,
            b1 > 0,
            c1 > 0,
    {
        assert((b0 * a1) * c1 >= (a0 * b1) * c1);
        assert((c0 * b1) * a1 >= (b0 * c1) * a1);
        assert((b0 * c1) * a1 == (b0 * a1) * c1);
        assert((c0 * b1) * a1 == (c0 * a1) * b1);
        assert((a0 * b1) * c1 == (a0 * c1) * b1);
        assert((c0 * a1) * b1 >= (a0 * c1) * b1);
    }
}

/// Nothing is slower than the coldest observation, nor faster than the hottest, and both
/// are observations.
pub proof fn lemma_extremes(s: Seq<(u64, u64)>)
    requires
        s.len() > 0,
        measured(s),
    ensures
        forall|i: int| 0 <= i < s.len() ==> !slower(#[trigger] s[i], coldest(s)),
        forall|i: int| 0 <= i < s.len() ==> !slower(hottest(s), #[trigger] s[i]),
        s.contains(coldest(s)),
        s.contains(hottest(s)),
    decreases s.len(),
{
    if s.len() == 1 {
        assert(s[0] == coldest(s));
    } else {
        let head = s.drop_last();
        let last = s.last();
        assert forall|i: int| 0 <= i < head.len() implies (#[trigger] head[i]).0 > 0 && head[i].1
            > 0 by {
            assert(head[i] == s[i]);
        }
        lemma_extremes(head);
        let (c, h) = (coldest(head), hottest(head));
        let ci = choose|i: int| 0 <= i < head.len() && head[i] == c;
        let hi = choose|i: int| 0 <= i < head.len() && head[i] == h;
        assert(s[ci] == c && s[hi] == h && s[s.len() - 1] == last);
        assert forall|i: int| 0 <= i < s.len() implies !slower(#[trigger] s[i], coldest(s)) by {
            if i < head.len() {
                assert(head[i] == s[i]);
                if slower(last, c) {
                    lemma_slower_transitive(last, c, s[i]);
                }
            }
        }
        assert forall|i: int| 0 <= i < s.len() implies !slower(hottest(s), #[trigger] s[i]) by {
            if i < head.len() {
                assert(head[i] == s[i]);
                if slower(h, last) {
                    lemma_slower_transitive(s[i], h, last);
                }
            }
        }
    }
}

/// At a rate that nothing is slower than, the elapsed time never covers more than all
/// tokens.
pub proof fn lemma_prefilled_at_most_all(s: Seq<(u64, u64)>, c: (u64, u64))
    requires
        forall|i: int| 0 <= i < s.len() ==> !slower(#[trigger] s[i], c),
    ensures
        millis_in(s) * c.0 <= tokens_in(s) * c.1,
    decreases s.len(),
{
    if s.len() > 0 {
        let head = s.drop_last();
        assert forall|i: int| 0 <= i < head.len() implies !slower(#[trigger] head[i], c) by {
            assert(head[i] == s[i]);
        }
        lemma_prefilled_at_most_all(head, c);
        let last = s.last();
        assert(!slower(s[s.len() - 1], c));
        assert((millis_in(head) + last.1) * c.0 == millis_in(head) * c.0 + last.1 * c.0)
            by (nonlinear_arith);
        assert((tokens_in(head) + last.0) * c.1 == tokens_in(head) * c.1 + last.0 * c.1)
            by (nonlinear_arith);
        assert(last.1 * c.0 == c.0 * last.1) by (nonlinear_arith);
    } else {
        assert(0 * c.0 == 0 && 0 * c.1 == 0) by (nonlinear_arith);
    }
}

pub proof fn lemma_samples_measured(entries: Seq<RequestRecord>)
    ensures
        measured(samples_of(entries)),
        samples_of(entries).len() <= entries.len(),
    decreases entries.len(),
{
    if entries.len() > 0 {
        lemma_samples_measured(entries.drop_last());
    }
}

// ---------------------------------------------------------------- the estimate

/// The sums over the usable requests stay below 2^64.
pub open spec fn countable(entries: Seq<RequestRecord>) -> bool {
    tokens_in(samples_of(entries)) <= u64::MAX && millis_in(samples_of(entries)) <= u64::MAX
}

/// What `entries` say of reuse.
pub open spec fn estimate_of(entries: Seq<RequestRecord>) -> Option<Reuse> {
    let s = samples_of(entries);
    let cold = coldest(s);
    if s.len() < MIN_SAMPLES || !spread(s) {
        None
    } else {
        let total = tokens_in(s) * cold.1;
        Some(
            Reuse {
                cached: (total - millis_in(s) * cold.0) as u128,
                total: total as u128,
                cold_tokens: cold.0,
                cold_ms: cold.1,
                samples: s.len() as usize,
            },
        )
    }
}

/// What one pass over the requests gathers.
struct Tally {
    count: usize,
    tokens: u64,
    millis: u64,
    cold: (u64, u64),
    hot: (u64, u64),
}

impl Tally {
    spec fn of(self, s: Seq<(u64, u64)>) -> bool {
        &&& self.count == s.len()
        &&& self.tokens == tokens_in(s)
        &&& self.millis == millis_in(s)
        &&& s.len() > 0 ==> self.cold == coldest(s) && self.hot == hottest(s)
    }
}

fn is_slower(a: (u64, u64), b: (u64, u64)) -> (r: bool)
    ensures
        r == slower(a, b),
{
    wide_mul(a.0, b.1) < wide_mul(b.0, a.1)
}

/// One pass over the requests; `None` when a sum does not fit 64 bits.
fn tally(entries: &Vec<RequestRecord>) -> (r: Option<Tally>)
    ensures
        match r {
            Some(t) => countable(entries@) && t.of(samples_of(entries@)),
            None => !countable(entries@),
        },
{
    let ghost all = entries@;
    let mut t = Tally { count: 0, tokens: 0, millis: 0, cold: (0, 0), hot: (0, 0) };
    let mut fits = true;
    let mut i: usize = 0;
    assert(all.take(0) =~= Seq::<RequestRecord>::empty());
    while i < entries.len()
        invariant
            i <= entries.len(),
            all == entries@,
            fits ==> t.of(samples_of(all.take(i as int))),
            fits == countable(all.take(i as int)),
            t.count <= i,
        decreases entries.len() - i,
    {
        assert(all.take(i + 1).drop_last() =~= all.take(i as int));
        assert(all.take(i + 1).last() == entries@[i as int]);
        match sample(&entries[i]) {
            None => {},
            Some(s) => {
                let ghost before = samples_of(all.take(i as int));
                assert(before.push(s).drop_last() =~= before);
                if fits && t.tokens <= u64::MAX - s.0 && t.millis <= u64::MAX - s.1 {
                    let first = t.count == 0;
                    if first || is_slower(s, t.cold) {
                        t.cold = s;
                    }
                    if first || is_slower(t.hot, s) {
                        t.hot = s;
                    }
                    t.tokens = t.tokens + s.0;
                    t.millis = t.millis + s.1;
                    t.count = t.count + 1;
                } else {
                    fits = false;
                }
            },
        }
        i = i + 1;
    }
    assert(all.take(i as int) =~= all);
    if fits {
        Some(t)
    } else {
        None
    }
}

/// Whether the sums over the usable requests fit 64 bits.
pub fn is_countable(entries: &Vec<RequestRecord>) -> (r: bool)
    ensures
        r == countable(entries@),
{
    tally(entries).is_some()
}

/// Estimate prefix reuse across the requests in `entries`.
///
/// `None` when there is not enough evidence: too few usable requests, or no spread
/// between them. The caller shows nothing rather than a fabricated percentage.
pub fn estimate(entries: &Vec<RequestRecord>) -> (r: Option<Reuse>)
    requires
        countable(entries@),
    ensures
        r == estimate_of(entries@),
        r is Some ==> r->0.wf(),
{
    let t = match tally(entries) {
        Some(t) => t,
        None => {
            return None;
        },
    };
    if t.count < MIN_SAMPLES {
        return None;
    }
    let ghost s = samples_of(entries@);
    proof {
        lemma_samples_measured(entries@);
        lemma_extremes(s);
        lemma_prefilled_at_most_all(s, coldest(s));
    }
    // The fastest rate over the slowest, without a division: `fast / slow`.
    let fast = wide_mul(t.hot.0, t.cold.1);
    let slow = wide_mul(t.cold.0, t.hot.1);
    proof {
        let hi = choose|i: int| 0 <= i < s.len() && s[i] == hottest(s);
        assert(!slower(s[hi], coldest(s)));
        assert(fast >= slow);
    }
    let above = fast - slow;
    if above < slow && above < slow - above {
        return None;
    }
    // Price every prompt against the cold anchor: whatever the elapsed prefill time could
    // not have covered must have come from the cache.
    let total = wide_mul(t.tokens, t.cold.1);
    let prefilled = wide_mul(t.millis, t.cold.0);
    proof {
        let ci = choose|i: int| 0 <= i < s.len() && s[i] == coldest(s);
        assert(s[ci].0 > 0 && s[ci].1 > 0);
        lemma_tokens_positive(s);
        assert(total > 0) by (nonlinear_arith)
            requires
                total == t.tokens * t.cold.1,
                t.tokens > 0,
                t.cold.1 > 0,
        ;
    }
    Some(
        Reuse {
            cached: total - prefilled,
            total,
            cold_tokens: t.cold.0,
            cold_ms: t.cold.1,
            samples: t.count,
        },
    )
}

proof fn lemma_tokens_positive(s: Seq<(u64, u64)>)
    requires
        s.len() > 0,
        measured(s),
    ensures
        tokens_in(s) > 0,
{
    assert(s[s.len() - 1] == s.last());
}

/// The reported share never exceeds one or falls below zero.
pub proof fn law_reuse_is_a_fraction(entries: Seq<RequestRecord>)
    requires
        countable(entries),
        estimate_of(entries) is Some,
    ensures
        estimate_of(entries)->0.wf(),
        estimate_of(entries)->0.percent() <= 100,
{
    let s = samples_of(entries);
    lemma_samples_measured(entries);
    lemma_extremes(s);
    lemma_prefilled_at_most_all(s, coldest(s));
    lemma_tokens_positive(s);
    let cold = coldest(s);
    let ci = choose|i: int| 0 <= i < s.len() && s[i] == cold;
    assert(s[ci].1 > 0);
    let total = tokens_in(s) * cold.1;
    assert(0 < total <= u128::MAX) by (nonlinear_arith)
        requires
            0 < tokens_in(s) <= u64::MAX,
            0 < cold.1 <= u64::MAX,
            total == tokens_in(s) * cold.1,
    ;
    let r = estimate_of(entries)->0;
    let (n, d) = (100 * r.cached as nat, r.total as nat);
    assert(n / d <= 100 && (n / d == 100 ==> n % d == 0)) by (nonlinear_arith)
        requires
            n <= 100 * d,
            d > 0,
    ;
}

/// The slowest request anchors the scale: at the cold rate, no usable request's elapsed
/// time covers more than its own tokens, and the anchor's covers exactly its own, so that
/// it scores zero itself.
pub proof fn law_the_anchor_scores_zero(entries: Seq<RequestRecord>)
    requires
        countable(entries),
        estimate_of(entries) is Some,
    ensures
        ({
            let r = estimate_of(entries)->0;
            let s = samples_of(entries);
            &&& forall|i: int|
                0 <= i < s.len() ==> (#[trigger] s[i]).1 * r.cold_tokens <= s[i].0 * r.cold_ms
            &&& exists|i: int|
                0 <= i < s.len() && (#[trigger] s[i]).1 * r.cold_tokens == s[i].0 * r.cold_ms
        }),
{
    let s = samples_of(entries);
    let r = estimate_of(entries)->0;
    lemma_samples_measured(entries);
    lemma_extremes(s);
    assert forall|i: int| 0 <= i < s.len() implies (#[trigger] s[i]).1 * r.cold_tokens <= s[i].0
        * r.cold_ms by {
        assert(!slower(s[i], coldest(s)));
        assert(s[i].1 * r.cold_tokens == r.cold_tokens * s[i].1) by (nonlinear_arith);
    }
    let ci = choose|i: int| 0 <= i < s.len() && s[i] == coldest(s);
    assert(s[ci].1 * r.cold_tokens == s[ci].0 * r.cold_ms) by (nonlinear_arith)
        requires
            s[ci].0 == r.cold_tokens,
            s[ci].1 == r.cold_ms,
    ;
}

/// Requests that all run at one rate yield no estimate, because they are ambiguous.
pub proof fn law_uniform_requests_yield_no_estimate(entries: Seq<RequestRecord>)
    requires
        forall|i: int, j: int|
            0 <= i < samples_of(entries).len() && 0 <= j < samples_of(entries).len() ==> !slower(
                #[trigger] samples_of(entries)[i],
                #[trigger] samples_of(entries)[j],
            ),
    ensures
        estimate_of(entries) is None,
{
    let s = samples_of(entries);
    lemma_samples_measured(entries);
    if s.len() >= MIN_SAMPLES {
        lemma_extremes(s);
        let ci = choose|i: int| 0 <= i < s.len() && s[i] == coldest(s);
        let hi = choose|i: int| 0 <= i < s.len() && s[i] == hottest(s);
        assert(!slower(s[ci], s[hi]) && !slower(s[hi], s[ci]));
        let (c, h) = (coldest(s), hottest(s));
        assert(h.0 * c.1 == c.0 * h.1);
        assert(c.0 * h.1 > 0) by (nonlinear_arith)
            requires
                c.0 > 0,
                h.1 > 0,
        ;
    }
}

/// A request that cannot be used, because it failed, was small or was not streamed, changes
/// nothing.
pub proof fn law_unusable_requests_are_skipped(entries: Seq<RequestRecord>, r: RequestRecord)
    requires
        !usable(r),
    ensures
        estimate_of(entries.push(r)) == estimate_of(entries),
{
    assert(entries.push(r).drop_last() =~= entries);
}

} // verus!
