//! What a plan owes to the costs that the engine reported and to the configuration it edits.

use vstd::prelude::*;
use crate::ft::types::BenchProfile;
use crate::knobs::{is_on, value_of};
use crate::plan::{
    backend_steps, bench_key_of, concurrency_steps, context_plan, current_reserve, default_ratio,
    div_up, edits_of, gives_up_overlap, host_steps, number_at, page_bytes, plan_of, speed_steps,
    split_bytes, split_pages, split_slots, startup_of, state_slots, ContextFit, Costs, Level,
    Machine, StepView, Target,
};
use crate::text::{dec, lowercase, unsigned_of};
use crate::util::above_half;

verus! {

// ---------------------------------------------------------------- the budget

/// What the state pool leaves of the budget.
pub open spec fn left_for_pools(c: Costs) -> int {
    if c.mamba_slots * c.mamba_bytes_per_slot >= c.cache_budget_bytes {
        0
    } else {
        c.cache_budget_bytes - c.mamba_slots * c.mamba_bytes_per_slot
    }
}

/// The tokens of a page; an engine that reports none pages by the token.
pub open spec fn tokens_per_page(c: Costs) -> int {
    if c.page_size == 0 {
        1
    } else {
        c.page_size as int
    }
}

/// The bytes of a page.
pub open spec fn bytes_per_page(c: Costs) -> int {
    c.kv_bytes_per_token * tokens_per_page(c)
}

/// A model with experts to keep resident.
pub open spec fn has_experts(c: Costs) -> bool {
    c.total_experts > 0 && c.moe_bytes_per_expert > 0
}

/// The fewest experts that the engine keeps resident: one layer of them, or two where the
/// prefill overlap is on and the model has two.
pub open spec fn fewest_experts(c: Costs, prefill_overlap: bool) -> int {
    if prefill_overlap && c.total_experts >= 2 * c.experts_per_layer {
        2 * c.experts_per_layer
    } else if c.experts_per_layer <= c.total_experts {
        c.experts_per_layer as int
    } else {
        c.total_experts as int
    }
}

proof fn lemma_names(c: Costs)
    ensures
        c.net() == left_for_pools(c),
        page_bytes(c) == bytes_per_page(c),
        c.kv_bytes_per_token > 0 ==> bytes_per_page(c) >= 1,
        c.moe() == has_experts(c),
{
    assert(c.kv_bytes_per_token > 0 ==> bytes_per_page(c) >= 1) by (nonlinear_arith)
        requires
            bytes_per_page(c) == c.kv_bytes_per_token * tokens_per_page(c),
            tokens_per_page(c) >= 1,
    ;
}

/// The pages that a reserve takes: as many as hold it, and no more.
pub open spec fn holds_just(c: Costs, pages: int, tokens: nat) -> bool {
    pages * tokens_per_page(c) >= tokens && (pages == 0 || (pages - 1) * tokens_per_page(c)
        < tokens)
}

proof fn lemma_reserve_pages(c: Costs, tokens: nat)
    ensures
        holds_just(c, div_up(tokens, tokens_per_page(c) as nat) as int, tokens),
        forall|p: int| p >= 0 && #[trigger] holds_just(c, p, tokens) ==> p == div_up(
            tokens,
            tokens_per_page(c) as nat,
        ),
{
    let ps = tokens_per_page(c) as nat;
    let r = div_up(tokens, ps);
    assert(r * ps >= tokens && (r == 0 || (r - 1) * ps < tokens)) by (nonlinear_arith)
        requires
            ps >= 1,
            r == (if tokens % ps == 0 {
                tokens / ps
            } else {
                tokens / ps + 1
            }),
    ;
    assert forall|p: int| p >= 0 && #[trigger] holds_just(c, p, tokens) implies p == r by {
        assert(p == r) by (nonlinear_arith)
            requires
                ps >= 1,
                p >= 0,
                p * ps >= tokens,
                p == 0 || (p - 1) * ps < tokens,
                r * ps >= tokens,
                r == 0 || (r - 1) * ps < tokens,
        ;
    }
}

/// A split wastes no budget: with its experts resident one more KV page does not fit.
pub proof fn law_a_split_wastes_no_budget(c: Costs, reserve: nat, prefill_overlap: bool)
    requires
        startup_of(c, reserve, prefill_overlap) is Ok,
    ensures
        ({
            let s = startup_of(c, reserve, prefill_overlap)->Ok_0;
            &&& s.moe_cache_size * c.moe_bytes_per_expert + s.num_pages * bytes_per_page(c)
                <= left_for_pools(c)
            &&& s.moe_cache_size * c.moe_bytes_per_expert + (s.num_pages + 1) * bytes_per_page(c)
                > left_for_pools(c)
        }),
{
    lemma_names(c);
    crate::plan::law_a_split_keeps_its_promises(c, reserve, prefill_overlap);
    let pb = bytes_per_page(c);
    let net = left_for_pools(c);
    let s = startup_of(c, reserve, prefill_overlap)->Ok_0;
    if !c.moe() {
        let q = net / pb;
        assert((q + 1) * pb > net && q * pb <= net && q >= 0) by (nonlinear_arith)
            requires
                q == net / pb,
                pb >= 1,
                net >= 0,
        ;
        assert(q <= net) by (nonlinear_arith)
            requires
                q * pb <= net,
                pb >= 1,
                q >= 0,
        ;
        assert(s.num_pages == q);
        assert(s.moe_cache_size * c.moe_bytes_per_expert == 0) by (nonlinear_arith)
            requires
                s.moe_cache_size == 0,
        ;
    } else {
        let r = div_up(reserve, tokens_per_page(c) as nat);
        let slots = split_slots(c, r, prefill_overlap);
        let pages = split_pages(c, r, slots);
        assert(pages <= pages * page_bytes(c)) by (nonlinear_arith)
            requires
                page_bytes(c) >= 1,
        ;
        assert(slots * c.moe_bytes_per_expert >= 0) by (nonlinear_arith);
        assert(s.num_pages == pages && s.moe_cache_size == slots);
        let rest = net - slots * c.moe_bytes_per_expert;
        assert(rest >= 0);
        let q = rest / pb;
        assert((q + 1) * pb > rest) by (nonlinear_arith)
            requires
                q == rest / pb,
                pb >= 1,
        ;
        assert(pages >= q);
        assert((pages + 1) * pb >= (q + 1) * pb) by (nonlinear_arith)
            requires
                pages >= q,
                pb >= 1,
        ;
    }
}

/// The experts take what the reserve leaves: one more does not fit beside it, unless the
/// model has no more. They are never fewer than the engine keeps, and the reserve is there.
pub proof fn law_experts_take_what_the_reserve_leaves(
    c: Costs,
    reserve: nat,
    prefill_overlap: bool,
    pages: int,
)
    requires
        has_experts(c),
        startup_of(c, reserve, prefill_overlap) is Ok,
        pages >= 0,
        holds_just(c, pages, reserve),
    ensures
        ({
            let s = startup_of(c, reserve, prefill_overlap)->Ok_0;
            &&& s.moe_cache_size < c.total_experts ==> (s.moe_cache_size + 1)
                * c.moe_bytes_per_expert + pages * bytes_per_page(c) > left_for_pools(c)
            &&& fewest_experts(c, prefill_overlap) <= s.moe_cache_size <= c.total_experts
            &&& s.num_pages >= pages
            &&& s.prefill_overlap <==> prefill_overlap && c.total_experts >= 2
                * c.experts_per_layer
        }),
{
    lemma_names(c);
    lemma_reserve_pages(c, reserve);
    crate::plan::law_a_split_keeps_its_promises(c, reserve, prefill_overlap);
    let pb = bytes_per_page(c);
    let net = left_for_pools(c);
    let e = c.moe_bytes_per_expert as int;
    let r = div_up(reserve, tokens_per_page(c) as nat);
    assert(pages == r);
    let slots = split_slots(c, r, prefill_overlap);
    let all = split_pages(c, r, slots);
    assert(all <= all * page_bytes(c)) by (nonlinear_arith)
        requires
            page_bytes(c) >= 1,
    ;
    assert(slots * e >= 0) by (nonlinear_arith)
        requires
            e >= 0,
    ;
    let s = startup_of(c, reserve, prefill_overlap)->Ok_0;
    assert(s.moe_cache_size == slots && s.num_pages == all);
    if slots < c.total_experts {
        let left = if net >= r * pb {
            net - r * pb
        } else {
            0
        };
        let raw = left / e;
        assert((raw + 1) * e > left) by (nonlinear_arith)
            requires
                raw == left / e,
                e >= 1,
        ;
        assert(slots >= raw);
        assert((slots + 1) * e >= (raw + 1) * e) by (nonlinear_arith)
            requires
                slots >= raw,
                e >= 1,
        ;
    }
}

/// A split is given exactly when there is one: the fewest experts and the reserve have to fit
/// together, and where the reserve is not of two pages itself the experts have to leave two.
pub proof fn law_when_a_split_is_given(c: Costs, reserve: nat, prefill_overlap: bool, pages: int)
    requires
        pages >= 0,
        holds_just(c, pages, reserve),
    ensures
        ({
            let r = startup_of(c, reserve, prefill_overlap);
            let pb = bytes_per_page(c);
            let net = left_for_pools(c);
            let least = fewest_experts(c, prefill_overlap) * c.moe_bytes_per_expert;
            &&& c.kv_bytes_per_token == 0 ==> r is Err
            &&& c.kv_bytes_per_token > 0 && !has_experts(c) ==> (r is Ok <==> 2 * pb <= net)
            &&& c.kv_bytes_per_token > 0 && has_experts(c) && least + pages * pb > net ==> r is Err
            &&& c.kv_bytes_per_token > 0 && has_experts(c) && pages >= 2 && least + pages * pb
                <= net ==> r is Ok
            &&& c.kv_bytes_per_token > 0 && has_experts(c) && c.total_experts
                * c.moe_bytes_per_expert + 2 * pb <= net && pages <= 1 ==> r is Ok
            &&& r is Ok && !has_experts(c) ==> r->Ok_0.moe_cache_size == 0
                && !r->Ok_0.prefill_overlap
        }),
{
    lemma_names(c);
    lemma_reserve_pages(c, reserve);
    let pb = bytes_per_page(c);
    let net = left_for_pools(c);
    let e = c.moe_bytes_per_expert as int;
    let r = div_up(reserve, tokens_per_page(c) as nat);
    assert(pages == r);
    if c.kv_bytes_per_token > 0 && !c.moe() {
        let q = net / pb;
        assert(q > 1 <==> 2 * pb <= net) by (nonlinear_arith)
            requires
                q == net / pb,
                pb >= 1,
                net >= 0,
        ;
    }
    if c.kv_bytes_per_token > 0 && c.moe() {
        let fewest = fewest_experts(c, prefill_overlap);
        let slots = split_slots(c, r, prefill_overlap);
        let all = split_pages(c, r, slots);
        let left = if net >= r * pb {
            net - r * pb
        } else {
            0
        };
        let raw = left / e;
        assert(slots >= fewest);
        assert(slots * e >= fewest * e) by (nonlinear_arith)
            requires
                slots >= fewest,
                e >= 1,
        ;
        assert(all * pb >= r * pb) by (nonlinear_arith)
            requires
                all >= r,
                pb >= 1,
        ;
        assert(split_bytes(c, slots, all) == slots * e + all * pb);
        if fewest * e + r * pb <= net {
            assert(fewest * e >= 0) by (nonlinear_arith)
                requires
                    fewest >= 0,
                    e >= 1,
            ;
            assert(raw >= fewest) by (nonlinear_arith)
                requires
                    raw == left / e,
                    left >= fewest * e,
                    e >= 1,
            ;
            assert(slots <= raw);
            assert(slots * e <= left) by (nonlinear_arith)
                requires
                    slots <= left / e,
                    e >= 1,
                    left >= 0,
            ;
            let rest = net - slots * e;
            let q = rest / pb;
            assert(q >= r && q * pb <= rest) by (nonlinear_arith)
                requires
                    q == rest / pb,
                    rest >= r * pb,
                    pb >= 1,
            ;
            assert(all == q);
            assert(split_bytes(c, slots, all) <= net);
        }
        if c.total_experts * e + 2 * pb <= net && r <= 1 {
            assert(slots <= c.total_experts);
            assert(slots * e <= c.total_experts * e) by (nonlinear_arith)
                requires
                    slots <= c.total_experts,
                    e >= 1,
            ;
            let rest = net - slots * e;
            let q = rest / pb;
            assert(q >= 2 && q * pb <= rest) by (nonlinear_arith)
                requires
                    q == rest / pb,
                    rest >= 2 * pb,
                    pb >= 1,
            ;
            assert(all == q);
            assert(split_bytes(c, slots, all) <= net);
        }
    }
}

/// A context stands beside the experts that it was asked for with, and one page more does
/// not; it is whole pages; and where the experts alone overrun the budget there is none.
pub proof fn law_a_context_fills_what_the_experts_leave(c: Costs, slots: nat)
    requires
        c.priced(),
    ensures
        ({
            let tokens = c.context_at(slots) as int;
            let used = slots * c.moe_bytes_per_expert;
            &&& used > left_for_pools(c) ==> tokens == 0
            &&& used <= left_for_pools(c) ==> used + tokens * c.kv_bytes_per_token
                <= left_for_pools(c) < used + (tokens + c.page_size) * c.kv_bytes_per_token
            &&& tokens % c.page_size as int == 0
        }),
{
    lemma_names(c);
    crate::plan::law_context_is_whole_pages(c, slots);
    let kv = c.kv_bytes_per_token as int;
    let ps = c.page_size as int;
    let used = slots * c.moe_bytes_per_expert;
    let net = left_for_pools(c);
    let left = if used > net {
        0
    } else {
        net - used
    };
    assert(used >= 0) by (nonlinear_arith)
        requires
            used == slots * c.moe_bytes_per_expert,
    ;
    let t = left / kv;
    let k = t / ps;
    let tokens = k * ps;
    assert(c.context_at(slots) == tokens);
    assert(t * kv <= left < (t + 1) * kv && t >= 0) by (nonlinear_arith)
        requires
            t == left / kv,
            kv >= 1,
            left >= 0,
    ;
    assert(tokens <= t < tokens + ps && tokens >= 0) by (nonlinear_arith)
        requires
            k == t / ps,
            tokens == k * ps,
            ps >= 1,
            t >= 0,
    ;
    assert(tokens * kv <= t * kv) by (nonlinear_arith)
        requires
            tokens <= t,
            kv >= 1,
    ;
    assert((t + 1) * kv <= (tokens + ps) * kv) by (nonlinear_arith)
        requires
            t + 1 <= tokens + ps,
            kv >= 1,
    ;
    if used > net {
        assert(t == 0) by (nonlinear_arith)
            requires
                t == left / kv,
                left == 0,
                kv >= 1,
        ;
        assert(tokens == 0);
    }
}

/// The experts beside a context: there are some exactly when the context fits alone, they fit
/// beside it, and one more does not, unless the model has no more.
pub proof fn law_experts_fill_what_a_context_leaves(c: Costs, tokens: nat)
    ensures
        ({
            let kv = tokens * c.kv_bytes_per_token;
            let e = c.moe_bytes_per_expert;
            let r = c.slots_at(tokens);
            &&& r is Some <==> kv <= left_for_pools(c)
            &&& r is Some && !has_experts(c) ==> r->0 == 0
            &&& r is Some && has_experts(c) ==> {
                &&& r->0 * e + kv <= left_for_pools(c)
                &&& r->0 <= c.total_experts
                &&& r->0 < c.total_experts ==> (r->0 + 1) * e + kv > left_for_pools(c)
            }
        }),
{
    lemma_names(c);
    let kv = (tokens * c.kv_bytes_per_token) as nat;
    assert(tokens * c.kv_bytes_per_token >= 0) by (nonlinear_arith);
    if kv <= c.net() && c.moe() {
        let left = (c.net() - kv) as nat;
        let e = c.moe_bytes_per_expert as nat;
        let q = left / e;
        let r = c.slots_at(tokens)->0;
        assert(q * e <= left < (q + 1) * e) by (nonlinear_arith)
            requires
                q == left / e,
                e >= 1,
        ;
        assert(r * e <= q * e) by (nonlinear_arith)
            requires
                r <= q,
        ;
    }
}

/// The floor of the expert cache: nothing without experts, one layer, or two with the prefill
/// overlap, and never more than the model has.
pub proof fn law_the_floor_is_a_layer_or_two(c: Costs)
    ensures
        !has_experts(c) ==> c.floor(true) == 0 && c.floor(false) == 0,
        has_experts(c) && c.total_experts >= c.experts_per_layer ==> c.floor(false)
            == c.experts_per_layer,
        has_experts(c) && c.total_experts >= 2 * c.experts_per_layer ==> c.floor(true) == 2
            * c.experts_per_layer,
        has_experts(c) && c.total_experts < 2 * c.experts_per_layer ==> c.floor(true)
            == c.total_experts,
        has_experts(c) && c.total_experts < c.experts_per_layer ==> c.floor(false)
            == c.total_experts,
        c.reach(true) == c.context_at(c.floor(true)),
        c.reach(false) == c.context_at(c.floor(false)),
{
}

/// The state slots of a request: one and a sink without prefix reuse; with it four each, two
/// more each for snapshots but at least four of those, and a sink.
pub proof fn law_state_slots_grow_with_requests(running: nat)
    requires
        1 <= running < 0x8_0000_0000_0000,
    ensures
        state_slots(running, false, default_ratio()) == running + 1,
        running >= 2 ==> state_slots(running, true, default_ratio()) == 6 * running + 1,
        running == 1 ==> state_slots(running, true, default_ratio()) == 9,
        state_slots(0, true, default_ratio()) == state_slots(1, true, default_ratio()),
        state_slots(0, false, default_ratio()) == state_slots(1, false, default_ratio()),
{
    crate::util::law_small_numbers_are_doubles(running);
    crate::util::law_small_numbers_are_doubles(2 * running);
    assert(2 * running / 1 == 2 * running);
}

// ---------------------------------------------------------------- the plan for the context

/// The context that a plan is for is the longest that can be reached at all, up to what the
/// checkpoint declares: the prefill overlap is given up where it stands in the way, and only
/// there.
pub proof fn law_a_plan_reaches_as_far_as_it_can(
    target: Target,
    c: Costs,
    m: Map<Seq<char>, Seq<char>>,
)
    requires
        c.priced(),
        target.sized(),
    ensures
        ({
            let plan = context_plan(target, Some(c), m);
            let ceiling = target.ceiling->0 as nat;
            let most = if c.reach(false) < ceiling {
                c.reach(false)
            } else {
                ceiling
            };
            let overlap = !is_on(m, "disable_moe_prefill_overlap"@);
            let edit = ("disable_moe_prefill_overlap"@, "true"@);
            &&& plan.fit == Some(ContextFit { usable: most as u64, ceiling: target.ceiling->0 })
            &&& plan.unpriced is None
            &&& edits_of(plan.steps).contains(edit) <==> overlap && c.reach(true) < most
        }),
{
    crate::plan::law_overlap_costs_context(c);
    crate::plan::lemma_context_edit_list(target, c, m);
    let ceiling = target.ceiling->0 as nat;
    let overlap = !is_on(m, "disable_moe_prefill_overlap"@);
    let give_up = gives_up_overlap(c, ceiling, overlap);
    let edits = edits_of(context_plan(target, Some(c), m).steps);
    let edit = ("disable_moe_prefill_overlap"@, "true"@);
    reveal_strlit("disable_moe_prefill_overlap");
    reveal_strlit("kv_reserve_tokens");
    assert("disable_moe_prefill_overlap"@.len() == 27 && "kv_reserve_tokens"@.len() == 17);
    if give_up {
        assert(edits[0] == edit);
    } else if edits.contains(edit) {
        let i = edits.index_of(edit);
        assert(edits[i] == edit);
    }
}

/// The reserve is edited exactly when what is set falls short of the context that the plan is
/// for, and then to that context. What is set is the number under its knob, or else 8192.
pub proof fn law_a_plan_reserves_its_context(
    target: Target,
    c: Costs,
    m: Map<Seq<char>, Seq<char>>,
    value: Seq<char>,
)
    requires
        c.priced(),
        target.sized(),
    ensures
        ({
            let plan = context_plan(target, Some(c), m);
            let usable = plan.fit->0.usable;
            let edits = edits_of(plan.steps);
            let set = match value_of(m, "kv_reserve_tokens"@) {
                Some(v) => match unsigned_of(v) {
                    Some(n) if n <= u64::MAX => n,
                    _ => 8192,
                },
                None => 8192,
            };
            edits.contains(("kv_reserve_tokens"@, value)) <==> set < usable && value == dec(
                usable as nat,
            )
        }),
{
    crate::plan::lemma_context_edit_list(target, c, m);
    law_a_plan_reaches_as_far_as_it_can(target, c, m);
    let edits = edits_of(context_plan(target, Some(c), m).steps);
    let usable = context_plan(target, Some(c), m).fit->0.usable as nat;
    reveal_strlit("disable_moe_prefill_overlap");
    reveal_strlit("kv_reserve_tokens");
    assert("disable_moe_prefill_overlap"@.len() == 27 && "kv_reserve_tokens"@.len() == 17);
    let x = ("kv_reserve_tokens"@, value);
    if edits.contains(x) {
        let i = edits.index_of(x);
        assert(edits[i] == x);
    }
    if current_reserve(m) < usable && value == dec(usable) {
        assert(edits.last() == x);
    }
}

/// A context that falls short of what is declared is warned of.
pub proof fn law_a_short_context_is_warned_of(target: Target, c: Costs, m: Map<Seq<char>, Seq<char>>)
    requires
        c.priced(),
        target.sized(),
        context_plan(target, Some(c), m).fit->0.usable < target.ceiling->0,
    ensures
        exists|i: int|
            0 <= i < context_plan(target, Some(c), m).steps.len() && (#[trigger] context_plan(
                target,
                Some(c),
                m,
            ).steps[i]).level == Level::Warning,
{
    law_a_plan_reaches_as_far_as_it_can(target, c, m);
    let steps = context_plan(target, Some(c), m).steps;
    if context_plan(target, Some(c), m).fit->0.usable == 0 {
        assert(steps.last().level == Level::Warning);
        assert(steps[steps.len() - 1].level == Level::Warning);
    } else {
        assert(steps[steps.len() - 2].level == Level::Warning);
    }
}

/// Without a declared context, or without measured costs, nothing is planned for the context,
/// and the plan says so.
pub proof fn law_an_unpriced_plan_says_so(
    target: Target,
    costs: Option<Costs>,
    m: Map<Seq<char>, Seq<char>>,
)
    requires
        !target.sized() || costs is None,
    ensures
        context_plan(target, costs, m).unpriced is Some,
        context_plan(target, costs, m).fit is None,
        context_plan(target, costs, m).steps.len() == 0,
{
}

// ---------------------------------------------------------------- concurrency, backend, speed

/// The edits of a single step, or none.
proof fn lemma_edits_of_single(s: Seq<StepView>, e: (Seq<char>, Seq<char>))
    requires
        s.len() <= 1,
    ensures
        edits_of(s).contains(e) <==> s.len() == 1 && s[0].set == Some(e),
{
    if s.len() == 1 {
        assert(s.drop_last() =~= Seq::<StepView>::empty());
        assert(edits_of(s.drop_last()) =~= Seq::<(Seq<char>, Seq<char>)>::empty());
        match s[0].set {
            Some(x) => {
                assert(edits_of(s) =~= seq![x]);
                if x == e {
                    assert(seq![x][0] == e);
                }
            },
            None => {
                assert(edits_of(s) =~= Seq::<(Seq<char>, Seq<char>)>::empty());
            },
        }
    }
}

/// Concurrency is given up exactly when that keeps more experts resident at the planned
/// context: the model holds a state per request and has experts that do not all fit, more
/// than one request runs, the engine sized its state pool as it is known to, and resizing it
/// for one request makes room for another expert.
pub proof fn law_concurrency_is_traded_for_experts(
    c: Costs,
    f: ContextFit,
    m: Map<Seq<char>, Seq<char>>,
    value: Seq<char>,
)
    ensures
        ({
            let running = match number_at(m, "max_running_requests"@) {
                Some(n) => n,
                None => 4,
            };
            let radix = value_of(m, "cache_type"@) != Some("naive"@);
            let one = Costs { mamba_slots: state_slots(1, radix, default_ratio()) as u64, ..c };
            let now = c.slots_at(f.usable as nat);
            let then = one.slots_at(f.usable as nat);
            let kept = if now is Some {
                now->0
            } else {
                0
            };
            edits_of(concurrency_steps(Some(c), Some(f), m)).contains(
                ("max_running_requests"@, value),
            ) <==> {
                &&& value == "1"@
                &&& has_experts(c)
                &&& c.mamba_bytes_per_slot > 0 && c.mamba_slots > 0
                &&& running > 1
                &&& c.mamba_slots == state_slots(running as nat, radix, default_ratio())
                &&& kept < c.total_experts
                &&& then is Some && then->0 > kept
            }
        }),
{
    lemma_names(c);
    let s = concurrency_steps(Some(c), Some(f), m);
    lemma_edits_of_single(s, ("max_running_requests"@, value));
}

/// Resident experts are recommended exactly when all of them fit beside the whole context.
pub proof fn law_experts_that_all_fit_stay_resident(
    target: Target,
    machine: Machine,
    c: Costs,
    bench: Option<BenchProfile>,
    m: Map<Seq<char>, Seq<char>>,
)
    requires
        target.is_moe,
        target.sized(),
        has_experts(c),
        bench is None || (bench->0.dtypes@.dom().len() == 0 && bench->0.dtypes@.dom().finite()),
    ensures
        edits_of(backend_steps(target, machine, Some(c), bench, m)).contains(
            ("moe_backend"@, "fused"@),
        ) <==> c.total_experts * c.moe_bytes_per_expert + target.ceiling->0 * c.kv_bytes_per_token
            <= left_for_pools(c),
{
    lemma_names(c);
    let s = backend_steps(target, machine, Some(c), bench, m);
    lemma_edits_of_single(s, ("moe_backend"@, "fused"@));
    if bench is Some {
        let d = bench->0.dtypes@.dom();
        assert(d =~= Set::empty()) by {
            if exists|k: Seq<char>| d.contains(k) {
                let k = choose|k: Seq<char>| d.contains(k);
                assert(d.remove(k).len() == d.len() - 1);
            }
        }
    }
}

/// Otherwise the benchmark decides: what it names for the experts' format is recommended,
/// unless it is set already, or is hybrid on a host without four gibibytes to spare. Without
/// a benchmark that is said, and nothing is recommended; and nothing ever is for a dense
/// model.
pub proof fn law_the_benchmark_decides_the_backend(
    target: Target,
    machine: Machine,
    bench: BenchProfile,
    m: Map<Seq<char>, Seq<char>>,
    format: Seq<char>,
    found: String,
    value: Seq<char>,
)
    requires
        format == bench_key_of(
            lowercase(
                if target.quant is Some {
                    target.quant->0@
                } else {
                    "bf16"@
                },
            ),
        ),
        bench.dtypes@.dom().contains(format),
        bench.dtypes@[format] == Some(found),
    ensures
        ({
            let edit = ("moe_backend"@, value);
            let starved = found@ == "hybrid"@ && machine.host_ram_total > 0
                && machine.host_ram_available < 0x1_0000_0000;
            let set = found@ != "auto"@ && value_of(m, "moe_backend"@) == Some(found@);
            &&& edits_of(backend_steps(target, machine, None, Some(bench), m)).contains(edit)
                <==> target.is_moe && value == found@ && !starved && !set
            &&& edits_of(backend_steps(target, machine, None, None, m)).len() == 0
        }),
{
    let s = backend_steps(target, machine, None, Some(bench), m);
    lemma_edits_of_single(s, ("moe_backend"@, value));
    let n = backend_steps(target, machine, None, None, m);
    if n.len() > 0 {
        assert(n.drop_last() =~= Seq::<StepView>::empty());
        assert(edits_of(n.drop_last()) =~= Seq::<(Seq<char>, Seq<char>)>::empty());
    }
}

/// The benchmark names its formats as the checkpoints do, but for mxfp4, and for a checkpoint
/// that names none.
pub proof fn law_formats_keep_their_names(q: Seq<char>)
    ensures
        bench_key_of("mxfp4"@) == "mxfp4_triton"@,
        bench_key_of("none"@) == "bf16"@,
        bench_key_of(""@) == "bf16"@,
        q != "mxfp4"@ && q != "none"@ && q != ""@ ==> bench_key_of(q) == q,
{
    reveal_strlit("mxfp4");
    reveal_strlit("none");
    reveal_strlit("");
    assert("mxfp4"@.len() == 5 && "none"@.len() == 4 && ""@.len() == 0);
}

/// Host RAM is warned of exactly when a model with experts leaves less than four gibibytes of
/// it, and spoken of when the experts are more than half of it. None of that edits anything.
pub proof fn law_a_cramped_host_is_warned_of(machine: Machine, c: Costs)
    ensures
        ({
            let s = host_steps(machine, Some(c));
            let concerned = has_experts(c) && machine.host_ram_total > 0;
            let cramped = machine.host_ram_available < 0x1_0000_0000;
            &&& s.len() <= 1
            &&& s.len() == 1 && s[0].level == Level::Warning <==> concerned && cramped
            &&& c.total_experts * c.moe_bytes_per_expert <= u64::MAX ==> (s.len() == 1
                && s[0].level == Level::Info <==> concerned && !cramped && above_half(
                (c.total_experts * c.moe_bytes_per_expert) as nat,
                machine.host_ram_total as nat,
            ))
            &&& s.len() == 1 ==> s[0].set is None
            &&& host_steps(machine, None).len() == 0
        }),
{
}

/// Graphs are captured up to the requests that run, exactly when fewer are captured than are
/// set to run; threads are brought back to one per core exactly when there are more of them.
pub proof fn law_free_speed_is_taken(machine: Machine, m: Map<Seq<char>, Seq<char>>, value: Seq<char>)
    ensures
        ({
            let edits = edits_of(speed_steps(machine, m));
            let running = number_at(m, "max_running_requests"@);
            let captured = number_at(m, "cuda_graph_max_bs"@);
            let threads = number_at(m, "moe_cpu_threads"@);
            &&& edits.contains(("cuda_graph_max_bs"@, value)) <==> running is Some && (captured
                is None || captured->0 < running->0) && value == dec(running->0 as nat)
            &&& edits.contains(("moe_cpu_threads"@, value)) <==> threads is Some && threads->0
                <= usize::MAX && machine.physical_cores > 0 && threads->0
                > machine.physical_cores && value == "0"@
        }),
{
    reveal_strlit("cuda_graph_max_bs");
    reveal_strlit("moe_cpu_threads");
    assert("cuda_graph_max_bs"@.len() == 17 && "moe_cpu_threads"@.len() == 15);
    let steps = speed_steps(machine, m);
    let running = number_at(m, "max_running_requests"@);
    let captured = number_at(m, "cuda_graph_max_bs"@);
    let capture = running is Some && (captured is None || captured->0 < running->0);
    let head: Seq<StepView> = if capture {
        seq![crate::plan::capture_step(running->0 as nat)]
    } else {
        Seq::empty()
    };
    let a = ("cuda_graph_max_bs"@, value);
    let b = ("moe_cpu_threads"@, value);
    lemma_edits_of_single(head, a);
    lemma_edits_of_single(head, b);
    if crate::plan::too_many_threads(machine, m) {
        let t = crate::plan::threads_step(
            number_at(m, "moe_cpu_threads"@)->0 as nat,
            machine.physical_cores as nat,
        );
        assert(steps == head.push(t));
        assert(steps.drop_last() =~= head);
        let e = t.set->0;
        let h = edits_of(head);
        assert(edits_of(steps) == h.push(e));
        assert forall|x: (Seq<char>, Seq<char>)| #[trigger] h.push(e).contains(x) <==> h.contains(x)
            || x == e by {
            if h.push(e).contains(x) {
                let k = h.push(e).index_of(x);
                assert(h.push(e)[k] == x);
                if k < h.len() {
                    assert(h[k] == x);
                }
            }
            if h.contains(x) {
                let k = h.index_of(x);
                assert(h.push(e)[k] == x);
            }
            assert(h.push(e)[h.len() as int] == e);
        }
    } else {
        assert(steps == head);
    }
}

/// A whole plan makes the edits of its parts, and no others.
pub proof fn law_a_plan_is_its_parts(
    target: Target,
    machine: Machine,
    costs: Option<Costs>,
    bench: Option<BenchProfile>,
    m: Map<Seq<char>, Seq<char>>,
    e: (Seq<char>, Seq<char>),
)
    ensures
        ({
            let plan = plan_of(target, machine, costs, bench, m);
            let context = context_plan(target, costs, m);
            &&& plan.fit == context.fit && plan.unpriced == context.unpriced
            &&& edits_of(plan.steps).contains(e) <==> edits_of(context.steps).contains(e)
                || edits_of(concurrency_steps(costs, context.fit, m)).contains(e) || edits_of(
                backend_steps(target, machine, costs, bench, m),
            ).contains(e) || edits_of(speed_steps(machine, m)).contains(e)
        }),
{
    let context = context_plan(target, costs, m);
    let a = context.steps;
    let b = concurrency_steps(costs, context.fit, m);
    let c = backend_steps(target, machine, costs, bench, m);
    let d = host_steps(machine, costs);
    let s = speed_steps(machine, m);
    lemma_edits_of_single(d, e);
    lemma_edits_join(a, b, e);
    lemma_edits_join(a + b, c, e);
    lemma_edits_join(a + b + c, d, e);
    lemma_edits_join(a + b + c + d, s, e);
}

proof fn lemma_edits_join(a: Seq<StepView>, b: Seq<StepView>, e: (Seq<char>, Seq<char>))
    ensures
        edits_of(a + b).contains(e) <==> edits_of(a).contains(e) || edits_of(b).contains(e),
{
    crate::plan::lemma_edits_concat(a, b);
    let x = edits_of(a);
    let y = edits_of(b);
    if (x + y).contains(e) {
        let k = (x + y).index_of(e);
        assert((x + y)[k] == e);
        if k < x.len() {
            assert(x[k] == e);
        } else {
            assert(y[k - x.len()] == e);
        }
    }
    if x.contains(e) {
        let k = x.index_of(e);
        assert((x + y)[k] == e);
    }
    if y.contains(e) {
        let k = y.index_of(e);
        assert((x + y)[x.len() + k] == e);
    }
}

/// The prefill overlap stays on exactly where it is wanted and the model has two layers of
/// experts to hold.
pub proof fn law_when_the_overlap_stays_on(c: Costs, reserve: nat, prefill_overlap: bool)
    requires
        has_experts(c),
        startup_of(c, reserve, prefill_overlap) is Ok,
    ensures
        startup_of(c, reserve, prefill_overlap)->Ok_0.prefill_overlap <==> prefill_overlap
            && c.total_experts >= 2 * c.experts_per_layer,
{
    lemma_names(c);
}

/// The number under a knob is its numeral, where it is one that a machine word holds.
pub proof fn law_a_knob_holds_its_number(m: Map<Seq<char>, Seq<char>>, key: Seq<char>, n: u64)
    ensures
        value_of(m, key) is None ==> number_at(m, key) is None,
        value_of(m, key) == Some(dec(n as nat)) ==> number_at(m, key) == Some(n),
        value_of(m, key) is Some && unsigned_of(value_of(m, key)->0) is None ==> number_at(m, key)
            is None,
{
    crate::text::law_a_numeral_reads_back(n as nat);
}

} // verus!
