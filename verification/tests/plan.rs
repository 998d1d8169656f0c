use paddock::ft::types::{BenchProfile, CacheGeometry, UnitBytes};
use paddock::knobs::ServeConfig;
use paddock::plan::{
    bench_format, bench_key, bench_profile_status, build, mamba_slots_for, plan_cache_budget,
    tokens, ContextFit, CostStore, Costs, Level, Machine, Ratio, Step, Target, DEFAULT_KV_RESERVE_TOKENS,
    LINEAR_STATE_CACHE_RATIO,
};

/// The engine's default ratio.
fn two() -> Ratio {
    Ratio { mantissa: LINEAR_STATE_CACHE_RATIO, over: 1 }
}

/// The double nearest to a tenth.
fn a_tenth() -> Ratio {
    Ratio { mantissa: 7205759403792794, over: 1 << 56 }
}

fn ratio(fit: &ContextFit) -> f64 {
    let (part, whole) = fit.share();
    part as f64 / whole as f64
}

/// A MoE that comfortably outgrows the card: 40 GiB of experts, 8 GiB of budget.
fn moe_costs() -> Costs {
    Costs {
        cache_budget_bytes: 8 << 30,
        kv_bytes_per_token: 16 * 1024,
        moe_bytes_per_expert: 8 << 20,
        page_size: 1,
        experts_per_layer: 128,
        total_experts: 128 * 48,
        mamba_bytes_per_slot: 0,
        mamba_slots: 0,
    }
}

/// The real geometry off a served Ornith-1.5-35B-A3B-NVFP4 on a 16 GiB RTX 5070 Ti,
/// taken from its `/v1/cache/status`. Worth carrying verbatim: the three pools sum to
/// within a kilobyte of the reported budget, so it pins the whole cost model at once.
fn measured_hybrid_linear() -> Costs {
    Costs {
        cache_budget_bytes: 10_215_371_571,
        kv_bytes_per_token: 20_480,
        moe_bytes_per_expert: 1_775_616,
        page_size: 1,
        experts_per_layer: 256,
        total_experts: 256 * 40,
        mamba_bytes_per_slot: 64_389_120,
        mamba_slots: 25, // 24 reported + the padding sink
    }
}

#[test]
fn context_and_slots_are_inverses_of_each_other() {
    let c = moe_costs();
    let slots = c.slots_for_context(32768).unwrap();
    // Holding that many slots leaves at least the context asked for.
    assert!(c.context_for_slots(slots) >= 32768);
    // One more slot would not.
    assert!(c.context_for_slots(slots + 1) < 32768 + 16);
}

#[test]
fn a_budget_too_small_for_the_context_has_no_slot_count() {
    let c = moe_costs();
    assert_eq!(c.slots_for_context(1 << 30), None, "a petabyte of KV fits nowhere");
}

#[test]
fn max_context_squeezes_the_experts_to_their_floor() {
    let c = moe_costs();
    assert_eq!(c.max_context(false), c.context_for_slots(c.experts_per_layer));
    assert!(c.max_context(false) > c.context_for_slots(c.total_experts));
}

#[test]
fn prefill_overlap_doubles_the_floor_and_so_costs_context() {
    let c = moe_costs();
    assert_eq!(c.floor_slots(true), 2 * c.floor_slots(false));
    assert!(
        c.max_context(true) < c.max_context(false),
        "the overlap's second buffer is context that cannot be spent on KV"
    );
}

#[test]
fn a_floor_never_exceeds_the_experts_the_model_has() {
    // One layer only: doubling it would ask for slots that do not exist.
    let c = Costs { total_experts: 128, experts_per_layer: 128, ..moe_costs() };
    assert_eq!(c.floor_slots(true), 128);
}

#[test]
fn a_dense_model_gives_the_whole_budget_to_kv() {
    let c = Costs { moe_bytes_per_expert: 0, total_experts: 0, ..moe_costs() };
    assert!(!c.is_moe());
    assert_eq!(c.slots_for_context(1024), Some(0));
    assert_eq!(c.floor_slots(true), 0, "a dense model has no expert floor");
    assert_eq!(c.max_context(true), (8u64 << 30) / (16 * 1024));
}

#[test]
fn the_default_reserve_starves_kv_and_a_raised_one_does_not() {
    let c = moe_costs();
    let starved = plan_cache_budget(&c, DEFAULT_KV_RESERVE_TOKENS, true).unwrap();
    // Experts take everything they can; KV lands on the reserve floor.
    assert_eq!(starved.usable_tokens(c.page_size), DEFAULT_KV_RESERVE_TOKENS);

    let roomy = plan_cache_budget(&c, 262_144, true).unwrap();
    assert_eq!(roomy.usable_tokens(c.page_size), 262_144);
    assert!(roomy.moe_cache_size < starved.moe_cache_size, "context is paid for in slots");
}

#[test]
fn the_expert_cache_never_goes_below_its_floor() {
    let c = moe_costs();
    // Ask for every token the floor leaves room for; the floor still stands.
    let plan = plan_cache_budget(&c, c.max_context(true), true).unwrap();
    assert_eq!(plan.moe_cache_size, c.floor_slots(true));
    assert!(plan.prefill_overlap);
}

#[test]
fn asking_past_the_overlap_floor_is_refused_rather_than_silently_shrunk() {
    let c = moe_costs();
    // The context that only fits once the overlap gives its second buffer back.
    let beyond = c.max_context(false);
    assert!(plan_cache_budget(&c, beyond, true).is_err(), "does not fit with overlap on");
    assert!(plan_cache_budget(&c, beyond, false).is_ok(), "and fits with it off");
}

#[test]
fn prefill_overlap_turns_itself_off_when_the_slots_are_not_there() {
    // Only one layer's worth of experts can ever be resident.
    let c = Costs { total_experts: 128, ..moe_costs() };
    let plan = plan_cache_budget(&c, 4096, true).unwrap();
    assert!(!plan.prefill_overlap, "overlap needs 2x the per-layer expert count");
}

#[test]
fn a_budget_that_cannot_fit_the_floor_is_an_error_not_a_panic() {
    let c = Costs { cache_budget_bytes: 1 << 20, ..moe_costs() };
    assert!(plan_cache_budget(&c, DEFAULT_KV_RESERVE_TOKENS, true).is_err());
}

#[test]
fn an_unpriced_engine_cannot_be_planned() {
    let c = Costs { kv_bytes_per_token: 0, ..moe_costs() };
    assert!(plan_cache_budget(&c, 4096, true).is_err());
}

#[test]
fn pages_are_whole_units_of_context() {
    let c = Costs { page_size: 128, ..moe_costs() };
    assert_eq!(c.context_for_slots(c.total_experts) % 128, 0);
}

#[test]
fn a_truncated_context_is_reported_as_truncated() {
    let fit = ContextFit { usable: 8192, ceiling: 262_144 };
    assert!(fit.is_truncated());
    assert_eq!(fit.summary(), "8k of 256k");
    assert!(ratio(&fit) < 0.04);
}

#[test]
fn a_full_context_is_not_truncated() {
    let fit = ContextFit { usable: 262_144, ceiling: 262_144 };
    assert!(!fit.is_truncated());
    assert_eq!(ratio(&fit), 1.0);
}

#[test]
fn a_kv_pool_larger_than_the_model_ceiling_is_still_not_truncated() {
    // num_pages can exceed the ceiling; the engine clamps and nothing is wrong.
    let fit = ContextFit { usable: 300_000, ceiling: 262_144 };
    assert!(!fit.is_truncated());
    assert_eq!(ratio(&fit), 1.0, "the ratio never exceeds one");
}

#[test]
fn token_counts_read_in_round_units() {
    assert_eq!(tokens(0), "0");
    assert_eq!(tokens(512), "512");
    assert_eq!(tokens(8192), "8k");
    assert_eq!(tokens(262_144), "256k");
    assert_eq!(tokens(1 << 20), "1M");
    assert_eq!(tokens(1536), "1.5k");
}

#[test]
fn the_measured_pools_sum_to_the_engines_reported_budget() {
    // The strongest check available without a GPU: if the cost model is right, the
    // three pools the engine actually allocated must add up to what it said its
    // budget was. Taken from a live serve, so any drift in the model shows up here.
    let c = measured_hybrid_linear();
    let kv = 262_230u64 * c.kv_bytes_per_token;
    let moe = 1_822u64 * c.moe_bytes_per_expert;
    let total = kv + moe + c.mamba_bytes();
    let slack = c.cache_budget_bytes - total;
    assert!(slack < 4096, "pools should account for the budget, {slack} B unexplained");
}

#[test]
fn the_state_pool_is_priced_out_of_the_budget_before_context() {
    let c = measured_hybrid_linear();
    assert_eq!(c.net_budget(), c.cache_budget_bytes - c.mamba_bytes());
    // Ignoring the pool would promise about 78k tokens of context that do not exist.
    let overstated = c.cache_budget_bytes / c.kv_bytes_per_token;
    let honest = c.net_budget() / c.kv_bytes_per_token;
    assert!(overstated - honest > 70_000, "the state pool is worth real context");
}

#[test]
fn a_model_without_a_linear_group_has_no_state_pool_to_price() {
    let c = moe_costs();
    assert!(!c.is_hybrid_linear());
    assert_eq!(c.mamba_bytes(), 0);
    assert_eq!(c.net_budget(), c.cache_budget_bytes);
}

#[test]
fn the_slot_formula_reproduces_what_the_engine_allocated() {
    // max_running_requests=4 with the default cache ratio produced 24 usable slots
    // (25 physical) on the real serve.
    assert_eq!(mamba_slots_for(4, true, two()), 25);
    assert_eq!(mamba_slots_for(2, true, two()), 13);
    assert_eq!(mamba_slots_for(1, true, two()), 9);
    // The snapshot cache never drops below four however low concurrency goes.
    assert_eq!(mamba_slots_for(1, true, a_tenth()), 9);
    // The naive path keeps the older one-per-request sizing.
    assert_eq!(mamba_slots_for(4, false, two()), 5);
}

#[test]
fn concurrency_is_traded_for_experts_only_when_kv_cannot_deliver_it() {
    let c = measured_hybrid_linear();
    let t = Target {
        name: "Ornith-1.5-35B-A3B".into(),
        ceiling: Some(262_144),
        is_moe: true,
        quant: Some("nvfp4".into()),
    };
    let plan = build(&t, &machine(), Some(&c), None, &ServeConfig::new());

    // KV holds one full-length request, so four is being paid for and not delivered.
    let step = plan
        .edits()
        .into_iter()
        .find(|(k, _)| *k == "max_running_requests")
        .expect("the state pool should be recommended down");
    assert_eq!(step.1, "1");
    assert!(plan.steps.iter().any(|s| s.reason.contains("fewer PCIe fetches")));
}

#[test]
fn dropping_concurrency_actually_grows_the_expert_cache() {
    let c = measured_hybrid_linear();
    let at_four = c.slots_for_context(262_144).unwrap();
    let at_one = c
        .with_mamba_slots(mamba_slots_for(1, true, two()))
        .slots_for_context(262_144)
        .unwrap();
    assert!(at_one > at_four, "freed state slots become expert slots");
    // The freed bytes buy roughly what the arithmetic says they should.
    let freed = (25 - 9) * c.mamba_bytes_per_slot;
    let expected = freed / c.moe_bytes_per_expert;
    // Within one slot: the two divisions carry different remainders.
    assert!((at_one - at_four).abs_diff(expected) <= 1, "{at_one} - {at_four} vs {expected}");
}

#[test]
fn concurrency_is_left_alone_when_the_experts_already_all_fit() {
    // Roomy enough to hold every expert: freeing state slots buys nothing, so cutting
    // concurrency would be a downgrade paid for no gain.
    let c = Costs { cache_budget_bytes: 40 << 30, ..measured_hybrid_linear() };
    let t = Target { ceiling: Some(65_536), is_moe: true, ..Default::default() };
    assert_eq!(c.slots_for_context(65_536), Some(c.total_experts));
    let plan = build(&t, &machine(), Some(&c), None, &ServeConfig::new());
    assert!(!plan.edits().iter().any(|(k, _)| *k == "max_running_requests"));
}

#[test]
fn concurrency_already_at_one_is_left_alone() {
    let mut serve = ServeConfig::new();
    serve.set("max_running_requests", "1");
    let t = Target { ceiling: Some(262_144), is_moe: true, ..Default::default() };
    let plan = build(&t, &machine(), Some(&measured_hybrid_linear()), None, &serve);
    assert!(!plan.edits().iter().any(|(k, _)| *k == "max_running_requests"));
}

#[test]
fn a_pool_the_formula_cannot_reproduce_is_reported_not_resized() {
    // A build that sizes the state pool some other way must not be second-guessed.
    let c = Costs { mamba_slots: 77, ..measured_hybrid_linear() };
    let t = Target { ceiling: Some(262_144), is_moe: true, ..Default::default() };
    let plan = build(&t, &machine(), Some(&c), None, &ServeConfig::new());
    assert!(!plan.edits().iter().any(|(k, _)| *k == "max_running_requests"));
    assert!(plan.steps.iter().any(|s| s.reason.contains("sizes it differently")));
}

#[test]
fn a_host_with_no_room_left_is_warned_about() {
    let plan = build(
        &target(),
        &cramped_machine(),
        Some(&measured_hybrid_linear()),
        None,
        &ServeConfig::new(),
    );
    let warn = plan
        .steps
        .iter()
        .find(|s| s.reason.contains("host RAM is nearly spoken for"))
        .expect("thin host RAM should be called out");
    assert_eq!(warn.level, Level::Warning);
    assert!(warn.reason.contains("hybrid"), "it should say what this rules out");
    assert!(warn.set.is_none(), "there is no flag that makes RAM appear");
}

#[test]
fn a_benched_hybrid_verdict_yields_to_a_host_with_no_headroom() {
    let mut bench = BenchProfile::default();
    bench.dtypes.insert("nvfp4", Some("hybrid".into()));
    let plan = build(
        &target(),
        &cramped_machine(),
        Some(&measured_hybrid_linear()),
        Some(&bench),
        &ServeConfig::new(),
    );
    assert!(
        !plan.edits().iter().any(|(k, v)| *k == "moe_backend" && v == "hybrid"),
        "hybrid must not be recommended into a host that cannot feed it"
    );
    assert!(plan.steps.iter().any(|s| s.reason.contains("stays on offload")));
}

#[test]
fn a_benched_hybrid_verdict_stands_when_the_host_has_room() {
    let mut bench = BenchProfile::default();
    bench.dtypes.insert("nvfp4", Some("hybrid".into()));
    let plan = build(
        &target(),
        &machine(),
        Some(&measured_hybrid_linear()),
        Some(&bench),
        &ServeConfig::new(),
    );
    assert!(plan.edits().iter().any(|(k, v)| *k == "moe_backend" && v == "hybrid"));
}

#[test]
fn a_roomy_host_is_not_warned_about() {
    let plan = build(
        &target(),
        &machine(),
        Some(&measured_hybrid_linear()),
        None,
        &ServeConfig::new(),
    );
    assert!(!plan.steps.iter().any(|s| s.reason.contains("host RAM is nearly")));
}

#[test]
fn banks_that_dominate_host_ram_are_noted_even_with_headroom() {
    let m = Machine { host_ram_total: 32 << 30, host_ram_available: 12 << 30, ..machine() };
    let plan = build(&target(), &m, Some(&measured_hybrid_linear()), None, &ServeConfig::new());
    assert!(plan.steps.iter().any(|s| s.reason.contains("expert-load")));
}

#[test]
fn a_host_of_unknown_size_produces_no_memory_advice() {
    let m = Machine { host_ram_total: 0, host_ram_available: 0, ..machine() };
    let plan = build(&target(), &m, Some(&measured_hybrid_linear()), None, &ServeConfig::new());
    assert!(!plan.steps.iter().any(|s| s.reason.contains("host RAM")));
}

fn target() -> Target {
    Target {
        name: "Qwen3.6-35B".into(),
        ceiling: Some(262_144),
        is_moe: true,
        quant: Some("nvfp4".into()),
    }
}

fn machine() -> Machine {
    Machine {
        gpu_name: Some("NVIDIA GeForce RTX 5090".into()),
        host_ram_total: 128 << 30,
        host_ram_available: 96 << 30,
        physical_cores: 24,
        pcie_link: Some("gen5 x16".into()),
    }
}

/// The server this was all diagnosed on: 40 GiB of RAM with ~2 GiB left after the
/// pinned expert banks.
fn cramped_machine() -> Machine {
    Machine {
        host_ram_total: 40 << 30,
        host_ram_available: 2 << 30,
        physical_cores: 8,
        ..machine()
    }
}

#[test]
fn the_plan_raises_the_kv_reserve_to_the_models_ceiling() {
    // A budget roomy enough to hold the full context.
    let costs = Costs { cache_budget_bytes: 24 << 30, ..moe_costs() };
    let plan = build(&target(), &machine(), Some(&costs), None, &ServeConfig::new());
    let edits = plan.edits();
    assert_eq!(
        edits.iter().find(|(k, _)| *k == "kv_reserve_tokens").map(|(_, v)| v.as_str()),
        Some("262144"),
    );
    assert_eq!(plan.fit.unwrap().usable, 262_144);
    assert!(!plan.fit.unwrap().is_truncated());
}

#[test]
fn a_card_that_cannot_reach_the_ceiling_says_so_and_plans_for_what_it_can() {
    // 2 GiB of budget: even at the expert floor there is nowhere near 256k of KV.
    let costs = Costs { cache_budget_bytes: 2 << 30, ..moe_costs() };
    let plan = build(&target(), &machine(), Some(&costs), None, &ServeConfig::new());
    let fit = plan.fit.unwrap();
    assert!(fit.is_truncated(), "the ceiling is out of reach");
    assert_eq!(fit.usable, costs.max_context(false));
    assert!(plan
        .steps
        .iter()
        .any(|s| s.level == Level::Warning && s.reason.contains("cannot hold")));
    // It still plans for the best reachable context rather than giving up.
    assert!(plan.edits().iter().any(|(k, _)| *k == "kv_reserve_tokens"));
}

#[test]
fn the_prefill_overlap_is_given_up_when_that_is_what_buys_the_full_context() {
    // Sized so the ceiling fits at the one-layer floor but not at the doubled one.
    let c = moe_costs();
    let need = 262_144 * c.kv_bytes_per_token;
    let costs = Costs {
        cache_budget_bytes: need + 3 * c.experts_per_layer / 2 * c.moe_bytes_per_expert,
        ..c
    };
    assert!(costs.max_context(true) < 262_144 && costs.max_context(false) >= 262_144);

    let plan = build(&target(), &machine(), Some(&costs), None, &ServeConfig::new());
    assert_eq!(
        plan.edits()
            .iter()
            .find(|(k, _)| *k == "disable_moe_prefill_overlap")
            .map(|(_, v)| v.as_str()),
        Some("true"),
    );
    assert!(!plan.fit.unwrap().is_truncated(), "and the full context is then reached");
}

#[test]
fn the_overlap_is_kept_when_the_context_already_fits_around_it() {
    // Roomy enough to reach the ceiling with the overlap on: prefill speed is free
    // here, so the plan must not spend it.
    let costs = Costs { cache_budget_bytes: 24 << 30, ..moe_costs() };
    assert!(costs.max_context(true) >= 262_144);
    let plan = build(&target(), &machine(), Some(&costs), None, &ServeConfig::new());
    assert!(!plan.edits().iter().any(|(k, _)| *k == "disable_moe_prefill_overlap"));
}

#[test]
fn a_model_that_cannot_seat_its_expert_floor_is_called_unservable() {
    // The floor alone eats the entire budget: no KV pool is possible at any setting.
    let costs = Costs { cache_budget_bytes: 1 << 30, ..moe_costs() };
    let plan = build(&target(), &machine(), Some(&costs), None, &ServeConfig::new());
    assert_eq!(plan.fit.unwrap().usable, 0);
    assert!(plan
        .steps
        .iter()
        .any(|s| s.level == Level::Warning && s.reason.contains("does not fit on this GPU")));
    assert!(
        !plan.edits().iter().any(|(k, _)| *k == "kv_reserve_tokens"),
        "there is no reserve that rescues a budget this small"
    );
}

#[test]
fn without_measured_costs_the_memory_half_is_skipped_not_guessed() {
    let plan = build(&target(), &machine(), None, None, &ServeConfig::new());
    assert!(plan.unpriced.is_some());
    assert!(plan.fit.is_none());
    assert!(
        !plan.edits().iter().any(|(k, _)| *k == "kv_reserve_tokens"),
        "a cache split must never be invented"
    );
}

#[test]
fn a_missing_bench_profile_is_reported_as_the_speed_it_costs() {
    let plan = build(&target(), &machine(), Some(&moe_costs()), None, &ServeConfig::new());
    let note = plan
        .steps
        .iter()
        .find(|s| s.reason.contains("ft bench bw"))
        .expect("the missing profile should be called out");
    assert_eq!(note.level, Level::Warning);
    assert!(note.set.is_none(), "running a benchmark is a job, not a flag");
    assert!(note.reason.contains("gen5 x16"), "the link it would be measured against");
}

#[test]
fn a_bench_verdict_becomes_the_backend_recommendation() {
    let mut bench = BenchProfile::default();
    bench.gpu.name = Some("NVIDIA GeForce RTX 5090".into());
    bench.dtypes.insert("nvfp4", Some("hybrid".into()));

    let plan =
        build(&target(), &machine(), Some(&moe_costs()), Some(&bench), &ServeConfig::new());
    assert_eq!(
        plan.edits().iter().find(|(k, _)| *k == "moe_backend").map(|(_, v)| v.as_str()),
        Some("hybrid"),
    );
}

#[test]
fn a_backend_already_matching_the_verdict_is_not_re_recommended() {
    let mut bench = BenchProfile::default();
    bench.dtypes.insert("nvfp4", Some("hybrid".into()));
    let mut serve = ServeConfig::new();
    serve.set("moe_backend", "hybrid");

    let plan = build(&target(), &machine(), Some(&moe_costs()), Some(&bench), &serve);
    assert!(!plan.edits().iter().any(|(k, _)| *k == "moe_backend"));
    assert!(plan.steps.iter().any(|s| s.reason.contains("already hybrid")));
}

#[test]
fn experts_that_all_fit_in_vram_earn_the_fused_backend_auto_refuses_to_pick() {
    // A small MoE on a big card: every expert resident, and room for full context.
    let costs = Costs {
        cache_budget_bytes: 24 << 30,
        total_experts: 512,
        experts_per_layer: 64,
        moe_bytes_per_expert: 4 << 20, // 2 GiB of experts in total
        ..moe_costs()
    };
    let plan = build(&target(), &machine(), Some(&costs), None, &ServeConfig::new());
    assert_eq!(
        plan.edits().iter().find(|(k, _)| *k == "moe_backend").map(|(_, v)| v.as_str()),
        Some("fused"),
    );
}

#[test]
fn a_dense_model_gets_no_backend_advice_at_all() {
    let t = Target { is_moe: false, ..target() };
    let costs = Costs { moe_bytes_per_expert: 0, total_experts: 0, ..moe_costs() };
    let plan = build(&t, &machine(), Some(&costs), None, &ServeConfig::new());
    assert!(!plan.edits().iter().any(|(k, _)| *k == "moe_backend"));
    assert!(!plan.steps.iter().any(|s| s.reason.contains("bench bw")));
}

#[test]
fn raising_concurrency_pulls_the_cuda_graph_capture_up_with_it() {
    let mut serve = ServeConfig::new();
    serve.set("max_running_requests", "16");
    let plan = build(&target(), &machine(), Some(&moe_costs()), None, &serve);
    assert_eq!(
        plan.edits().iter().find(|(k, _)| *k == "cuda_graph_max_bs").map(|(_, v)| v.as_str()),
        Some("16"),
    );
}

#[test]
fn a_capture_size_already_covering_concurrency_is_left_alone() {
    let mut serve = ServeConfig::new();
    serve.set("max_running_requests", "4");
    serve.set("cuda_graph_max_bs", "8");
    let plan = build(&target(), &machine(), Some(&moe_costs()), None, &serve);
    assert!(!plan.edits().iter().any(|(k, _)| *k == "cuda_graph_max_bs"));
}

#[test]
fn oversubscribed_cpu_moe_threads_are_pulled_back_to_one_per_core() {
    let mut serve = ServeConfig::new();
    serve.set("moe_cpu_threads", "64");
    let plan = build(&target(), &machine(), Some(&moe_costs()), None, &serve);
    assert_eq!(
        plan.edits().iter().find(|(k, _)| *k == "moe_cpu_threads").map(|(_, v)| v.as_str()),
        Some("0"),
    );
}

#[test]
fn applying_a_plan_reports_only_what_actually_changed() {
    let costs = Costs { cache_budget_bytes: 24 << 30, ..moe_costs() };
    let plan = build(&target(), &machine(), Some(&costs), None, &ServeConfig::new());
    let mut serve = ServeConfig::new();
    let first = plan.apply(&mut serve);
    assert!(first > 0);
    assert_eq!(plan.apply(&mut serve), 0, "re-applying the same plan changes nothing");
    assert_eq!(serve.get("kv_reserve_tokens"), Some("262144"));
}

#[test]
fn a_step_reads_as_the_flag_it_would_set() {
    let s = Step::set(Level::Advice, "kv_reserve_tokens", "262144".into(), "because".into());
    assert_eq!(s.label(), "--kv-reserve-tokens 262144");
    let flag = Step::set(Level::Advice, "moe_cache_auto", "true".into(), "because".into());
    assert_eq!(flag.label(), "--moe-cache-auto", "a switch is a bare flag");
}

#[test]
fn bench_format_keys_match_freetokens_own_mapping() {
    assert_eq!(bench_format(Some("nvfp4")), "nvfp4");
    assert_eq!(bench_format(Some("mxfp4")), "mxfp4_triton");
    assert_eq!(bench_format(Some("none")), "bf16");
    assert_eq!(bench_format(None), "bf16");
}

#[test]
fn a_measured_geometry_becomes_costs_and_a_loading_one_does_not() {
    let geo = CacheGeometry {
        num_pages: 262_230,
        page_size: 1,
        num_experts: 256,
        num_moe_layers: 40,
        num_mamba_slots: 24,
        cache_budget_bytes: 10_215_371_571,
        unit_bytes: UnitBytes {
            kv_per_token: 20_480,
            moe_per_expert: 1_775_616,
            mamba_per_slot: 64_389_120,
            swa_per_token: 0,
        },
        ..Default::default()
    };
    assert_eq!(Costs::from_geometry(&geo), Some(measured_hybrid_linear()));
    assert_eq!(Costs::from_geometry(&CacheGeometry::default()), None);
    let fit = ContextFit::measure(&geo, 262_144).unwrap();
    assert_eq!(fit.usable, 262_230);
    assert!(!fit.is_truncated());
    assert!(ContextFit::measure(&CacheGeometry::default(), 262_144).is_none());
}

#[test]
fn costs_are_remembered_and_the_same_ones_are_no_news() {
    let mut store = CostStore::new();
    assert!(store.observe("m", moe_costs()));
    assert!(!store.observe("m", moe_costs()));
    assert_eq!(store.get("m"), Some(&moe_costs()));
    assert!(store.observe("m", measured_hybrid_linear()));
    assert_eq!(store.get("m"), Some(&measured_hybrid_linear()));
    assert_eq!(store.get("other"), None);
    assert_eq!(CostStore::path("/state"), "/state/costs.json");
}

#[test]
fn a_bench_profile_is_looked_up_by_card_then_by_age_then_by_its_old_name() {
    let files = vec![
        (5, "GPU-b.json".to_string()),
        (9, "GPU-c.json".to_string()),
        (11, "notes.txt".to_string()),
        (9, "GPU-d.json".to_string()),
    ];
    let none: Vec<(u64, String)> = Vec::new();
    assert_eq!(
        bench_profile_status(Some("/c"), Some("GPU-a"), true, &files, true).as_deref(),
        Some("/c/freetoken/benchbw/GPU-a.json")
    );
    assert_eq!(
        bench_profile_status(Some("/c"), Some("GPU-a"), false, &files, true).as_deref(),
        Some("/c/freetoken/benchbw/GPU-d.json"),
        "the newest, and the last of equals"
    );
    assert_eq!(
        bench_profile_status(Some("/c"), Some(""), true, &none, true).as_deref(),
        Some("/c/freetoken/benchbw.json"),
        "a card without an identity has no file of its own"
    );
    assert_eq!(bench_profile_status(Some("/c"), None, false, &none, false), None);
    assert_eq!(bench_profile_status(None, Some("GPU-a"), true, &files, true), None);
}

#[test]
fn a_format_is_keyed_in_lower_case() {
    assert_eq!(bench_format(Some("MXFP4")), "mxfp4_triton");
    assert_eq!(bench_key("mxfp4"), "mxfp4_triton");
    assert_eq!(bench_key(""), "bf16");
    assert_eq!(bench_key("MXFP4"), "MXFP4");
}

/// The edits stand as the schema does, not as the steps that brought them.
#[test]
fn edits_stand_in_schema_order() {
    let step = |key: &'static str, value: &str| Step {
        level: Level::Advice,
        set: Some((key, value.to_string())),
        reason: String::new(),
    };
    let plan = paddock::plan::Plan {
        steps: vec![
            step("disable_moe_prefill_overlap", "true"),
            step("moe_backend", "hybrid"),
            step("kv_reserve_tokens", "65536"),
            step("max_running_requests", "1"),
        ],
        fit: None,
        unpriced: None,
    };
    let keys: Vec<&str> = plan.edits().iter().map(|(k, _)| *k).collect();
    assert_eq!(
        keys,
        vec![
            "max_running_requests",
            "kv_reserve_tokens",
            "disable_moe_prefill_overlap",
            "moe_backend",
        ]
    );
    let mut serve = ServeConfig::new();
    assert_eq!(plan.apply(&mut serve), 4);
    assert_eq!(plan.apply(&mut serve), 0);
}

/// Clearing what is not set is no change.
#[test]
fn only_knobs_that_change_are_counted() {
    let step = |key: &'static str, value: &str| Step {
        level: Level::Advice,
        set: Some((key, value.to_string())),
        reason: String::new(),
    };
    let plan = paddock::plan::Plan {
        steps: vec![step("cuda_graph_max_bs", ""), step("page_size", "16")],
        fit: None,
        unpriced: None,
    };
    let mut serve = ServeConfig::new();
    assert_eq!(plan.apply(&mut serve), 1);
    serve.set("cuda_graph_max_bs", "4");
    assert_eq!(plan.apply(&mut serve), 1);
    assert!(!serve.is_set("cuda_graph_max_bs"));
    assert_eq!(plan.apply(&mut serve), 0);
}

#[test]
fn a_planned_reserve_starts_and_holds_its_context() {
    for costs in [moe_costs(), measured_hybrid_linear()] {
        let mut serve = ServeConfig::new();
        let plan = build(&target(), &machine(), Some(&costs), None, &serve);
        let want = plan.fit.as_ref().unwrap().usable;
        assert!(want > costs.page_size);
        plan.apply(&mut serve);
        let overlap = !serve.flag("disable_moe_prefill_overlap");
        let started = plan_cache_budget(&costs, want, overlap).unwrap();
        assert!(started.usable_tokens(costs.page_size) >= want);
        let reserve: u64 = serve.get("kv_reserve_tokens").unwrap().parse().unwrap();
        assert_eq!(reserve, want);
    }
}

#[test]
fn costs_without_a_price_are_no_matter_where_no_context_is_declared() {
    let mut t = target();
    t.ceiling = None;
    let plan = build(&t, &machine(), Some(&Costs::default()), None, &ServeConfig::new());
    assert_eq!(
        plan.unpriced.as_deref(),
        Some("the checkpoint does not declare a context length")
    );
    assert!(plan.fit.is_none());
}

#[test]
fn the_share_of_host_ram_is_a_share_of_doubles() {
    let costs = Costs { moe_bytes_per_expert: 1 << 30, total_experts: 115, ..moe_costs() };
    let mut m = machine();
    m.host_ram_total = 200 << 30;
    m.host_ram_available = 200 << 30;
    let plan = build(&target(), &m, Some(&costs), None, &ServeConfig::new());
    assert!(plan.steps.iter().any(|s| s.reason.contains("(57%)")));
    m.host_ram_total = 230 << 30;
    let plan = build(&target(), &m, Some(&costs), None, &ServeConfig::new());
    assert!(!plan.steps.iter().any(|s| s.reason.contains("pinned expert banks")));
}
