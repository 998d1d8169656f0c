use paddock::compat::{
    evaluate, evaluate_with, judge_experts, kv_budget, kv_geometry, read_config, resolves,
    Hardware, KvFloor, KvGeometry, KvRow, Level, Verdict,
};
use paddock::json::Json;
use paddock::knobs::knob;
use paddock::plan::DEFAULT_KV_RESERVE_TOKENS;

fn json(text: &str) -> Json {
    read_config(text).unwrap()
}

/// An object with one more entry.
fn with(object: Json, key: &str, value: Json) -> Json {
    match object {
        Json::Object(mut entries) => {
            entries.push((key.to_string(), value));
            entries.sort_by(|a, b| a.0.cmp(&b.0));
            Json::Object(entries)
        }
        _ => panic!("not an object"),
    }
}

fn archs() -> Vec<String> {
    ["Qwen3MoeForCausalLM", "Qwen3_5MoeForConditionalGeneration", "LlamaForCausalLM"]
        .iter()
        .map(|s| s.to_string())
        .collect()
}

fn roomy() -> Hardware {
    Hardware { vram_bytes: 16 << 30, host_ram_bytes: 40 << 30, free_disk_bytes: 500 << 30 }
}

#[test]
fn a_plain_supported_moe_is_reported_supported() {
    let cfg = json(r#"{
        "architectures": ["Qwen3MoeForCausalLM"],
        "model_type": "qwen3_moe",
        "num_experts": 128,
        "num_hidden_layers": 48,
        "max_position_embeddings": 262144,
        "quantization_config": {"quant_algo": "NVFP4"}
    }"#);
    let r = evaluate(&cfg, 20 << 30, Some(&archs()), roomy(), None);
    assert_eq!(r.verdict(), Verdict::Supported, "{:?}", r.notes);
    assert!(r.is_moe);
    assert_eq!(r.num_experts, Some(128));
    assert!(r.summary().contains("MoE x128"));
}

#[test]
fn an_unregistered_architecture_is_a_blocker() {
    let cfg = json(r#"{"architectures": ["SomeNewThingForCausalLM"], "model_type": "x"}"#);
    let r = evaluate(&cfg, 0, Some(&archs()), roomy(), None);
    assert_eq!(r.verdict(), Verdict::Unsupported);
    assert!(r.notes[0].1.contains("not in FreeToken's model registry"));
}

/// An llm-compressor (compressed-tensors) NVFP4 MoE export: the dialect is read natively, so
/// flagging it would steer someone away from a checkpoint that serves.
#[test]
fn an_llm_compressor_moe_export_is_served_natively() {
    let cfg = json(r#"{
        "architectures": ["Qwen3_5MoeForConditionalGeneration"],
        "model_type": "qwen3_5_moe",
        "quantization_config": {
            "quant_method": "compressed-tensors",
            "format": "nvfp4-pack-quantized"
        },
        "text_config": {
            "num_experts": 256,
            "num_hidden_layers": 40,
            "max_position_embeddings": 262144
        }
    }"#);
    let r = evaluate(&cfg, 23 << 30, Some(&archs()), roomy(), None);
    assert_eq!(r.verdict(), Verdict::Supported, "{:?}", r.notes);
    assert!(!r.notes.iter().any(|(_, m)| m.contains("model registry")));
    // Fields still resolve through text_config.
    assert_eq!(r.num_experts, Some(256));
    assert_eq!(r.num_layers, Some(40));
}

/// The dialect is read per module, not per family, so a compressed-tensors export is
/// unflagged on every architecture.
#[test]
fn compressed_tensors_is_not_flagged_on_any_family() {
    let cfg = json(r#"{
        "architectures": ["Glm5NextForConditionalGeneration"],
        "quantization_config": {"quant_method": "compressed-tensors", "format": "nvfp4-pack-quantized"},
        "text_config": {"num_experts": 160}
    }"#);
    let mut known = archs();
    known.push("Glm5NextForConditionalGeneration".into());
    let r = evaluate(&cfg, 20 << 30, Some(&known), roomy(), None);
    assert_eq!(r.verdict(), Verdict::Supported, "{:?}", r.notes);
}

/// A modelopt MIXED_PRECISION export is fine when its per-layer map covers the experts.
#[test]
fn a_mixed_precision_export_is_judged_by_its_quantized_layers_map() {
    let covered = json(r#"{
        "architectures": ["Qwen3_5MoeForConditionalGeneration"],
        "quantization_config": {
            "quant_algo": "MIXED_PRECISION",
            "quantized_layers": {
                "model.layers.0.mlp.experts": {"quant_algo": "W4A16_NVFP4"},
                "lm_head": {"quant_algo": "W4A16_NVFP4"}
            }
        },
        "text_config": {"num_experts": 256}
    }"#);
    let r = evaluate(&covered, 20 << 30, Some(&archs()), roomy(), None);
    assert_eq!(r.verdict(), Verdict::Supported, "{:?}", r.notes);

    // The same export with nothing covering the experts cannot resolve them.
    let bare = json(r#"{
        "architectures": ["Qwen3_5MoeForConditionalGeneration"],
        "quantization_config": {
            "quant_algo": "MIXED_PRECISION",
            "quantized_layers": {"lm_head": {"quant_algo": "W4A16_NVFP4"}}
        },
        "text_config": {"num_experts": 256}
    }"#);
    let r = evaluate(&bare, 20 << 30, Some(&archs()), roomy(), None);
    assert_eq!(r.verdict(), Verdict::Caution, "{:?}", r.notes);
    assert!(r.notes[0].1.contains("quantized_layers"), "{:?}", r.notes);
}

/// A plain modelopt NVFP4 export names fp4 outright and needs no map.
#[test]
fn a_plain_modelopt_nvfp4_export_is_supported() {
    let cfg = json(r#"{
        "architectures": ["Qwen3_5MoeForConditionalGeneration"],
        "quantization_config": {"quant_algo": "NVFP4"},
        "text_config": {"num_experts": 256}
    }"#);
    let r = evaluate(&cfg, 20 << 30, Some(&archs()), roomy(), None);
    assert_eq!(r.verdict(), Verdict::Supported, "{:?}", r.notes);
}

/// An unquantized MoE has no expert quantization to resolve, so nothing to flag.
#[test]
fn an_unquantized_moe_is_not_flagged() {
    let cfg = json(r#"{
        "architectures": ["Qwen3MoeForCausalLM"],
        "num_experts": 128
    }"#);
    let r = evaluate(&cfg, 20 << 30, Some(&archs()), roomy(), None);
    assert_eq!(r.verdict(), Verdict::Supported, "{:?}", r.notes);
}

#[test]
fn a_dense_model_larger_than_vram_is_a_blocker_but_an_moe_is_not() {
    let dense = json(r#"{"architectures": ["LlamaForCausalLM"], "num_hidden_layers": 80}"#);
    let r = evaluate(&dense, 40 << 30, Some(&archs()), roomy(), None);
    assert_eq!(r.verdict(), Verdict::Unsupported);
    assert!(r.notes[0].1.contains("served resident"));

    let moe = json(r#"{"architectures": ["Qwen3MoeForCausalLM"], "num_experts": 128}"#);
    let r = evaluate(&moe, 40 << 30, Some(&archs()), roomy(), None);
    // Too big for VRAM is normal for MoE — that is what offload is for.
    assert_ne!(r.verdict(), Verdict::Unsupported);
    assert!(r
        .notes
        .iter()
        .any(|(l, m)| *l == Level::Info && m.contains("offload MoE backend")));
}

#[test]
fn disk_and_ram_limits_are_reported_at_the_right_severity() {
    let cfg = json(r#"{"architectures": ["Qwen3MoeForCausalLM"], "num_experts": 128}"#);
    let tight =
        Hardware { vram_bytes: 16 << 30, host_ram_bytes: 40 << 30, free_disk_bytes: 30 << 30 };
    // Fits on disk, but not twice — conversion would not have room.
    let r = evaluate(&cfg, 20 << 30, Some(&archs()), tight, None);
    assert_eq!(r.verdict(), Verdict::Caution);
    assert!(r.notes.iter().any(|(_, m)| m.contains("second copy")));

    // Does not fit at all.
    let r = evaluate(&cfg, 60 << 30, Some(&archs()), tight, None);
    assert_eq!(r.verdict(), Verdict::Unsupported);
    assert!(r.notes.iter().any(|(_, m)| m.contains("only")));

    // Bigger than host RAM: the expert banks have nowhere to live.
    let r = evaluate(&cfg, 50 << 30, Some(&archs()), roomy(), None);
    assert!(r.notes.iter().any(|(_, m)| m.contains("host RAM")));
}

#[test]
fn an_unavailable_registry_is_admitted_not_guessed() {
    let cfg = json(r#"{"architectures": ["Whatever"], "num_experts": 4}"#);
    let r = evaluate(&cfg, 0, None, roomy(), None);
    assert_eq!(r.verdict(), Verdict::Caution);
    assert!(r.notes.iter().any(|(_, m)| m.contains("unverified")));
}

#[test]
fn a_config_with_no_architecture_cannot_be_dispatched() {
    let r = evaluate(&json(r#"{"model_type": "mystery"}"#), 0, Some(&archs()), roomy(), None);
    assert_eq!(r.verdict(), Verdict::Unsupported);
    assert!(r.notes[0].1.contains("no architecture"));
}

#[test]
fn notes_are_ordered_most_severe_first() {
    let cfg = json(r#"{"architectures": ["Nope"], "num_experts": 8}"#);
    let r = evaluate(
        &cfg,
        60 << 30,
        Some(&archs()),
        Hardware { vram_bytes: 16 << 30, host_ram_bytes: 8 << 30, free_disk_bytes: 10 << 30 },
        None,
    );
    let levels: Vec<Level> = r.notes.iter().map(|(l, _)| *l).collect();
    let mut sorted = levels.clone();
    sorted.sort_by(|a, b| b.cmp(a));
    assert_eq!(levels, sorted, "the blocker must be the first thing read");
}

/// Expand a run-length layer plan into the `layer_types` array a config carries.
fn layer_types(plan: &[(&str, u64)]) -> String {
    let mut out = Vec::new();
    for (kind, n) in plan {
        for _ in 0..*n {
            out.push(format!("\"{kind}\""));
        }
    }
    format!("[{}]", out.join(", "))
}

fn kib(n: u64) -> u64 {
    n * 1024
}

/// Every row is the `config.json` of a real repo, reduced to the fields that price a cache.
/// They are a table because the point they make is comparative: these eight checkpoints are
/// all within a factor of two on parameter count and span more than a factor of twelve on
/// cache cost.
#[test]
fn the_fixture_checkpoints_price_as_measured() {
    // repo, config, layers, growing, windowed, flat, bytes/token
    let cases: Vec<(&str, Json, u64, u64, u64, u64, u64)> = vec![
        (
            "Qwen/Qwen3.6-35B-A3B",
            json(&r#"{"text_config": {
                "num_hidden_layers": 40, "num_attention_heads": 16,
                "num_key_value_heads": 2, "head_dim": 256, "hidden_size": 2048,
                "max_position_embeddings": 262144,
                "layer_types": LAYERS
            }}"#.replace("LAYERS", &layer_types(&[("linear_attention", 30), ("full_attention", 10)]))),
            40,
            10,
            0,
            30,
            kib(20),
        ),
        (
            // MLA: one compressed latent for the layer, not one row per head. Its
            // `head_dim` is 0 and its `qk_rope_head_dim` absent, both of which the
            // latent path has to step over rather than divide by.
            "RedHatAI/GLM-5.3-Flash-NVFP4",
            json(&r#"{"text_config": {
                "num_hidden_layers": 45, "num_attention_heads": 64,
                "num_key_value_heads": 64, "head_dim": 0, "hidden_size": 4096,
                "max_position_embeddings": 1048576, "kv_lora_rank": 512,
                "qk_rope_head_dim": 0,
                "layer_types": LAYERS
            }}"#.replace("LAYERS", &layer_types(&[("linear_attention", 34), ("deepseek_sparse_attention", 11)]))),
            45,
            11,
            0,
            34,
            kib(11),
        ),
        (
            "meta-models/Muse-Glimmer-30B",
            json(&r#"{"text_config": {
                "num_hidden_layers": 52, "num_attention_heads": 32,
                "num_key_value_heads": 2, "head_dim": 128, "hidden_size": 6656,
                "max_position_embeddings": 131072, "sliding_window": 2048,
                "layer_types": LAYERS
            }}"#.replace("LAYERS", &layer_types(&[("sliding_attention", 39), ("full_attention", 13)]))),
            52,
            13,
            39,
            0,
            kib(13),
        ),
        (
            "google/gemma-4-26B-A4B-it",
            json(&r#"{"text_config": {
                "num_hidden_layers": 30, "num_attention_heads": 16,
                "num_key_value_heads": 8, "head_dim": 256, "hidden_size": 2816,
                "max_position_embeddings": 262144, "sliding_window": 1024,
                "layer_types": LAYERS
            }}"#.replace("LAYERS", &layer_types(&[("sliding_attention", 25), ("full_attention", 5)]))),
            30,
            5,
            25,
            0,
            kib(40),
        ),
        (
            // Not wrapped in a `text_config`, and interleaved one for one.
            "openai/gpt-oss-120b",
            json(&r#"{
                "num_hidden_layers": 36, "num_attention_heads": 64,
                "num_key_value_heads": 8, "head_dim": 64, "hidden_size": 2880,
                "max_position_embeddings": 131072, "sliding_window": 128,
                "layer_types": LAYERS
            }"#.replace("LAYERS", &layer_types(&[("sliding_attention", 18), ("full_attention", 18)]))),
            36,
            18,
            18,
            0,
            kib(36),
        ),
        (
            "Qwen/Qwen3.8-27B",
            json(&r#"{"text_config": {
                "num_hidden_layers": 64, "num_attention_heads": 24,
                "num_key_value_heads": 4, "head_dim": 256, "hidden_size": 5120,
                "max_position_embeddings": 262144,
                "layer_types": LAYERS
            }}"#.replace("LAYERS", &layer_types(&[("linear_attention", 48), ("full_attention", 16)]))),
            64,
            16,
            0,
            48,
            kib(64),
        ),
        (
            // No `layer_types` at all, and a
            // `sliding_window` its own config switches off, so every one of its 48
            // layers caches and nothing caps any of them.
            "IFM/K2-Horizon-MoVA-36B-A4B",
            json(r#"{
                "num_hidden_layers": 48, "num_attention_heads": 32,
                "num_key_value_heads": 8, "head_dim": 128, "hidden_size": 2560,
                "max_position_embeddings": 524288, "use_sliding_window": false
            }"#),
            48,
            48,
            0,
            0,
            kib(192),
        ),
        (
            "nvidia/MiniMax-M2.5-NVFP4",
            json(r#"{
                "num_hidden_layers": 62, "num_attention_heads": 48,
                "num_key_value_heads": 8, "head_dim": 128, "hidden_size": 3072,
                "max_position_embeddings": 196608
            }"#),
            62,
            62,
            0,
            0,
            kib(248),
        ),
    ];

    for (repo, cfg, layers, growing, windowed, flat, per_token) in cases {
        let kv = kv_geometry(&cfg).unwrap_or_else(|| panic!("{repo} should price"));
        assert_eq!(kv.layers, layers, "{repo} layers");
        assert_eq!(kv.growing_layers, growing, "{repo} growing");
        assert_eq!(kv.windowed_layers, windowed, "{repo} windowed");
        assert_eq!(kv.flat_layers, flat, "{repo} flat");
        assert_eq!(kv.bytes_per_token, per_token, "{repo} bytes/token");
        assert_eq!(
            kv.growing_layers + kv.windowed_layers + kv.flat_layers,
            layers,
            "{repo}: every layer has to be accounted for somewhere"
        );
    }
}

/// The headline of the whole feature: parameter count says nothing about cache cost.
/// Both of these are 35B-class MoE checkpoints that offload their weights the same
/// way, and one caches nearly ten times cheaper than the other.
#[test]
fn two_checkpoints_of_the_same_class_differ_tenfold_in_cache_cost() {
    let hybrid = kv_geometry(&json(&r#"{"text_config": {
        "num_hidden_layers": 40, "num_attention_heads": 16, "num_key_value_heads": 2,
        "head_dim": 256, "hidden_size": 2048,
        "layer_types": LAYERS
    }}"#.replace("LAYERS", &layer_types(&[("linear_attention", 30), ("full_attention", 10)]))))
    .unwrap();
    let full = kv_geometry(&json(r#"{
        "num_hidden_layers": 48, "num_attention_heads": 32, "num_key_value_heads": 8,
        "head_dim": 128, "hidden_size": 2560
    }"#))
    .unwrap();

    assert_eq!(hybrid.bytes_per_token, kib(20));
    assert_eq!(full.bytes_per_token, kib(192));
    // 5 GiB against 48 GiB at the same context, on checkpoints of the same size.
    assert_eq!(hybrid.bytes_for_context(262_144), 5 << 30);
    assert_eq!(full.bytes_for_context(262_144), 48 << 30);
}

/// A sliding layer costs rows until its window is full and a constant after, so the
/// total is piecewise and the seam is where an off-by-one would hide.
#[test]
fn a_sliding_window_stops_costing_once_it_is_full() {
    let kv = kv_geometry(&json(&r#"{
        "num_hidden_layers": 4, "num_attention_heads": 8, "num_key_value_heads": 8,
        "head_dim": 64, "sliding_window": 1024,
        "layer_types": LAYERS
    }"#.replace("LAYERS", &layer_types(&[("sliding_attention", 2), ("full_attention", 2)]))))
    .unwrap();
    // 2 x 8 heads x 64 x 2 bytes = 2 KiB a row.
    assert_eq!(kv.row_bytes, kib(2));
    assert_eq!(kv.bytes_per_token, kib(4), "only the two full layers grow");

    // Inside the window all four layers are still filling.
    assert_eq!(kv.bytes_for_context(512), kib(4) * 512 + kib(4) * 512);
    // At the window exactly, and for ever after, the sliding pair costs a constant.
    let capped = kib(4) * 1024;
    assert_eq!(kv.windowed_bytes(1024), capped);
    assert_eq!(kv.windowed_bytes(1_000_000), capped, "it forgets, it does not grow");
    assert_eq!(kv.bytes_for_context(4096), kib(4) * 4096 + capped);
}

/// `context_for_budget` inverts `bytes_for_context`, including across the window seam
/// where the two halves of the piecewise solution meet.
#[test]
fn the_context_a_budget_affords_inverts_what_a_context_costs() {
    let kv = kv_geometry(&json(&r#"{
        "num_hidden_layers": 4, "num_attention_heads": 8, "num_key_value_heads": 8,
        "head_dim": 64, "sliding_window": 1024,
        "layer_types": LAYERS
    }"#.replace("LAYERS", &layer_types(&[("sliding_attention", 2), ("full_attention", 2)]))))
    .unwrap();

    for budget in [1 << 20, 8 << 20, kib(4) * 1024 * 2, 64 << 20, 1 << 30] {
        let tokens = kv.context_for_budget(budget).expect("full layers bound it");
        assert!(
            kv.bytes_for_context(tokens) <= budget,
            "{tokens} tokens must fit in {budget} bytes"
        );
        assert!(
            kv.bytes_for_context(tokens + 1) > budget,
            "{tokens} must be the most that fits in {budget} bytes"
        );
    }
}

/// An all-linear checkpoint's cache does not grow with the conversation, so no budget
/// bounds its context and the honest answer is "not this".
#[test]
fn a_cache_that_does_not_grow_is_not_bounded_by_the_budget() {
    let kv = kv_geometry(&json(&r#"{
        "num_hidden_layers": 8, "num_attention_heads": 8, "num_key_value_heads": 8,
        "head_dim": 64,
        "layer_types": LAYERS
    }"#.replace("LAYERS", &layer_types(&[("linear_attention", 8)]))))
    .unwrap();
    assert_eq!(kv.bytes_per_token, 0);
    assert_eq!(kv.flat_layers, 8);
    assert_eq!(kv.context_for_budget(1 << 30), None);
}

/// Without `layer_types`, an active `sliding_window` is read Qwen2's way: the lowest
/// `max_window_layers` slide, the rest attend fully. Only those top layers grow, and
/// reading the field the other way round would report the cost of the whole model.
#[test]
fn the_older_sliding_window_fields_are_read_qwen2s_way() {
    let base = || {
        json(r#"{
        "num_hidden_layers": 32, "num_attention_heads": 8, "num_key_value_heads": 8,
        "head_dim": 64, "sliding_window": 4096
    }"#)
    };

    let partial = with(base(), "max_window_layers", Json::Unsigned(28));
    let kv = kv_geometry(&partial).unwrap();
    assert_eq!((kv.growing_layers, kv.windowed_layers), (4, 28));

    // No `max_window_layers` at all: the window covers the model.
    let kv = kv_geometry(&base()).unwrap();
    assert_eq!((kv.growing_layers, kv.windowed_layers), (0, 32));

    // And a window the config says it is not using is not a window.
    let off = with(base(), "use_sliding_window", Json::Bool(false));
    let kv = kv_geometry(&off).unwrap();
    assert_eq!((kv.growing_layers, kv.windowed_layers), (32, 0));
    assert_eq!(kv.window, None);
}

/// A layer kind this does not recognize is priced as the expensive case. Guessing low
/// tells a reader a model fits when it does not, which is the one failure mode here
/// that costs an hour and a download.
#[test]
fn an_unrecognized_layer_kind_is_priced_as_the_expensive_case() {
    let kv = kv_geometry(&json(&r#"{
        "num_hidden_layers": 4, "num_attention_heads": 8, "num_key_value_heads": 8,
        "head_dim": 64,
        "layer_types": LAYERS
    }"#.replace("LAYERS", &layer_types(&[("some_new_attention", 2), ("linear_attention", 2)]))))
    .unwrap();
    assert_eq!(kv.growing_layers, 2, "the unknown kind caches until proven otherwise");
    assert_eq!(kv.flat_layers, 2);

    // A sliding layer with no window to cap it is the same situation.
    let kv = kv_geometry(&json(&r#"{
        "num_hidden_layers": 2, "num_attention_heads": 8, "num_key_value_heads": 8,
        "head_dim": 64,
        "layer_types": LAYERS
    }"#.replace("LAYERS", &layer_types(&[("sliding_attention", 2)]))))
    .unwrap();
    assert_eq!((kv.growing_layers, kv.windowed_layers), (2, 0));
}

/// `head_dim` is optional and `num_key_value_heads` falls back to the query heads, but
/// a config with no attention shape at all cannot be priced and must say so rather
/// than report a number someone would decide against a download on.
#[test]
fn a_config_without_an_attention_shape_is_not_priced_at_all() {
    // head_dim derived from hidden_size, kv heads defaulted to the query heads: MHA.
    let kv = kv_geometry(&json(r#"{
        "num_hidden_layers": 2, "num_attention_heads": 32, "hidden_size": 4096
    }"#))
    .unwrap();
    assert_eq!(kv.row, KvRow::Grouped { kv_heads: 32, head_dim: 128 });
    assert_eq!(kv.bytes_per_token, 2 * (2 * 32 * 128 * 2));

    assert!(kv_geometry(&json(r#"{"num_hidden_layers": 48}"#)).is_none());
    assert!(kv_geometry(&json(r#"{"num_attention_heads": 32, "hidden_size": 4096}"#)).is_none());
    assert!(kv_geometry(&json(r#"{"num_hidden_layers": 0, "num_attention_heads": 8}"#)).is_none());
}

/// Weights that offload leave the cache as the bound: 48 of 48 layers caching at 192 KiB a
/// token is a number that never improves, and the finding is the share of the advertised
/// context that is left.
#[test]
fn a_model_whose_weights_offload_is_still_priced_by_its_cache() {
    let cfg = json(r#"{
        "architectures": ["K2HorizonForCausalLM"], "model_type": "k2_horizon",
        "num_experts": 128, "num_hidden_layers": 48, "num_attention_heads": 32,
        "num_key_value_heads": 8, "head_dim": 128, "hidden_size": 2560,
        "max_position_embeddings": 524288, "use_sliding_window": false
    }"#);
    let known = vec!["K2HorizonForCausalLM".to_string()];
    let card =
        Hardware { vram_bytes: 16 << 30, host_ram_bytes: 64 << 30, free_disk_bytes: 500 << 30 };

    let r = evaluate(&cfg, 20 << 30, Some(&known), card, None);
    assert_eq!(r.kv.as_ref().unwrap().bytes_per_token, kib(192));
    assert_eq!(r.verdict(), Verdict::Caution, "{:?}", r.notes);
    let note = &r.notes[0].1;
    assert!(note.contains("at most"), "it is a ceiling, not a plan: {note}");
    assert!(note.contains("of its advertised 512k"), "name the gap: {note}");
    assert!(note.contains("48 of 48 layers cache"), "and why it is there: {note}");
    // Nothing about the architecture: its support is not what bounds this.
    assert!(!r.notes.iter().any(|(_, m)| m.contains("registry")), "{:?}", r.notes);

    // A reader who serves 256k conversations is asking a different question of the
    // same card, and gets a different answer.
    let r = evaluate(&cfg, 20 << 30, Some(&known), card, Some(262_144));
    assert_eq!(r.verdict(), Verdict::Unsupported, "{:?}", r.notes);
    assert!(r.notes[0].1.contains("--kv-reserve-tokens asks for"), "{:?}", r.notes);

    // And on a card with room for it, the same checkpoint reads as supported.
    let big = Hardware { vram_bytes: 180 << 30, ..card };
    let r = evaluate(&cfg, 20 << 30, Some(&known), big, None);
    assert_eq!(r.verdict(), Verdict::Supported, "{:?}", r.notes);
    assert_eq!(r.max_servable_context, Some(524_288), "never advertise past the ceiling");
}

/// The finding is the gap, so the note names both numbers at every severity. What
/// changes with severity is only the glyph: a card serving half of what a repo
/// advertises is worth telling someone about, but it is not a warning, and a caution
/// that fires on every modern checkpoint would be one nobody reads.
#[test]
fn the_gap_is_always_named_and_only_a_severe_one_warns() {
    let cfg = json(r#"{
        "architectures": ["LlamaForCausalLM"],
        "num_hidden_layers": 48, "num_attention_heads": 32, "num_key_value_heads": 8,
        "head_dim": 128, "hidden_size": 2560, "max_position_embeddings": 262144
    }"#);
    let known = vec!["LlamaForCausalLM".to_string()];
    let card = |gib: u64| Hardware {
        vram_bytes: gib << 30,
        host_ram_bytes: 64 << 30,
        free_disk_bytes: 500 << 30,
    };

    // 48 GiB, 20 GiB of it weights: about half the advertised ceiling. Stated, not
    // warned about.
    let half = evaluate(&cfg, 20 << 30, Some(&known), card(48), None);
    assert_eq!(half.verdict(), Verdict::Supported, "{:?}", half.notes);
    let note = half.notes.iter().find(|(_, m)| m.contains("advertised")).expect("a gap note");
    assert_eq!(note.0, Level::Info);
    assert!(note.1.contains("of its advertised 256k"), "{}", note.1);
    assert!(note.1.contains("48 of 48 layers cache"), "{}", note.1);
    assert!(!half.context_is_upper_bound, "a dense model's weights are all resident");
    let servable = half.max_servable_context.unwrap();
    assert!((DEFAULT_KV_RESERVE_TOKENS..262_144).contains(&servable));

    // 24 GiB against the same weights: under a quarter of the ceiling, which is where
    // the gap stops being a detail.
    let sliver = evaluate(&cfg, 20 << 30, Some(&known), card(24), None);
    assert_eq!(sliver.verdict(), Verdict::Caution, "{:?}", sliver.notes);
    assert!(sliver.max_servable_context.unwrap() < servable);
}

/// An offloaded MoE keeps an unknown share of its expert banks in VRAM, so the
/// context figure is a ceiling rather than a plan — and has to read as one.
#[test]
fn an_offloaded_moe_reports_a_ceiling_and_says_that_is_what_it_is() {
    let cfg = json(r#"{
        "architectures": ["Qwen3MoeForCausalLM"], "num_experts": 128,
        "num_hidden_layers": 48, "num_attention_heads": 32, "num_key_value_heads": 8,
        "head_dim": 128, "hidden_size": 2560, "max_position_embeddings": 262144
    }"#);
    let card =
        Hardware { vram_bytes: 48 << 30, host_ram_bytes: 96 << 30, free_disk_bytes: 500 << 30 };

    // 80 GiB of weights on a 48 GiB card: offloaded, so the weights cannot be priced.
    let r = evaluate(&cfg, 80 << 30, Some(&vec!["Qwen3MoeForCausalLM".to_string()]), card, None);
    assert!(r.context_is_upper_bound);
    let note = r.notes.iter().find(|(_, m)| m.contains("advertised")).expect("a gap note");
    assert!(note.1.contains("at most about"), "hedged where it is a ceiling: {}", note.1);

    // The same model small enough to fuse is priced exactly, and lower, because its
    // weights are now competing for the same VRAM.
    let fused =
        evaluate(&cfg, 20 << 30, Some(&vec!["Qwen3MoeForCausalLM".to_string()]), card, None);
    assert!(!fused.context_is_upper_bound);
    assert!(
        fused.max_servable_context < r.max_servable_context,
        "priced weights leave less for the cache: {:?} vs {:?}",
        fused.max_servable_context,
        r.max_servable_context
    );
}

/// Two different things come out of the same VRAM and neither can be settled from a
/// config: an offloaded MoE's resident expert banks, and a linear-attention model's
/// state pool. Each makes the context figure a ceiling, and the note has to say which
/// one — "at most" with no reason attached tells a reader to distrust the number
/// without telling them what would sharpen it.
#[test]
fn every_cost_that_cannot_be_priced_is_named_in_the_hedge() {
    let known = vec!["Qwen3MoeForCausalLM".to_string()];
    let card =
        Hardware { vram_bytes: 48 << 30, host_ram_bytes: 96 << 30, free_disk_bytes: 500 << 30 };
    let build = |layers: &String, moe: bool| {
        let cfg = json(
            &r#"{
            "num_attention_heads": 32, "num_key_value_heads": 8, "head_dim": 128,
            "max_position_embeddings": 262144,
            "architectures": ["Qwen3MoeForCausalLM"], "num_hidden_layers": 48,
            "layer_types": LAYERS
        }"#
            .replace("LAYERS", layers),
        );
        if moe {
            with(cfg, "num_experts", Json::Unsigned(128))
        } else {
            cfg
        }
    };
    let all_full = layer_types(&[("full_attention", 48)]);
    let hybrid = layer_types(&[("linear_attention", 36), ("full_attention", 12)]);

    // Weights that fit, no linear layers: nothing unpriced, so nothing hedged.
    let r = evaluate(&build(&all_full, false), 20 << 30, Some(&known), card, None);
    assert!(!r.context_is_upper_bound);
    assert!(!r.notes.iter().any(|(_, m)| m.contains("at most")), "{:?}", r.notes);

    // Weights too big to be resident.
    let r = evaluate(&build(&all_full, true), 80 << 30, Some(&known), card, None);
    assert!(r.context_is_upper_bound);
    assert!(
        r.notes.iter().any(|(_, m)| m.contains("before any weights or expert cache")),
        "{:?}",
        r.notes
    );

    // Weights that fit, but 36 layers holding a state pool nothing here can size.
    let r = evaluate(&build(&hybrid, false), 20 << 30, Some(&known), card, None);
    assert!(r.context_is_upper_bound);
    assert!(
        r.notes.iter().any(|(_, m)| m.contains("before its linear-attention state pool")),
        "{:?}",
        r.notes
    );

    // Both at once, named together rather than twice.
    let r = evaluate(&build(&hybrid, true), 80 << 30, Some(&known), card, None);
    assert!(
        r.notes
            .iter()
            .any(|(_, m)| m.contains("before any weights, expert cache or state pool")),
        "{:?}",
        r.notes
    );
}

/// The per-token cost is the one field that makes two candidate repos comparable at a
/// glance, so it belongs on the line a reader compares them on.
#[test]
fn the_summary_line_carries_the_per_token_cost() {
    let cfg = json(&r#"{
        "architectures": ["Qwen3MoeForCausalLM"], "num_experts": 128,
        "text_config": {
            "num_hidden_layers": 40, "num_attention_heads": 16, "num_key_value_heads": 2,
            "head_dim": 256, "hidden_size": 2048, "max_position_embeddings": 262144,
            "layer_types": LAYERS
        }
    }"#.replace("LAYERS", &layer_types(&[("linear_attention", 30), ("full_attention", 10)])));
    let r = evaluate(&cfg, 20 << 30, Some(&archs()), roomy(), None);
    let summary = r.summary();
    assert!(summary.contains("256k ctx"), "{summary}");
    assert!(summary.contains("20.0 KiB/tok"), "{summary}");
}

/// The cache is priced from the config alone, so it is knowable before the file
/// listing lands and before a reader has picked a quantization. The size only sharpens
/// the ceiling; its absence must not silence the finding.
#[test]
fn the_cache_is_priced_even_with_no_download_size_yet() {
    let cfg = json(r#"{
        "architectures": ["LlamaForCausalLM"],
        "num_hidden_layers": 48, "num_attention_heads": 32, "num_key_value_heads": 8,
        "head_dim": 128, "max_position_embeddings": 262144
    }"#);
    let r = evaluate(&cfg, 0, Some(&vec!["LlamaForCausalLM".to_string()]), roomy(), None);
    assert_eq!(r.kv.as_ref().unwrap().bytes_per_token, kib(192));
    assert!(r.notes.iter().any(|(_, m)| m.contains("192 KiB/token")), "{:?}", r.notes);
    assert!(r.context_is_upper_bound, "nothing is known about the weights yet");
}

/// Without a card to price against there is no context claim to make. Saying "8k"
/// because VRAM read as zero would be worse than saying nothing.
#[test]
fn no_hardware_means_no_context_claim() {
    let cfg = json(r#"{
        "architectures": ["LlamaForCausalLM"],
        "num_hidden_layers": 48, "num_attention_heads": 32, "num_key_value_heads": 8,
        "head_dim": 128, "max_position_embeddings": 262144
    }"#);
    let r =
        evaluate(&cfg, 0, Some(&vec!["LlamaForCausalLM".to_string()]), Hardware::default(), None);
    assert!(r.kv.is_some(), "the geometry is a property of the checkpoint");
    assert_eq!(r.max_servable_context, None);
    assert_eq!(r.verdict(), Verdict::Supported, "{:?}", r.notes);
}

/// The share of VRAM that a context is priced against is `--memory-ratio`'s default. If the
/// knob moves and this does not, every context figure is quietly wrong by the difference.
#[test]
fn memory_ratio_matches_the_knob() {
    let knob = knob("memory_ratio").expect("the knob exists");
    let ratio = knob.default.parse::<f64>().expect("a numeric default");
    let kv = kv_geometry(&json(
        r#"{"num_hidden_layers": 48, "num_attention_heads": 32, "hidden_size": 4096}"#,
    ))
    .unwrap();
    let vram: u64 = 10_000_000_000;
    assert_eq!(
        kv_budget(&kv, None, 0, vram).budget,
        (vram as f64 * ratio) as u64,
        "--memory-ratio's default moved; the share has to move with it"
    );
}

/// The floor a blocker is judged against is the reader's own `--kv-reserve-tokens`
/// where they set one, and the engine's default where they did not. Nothing here is a
/// number paddock picked, which is what makes the blocker defensible.
#[test]
fn the_blocker_floor_is_the_readers_own_or_the_engines() {
    assert_eq!(KvFloor::new(None).tokens, DEFAULT_KV_RESERVE_TOKENS);
    assert!(!KvFloor::new(None).chosen);
    assert_eq!(KvFloor::new(Some(262_144)).tokens, 262_144);
    assert!(KvFloor::new(Some(262_144)).chosen);
    // A zero is "not set", not "no context wanted".
    assert_eq!(KvFloor::new(Some(0)).tokens, DEFAULT_KV_RESERVE_TOKENS);
}

#[test]
fn expert_modules_resolve_by_their_name_and_format() {
    assert!(resolves("model.layers.0.mlp.experts", "w4a16_nvfp4"));
    assert!(resolves("model.layers.0.mlp.experts.7.down_proj", "fp8"));
    assert!(!resolves("model.layers.0.mlp.experts", "int4"));
    assert!(!resolves("model.layers.0.self_attn", "fp8"));
    assert!(!resolves("model.layers.0.mlp.experts_bias", "fp8"));
}

#[test]
fn only_a_mixed_export_that_misses_the_experts_is_noted() {
    assert!(judge_experts("nvfp4", false, false).is_none());
    assert!(judge_experts("fp8", true, false).is_none());
    assert!(judge_experts("mixed_precision", false, true).is_none());
    assert!(judge_experts("compressed-tensors", false, false).is_none());
    let (level, reason) = judge_experts("mixed_precision", false, false).unwrap();
    assert_eq!(level, Level::Caution);
    assert!(reason.contains("MIXED_PRECISION"));
}

/// The name alone makes a mixture of experts of a config without a count.
#[test]
fn a_name_decides_what_the_config_does_not_count() {
    let cfg = json(r#"{"architectures": ["LlamaForCausalLM"]}"#);
    let dense = evaluate_with(&cfg, false, None, 40 << 30, Some(&archs()), roomy(), None);
    assert!(!dense.is_moe);
    assert!(dense.notes.iter().any(|(l, m)| *l == Level::Blocker && m.contains("dense")));
    let moe = evaluate_with(&cfg, true, None, 40 << 30, Some(&archs()), roomy(), None);
    assert!(moe.is_moe);
    assert!(moe.notes.iter().all(|(l, _)| *l != Level::Blocker));
    assert_eq!(moe.summary_with(Some("FP8".to_string())), "LlamaForCausalLM · MoE · FP8");
}

#[test]
fn a_summary_shows_the_quantization_in_upper_case() {
    let cfg = json(
        r#"{"architectures": ["LlamaForCausalLM"], "quantization_config": {"quant_method": "fp8"}}"#,
    );
    let r = evaluate(&cfg, 0, Some(&archs()), roomy(), None);
    assert_eq!(r.summary(), "LlamaForCausalLM · dense · FP8");
}

/// A cache that does not grow is not what bounds the context, so no figure is claimed and
/// no floor blocks it.
#[test]
fn a_flat_cache_claims_no_context_and_blocks_nothing() {
    let cfg = json(r#"{
        "architectures": ["LlamaForCausalLM"], "num_hidden_layers": 2,
        "num_attention_heads": 8, "num_key_value_heads": 8, "head_dim": 64,
        "layer_types": ["linear_attention", "linear_attention"],
        "max_position_embeddings": 4096
    }"#);
    let r = evaluate(&cfg, 1 << 30, Some(&archs()), roomy(), None);
    assert_eq!(r.max_servable_context, None);
    assert_eq!(r.verdict(), Verdict::Supported);
    assert!(r.notes.iter().any(|(_, m)| m.starts_with("its cache does not grow")));
}

/// Layers that slide fill up and stop: a card too small for the full window is still not
/// what bounds the conversation.
#[test]
fn an_all_windowed_cache_is_not_bounded_by_any_budget() {
    let text = r#"{
        "architectures": ["LlamaForCausalLM"], "num_hidden_layers": 1,
        "num_attention_heads": 8, "num_key_value_heads": 8, "head_dim": 64,
        "sliding_window": 1048576, "max_position_embeddings": 262144
    }"#;
    let kv = kv_geometry(&json(text)).unwrap();
    assert_eq!((kv.bytes_per_token, kv.windowed_layers), (0, 1));
    assert_eq!(kv.context_for_budget(0), None);
    assert_eq!(kv.context_for_budget(1024), None);
    assert_eq!(kv.context_for_budget(u64::MAX), None);
    let tiny = Hardware { vram_bytes: 1 << 20, host_ram_bytes: 1 << 30, free_disk_bytes: 1 << 30 };
    let r = evaluate(&json(text), 0, Some(&archs()), tiny, None);
    assert_eq!(r.max_servable_context, None);
    assert!(r.notes.iter().any(|(_, m)| m.starts_with("its cache does not grow")));
}

/// A window of nothing keeps no rows, and the context afforded is still the longest.
#[test]
fn a_window_of_zero_costs_nothing() {
    let kv = KvGeometry {
        layers: 4,
        growing_layers: 2,
        windowed_layers: 2,
        flat_layers: 0,
        row: KvRow::Grouped { kv_heads: 1, head_dim: 2 },
        row_bytes: 8,
        bytes_per_token: 16,
        window: Some(0),
    };
    assert_eq!(kv.context_for_budget(100), Some(6));
    assert!(kv.bytes_for_context(6) <= 100);
    assert!(kv.bytes_for_context(7) > 100);
}
