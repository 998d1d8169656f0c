use paddock::ft::proc::FTW_INDEX;
use paddock::models::{
    build_path, cache_snapshot, ftw_output_path, inspect, legacy_ftw_path, of_repo,
    pinned_snapshot, repo_from_cache_dir, scan, sizes_fit, weight_bytes, Build, Entry, Format,
    Found, HfConfig, Model, QuantConfig, Scanned, Weights,
};
use serde_json::Value;

fn text_at(v: &Value, key: &str) -> Option<String> {
    v.get(key).and_then(|t| t.as_str()).map(|t| t.to_string())
}

fn fields(v: &Value) -> HfConfig {
    let count = |key: &str| v.get(key).and_then(|n| n.as_u64());
    let names = |l: &Vec<Value>| l.iter().map(|a| a.as_str().unwrap().to_string()).collect();
    HfConfig {
        architectures: v.get("architectures").and_then(|l| l.as_array()).map(names),
        model_type: text_at(v, "model_type"),
        num_hidden_layers: count("num_hidden_layers"),
        max_position_embeddings: count("max_position_embeddings"),
        num_experts: count("num_experts"),
        num_local_experts: count("num_local_experts"),
        n_routed_experts: count("n_routed_experts"),
        quantization_config: v.get("quantization_config").map(|q| QuantConfig {
            quant_method: text_at(q, "quant_method"),
            fmt: text_at(q, "fmt"),
        }),
        text_config: v.get("text_config").map(|t| Box::new(fields(t))),
    }
}

/// What a `config.json` with this text decodes to.
fn config(text: &str) -> HfConfig {
    fields(&serde_json::from_str::<Value>(text).unwrap())
}

/// A directory that holds these files.
fn found(path: &str, files: &[(&str, u64)]) -> Found {
    let is_there = |name: &str| files.iter().any(|(n, _)| *n == name);
    Found {
        path: path.into(),
        modified: None,
        files: files
            .iter()
            .map(|(name, size)| Entry { name: (*name).into(), size: Some(*size) })
            .collect(),
        has_index: is_there(FTW_INDEX),
        has_config: is_there("config.json"),
        template_status: paddock::templates::Status::BuiltIn,
        sampling_status: paddock::sampling::Status::Checkpoint,
        sampling_effective: None,
        has_inference_config: false,
    }
}

fn own(m: Model) -> Scanned {
    Scanned { cached: vec![], own: Some(m), children: vec![] }
}

fn build(label: &str, subdir: Option<&str>, bytes: u64) -> Build {
    Build { label: label.into(), subdir: subdir.map(|s| s.into()), bytes, tagged: true }
}

/// A repo that keeps one file per quantization in the snapshot root produces several
/// models with the same path. Keyed on the path alone, all but one would be dropped.
#[test]
fn several_builds_of_one_directory_all_survive_the_dedupe() {
    let snapshot = "/c/models--unsloth--Qwen3.8-Flash-Next-GGUF/snapshots/deadbeef";
    let repo = repo_from_cache_dir("models--unsloth--Qwen3.8-Flash-Next-GGUF").unwrap();
    let files = [
        ("config.json", 22),
        ("Qwen3.8-UD-IQ3_XXS.gguf", 64),
        ("Qwen3.8-Q8_0.gguf", 64),
    ];
    let cached = ["UD-IQ3_XXS", "Q8_0"]
        .iter()
        .map(|label| {
            let m = inspect(found(snapshot, &files), None, Some(&config(r#"{"model_type":"qwen3"}"#)));
            of_repo(m.unwrap(), &repo, &build(label, None, 64))
        })
        .collect();
    let listed = scan(&vec![Scanned { cached, own: None, children: vec![] }], "/c/ftw", None);
    let mut variants: Vec<String> = listed.iter().filter_map(|m| m.variant.clone()).collect();
    variants.sort();
    assert_eq!(
        variants,
        vec!["Q8_0".to_string(), "UD-IQ3_XXS".to_string()],
        "both builds of one snapshot directory must be listed"
    );
    assert_eq!(listed[0].path, listed[1].path);
    assert_ne!(listed[0].served_name(), listed[1].served_name());
}

/// A build beside its source is tens of gigabytes; unlinking it would offer to convert a
/// checkpoint that already has a conversion.
#[test]
fn an_ftw_build_in_the_old_sibling_location_stays_linked() {
    let source = inspect(
        found("/m/Qwen3.6-35B-A3B", &[("config.json", 22), ("model-00001.safetensors", 64)]),
        None,
        Some(&config(r#"{"model_type":"qwen3"}"#)),
    )
    .unwrap();
    let sibling = inspect(
        found("/m/Qwen3.6-35B-A3B-ftw", &[(FTW_INDEX, 2), ("weights.ftw", 32)]),
        Some("{}"),
        None,
    )
    .unwrap();
    let listed = scan(&vec![own(source), own(sibling)], "/m/elsewhere", None);
    let hf = listed.iter().find(|m| m.format == Format::Hf).expect("the source is listed");
    assert_eq!(hf.converted_to.as_deref(), Some("/m/Qwen3.6-35B-A3B-ftw"));
}

#[test]
fn an_hf_moe_checkpoint_is_recognized() {
    let m = inspect(
        found("/m/Qwen3.6-35B-A3B", &[("config.json", 200), ("model-00001.safetensors", 4096)]),
        None,
        Some(&config(
            r#"{"architectures":["Qwen3MoeForCausalLM"],"model_type":"qwen3_moe",
            "num_hidden_layers":48,"max_position_embeddings":262144,"num_experts":128,
            "quantization_config":{"quant_method":"nvfp4"}}"#,
        )),
    )
    .expect("should be recognized");
    assert_eq!(m.format, Format::Hf);
    assert!(m.is_moe);
    assert_eq!(m.num_experts, Some(128));
    assert_eq!(m.quant.as_deref(), Some("nvfp4"));
    assert_eq!(m.max_position, Some(262144));
    assert_eq!(m.size_bytes, 4096);
    assert!(m.convertible());
}

#[test]
fn an_ftw_directory_is_recognized_and_is_not_convertible() {
    let m = inspect(
        found("/m/Qwen-ftw", &[(FTW_INDEX, 80), ("freetoken-00000.ftw", 2048)]),
        Some(r#"{"quant_format":"nvfp4","fingerprint":"abc123","shards":[],"total_bytes":0}"#),
        None,
    )
    .expect("should be recognized");
    assert_eq!(m.format, Format::Ftw);
    assert_eq!(m.quant.as_deref(), Some("nvfp4"));
    assert_eq!(m.ftw_fingerprint.as_deref(), Some("abc123"));
    assert_eq!(m.size_bytes, 2048);
    assert!(!m.convertible());
}

#[test]
fn a_directory_without_weights_is_skipped() {
    let d = found("/m/just-a-config", &[("config.json", 22)]);
    assert!(inspect(d, None, Some(&config(r#"{"model_type":"llama"}"#))).is_none());
}

#[test]
fn multimodal_configs_read_through_text_config() {
    let m = inspect(
        found("/m/mm-model", &[("config.json", 200), ("model.safetensors", 16)]),
        None,
        Some(&config(
            r#"{"model_type":"gemma4","text_config":{"architectures":["Gemma4ForCausalLM"],
            "num_hidden_layers":34,"max_position_embeddings":131072,"num_experts":64}}"#,
        )),
    )
    .unwrap();
    assert_eq!(m.arch.as_deref(), Some("Gemma4ForCausalLM"));
    assert_eq!(m.num_layers, Some(34));
    assert!(m.is_moe);
}

/// Each accessor takes the top-level field first and the nested one only where that is
/// missing.
#[test]
fn a_config_is_read_before_its_text_config() {
    let c = config(
        r#"{"architectures":[],"n_routed_experts":0,"quantization_config":{"fmt":"fp8"},
        "text_config":{"architectures":["LlamaForCausalLM"],"num_local_experts":8,
        "num_hidden_layers":32,"quantization_config":{"quant_method":"awq"}}}"#,
    );
    assert_eq!(c.first_arch(), None, "an empty list of architectures still stands");
    assert_eq!(c.num_experts(), Some(0));
    assert!(!c.is_moe());
    assert_eq!(c.num_layers(), Some(32));
    assert_eq!(c.max_position(), None);
    assert_eq!(c.quant_method().as_deref(), Some("fp8"));
    assert_eq!(c.text().first_arch().as_deref(), Some("LlamaForCausalLM"));
    assert!(c.text().is_moe());
    assert!(config(r#"{"architectures":["MixtralMOEModel"]}"#).is_moe());
    let bare = config("{}");
    assert_eq!((bare.first_arch(), bare.quant_method()), (None, None));
    assert!(!bare.is_moe());
    // A directory whose config could not be decoded is not a model.
    let d = found("/m/unreadable", &[("config.json", 20), ("model.safetensors", 16)]);
    assert!(inspect(d, None, None).is_none());
}

fn plain_source() -> Model {
    inspect(
        found("/m/Model", &[("config.json", 22), ("model.safetensors", 1)]),
        None,
        Some(&config(r#"{"model_type":"llama"}"#)),
    )
    .unwrap()
}

#[test]
fn scan_pairs_a_checkpoint_with_its_ftw_build() {
    let ftw = inspect(
        found("/m/Model-ftw", &[(FTW_INDEX, 23)]),
        Some(r#"{"quant_format":"bf16"}"#),
        None,
    )
    .unwrap();
    let models = scan(&vec![own(plain_source()), own(ftw)], "/m", None);
    let hf = models.iter().find(|m| m.format == Format::Hf).unwrap();
    assert_eq!(hf.converted_to.as_deref(), Some("/m/Model-ftw"));
}

#[test]
fn a_conversion_that_died_before_its_index_is_listed_as_partial() {
    // Shards written, but `ft checkpoint` never reached its finalize step.
    let m = inspect(found("/m/Model-ftw", &[("freetoken-00000.ftw", 8192)]), None, None)
        .expect("leftovers must be visible, or nothing can delete them");
    assert_eq!(m.format, Format::PartialFtw);
    assert!(m.is_partial());
    assert!(!m.convertible());
    assert_eq!(m.size_bytes, 8192);
    assert!(m.summary().contains("safe to delete"));
}

#[test]
fn a_partial_is_not_mistaken_for_a_models_completed_conversion() {
    let out = inspect(found("/m/Model-ftw", &[("freetoken-00000.ftw", 1)]), None, None).unwrap();
    let models = scan(&vec![own(plain_source()), own(out)], "/m", None);
    let hf = models.iter().find(|m| m.format == Format::Hf).unwrap();
    assert_eq!(hf.converted_to, None, "a half-written build is not a conversion");
    assert!(models.iter().any(|m| m.is_partial()));
}

#[test]
fn a_finished_conversion_still_wins_over_the_partial_check() {
    let out = found("/m/Model-ftw", &[("freetoken-00000.ftw", 1), (FTW_INDEX, 23)]);
    let m = inspect(out, Some(r#"{"quant_format":"bf16"}"#), None).unwrap();
    assert_eq!(m.format, Format::Ftw);
}

#[test]
fn ftw_output_lands_in_the_ftw_dir_not_beside_the_source() {
    let ftw_dir = "/workspace/models";

    // A plain directory keeps its own name.
    assert_eq!(
        ftw_output_path("/models/Qwen3.6-35B-A3B", None, None, ftw_dir, None),
        "/workspace/models/Qwen3.6-35B-A3B-ftw"
    );

    // A cache-resident checkpoint is org-qualified, and the build does NOT land beside the
    // source, which would be inside `snapshots/`.
    let snapshot = "/hf/hub/models--unsloth--Qwen3.8/snapshots/abc123";
    let out = ftw_output_path(snapshot, Some("unsloth/Qwen3.8"), None, ftw_dir, None);
    assert_eq!(out, "/workspace/models/unsloth--Qwen3.8-ftw");
    assert!(!out.starts_with("/hf/hub"), "an FTW build must never be written into the cache");

    // Two orgs publishing the same model name must not collide.
    let a = ftw_output_path(snapshot, Some("unsloth/Qwen3.8"), None, ftw_dir, None);
    let b = ftw_output_path(snapshot, Some("bartowski/Qwen3.8"), None, ftw_dir, None);
    assert_ne!(a, b);
}

#[test]
fn a_cache_directory_name_decodes_to_its_repo_id() {
    assert_eq!(
        repo_from_cache_dir("models--unsloth--Qwen3.8-Flash-Next-GGUF").as_deref(),
        Some("unsloth/Qwen3.8-Flash-Next-GGUF")
    );
    // A model name may itself contain the separator; only the first one splits.
    assert_eq!(repo_from_cache_dir("models--org--we--ird").as_deref(), Some("org/we--ird"));
    // Not cache entries.
    assert_eq!(repo_from_cache_dir("Qwen3.6-35B-A3B"), None);
    assert_eq!(repo_from_cache_dir("datasets--org--name"), None);
    assert_eq!(repo_from_cache_dir("models--org"), None);
}

/// A checkpoint downloaded by `hf`, `from_pretrained`, or another engine on the same machine
/// must show up in the library, under its repo id rather than a commit sha.
#[test]
fn a_hub_cache_entry_is_found_named_and_sized() {
    let repo_dir = "/c/models--acme--Tiny-Model";
    let pinned = pinned_snapshot(repo_dir, "abc123def456\n");
    assert_eq!(pinned, "/c/models--acme--Tiny-Model/snapshots/abc123def456");
    let snap = cache_snapshot(Some(pinned.clone()), &vec![]).unwrap();
    let b = Build { label: "default".into(), subdir: None, bytes: 4096, tagged: false };
    let files = [("config.json", 22), ("model.safetensors", 4096)];
    let m = inspect(
        found(&build_path(&snap, &b), &files),
        None,
        Some(&config(r#"{"model_type":"llama"}"#)),
    )
    .unwrap();
    let cached = vec![of_repo(m, "acme/Tiny-Model", &b)];
    let models =
        scan(&vec![Scanned { cached, own: None, children: vec![] }], "/workspace/models", None);
    assert_eq!(models.len(), 1, "the cache entry must be found");
    let m = &models[0];
    assert_eq!(m.name, "acme/Tiny-Model", "named by repo id, not by commit sha");
    assert_eq!(m.repo.as_deref(), Some("acme/Tiny-Model"));
    assert_eq!(m.format, Format::Hf);
    assert_eq!(m.size_bytes, 4096, "size must resolve through the blob symlink");
    assert_eq!(m.path, pinned, "the servable path is the snapshot directory");
}

/// A repo pinned to a tag or a commit has no `refs/main`. Listing it anyway beats
/// hiding a checkpoint that is sitting on disk.
#[test]
fn a_cache_entry_without_a_main_ref_falls_back_to_a_snapshot() {
    let snapshots = vec![(3, "/s/old".to_string()), (8, "/s/deadbeef".to_string())];
    assert_eq!(cache_snapshot(None, &snapshots).as_deref(), Some("/s/deadbeef"));
    assert_eq!(cache_snapshot(None, &vec![]), None);
}

/// A downloaded quantization lives in a subdirectory of the snapshot, and the snapshot root
/// holds only a projector.
#[test]
fn a_snapshot_of_quantizations_lists_each_one_at_its_real_size() {
    let snap = "/c/models--unsloth--Model-GGUF/snapshots/abc123";
    let small = build("UD-IQ3_XXS", Some("UD-IQ3_XXS"), 30_000);
    let large = build("Q8_0", Some("Q8_0"), 50_000);
    let shards = [
        ("Model-UD-IQ3_XXS-00001-of-00003.gguf", 10_000),
        ("Model-UD-IQ3_XXS-00002-of-00003.gguf", 10_000),
        ("Model-UD-IQ3_XXS-00003-of-00003.gguf", 10_000),
    ];
    let repo = "unsloth/Model-GGUF";
    let a = inspect(found(&build_path(snap, &small), &shards), None, None).unwrap();
    let b = inspect(found(&build_path(snap, &large), &[("Model-Q8_0.gguf", 50_000)]), None, None)
        .unwrap();
    let cached = vec![of_repo(a, repo, &small), of_repo(b, repo, &large)];
    let mut models =
        scan(&vec![Scanned { cached, own: None, children: vec![] }], "/workspace/models", None);
    models.sort_by_key(|m| m.size_bytes);
    let names: Vec<&str> = models.iter().map(|m| m.name.as_str()).collect();
    assert_eq!(
        names,
        vec!["unsloth/Model-GGUF:UD-IQ3_XXS", "unsloth/Model-GGUF:Q8_0"],
        "each quantization is its own entry, named for the model and the build"
    );

    let small = &models[0];
    assert_eq!(small.size_bytes, 30_000, "the shards of that build, not the projector");
    assert_eq!(
        small.path,
        format!("{snap}/UD-IQ3_XXS"),
        "--model-path must reach the quantization, not a root holding two of them"
    );
    assert_eq!(small.variant.as_deref(), Some("UD-IQ3_XXS"));
    assert_eq!(small.repo.as_deref(), Some("unsloth/Model-GGUF"));
}

/// FreeToken defaults the served name to `basename(model_path)`, which for these paths
/// is a commit sha or a bare quantization label. paddock must never let it.
#[test]
fn a_served_name_identifies_the_model_not_the_directory() {
    let nothing = Found {
        files: vec![],
        has_index: false,
        has_config: false,
        ..found("/nonexistent", &[])
    };
    let mut m = inspect(nothing, None, None).unwrap_or_else(|| Model {
        name: "abc123def456".into(),
        repo: Some("unsloth/Model-GGUF".into()),
        variant: Some("UD-IQ3_XXS".into()),
        path: "/hf/hub/models--unsloth--Model-GGUF/snapshots/abc123/UD-IQ3_XXS".into(),
        format: Format::Gguf,
        size_bytes: 0,
        arch: None,
        model_type: None,
        is_moe: false,
        num_experts: None,
        num_layers: None,
        quant: None,
        max_position: None,
        ftw_fingerprint: None,
        converted_to: None,
        modified: None,
        template_status: paddock::templates::Status::BuiltIn,
        sampling_status: paddock::sampling::Status::Checkpoint,
        sampling_effective: None,
        has_inference_config: false,
    });
    assert_eq!(m.served_name(), "unsloth/Model-GGUF:UD-IQ3_XXS");

    // A repo with one build needs no tag.
    m.variant = None;
    assert_eq!(m.served_name(), "unsloth/Model-GGUF");

    // A plain directory falls back to its own name, which is meaningful there.
    m.repo = None;
    m.name = "Qwen3.6-35B-A3B".into();
    assert_eq!(m.served_name(), "Qwen3.6-35B-A3B");
}

/// Two quantizations of one repo must not converge on one FTW directory.
#[test]
fn ftw_builds_of_two_quantizations_do_not_collide() {
    let ftw_dir = "/workspace/models";
    let src = "/hf/hub/models--unsloth--M/snapshots/abc/UD-IQ3_XXS";
    let a = ftw_output_path(src, Some("unsloth/M"), Some("UD-IQ3_XXS"), ftw_dir, None);
    let b = ftw_output_path(src, Some("unsloth/M"), Some("Q8_0"), ftw_dir, None);
    assert_ne!(a, b);
    assert_eq!(a, "/workspace/models/unsloth--M--UD-IQ3_XXS-ftw");
}

#[test]
fn weights_are_counted_by_kind_and_an_absurd_total_is_told_apart() {
    let entry = |name: &str, size: u64| Entry { name: name.into(), size: Some(size) };
    let files = vec![entry("a.safetensors", 3), entry("b.gguf", 5), entry("c.ftw", 7)];
    assert_eq!(weight_bytes(&files, Weights::Any), 8);
    assert_eq!(weight_bytes(&files, Weights::Ftw), 7);
    assert!(sizes_fit(&files));
    assert!(!sizes_fit(&vec![entry("a.bin", u64::MAX), entry("b.bin", 1)]));
}

#[test]
fn a_checkpoint_is_listed_once_and_in_order() {
    let again = plain_source();
    let mut other = plain_source();
    other.name = "Alpha".into();
    other.path = "/m/Alpha".into();
    let models = scan(&vec![own(plain_source()), own(again), own(other)], "/ftw", None);
    let names: Vec<&str> = models.iter().map(|m| m.name.as_str()).collect();
    assert_eq!(names, vec!["Alpha", "Model"]);
    assert_eq!(legacy_ftw_path("/m/Model").as_deref(), Some("/m/Model-ftw"));
}

#[test]
fn a_summary_spells_the_quantization_in_capitals() {
    let m = inspect(
        found("/m/q", &[("config.json", 22), ("model.safetensors", 2048)]),
        None,
        Some(&config(
            r#"{"model_type":"llama","quantization_config":{"quant_method":"nvfp4"}}"#,
        )),
    )
    .unwrap();
    assert!(m.summary().contains("NVFP4"), "{}", m.summary());
}
