use paddock::knobs::{
    check_kernel, knob, knob_at, knobs_in, quant_kernels, validate_value, Group, Kind, ServeConfig,
    KNOB_COUNT,
};
use paddock::text_map::TextMap;

/// A configuration read from a saved table.
fn saved(text: &str) -> ServeConfig {
    let table: toml::Table = toml::from_str(text).unwrap();
    let mut values = TextMap::new();
    for (key, value) in &table {
        values.insert(key, value.as_str().unwrap().to_string());
    }
    ServeConfig::from_saved(values)
}

/// A choice knob accepts exactly its declared options and nothing else. The Serve
/// tab only ever cycles through them, so the value that reaches this is one a browser
/// or a hand-edited profile supplied.
#[test]
fn a_choice_knob_accepts_only_its_own_options() {
    let k = &knob("moe_strategy").expect("the MoE strategy knob exists");
    let Kind::Choice(options) = k.kind else { panic!("moe_strategy is a choice knob") };
    let options: Vec<&str> = options.split(' ').collect();
    for good in &options {
        assert_eq!(validate_value(k, good), None, "{good} is one of its options");
    }
    // Trimmed before comparison, as every other kind is.
    assert_eq!(validate_value(k, &format!("  {}  ", options[0])), None);

    let msg = validate_value(k, "turbo").expect("an unlisted option must be rejected");
    assert!(msg.starts_with("must be one of: "), "{msg}");
    for good in &options {
        assert!(msg.contains(*good), "the message lists what is allowed: {msg}");
    }
    // Case matters: these are argv values, and FreeToken compares them exactly.
    assert!(validate_value(k, &options[0].to_uppercase()).is_some());
    // An empty value is an unset knob, not a bad one.
    assert_eq!(validate_value(k, ""), None);
}

/// A flag's domain is the two words `ServeConfig::set` understands. "false" is valid
/// and means "unset", which is why it has to be accepted rather than rejected.
#[test]
fn a_flag_accepts_only_true_or_false() {
    let k = &knob("moe_cache_auto").expect("the MoE auto flag exists");
    assert_eq!(validate_value(k, "true"), None);
    assert_eq!(validate_value(k, "false"), None);
    assert_eq!(validate_value(k, "yes").as_deref(), Some("must be true or false"));
}

#[test]
fn every_knob_key_is_unique() {
    let mut keys: Vec<_> = (0..KNOB_COUNT).map(|i| knob_at(i).key).collect();
    let total = keys.len();
    keys.sort_unstable();
    keys.dedup();
    assert_eq!(keys.len(), total, "duplicate knob key");
}

#[test]
fn exclusive_groups_reference_real_knobs() {
    for i in 0..KNOB_COUNT {
        let k = knob_at(i);
        for other in k.exclusive_with.members() {
            assert!(knob(other).is_some(), "{} excludes unknown knob {other}", k.key);
        }
    }
}

#[test]
fn setting_a_moe_cache_knob_clears_its_siblings() {
    let mut cfg = ServeConfig::new();
    cfg.set("moe_cache_rate", "0.5");
    cfg.set("moe_cache_size", "128");
    assert_eq!(cfg.get("moe_cache_size"), Some("128"));
    assert!(!cfg.is_set("moe_cache_rate"));
    assert!(cfg.validate().iter().all(|(k, _)| k != "moe_cache_size"));
}

#[test]
fn args_are_emitted_in_schema_order() {
    let mut cfg = ServeConfig::new();
    cfg.set("port", "1920");
    cfg.set("model", "/models/qwen");
    cfg.set("enable_cache_report", "true");
    assert_eq!(
        cfg.to_args(),
        vec!["--model", "/models/qwen", "--port", "1920", "--enable-cache-report"]
    );
}

#[test]
fn a_quant_backend_entry_is_checked_against_the_real_kernel_tables() {
    let k = &knob("quant_backend").unwrap();
    for good in [
        "moe.nvfp4=marlin",
        "moe.nvfp4=b12x",
        "moe.mxfp4=triton_gptoss",
        "linear.fp8_block=dsv4",
        "linear=marlin",
        "linear=marlin,moe.nvfp4=triton",
    ] {
        assert_eq!(validate_value(k, good), None, "{good} should be accepted");
    }
    // b12x is a routed-expert kernel; the dense linear table has no such entry.
    assert!(validate_value(k, "linear=b12x").is_some());
    // "flashinfer" was the old --nvfp4-backend spelling of b12x and is gone.
    assert!(validate_value(k, "moe.nvfp4=flashinfer").is_some());
    // moe.mxfp8 registers an empty candidate table, so no name is valid for it.
    assert!(validate_value(k, "moe.mxfp8=triton").is_some());
    assert!(validate_value(k, "attention=fa").is_some());
    assert!(validate_value(k, "moe.nvfp4").is_some());
    // A layer-wide key names the union of its kinds, each kernel once and in
    // FreeToken's own search order.
    assert_eq!(
        validate_value(k, "linear=nope").as_deref(),
        Some("no linear kernel \"nope\"; known: torch, triton, emulation, dsv4, marlin"),
    );
}

/// A profile saved against older flag names still has to load with its settings intact,
/// because the knob keys it names no longer exist.
#[test]
fn a_profile_written_against_the_old_flag_names_is_carried_forward() {
    let old = saved("moe_backend = 'hybrid'\nnvfp4_backend = 'flashinfer'");
    assert_eq!(old.get("moe_strategy"), Some("hybrid"));
    assert_eq!(old.get("quant_backend"), Some("moe.nvfp4=b12x"));
    assert!(!old.is_set("moe_backend"));
    assert!(old.validate().iter().all(|(k, _)| k != "moe_strategy" && k != "quant_backend"));

    // "auto" meant "let FreeToken choose", which is now simply an absent flag.
    let auto = saved("nvfp4_backend = 'auto'");
    assert!(!auto.is_set("quant_backend"));
}

#[test]
fn out_of_range_values_are_reported() {
    let mut cfg = ServeConfig::new();
    cfg.set("model", "x");
    cfg.set("memory_ratio", "1.5");
    let errs = cfg.validate();
    assert!(errs.iter().any(|(k, _)| k == "memory_ratio"), "{errs:?}");
}

/// `--mm-disable` is argparse's `nargs="+"`: the flag once, then a separate argv
/// element per value. Joining them into one word is the mistake this guards.
#[test]
fn a_multi_knob_emits_one_argv_element_per_value() {
    let mut c = ServeConfig::default();
    c.set("model", "/models/Qwen3.6-35B-A3B");
    c.set("mm_disable", "vision audio");
    let args = c.to_args();

    let at = args.iter().position(|a| a == "--mm-disable").expect("the flag is emitted");
    assert_eq!(&args[at + 1..at + 3], ["vision", "audio"]);
    // And not as one joined word, which argparse would take as a single bad choice.
    assert!(!args.iter().any(|a| a == "vision audio"), "{args:?}");
}

/// An empty selection is an unset knob: no flag at all, rather than a flag with no
/// values, which argparse rejects outright.
#[test]
fn a_multi_knob_with_nothing_chosen_emits_no_flag() {
    let mut c = ServeConfig::default();
    c.set("model", "/models/Qwen3.6-35B-A3B");
    c.set("mm_disable", "   ");
    assert!(!c.to_args().iter().any(|a| a == "--mm-disable"));
}

/// Any subset in any order, but only from the declared set, and never twice.
#[test]
fn a_multi_knob_accepts_subsets_and_rejects_the_rest() {
    let k = &knob("mm_disable").expect("the mm-disable knob exists");
    for good in ["vision", "audio", "vision audio", "audio vision", ""] {
        assert_eq!(validate_value(k, good), None, "{good:?} is a valid subset");
    }
    assert!(validate_value(k, "video").is_some(), "an unlisted kind is refused");
    let twice = validate_value(k, "vision vision").expect("a repeat is refused");
    assert!(twice.contains("twice"), "{twice}");
}

/// FreeToken parses `--mm-processor-kwargs` with `json.loads` and requires an object,
/// so a typo should be caught on the Serve tab rather than by a launch that dies.
#[test]
fn processor_kwargs_must_be_a_json_object() {
    let k = &knob("mm_processor_kwargs").expect("the processor-kwargs knob exists");
    assert_eq!(validate_value(k, r#"{"size": {"longest_edge": 1048576}}"#), None);
    assert_eq!(validate_value(k, "{}"), None);
    assert!(validate_value(k, "[1, 2]").is_some_and(|m| m.contains("JSON object")));
    assert!(validate_value(k, "size=1").is_some_and(|m| m.contains("not valid JSON")));
}

/// The one cross-knob check in this group: FreeToken refuses to start when the image
/// token budget is inverted, and it should be visible before the launch.
#[test]
fn an_inverted_image_token_budget_is_an_error() {
    let mut c = ServeConfig::default();
    c.set("model", "/models/Qwen3.6-35B-A3B");
    c.set("image_min_tokens", "4096");
    c.set("image_max_tokens", "64");
    let errors = c.validate();
    assert!(
        errors.iter().any(|(key, msg)| key == "image_min_tokens" && msg.contains("more than")),
        "{errors:?}"
    );

    c.set("image_max_tokens", "16384");
    assert!(c.validate().is_empty(), "a budget the right way round is fine");
}

#[test]
fn the_whole_table_is_covered_by_its_groups() {
    let groups = [
        Group::Model,
        Group::Server,
        Group::Runtime,
        Group::Memory,
        Group::Moe,
        Group::Multimodal,
        Group::Api,
    ];
    let n: usize = groups.iter().map(|g| knobs_in(*g).len()).sum();
    assert_eq!(n, KNOB_COUNT);
    assert_eq!(Group::Memory.title(), "KV cache & memory");
}

#[test]
fn a_layer_lists_the_kernels_of_its_kinds() {
    assert_eq!(quant_kernels("moe", Some("mxfp8")), Vec::<String>::new());
    assert_eq!(
        quant_kernels("linear", None),
        vec!["torch", "triton", "emulation", "dsv4", "marlin"]
    );
}

#[test]
fn the_preview_quotes_what_a_shell_would_split() {
    let mut c = ServeConfig::new();
    c.set("model", "/models/my model");
    assert_eq!(c.preview("ft"), "ft serve --model '/models/my model'");
}

#[test]
fn a_flag_set_to_false_is_unset_and_clears_nothing() {
    let mut c = ServeConfig::new();
    c.set("moe_cache_size", "128");
    c.set("moe_cache_auto", "false");
    assert!(!c.is_set("moe_cache_auto"));
    assert_eq!(c.get("moe_cache_size"), Some("128"));
    c.toggle_flag("moe_cache_auto");
    assert!(c.flag("moe_cache_auto"));
    assert!(!c.is_set("moe_cache_size"), "at most one of the three is set");
    c.toggle_flag("moe_cache_auto");
    assert!(!c.is_set("moe_cache_auto"));
}

#[test]
fn what_is_saved_comes_back() {
    let mut c = ServeConfig::new();
    c.set("port", "1920");
    c.set("model", "/m");
    assert_eq!(c.values().len(), 2);
    assert_eq!(c.values().key_at(0).as_str(), "model");
    let back = ServeConfig::from_saved(c.values().duplicate());
    assert_eq!(back.get("port"), Some("1920"));
}

#[test]
fn whole_numbers_are_held_to_their_bounds() {
    let port = &knob("port").unwrap();
    assert_eq!(validate_value(port, "1919"), None);
    assert!(validate_value(port, "0").is_some());
    assert!(validate_value(port, "65536").is_some());
    assert!(validate_value(port, "many").is_some());
}

#[test]
fn a_configuration_without_a_model_has_an_error_to_show_first() {
    let c = ServeConfig::new();
    let first = c.first_error().unwrap();
    assert_eq!(first.0, "model");
    assert_eq!(c.validate()[0], first);
}

#[test]
fn a_kernel_is_checked_under_its_layer() {
    let known = quant_kernels("moe", None);
    assert!(!known.is_empty());
    assert_eq!(check_kernel("moe", &known[0], "", ""), None);
    assert_eq!(
        check_kernel("attn", "x", "'attn'", ""),
        Some("no layer 'attn'; expected linear or moe".to_string())
    );
    assert_eq!(
        check_kernel("moe", "nope", "", "'nope'"),
        Some(format!("no moe kernel 'nope'; known: {}", known.join(", ")))
    );
    assert_eq!(check_kernel("moe.nope", "x", "", ""), Some("moe has no nope table".to_string()));
}

/// A shell reads the preview back as the very words that are run.
#[test]
fn the_preview_splits_back_into_the_words() {
    let mut c = ServeConfig::new();
    c.set("model", "/models/it's a $HOME \"model\"; `rm` \\ #1");
    c.set("mm_disable", "image  audio");
    c.set("moe_cache_auto", "true");
    let mut words = vec!["/opt/my ft".to_string(), "serve".to_string()];
    words.extend(c.to_args());
    assert_eq!(shell_words::split(&c.preview("/opt/my ft")).unwrap(), words);
}

#[test]
fn the_options_of_a_knob_are_all_different() {
    for i in 0..KNOB_COUNT {
        if let Kind::Choice(options) | Kind::Multi(options) = knob_at(i).kind {
            let mut seen: Vec<&str> = options.split(' ').collect();
            let all = seen.len();
            seen.sort();
            seen.dedup();
            assert_eq!(seen.len(), all, "{}", knob_at(i).key);
        }
    }
}

#[test]
fn no_run_of_edits_makes_two_knobs_clash() {
    let mut c = ServeConfig::new();
    let keys = ["moe_cache_size", "moe_cache_rate", "moe_cache_auto", "num_pages", "num_tokens"];
    for (i, key) in keys.iter().chain(keys.iter().rev()).enumerate() {
        if i % 3 == 2 {
            c.toggle_flag(key);
        } else {
            c.set(key, "1");
        }
        let clash = |m: &str| m.starts_with("cannot be combined with");
        assert!(c.validate().iter().all(|(_, m)| !clash(m)), "{:?}", c.validate());
    }
}
