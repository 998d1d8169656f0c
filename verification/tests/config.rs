use paddock::config::{
    config_dir, config_path, hf_token_path, legacy_move, log_dir, migrates, migration_report,
    poll_host, profiles_path, serve_state_path, state_dir, Config, HfEnv, HubCfg, LibraryCfg,
    Overrides, Profile, Profiles, ServerCfg,
};
use paddock::knobs::ServeConfig;

fn env(hub_cache: Option<&str>, hf_home: Option<&str>) -> HfEnv {
    HfEnv {
        hub_cache: hub_cache.map(|s| s.into()),
        hf_home: hf_home.map(|s| s.into()),
        token_path: None,
        home: Some("/home/u".into()),
    }
}

#[test]
fn a_pre_rename_install_is_moved_into_place() {
    let (from, to) = legacy_move(None, None, Some("/xdg")).unwrap();
    assert_eq!(from, "/xdg/ft-man");
    assert_eq!(to, "/xdg/paddock");
    assert!(migrates(false, true));
    assert_eq!(migration_report(&from, &to, None), "paddock: moved /xdg/ft-man to /xdg/paddock");
}

#[test]
fn an_existing_new_directory_always_wins() {
    assert!(!migrates(true, true));
}

#[test]
fn nothing_to_migrate_is_not_an_error() {
    assert!(!migrates(false, false));
    assert_eq!(legacy_move(Some("/own"), None, Some("/xdg")), None);
    assert_eq!(legacy_move(None, Some("/old"), Some("/xdg")), None);
    assert_eq!(legacy_move(None, None, None), None);
    let said = migration_report("/a", "/b", Some("denied"));
    assert!(said.contains("could not move /a to /b (denied)"), "{said}");
}

#[test]
fn hub_token_resolution_prefers_env_then_config() {
    // A token in the config file is honored.
    let mut cfg = HubCfg { token: Some("hf_from_config".into()), ..Default::default() };
    let resolved = cfg.resolve_token(None, None, None).expect("a configured token must be found");
    assert_eq!(resolved.value, "hf_from_config");
    assert_eq!(resolved.source, "hub.token in the config");

    // Whitespace around a pasted token is stripped, not treated as part of it.
    cfg.token = Some("  hf_padded\n".into());
    assert_eq!(cfg.resolve_token(None, None, None).unwrap().value, "hf_padded");

    // A blank entry is the same as no entry, and must not shadow the other sources.
    cfg.token = Some("   ".into());
    assert_eq!(cfg.resolve_token(Some("hf_from_env"), None, None).unwrap().value, "hf_from_env");

    // The environment wins over the config file.
    cfg.token = Some("hf_from_config".into());
    let resolved = cfg.resolve_token(Some("hf_from_env"), None, None).unwrap();
    assert_eq!(resolved.value, "hf_from_env");
    assert_eq!(resolved.source, "the HF_TOKEN environment variable");

    // An empty variable is ignored rather than treated as a token.
    assert_eq!(cfg.resolve_token(Some(""), None, None).unwrap().value, "hf_from_config");

    // The on-disk token follows HF_HOME.
    cfg.token = None;
    let mut e = env(None, Some("/hf"));
    assert_eq!(hf_token_path(&e), "/hf/token");
    let resolved = cfg.resolve_token(None, None, Some("hf_from_disk\n")).unwrap();
    assert_eq!(resolved.value, "hf_from_disk");

    // HF_TOKEN_PATH wins over HF_HOME, as it does for huggingface_hub.
    e.token_path = Some("/hf/other".into());
    assert_eq!(hf_token_path(&e), "/hf/other");
    assert!(cfg.resolve_token(None, None, None).is_none());
}

#[test]
fn a_configured_cache_beats_the_environment() {
    let mut lib = LibraryCfg::defaults(Some("/home/u"));

    // With nothing configured, the environment decides, matching huggingface_hub.
    assert_eq!(lib.hub_cache(&env(None, Some("/env/hf"))), "/env/hf/hub");
    let e = env(Some("/env/explicit"), Some("/env/hf"));
    assert_eq!(lib.hub_cache(&e), "/env/explicit");

    // Configured, it wins. A tool that behaves differently depending on how its terminal
    // was started cannot be debugged.
    lib.hub_cache = Some("/workspace/huggingface/hub".into());
    assert_eq!(lib.hub_cache(&e), "/workspace/huggingface/hub");

    // And it is scanned, whether or not it was also listed as a root.
    assert!(lib.effective_roots(&e).contains(&"/workspace/huggingface/hub".to_string()));

    // So is the FTW directory, or a build paddock wrote is one the library cannot see.
    lib.ftw_dir = Some("/fast/ftw".into());
    assert!(lib.effective_roots(&e).contains(&"/fast/ftw".to_string()));
    lib.roots = vec!["/fast/ftw".into()];
    assert_eq!(
        lib.effective_roots(&e).iter().filter(|r| r.as_str() == "/fast/ftw").count(),
        1,
        "listing it explicitly must not scan it twice"
    );
    lib.ftw_dir = None;
    lib.roots = vec!["/workspace/huggingface/hub".into()];
    assert_eq!(
        lib.effective_roots(&e).iter().filter(|r| r.ends_with("hub")).count(),
        1,
        "listing the cache explicitly must not scan it twice"
    );
}

#[test]
fn a_wildcard_bind_is_polled_on_the_loopback() {
    assert_eq!(poll_host(" 0.0.0.0 "), "127.0.0.1");
    assert_eq!(poll_host("::"), "127.0.0.1");
    assert_eq!(poll_host("gpu-box"), "gpu-box");
    let s = ServerCfg { host: "*".into(), port: 1919, poll_ms: 10, timeout_ms: 4000 };
    assert_eq!(s.base_url(), "http://127.0.0.1:1919");
    assert_eq!(s.poll_period(), 200, "never polled more often than that");
}

#[test]
fn the_places_of_files_follow_their_overrides() {
    assert_eq!(config_dir(Some("/own"), Some("/old"), Some("/xdg")), "/own");
    assert_eq!(config_dir(None, Some("/old"), Some("/xdg")), "/old");
    let dir = config_dir(None, None, Some("/xdg"));
    assert_eq!(dir, "/xdg/paddock");
    assert_eq!(config_dir(None, None, None), "./paddock");
    assert_eq!(state_dir(None, None, None, Some("/data")), "/data/paddock");
    assert_eq!(state_dir(None, None, Some("/state"), Some("/data")), "/state/paddock");
    assert_eq!(config_path(&dir), "/xdg/paddock/config.toml");
    assert_eq!(profiles_path(&dir), "/xdg/paddock/profiles.toml");
    assert_eq!(serve_state_path("/s"), "/s/serve.json");
    assert_eq!(log_dir("/s"), "/s/logs");
}

#[test]
fn the_command_line_is_merged_over_the_file() {
    let mut file = Config::defaults(Some("/home/u"));
    file.freetoken.venv = Some("/venv".into());
    let roots = file.library.roots.clone();
    let with = Overrides {
        host: Some("gpu-box".into()),
        port: Some(1920),
        theme: Some("mono".into()),
        model_roots: vec!["/more".into(), "/home/u/models/".into(), "/more".into()],
        ..Default::default()
    };
    let c = file.overridden(&with);
    assert_eq!(c.server.host, "gpu-box");
    assert_eq!(c.server.port, 1920);
    assert_eq!(c.ui.theme, "mono");
    assert_eq!(c.freetoken.venv.as_deref(), Some("/venv"), "the file decides what is not said");
    assert_eq!(roots, vec!["/home/u/models".to_string()]);
    assert_eq!(c.library.roots, vec!["/home/u/models".to_string(), "/more".to_string()]);
}

fn profile(name: &str, model: &str) -> Profile {
    let mut serve = ServeConfig::new();
    serve.set("model", model);
    Profile { name: name.into(), notes: String::new(), serve }
}

#[test]
fn profiles_are_kept_sorted_and_replaced_by_name() {
    let mut p = Profiles::default();
    p.upsert(profile("b", "1"));
    p.upsert(profile("a", "2"));
    p.upsert(profile("b", "3"));
    let names: Vec<&str> = p.items.iter().map(|x| x.name.as_str()).collect();
    assert_eq!(names, vec!["a", "b"]);
    assert_eq!(p.get("b").unwrap().serve.get("model"), Some("3"));
    assert!(p.remove("a"));
    assert!(!p.remove("a"));
    assert!(p.get("a").is_none());
}
