use paddock::config::{HubToken, ServerCfg};
use paddock::doctor::{doctor, Facts};
use paddock::ft::locate::Freetoken;
use paddock::ft::types::{Health, LoadProgress, RequestPage, RequestRecord};
use paddock::models::{inspect, Entry, Found, Model};
use paddock::probe::parse_smi_line;
use paddock::runtime::{Next, Poll};

fn health(status: &str) -> Health {
    Health { status: status.into(), ..Default::default() }
}

#[test]
fn a_loading_engine_is_asked_for_nothing_else() {
    let mut poll = Poll::new();
    assert_eq!(poll.health(Some(&health("loading"))), Next::Rest);
    assert_eq!(poll.health(Some(&health("ok"))), Next::ReadAll { cursor: 0, limit: 200 });
}

#[test]
fn the_cursor_follows_the_pages_and_starts_over_with_the_server() {
    let mut poll = Poll::new();
    let page = RequestPage { entries: vec![RequestRecord::default()], next_cursor: 5 };
    assert_eq!(poll.page(page).unwrap().next_cursor, 5);
    assert!(poll.page(RequestPage { entries: vec![], next_cursor: 5 }).is_none(), "no news");
    assert!(poll.page(RequestPage { entries: vec![], next_cursor: 6 }).is_some());
    assert_eq!(poll.cursor, 6);
    assert_eq!(poll.health(None), Next::Rest);
    assert_eq!(poll.cursor, 0);
    poll.cursor = 9;
    poll.moved();
    assert_eq!(poll.cursor, 0);
}

fn model(name: &str, size: u64) -> Model {
    let found = Found {
        path: format!("/m/{name}"),
        modified: None,
        files: vec![Entry { name: "model.gguf".into(), size: Some(size) }],
        has_index: false,
        has_config: false,
        template_status: paddock::templates::Status::BuiltIn,
        sampling_status: paddock::sampling::Status::Checkpoint,
        sampling_effective: None,
        has_inference_config: false,
    };
    inspect(found, None, None).unwrap()
}

fn facts(models: Vec<Model>) -> Facts {
    Facts {
        version: "0.1.0".into(),
        config_file: "/c/config.toml".into(),
        profiles: "/c/profiles.toml".into(),
        state: "/s".into(),
        logs: "/s/logs".into(),
        ft: Ok(Freetoken {
            program: "/v/bin/ft".into(),
            prefix: vec![],
            origin: "the venv".into(),
        }),
        ft_version: None,
        server: ServerCfg { host: "0.0.0.0".into(), port: 1919, poll_ms: 1000, timeout_ms: 1 },
        hf_cli: Err("no hf".into()),
        roots: vec![("/m".into(), true), ("/hf/hub".into(), false)],
        cache: "/hf/hub/".into(),
        ftw_dir: "/ftw".into(),
        models,
        endpoint: "https://huggingface.co".into(),
        token: Some(HubToken {
            value: "x".into(),
            source: "the HF_TOKEN environment variable",
        }),
        token_path: "/hf/token".into(),
        gpu_source: "nvidia-smi".into(),
        nvml_error: Some("no NVML".into()),
        gpus: vec![parse_smi_line("0, A, GPU-a, 8192, 512, 1, 2, 3.0, 4.0, 5, 6").unwrap()],
        bench: None,
        serve: None,
    }
}

#[test]
fn the_report_names_what_was_resolved() {
    let lines = doctor(&facts(vec![model("tiny", 4096)]));
    let has = |line: &str| assert!(lines.iter().any(|l| l == line), "{line:?} is not in {lines:#?}");
    assert_eq!(lines[0], "paddock 0.1.0");
    has("config file    /c/config.toml");
    has("FreeToken CLI  /v/bin/ft");
    has("  version      (could not run --version)");
    has("server         http://127.0.0.1:1919");
    has("hf CLI        NOT FOUND");
    has("  no hf");
    has("  /m");
    has("  /hf/hub  (Hugging Face cache)  (missing)");
    has("  1 checkpoint(s) found");
    has("    GGUF     4.0 KiB  tiny");
    has("  token        found via the HF_TOKEN environment variable");
    has("  NVML         no NVML");
    has("  [0] A  512 MiB / 8.0 GiB  GPU-a");
    has("bench profile  NOT FOUND");
}

#[test]
fn a_long_library_is_cut_short() {
    let models = (0..23).map(|i| model(&format!("m{i}"), 1)).collect();
    let lines = doctor(&facts(models));
    assert!(lines.iter().any(|l| l == "    … and 3 more"));
    assert_eq!(lines.iter().filter(|l| l.contains("GGUF")).count(), 20);
}

/// A server that loads more than it announced is done, not more than done.
#[test]
fn loading_never_goes_past_the_whole() {
    let loading = |done_bytes: u64, total_bytes: u64| Health {
        progress: Some(LoadProgress { done_bytes, total_bytes }),
        ..health("loading")
    };
    assert_eq!(loading(3, 12).load_share(), Some((3, 12)));
    assert_eq!(loading(13, 12).load_share(), Some((12, 12)));
    assert_eq!(loading(3, 0).load_share(), None);
    assert_eq!(health("loading").load_share(), None);
}
