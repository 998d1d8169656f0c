use paddock::actions::{
    answer_confirm, apply_cache, apply_plan, apply_template, build_plan, cache_delete_result,
    cancel_download, cancel_job, choose_variant, clear_finished, clear_logs, clear_requests,
    convert_model, cycle_knob, delete_model, delete_profile, delete_template, dismiss_plan,
    download, download_started, engine_failed, engine_started, fetch_template, find_uv,
    list_template_repo, load_profile,
    offer_hf_install, on_convert_preflight, open_repo, profiles_not_saved, request_apply_sampling,
    request_revert_sampling, request_revert_template, request_stop, rescan, reset_cache,
    run_bench, sampling_reverted, sampling_written, save_profile, search, select_files,
    selection_fits,
    set_cache_pending, set_knob, set_requests_paused, smoke_test, spawned, start_blocked,
    start_engine, template_deleted, template_reverted, template_written, toggle_file, toggle_flag,
    unset_knob, update_freetoken, use_model, uv_places, variant_fits, verify_template, Clock, Done, ReadBack, Reverted,
    Written,
};
use paddock::cache_pools::Pool;
use paddock::compat::read_config;
use paddock::config::{Config, HfEnv, Profiles};
use paddock::ft::locate::Freetoken;
use paddock::ft::preflight::Outcome as Preflight;
use paddock::ft::proc::{Engine, EngineState, Job, JobKind, JobStatus, Run, SIGINT};
use paddock::ft::types::{CacheGeometry, RequestRecord};
use paddock::hub::{start_download, DownloadStatus, RepoFile, RepoInfo, Sample, Sibling};
use paddock::knobs::{knob, ServeConfig};
use paddock::models::{Format, Model};
use paddock::plan::{Level, Plan, Step};
use paddock::sampling::{AppliedSampling, Sampling};
use paddock::state::{
    App, Confirm, ConfirmAction, Effect, HubState, Known, Pending, Purpose, Tab, TemplatesState, ToastKind,
    Tools, Variant,
};
use paddock::templates::{AppliedTemplate, StoredTemplate, TemplateMeta};

const NOW: Clock = Clock { ns: 1_000, ms: 1_000 };

fn model(name: &str, path: &str, format: Format) -> Model {
    Model {
        name: name.into(),
        repo: None,
        variant: None,
        path: path.into(),
        format,
        size_bytes: 0,
        arch: None,
        model_type: None,
        is_moe: false,
        num_experts: None,
        num_layers: None,
        quant: None,
        max_position: None,
        ftw_fingerprint: None,
        converted_to: None,
        modified: None,
        template_status: paddock::templates::Status::BuiltIn,
        sampling_status: paddock::sampling::Status::Checkpoint,
        sampling_effective: None,
        has_inference_config: false,
    }
}

fn stored(name: &str) -> StoredTemplate {
    StoredTemplate {
        name: name.into(),
        path: format!("/store/{name}.jinja"),
        meta: TemplateMeta { version: Some("v2".into()), ..Default::default() },
        size: 0,
    }
}

fn app() -> App {
    App {
        known: Known {
            config: Config::defaults(Some("/home/u")),
            env: HfEnv {
                hub_cache: None,
                hf_home: None,
                token_path: None,
                home: Some("/home/u".into()),
            },
            hub_token: None,
            hub_error: None,
            ft: Some(Freetoken {
                program: "/v/bin/ft".into(),
                prefix: vec![],
                origin: "test".into(),
            }),
            ft_error: None,
            python_beside: true,
            tools: Tools { checkout_dir: None, git: None, uv: None },
            checkout: None,
            hf_cli: None,
            models: vec![
                model("M", "/m/M", Format::Hf),
                model("G", "/m/G", Format::Gguf),
                model("P", "/m/P", Format::PartialFtw),
            ],
            reachable: false,
            current_model: None,
            gpu_busy: None,
        },
        should_quit: false,
        engine: Engine::new(64),
        serve: ServeConfig::new(),
        plan: None,
        profiles: Profiles::default(),
        profile_index: 0,
        jobs: vec![],
        downloads: vec![],
        hub: HubState {
            query: String::new(),
            searching: false,
            results: vec![],
            info: None,
            files: vec![],
            revision: "main".into(),
            variants: vec![],
            variant: None,
            custom_selection: false,
            loading_info: false,
            files_focused: false,
            judged: false,
            checking_compat: false,
        },
        hf_installing: false,
        templates: TemplatesState {
            stored: vec![stored("sharp")],
            repo: String::new(),
            loading: false,
            remote_revision: None,
            checking: false,
            preflight: None,
        },
        pending: Pending::empty(),
        applying: false,
        geometry: None,
        active: 0,
        convert_checking: None,
        origin_summary: None,
        requests: vec![],
        requests_cursor: 0,
        requests_paused: false,
        request_index: 0,
        logs_follow: false,
        logs_scroll: 0,
        tab: Tab::Dashboard,
        confirm: None,
        toasts: vec![],
        effects: vec![],
    }
}

fn last_toast(app: &App) -> (&str, ToastKind) {
    let t = app.toasts.last().expect("something was said");
    (t.text.as_str(), t.kind)
}

fn job(id: u64, kind: JobKind) -> Job {
    let run = Run {
        program: "ft".into(),
        args: vec![],
        cwd: None,
        display: "ft".into(),
        kind,
        title: "t".into(),
        log_capacity: 8,
    };
    run.started(id, Some(500 + id as u32), "/logs/t.log".into(), 0)
}

// ---- the engine

#[test]
fn a_start_needs_a_model_and_focuses_the_field() {
    let mut a = app();
    let e = start_engine(&mut a, None, false).unwrap_err();
    assert_eq!(e.status, 409);
    assert!(e.toasted);
    assert!(a.tab == Tab::Serve);
    assert!(start_blocked(&a).is_some());
    assert!(a.effects.is_empty());
}

#[test]
fn a_start_is_left_to_be_carried_out_and_then_recorded() {
    let mut a = app();
    a.serve.set("model", "/m/M");
    a.serve.set("port", "1920");
    assert!(start_blocked(&a).is_none());
    assert!(matches!(start_engine(&mut a, None, false), Ok(Done::Spawning)));
    let Some(Effect::StartEngine { launch, args, model, port }) = a.effects.pop() else {
        panic!("a start should be asked for")
    };
    assert_eq!(launch.program, "/v/bin/ft");
    assert_eq!(launch.argv, vec!["serve", "--model", "/m/M", "--port", "1920"]);
    assert_eq!((model.as_str(), port), ("/m/M", 1920));
    let (started, done) =
        engine_started(&mut a, 77, Some(5), &launch, &args, "/logs/s.log", &model, port, 9);
    assert_eq!(started.record.unwrap().pid, 77);
    assert!(matches!(done, Done::Started { job_id: None, log_path: Some(p) } if p == "/logs/s.log"));
    assert!(a.engine.state == EngineState::Starting);
    assert!(a.tab == Tab::Logs && a.logs_follow);
    assert_eq!(last_toast(&a).0, "starting /m/M; logging to /logs/s.log");
    let e = start_engine(&mut a, None, false).unwrap_err();
    assert_eq!(e.message, "an engine is already running; stop it first");
}

#[test]
fn a_start_that_failed_says_why() {
    let mut a = app();
    let e = engine_failed(&mut a, "no such file").unwrap_err();
    assert_eq!(e.status, 500);
    assert!(e.message.contains("no such file"));
}

#[test]
fn a_job_on_the_gpu_blocks_a_start() {
    let mut a = app();
    a.serve.set("model", "/m/M");
    a.jobs.push(job(1, JobKind::Bench));
    assert_eq!(
        start_blocked(&a).as_deref(),
        Some("a bench job is using the GPU; wait for it or cancel it first")
    );
}

#[test]
fn a_stop_asks_first_and_then_signals() {
    let mut a = app();
    assert_eq!(request_stop(&mut a, false, NOW).unwrap_err().status, 409);
    a.engine.state = EngineState::Running;
    a.engine.pid = Some(77);
    assert!(matches!(request_stop(&mut a, false, NOW), Ok(Done::ConfirmPending)));
    assert!(a.effects.is_empty(), "nothing happens before the answer");
    let done = answer_confirm(&mut a, true, NOW);
    assert!(done.is_ok());
    assert!(matches!(a.effects[0], Effect::Signal { pid: 77, signal: SIGINT }));
    assert!(a.engine.state == EngineState::Stopping);
    assert_eq!(answer_confirm(&mut a, true, NOW).unwrap_err().status, 409);
}

#[test]
fn without_confirmations_an_action_runs_at_once() {
    let mut a = app();
    a.known.config.ui.confirm_destructive = false;
    a.engine.state = EngineState::Running;
    a.engine.pid = Some(77);
    request_stop(&mut a, true, NOW).unwrap();
    assert!(matches!(a.effects[0], Effect::Signal { pid: 77, signal: 9 }));
    assert!(a.confirm.is_none());
}

#[test]
fn a_declined_confirmation_changes_nothing() {
    let mut a = app();
    delete_template(&mut a, "sharp", NOW).unwrap();
    answer_confirm(&mut a, false, NOW).unwrap();
    assert!(a.effects.is_empty());
    assert!(a.confirm.is_none());
}

#[test]
fn quitting_leaves_the_engine_running() {
    let mut a = app();
    a.engine.state = EngineState::Running;
    a.engine.pid = Some(77);
    a.confirm = Some(Confirm::new("Quit", vec![], ConfirmAction::Quit, false));
    answer_confirm(&mut a, true, NOW).unwrap();
    assert!(a.should_quit && a.effects.is_empty());
    assert!(a.engine.state == EngineState::Running);
    assert_eq!(a.engine.shutdown_blocking_if_requested(), None);
}

#[test]
fn a_refusal_says_whether_it_was_shown() {
    let mut a = app();
    let loud = request_stop(&mut a, false, NOW).unwrap_err();
    assert!(loud.toasted);
    assert_eq!(last_toast(&a), (loud.message.as_str(), ToastKind::Warn));
    let quiet = load_profile(&mut a, "none").unwrap_err();
    assert!(!quiet.toasted);
    assert_eq!(a.toasts.len(), 1);
    assert!(a.effects.is_empty());
}

#[test]
fn a_smoke_test_needs_a_server() {
    let mut a = app();
    assert!(smoke_test(&mut a).is_err());
    a.known.reachable = true;
    smoke_test(&mut a).unwrap();
    assert!(matches!(&a.effects[0], Effect::SmokeTest { prompt, max_tokens: 16 }
        if prompt == "The capital of France is"));
    rescan(&mut a).unwrap();
    assert!(matches!(a.effects[1], Effect::Rescan));
}

#[test]
fn using_a_model_sets_its_path() {
    let mut a = app();
    use_model(&mut a, "/m/M", false, None, false).unwrap();
    assert_eq!(a.serve.get("model"), Some("/m/M"));
    assert!(a.tab == Tab::Serve);
    assert_eq!(use_model(&mut a, "/m/none", false, None, false).unwrap_err().status, 404);
    assert!(use_model(&mut a, "/m/P", false, None, false).is_err());
}

// ---- conversions

#[test]
fn a_conversion_is_checked_then_spawned() {
    let mut a = app();
    a.serve.set("gpu", "1");
    convert_model(&mut a, "/m/M", false, false).unwrap();
    assert!(matches!(&a.effects[0], Effect::ConvertPreflight { source, .. } if source == "/m/M"));
    assert_eq!(a.convert_checking.as_deref(), Some("/m/M"));
    on_convert_preflight(&mut a, "/m/M", Preflight::Clean("fine".into()), NOW);
    let Some(Effect::Spawn { run, purpose }) = a.effects.pop() else { panic!("a job is spawned") };
    assert_eq!(run.title, "M → FTW");
    assert_eq!(
        run.args,
        vec![
            "checkpoint", "--model", "/m/M", "--out", "/home/u/models/M-ftw", "--moe-backend",
            "offload", "--gpu", "1"
        ]
    );
    let started = run.started(4, Some(9), "/logs/c.log".into(), 1);
    let done = spawned(&mut a, purpose, Ok(started)).unwrap();
    assert!(matches!(done, Done::Started { job_id: Some(4), .. }));
    assert_eq!(a.jobs.len(), 1);
}

#[test]
fn a_check_that_failed_asks_before_converting_anyway() {
    let mut a = app();
    convert_model(&mut a, "/m/M", false, false).unwrap();
    on_convert_preflight(&mut a, "/m/M", Preflight::Fail("bad config".into()), NOW);
    assert!(a.confirm.is_some());
    assert!(matches!(&a.confirm.as_ref().unwrap().action, ConfirmAction::ConvertAnyway(p) if p == "/m/M"));
}

#[test]
fn what_cannot_be_converted_is_refused() {
    let mut a = app();
    assert!(convert_model(&mut a, "/m/G", false, false).is_err());
    assert!(convert_model(&mut a, "/m/none", false, false).is_err());
    assert!(convert_model(&mut a, "/m/M", true, false).is_err(), "it is already converted");
}

#[test]
fn a_job_that_could_not_start_is_an_error() {
    let mut a = app();
    let e = spawned(&mut a, Purpose::Bench, Err("no such file".into())).unwrap_err();
    assert_eq!(e.message, "could not start the benchmark: no such file");
    assert_eq!(e.status, 500);
}

#[test]
fn an_update_needs_a_checkout() {
    let mut a = app();
    let e = update_freetoken(&mut a, NOW).unwrap_err();
    assert_eq!((e.status, e.message.as_str()), (503, "no FreeToken checkout to update"));
}

#[test]
fn a_model_is_measured_before_its_deletion_is_asked_for() {
    let mut a = app();
    delete_model(&mut a, "/m/M").unwrap();
    assert!(matches!(&a.effects[0], Effect::MeasureModel { path, .. } if path == "/m/M"));
    assert_eq!(delete_model(&mut a, "/m/none").unwrap_err().status, 404);
}

#[test]
fn what_hf_says_of_a_deletion_is_passed_on() {
    assert!(cache_delete_result("hf", None, true, "0", "", "").is_ok());
    assert_eq!(
        cache_delete_result("hf", Some("gone"), false, "", "", "").unwrap_err(),
        "could not run hf: gone"
    );
}

// ---- the hub

fn listed() -> App {
    let mut a = app();
    a.hub.info = Some(RepoInfo {
        id: "o/r".into(),
        sha: Some("abc".into()),
        gated: read_config("false").unwrap(),
        siblings: vec![
            Sibling { path: "a.gguf".into(), size: Some(5) },
            Sibling { path: "b.gguf".into(), size: Some(7) },
        ],
    });
    a.hub.files = vec![
        RepoFile { path: "a.gguf".into(), size: 5, wanted: true },
        RepoFile { path: "b.gguf".into(), size: 7, wanted: false },
    ];
    a.hub.variants = vec![
        Variant { label: "Q4".into(), files: vec!["a.gguf".into()] },
        Variant { label: "Q8".into(), files: vec!["b.gguf".into()] },
    ];
    a
}

#[test]
fn a_search_is_trimmed_and_an_empty_one_refused() {
    let mut a = app();
    assert!(search(&mut a, "   ").is_err());
    search(&mut a, " qwen ").unwrap();
    assert!(a.hub.searching);
    assert!(matches!(&a.effects[0], Effect::Search { query, limit: 50 } if query == "qwen"));
}

#[test]
fn a_repo_is_listed_and_judged_at_one_revision() {
    let mut a = app();
    open_repo(&mut a, "o/r", Some("v1")).unwrap();
    assert!(a.hub.loading_info);
    assert!(matches!(&a.effects[0], Effect::RepoInfo { revision, .. } if revision == "v1"));
    assert!(matches!(&a.effects[1], Effect::CheckCompatibility { revision, .. } if revision == "v1"));
}

#[test]
fn a_variant_selects_its_files() {
    let mut a = listed();
    choose_variant(&mut a, "Q8").unwrap();
    assert!(!a.hub.files[0].wanted && a.hub.files[1].wanted);
    assert_eq!(a.hub.variant.as_deref(), Some("Q8"));
    assert_eq!(choose_variant(&mut a, "Q2").unwrap_err().status, 409);
}

#[test]
fn files_are_toggled_one_by_one_or_all_at_once() {
    let mut a = listed();
    assert!(toggle_file(&mut a, "b.gguf", None).unwrap());
    assert!(!toggle_file(&mut a, "b.gguf", None).unwrap());
    assert!(toggle_file(&mut a, "b.gguf", Some(true)).unwrap());
    assert!(a.hub.custom_selection);
    assert_eq!(toggle_file(&mut a, "c", None).unwrap_err().status, 404);
    assert_eq!(select_files(&mut a, true), 2);
    assert_eq!(select_files(&mut a, false), 0);
    assert!(a.hub.files.iter().all(|f| !f.wanted));
}

#[test]
fn a_download_needs_the_hf_cli() {
    let mut a = listed();
    assert!(download(&mut a, None, None).is_err());
    a.known.hf_cli = Some("/usr/bin/hf".into());
    a.effects.clear();
    download(&mut a, None, None).unwrap();
    let started = a.effects.iter().find(|e| matches!(e, Effect::StartDownload { .. }));
    let Some(Effect::StartDownload { repo, cli, files, .. }) = started else {
        panic!("a download is left to be started")
    };
    assert_eq!((repo.as_str(), cli.as_str()), ("o/r", "/usr/bin/hf"));
    let paths: Vec<&str> = files.iter().filter(|f| f.wanted).map(|f| f.path.as_str()).collect();
    assert_eq!(paths, vec!["a.gguf"]);
}

/// Without a client nothing is marked as under way, and each refusal says why.
#[test]
fn what_needs_the_hub_is_refused_without_a_client() {
    let mut a = listed();
    a.known.hf_cli = Some("/usr/bin/hf".into());
    a.templates.remote_revision = Some("main".into());
    a.known.hub_error = Some("building the Hub HTTP client: no TLS".into());
    let refused = vec![
        search(&mut a, "qwen").unwrap_err(),
        open_repo(&mut a, "o/r", None).unwrap_err(),
        download(&mut a, None, None).unwrap_err(),
        list_template_repo(&mut a, "o/t").unwrap_err(),
        fetch_template(&mut a, "o/t", None, "chat_template.jinja").unwrap_err(),
    ];
    for e in &refused {
        assert_eq!(e.status, 503);
        assert_eq!(e.message, "building the Hub HTTP client: no TLS");
        assert!(e.toasted);
    }
    assert_eq!(last_toast(&a).1, ToastKind::Error);
    assert_eq!(a.toasts.len(), 5);
    assert!(a.effects.is_empty());
    assert!(!a.hub.searching && !a.hub.loading_info && !a.templates.loading);
    assert_eq!((a.hub.query.as_str(), a.templates.repo.as_str()), ("qwen", "o/t"));
}

#[test]
fn sizes_that_do_not_add_up_are_told_beforehand() {
    let mut a = listed();
    assert!(selection_fits(&a, None, None) && variant_fits(&a, "Q8"));
    a.hub.files[0].size = u64::MAX;
    a.hub.files[1].wanted = true;
    assert!(!selection_fits(&a, None, None));
    assert!(selection_fits(&a, Some("Q8"), None));
    a.hub.variants[1].files.push("a.gguf".into());
    assert!(!variant_fits(&a, "Q8"));
    assert!(variant_fits(&a, "none"));
}

#[test]
fn a_download_that_does_not_start_is_reported() {
    let mut a = app();
    download_started(&mut a, Err("running hf: gone".into()));
    assert_eq!(
        last_toast(&a),
        ("could not start the download: running hf: gone", ToastKind::Error)
    );
    assert!(a.downloads.is_empty());
}

#[test]
fn uv_is_looked_for_on_the_path_and_at_home() {
    let on_path = Some("/usr/bin/uv".to_string());
    assert_eq!(find_uv(on_path.clone(), Some("/home/u"), true, true), on_path);
    let local = Some("/home/u/.local/bin/uv".to_string());
    assert_eq!(find_uv(None, Some("/home/u"), true, true), local);
    let cargo = Some("/home/u/.cargo/bin/uv".to_string());
    assert_eq!(find_uv(None, Some("/home/u"), false, true), cargo);
    assert_eq!(find_uv(None, Some("/home/u"), false, false), None);
    assert_eq!(find_uv(None, None, true, true), None);
    assert_eq!(uv_places("/h"), ("/h/.local/bin/uv".into(), "/h/.cargo/bin/uv".into()));
}

#[test]
fn the_installer_is_offered_once() {
    let mut a = app();
    offer_hf_install(&mut a, NOW).unwrap();
    assert!(matches!(a.confirm.as_ref().unwrap().action, ConfirmAction::InstallHfCli));
    answer_confirm(&mut a, true, NOW).unwrap();
    assert!(a.hf_installing);
    assert!(offer_hf_install(&mut a, NOW).is_err());
}

// ---- templates and sampling

#[test]
fn a_template_repo_is_listed_and_fetched_from() {
    let mut a = app();
    assert!(!list_template_repo(&mut a, " ").unwrap_err().toasted);
    list_template_repo(&mut a, " o/r ").unwrap();
    assert_eq!(a.templates.repo, "o/r");
    assert_eq!(
        fetch_template(&mut a, "o/r", None, "x/chat_template.jinja").unwrap_err().message,
        "no revision is known for that repo; list it first"
    );
    a.templates.remote_revision = Some("abc".into());
    fetch_template(&mut a, "o/r", None, "x/chat_template.jinja").unwrap();
    assert!(matches!(a.effects.last(), Some(Effect::FetchTemplate { revision, name, .. })
        if revision == "abc" && name == "r-x"));
}

#[test]
fn applying_a_template_asks_and_names_every_directory() {
    let mut a = app();
    a.known.models[0].converted_to = Some("/hf/models--o--M/snapshots/x".into());
    assert_eq!(apply_template(&mut a, "none", "/m/M", NOW).unwrap_err().status, 404);
    assert_eq!(apply_template(&mut a, "sharp", "/m/none", NOW).unwrap_err().status, 404);
    apply_template(&mut a, "sharp", "/m/M", NOW).unwrap();
    let c = a.confirm.as_ref().unwrap();
    assert_eq!(c.title, "Apply chat template");
    assert_eq!(c.body[0], "Apply 'sharp' (v2) to M?");
    assert_eq!(c.body[3], "    /m/M");
    assert_eq!(c.body[4], "    /hf/models--o--M/snapshots/x");
    assert!(c.body.iter().any(|l| l.contains("inside the Hugging Face cache")));
    answer_confirm(&mut a, true, NOW).unwrap();
    assert!(matches!(&a.effects[0], Effect::WriteTemplate { template, model }
        if template == "sharp" && model == "/m/M"));
}

fn written(dirs: &[&str]) -> Written {
    Written { dirs: dirs.iter().map(|d| d.to_string()).collect(), failure: None }
}

#[test]
fn a_written_template_is_verified_where_it_stands() {
    let mut a = app();
    let kept = || ReadBack::Kept { name: "sharp".into(), path: "/store/sharp.jinja".into() };
    template_written(&mut a, "sharp", "/m/M", kept(), written(&["/m/M", "/m/M-ftw"]));
    assert!(a.toasts.iter().any(|t| t.text == "applied 'sharp' to 2 directories"));
    assert!(a.templates.checking);
    assert!(matches!(a.effects.last(), Some(Effect::TemplatePreflight { argv, .. })
        if argv[3] == "/m/M" && argv[4] == "/store/sharp.jinja"));

    let mut a = app();
    template_written(&mut a, "sharp", "/m/M", kept(), written(&[]));
    assert_eq!(last_toast(&a).1, ToastKind::Error);
    template_written(&mut a, "sharp", "/m/M", ReadBack::Missing, written(&["/m/M"]));
    assert_eq!(last_toast(&a).0, "template 'sharp' is no longer in the store");
    let lost = Written { dirs: vec![], failure: Some(("/m/M".into(), "denied".into())) };
    template_written(&mut a, "sharp", "/m/M", kept(), lost);
    assert_eq!(last_toast(&a).0, "could not apply to /m/M: denied");
}

fn overridden() -> App {
    let mut a = app();
    a.known.models[0].template_status = paddock::templates::Status::Overridden(AppliedTemplate {
        name: "sharp".into(),
        source: None,
        revision: None,
        version: None,
        applied_at: "now".into(),
        had_original: true,
    });
    a.known.models[0].sampling_status = paddock::sampling::Status::Overridden(AppliedSampling {
        sampling: want(),
        applied_at: "now".into(),
        had_original: true,
    });
    a
}

#[test]
fn only_an_override_can_be_reverted() {
    let mut a = app();
    assert_eq!(
        request_revert_template(&mut a, "/m/M", NOW).unwrap_err().message,
        "M is not using an paddock template override"
    );
    assert_eq!(request_revert_sampling(&mut a, "/m/M", NOW).unwrap_err().status, 409);
    let mut a = overridden();
    request_revert_template(&mut a, "/m/M", NOW).unwrap();
    answer_confirm(&mut a, true, NOW).unwrap();
    assert!(matches!(&a.effects[0], Effect::RevertTemplate(p) if p == "/m/M"));
    template_reverted(&mut a, "/m/M", Reverted { count: 1, failure: None });
    assert_eq!(last_toast(&a).0, "restored the built-in template in 1 director(ies)");
    template_reverted(&mut a, "/m/M", Reverted { count: 0, failure: None });
    assert_eq!(last_toast(&a).0, "found no override to restore");
    request_revert_sampling(&mut a, "/m/M", NOW).unwrap();
    sampling_reverted(&mut a, "/m/M", Reverted { count: 2, failure: None });
    assert_eq!(last_toast(&a).0, "restored the checkpoint's sampling in 2 director(ies)");
}

fn want() -> Sampling {
    Sampling { temperature: Some("0.6".into()), top_k: Some(20), top_p: Some("0.95".into()) }
}

#[test]
fn sampling_defaults_are_refused_where_they_would_be_ignored() {
    let mut a = app();
    let e = request_apply_sampling(&mut a, "/m/G", want(), NOW).unwrap_err();
    assert!(e.status == 409 && e.message.starts_with("G: GGUF carries"));
    let e = request_apply_sampling(&mut a, "/m/M", Sampling::default(), NOW).unwrap_err();
    assert_eq!(e.status, 400);
    a.engine.state = EngineState::Running;
    request_apply_sampling(&mut a, "/m/M", want(), NOW).unwrap();
    let c = a.confirm.as_ref().unwrap();
    assert_eq!(c.body[0], "Serve M with temperature 0.6  top_p 0.95  top_k 20?");
    assert!(c.body.last().unwrap().contains("restart it for this to take effect"));
    sampling_written(&mut a, "/m/M", &want(), written(&["/m/M"]));
    assert!(a.toasts.iter().any(|t| t.text == "set temperature 0.6  top_p 0.95  top_k 20 for M"));
    assert_eq!(last_toast(&a).1, ToastKind::Warn);
}

#[test]
fn a_template_is_verified_only_with_an_interpreter() {
    let mut a = app();
    a.known.python_beside = false;
    assert_eq!(verify_template(&mut a, "sharp", "/m/M").unwrap_err().status, 503);
    a.known.python_beside = true;
    verify_template(&mut a, "sharp", "/m/M").unwrap();
    assert_eq!(last_toast(&a).0, "checking that 'sharp' renders…");
    a.known.ft = None;
    assert_eq!(
        verify_template(&mut a, "sharp", "/m/M").unwrap_err().message,
        "cannot verify the template without the FreeToken CLI"
    );
}

#[test]
fn a_deleted_template_is_announced() {
    let mut a = app();
    delete_template(&mut a, "sharp", NOW).unwrap();
    assert!(a.confirm.as_ref().unwrap().danger);
    answer_confirm(&mut a, true, NOW).unwrap();
    assert!(matches!(&a.effects[0], Effect::DeleteTemplate(n) if n == "sharp"));
    template_deleted(&mut a, "sharp", None);
    assert_eq!(last_toast(&a), ("deleted template 'sharp'", ToastKind::Success));
    template_deleted(&mut a, "sharp", Some("denied"));
    assert_eq!(last_toast(&a), ("could not delete it: denied", ToastKind::Error));
}

// ---- knobs, plans and profiles

#[test]
fn a_knob_reports_what_it_cleared() {
    let mut a = app();
    set_knob(&mut a, "moe_cache_rate", Some("0.5")).unwrap();
    let k = set_knob(&mut a, "moe_cache_size", Some(" 128 ")).unwrap();
    assert!(k.set);
    assert_eq!(k.cleared, vec!["moe_cache_rate"]);
    assert_eq!(a.serve.get("moe_cache_size"), Some("128"));
    let k = set_knob(&mut a, "moe_cache_auto", Some("false")).unwrap();
    assert!(!k.set && k.cleared.is_empty(), "a flag given false clears nothing");
    assert!(!set_knob(&mut a, "moe_cache_size", None).unwrap().set);
    assert!(!a.serve.is_set("moe_cache_size"));
    assert!(last_toast(&a).0.ends_with("reset to its default"));
}

#[test]
fn a_rejected_value_is_quiet_and_leaves_the_knob() {
    let mut a = app();
    let e = set_knob(&mut a, "port", Some("many")).unwrap_err();
    assert_eq!(e.status, 409);
    assert!(!e.toasted && e.message.starts_with("--port: "));
    assert!(a.toasts.is_empty() && !a.serve.is_set("port"));
    let e = set_knob(&mut a, "nope", Some("1")).unwrap_err();
    assert_eq!((e.status, e.message.as_str()), (404, "no knob named 'nope'"));
    unset_knob(&mut a, &knob("port").unwrap(), true);
    assert!(a.toasts.is_empty(), "a knob that is not set is not announced");
}

#[test]
fn a_flag_is_toggled_and_a_choice_is_walked() {
    let mut a = app();
    assert!(toggle_flag(&mut a, "moe_cache_auto", None).unwrap());
    assert!(last_toast(&a).0.ends_with(" on"));
    assert!(!toggle_flag(&mut a, "moe_cache_auto", Some(false)).unwrap());
    assert!(toggle_flag(&mut a, "port", None).unwrap_err().message.ends_with("is not a flag"));
    let first = cycle_knob(&mut a, "moe_strategy", 1).unwrap();
    assert!(first.is_some());
    assert_eq!(cycle_knob(&mut a, "moe_strategy", -1).unwrap(), None, "back through unset");
    assert!(!a.serve.is_set("moe_strategy"));
    let last = cycle_knob(&mut a, "moe_strategy", -1).unwrap();
    assert!(last.is_some() && last != first);
    assert_eq!(cycle_knob(&mut a, "moe_strategy", 1).unwrap(), None);
    assert_eq!(cycle_knob(&mut a, "moe_cache_auto", 1).unwrap().as_deref(), Some("true"));
    assert!(cycle_knob(&mut a, "port", 1).is_err());
}

#[test]
fn a_plan_is_held_applied_and_forgotten() {
    let mut a = app();
    assert_eq!(build_plan(&mut a, Ok(Plan::empty())).unwrap(), false);
    assert!(build_plan(&mut a, Err("no model".into())).unwrap_err().message == "cannot plan: no model");
    assert_eq!(apply_plan(&mut a).unwrap_err().message, "no plan is held");
    let step = || Step::set(Level::Advice, "cuda_graph_max_bs", "16".into(), "because".into());
    let plan = || Plan { steps: vec![step()], fit: None, unpriced: None };
    assert!(build_plan(&mut a, Ok(plan())).unwrap());
    assert_eq!(apply_plan(&mut a).unwrap(), 1);
    assert_eq!(last_toast(&a).0, "applied 1 change — press g to serve with it");
    assert_eq!(a.serve.get("cuda_graph_max_bs"), Some("16"));
    assert!(a.plan.is_none());
    build_plan(&mut a, Ok(plan())).unwrap();
    assert_eq!(apply_plan(&mut a).unwrap(), 0);
    build_plan(&mut a, Ok(plan())).unwrap();
    assert!(build_plan(&mut a, Ok(Plan::empty())).unwrap(), "the earlier plan is still held");
    dismiss_plan(&mut a);
    assert!(a.plan.is_none());
}

#[test]
fn a_saved_profile_is_loaded_back() {
    let mut a = app();
    assert_eq!(save_profile(&mut a, "  ").unwrap_err().status, 400);
    a.serve.set("model", "/m/M");
    assert!(save_profile(&mut a, " night ").unwrap());
    assert!(!save_profile(&mut a, "night").unwrap());
    assert_eq!(last_toast(&a).0, "profile 'night' updated");
    a.serve.set("model", "/m/other");
    load_profile(&mut a, "night").unwrap();
    assert_eq!(a.serve.get("model"), Some("/m/M"));
    assert_eq!(a.profiles.last_used.as_deref(), Some("night"));
    assert_eq!(load_profile(&mut a, "day").unwrap_err().status, 404);
    delete_profile(&mut a, "night", NOW).unwrap();
    answer_confirm(&mut a, true, NOW).unwrap();
    assert!(a.profiles.items.is_empty());
    assert_eq!(a.profiles.last_used, None);
    profiles_not_saved(&mut a, "denied");
    assert_eq!(last_toast(&a).0, "could not save profiles: denied");
}

// ---- the cache

fn geometry() -> CacheGeometry {
    CacheGeometry {
        num_pages: 8192,
        page_size: 1,
        moe_cache_size: 512,
        num_experts: 128,
        num_moe_layers: 48,
        ..Default::default()
    }
}

#[test]
fn a_pool_size_is_staged_within_its_bounds() {
    let mut a = app();
    assert_eq!(set_cache_pending(&mut a, Pool::Moe, Some(1)).unwrap_err().status, 503);
    a.geometry = Some(geometry());
    assert_eq!(set_cache_pending(&mut a, Pool::Moe, Some(999_999)).unwrap(), Some(128 * 48));
    assert_eq!(set_cache_pending(&mut a, Pool::Moe, Some(512)).unwrap(), None, "no edit");
    let e = set_cache_pending(&mut a, Pool::Swa, Some(1)).unwrap_err();
    assert_eq!(e.message, "this model exposes no SWA pool");
}

#[test]
fn a_rebuild_asks_and_sends_what_is_staged() {
    let mut a = app();
    a.geometry = Some(geometry());
    assert_eq!(apply_cache(&mut a, NOW).unwrap_err().message, "nothing to apply");
    set_cache_pending(&mut a, Pool::Moe, Some(1000)).unwrap();
    a.active = 2;
    apply_cache(&mut a, NOW).unwrap();
    let c = a.confirm.as_ref().unwrap();
    assert_eq!(c.body[2], "  MoE: 512 → 1,000 experts");
    assert!(c.body.last().unwrap().starts_with("2 request(s) are in flight."));
    answer_confirm(&mut a, true, NOW).unwrap();
    assert!(matches!(&a.effects[0], Effect::RebuildCache(r)
        if r.moe_cache_size == Some(1000) && r.num_pages.is_none()
            && r.mode == "if_idle" && r.timeout == 300));
    assert!(a.applying);
    reset_cache(&mut a);
    assert!(!a.pending.has_pending());
}

// ---- jobs, logs and requests

#[test]
fn a_bench_waits_for_the_gpu() {
    let mut a = app();
    a.known.gpu_busy = Some("the engine is loading".into());
    assert_eq!(
        run_bench(&mut a).unwrap_err().message,
        "cannot benchmark: the engine is loading"
    );
    a.known.gpu_busy = None;
    a.serve.set("gpu", "0");
    assert!(matches!(run_bench(&mut a), Ok(Done::Spawning)));
    assert!(matches!(&a.effects[0], Effect::Spawn { run, .. }
        if run.args == vec!["bench", "bw", "--gpu", "0"]));
    a.known.ft = None;
    assert_eq!(run_bench(&mut a).unwrap_err().status, 503);
}

#[test]
fn a_running_job_is_canceled_after_the_answer() {
    let mut a = app();
    a.jobs = vec![job(1, JobKind::Convert), job(2, JobKind::Bench)];
    a.jobs[0].status = JobStatus::Done;
    assert_eq!(cancel_job(&mut a, 9, NOW).unwrap_err().message, "no job with id 9");
    assert_eq!(cancel_job(&mut a, 1, NOW).unwrap_err().message, "that job has already finished");
    cancel_job(&mut a, 2, NOW).unwrap();
    answer_confirm(&mut a, true, NOW).unwrap();
    assert!(matches!(a.effects[0], Effect::Signal { pid: 502, signal: SIGINT }));
}

#[test]
fn a_running_download_is_canceled_after_the_answer() {
    let mut a = app();
    let start = Sample { bytes: 0, files_done: 0, pending: String::new() };
    a.downloads.push(start_download(3, "/c", "o/r".into(), "main".into(), 9, 1, &start, 0, 0));
    assert_eq!(cancel_download(&mut a, 4, NOW).unwrap_err().status, 404);
    cancel_download(&mut a, 3, NOW).unwrap();
    answer_confirm(&mut a, true, NOW).unwrap();
    assert!(matches!(a.downloads[0].status, DownloadStatus::Canceled));
    assert_eq!(cancel_download(&mut a, 3, NOW).unwrap_err().status, 409);
    a.jobs = vec![job(1, JobKind::Bench)];
    assert_eq!(clear_finished(&mut a), 1);
    assert_eq!((a.jobs.len(), a.downloads.len()), (1, 0));
    assert_eq!(last_toast(&a).0, "cleared 1 finished entr(ies)");
    assert_eq!(clear_finished(&mut a), 0);
}

#[test]
fn logs_and_requests_are_cleared() {
    let mut a = app();
    a.engine.log.push("hello".into(), false);
    a.logs_scroll = 4;
    clear_logs(&mut a);
    assert!(a.engine.log.snapshot().is_empty());
    assert_eq!(a.logs_scroll, 0);
    set_requests_paused(&mut a, true);
    assert!(a.requests_paused);
    assert_eq!(last_toast(&a).0, "request polling paused");
    a.requests = vec![RequestRecord::default()];
    a.requests_cursor = 7;
    clear_requests(&mut a);
    assert!(a.requests.is_empty());
    assert_eq!(a.requests_cursor, 7);
}

/// From the default through every option, once each, and back to the default.
#[test]
fn a_choice_knob_is_walked_through_to_the_default() {
    let mut a = app();
    let walk = ["radix", "naive"];
    for option in walk {
        assert_eq!(cycle_knob(&mut a, "cache_type", 1).unwrap().as_deref(), Some(option));
        assert_eq!(a.serve.get("cache_type"), Some(option));
    }
    assert_eq!(cycle_knob(&mut a, "cache_type", 1).unwrap(), None);
    assert!(!a.serve.is_set("cache_type"));
}
