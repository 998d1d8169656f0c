use paddock::compat::read_config;
use paddock::config::Config;
use paddock::ft::proc::Waited;
use paddock::hub::{
    ancestors, cache_repo_dir, cli_places, download_args, download_env, fetched_text, glob_match,
    head_size, install_cli, installed_places, jinja_files, last_line, locate_cli, refused, sample,
    select_files, start_download, total_size, urlencode, wanted_files, CliFound, DownloadEvent,
    DownloadReport, DownloadStatus, DownloadWatch, Hub, RepoFile, RepoSummary, Sample, Sibling,
};

fn sib(path: &str, size: u64) -> Sibling {
    Sibling { path: path.into(), size: Some(size) }
}

#[test]
fn duplicate_weight_formats_are_deselected() {
    let ignore = vec!["*.bin".to_string(), "*.h5".to_string()];
    let files = select_files(
        &vec![
            sib("model-00001-of-00002.safetensors", 100),
            sib("pytorch_model.bin", 100),
            sib("tf_model.h5", 100),
            sib("config.json", 10),
            sib("tokenizer.json", 10),
        ],
        &ignore,
    );
    let wanted: Vec<&str> =
        files.iter().filter(|f| f.wanted).map(|f| f.path.as_str()).collect();
    assert_eq!(
        wanted,
        vec!["config.json", "model-00001-of-00002.safetensors", "tokenizer.json"]
    );
}

#[test]
fn gguf_is_kept_only_when_there_are_no_safetensors() {
    let with = select_files(&vec![sib("model.safetensors", 1), sib("model.gguf", 1)], &vec![]);
    assert!(!with.iter().find(|f| f.path.ends_with(".gguf")).unwrap().wanted);

    let without = select_files(&vec![sib("model.gguf", 1)], &vec![]);
    assert!(without[0].wanted);
}

#[test]
fn export_subdirectories_are_skipped() {
    let files = select_files(&vec![sib("onnx/model.onnx", 1), sib("config.json", 1)], &vec![]);
    assert!(!files.iter().find(|f| f.path.starts_with("onnx/")).unwrap().wanted);
}

#[test]
fn globs_match_at_either_end() {
    assert!(glob_match("*.bin", "pytorch_model.bin"));
    assert!(!glob_match("*.bin", "model.safetensors"));
    assert!(glob_match("consolidated*", "consolidated.00.pth"));
    assert!(glob_match("config.json", "config.json"));
}

#[test]
fn revisions_with_slashes_are_encoded() {
    assert_eq!(urlencode("refs/pr/3"), "refs%2Fpr%2F3");
    assert_eq!(urlencode("main"), "main");
}

/// The cache keys on organization *and* name: by the basename alone, two repos of the same
/// name would land in one directory and silently merge.
#[test]
fn a_repo_maps_to_an_org_qualified_cache_directory() {
    assert_eq!(
        cache_repo_dir("/hf/hub", "Qwen/Qwen3.6-35B-A3B"),
        "/hf/hub/models--Qwen--Qwen3.6-35B-A3B"
    );
    assert_ne!(
        cache_repo_dir("/hf/hub", "unsloth/Qwen3-GGUF"),
        cache_repo_dir("/hf/hub", "bartowski/Qwen3-GGUF")
    );
}

fn file(path: &str, size: u64, wanted: bool) -> RepoFile {
    RepoFile { path: path.into(), size, wanted }
}

#[test]
fn only_jinja_files_are_listed_in_order() {
    let found = jinja_files(&vec![
        sib("b/chat.jinja", 1),
        sib("config.json", 1),
        sib("a.jinja", 1),
    ]);
    let paths: Vec<&str> = found.iter().map(|s| s.path.as_str()).collect();
    assert_eq!(paths, vec!["a.jinja", "b/chat.jinja"]);
}

#[test]
fn a_gated_repo_says_so() {
    let mut r = RepoSummary {
        id: "a/b".into(),
        downloads: 1,
        likes: 1,
        last_modified: None,
        tags: vec!["nvfp4".into(), "region:us".into()],
        gated: read_config("\"manual\"").unwrap(),
        private: false,
    };
    assert!(r.is_gated());
    r.gated = read_config("false").unwrap();
    assert!(!r.is_gated());
    assert!(r.interesting_tags().contains(&"nvfp4".to_string()));
}

#[test]
fn the_urls_of_a_hub_are_made_of_its_endpoint() {
    let hub = Hub::new("https://huggingface.co/", None);
    assert!(!hub.has_token());
    let (url, query) = hub.info("Qwen/Q", "refs/pr/3");
    assert_eq!(url, "https://huggingface.co/api/models/Qwen/Q/revision/refs%2Fpr%2F3");
    assert_eq!(query, vec![("blobs".to_string(), "true".to_string())]);
    assert_eq!(
        hub.resolve_url("Qwen/Q", "main", "config.json"),
        "https://huggingface.co/Qwen/Q/resolve/main/config.json"
    );
    let (url, query) = hub.search("qwen", 20);
    assert_eq!(url, "https://huggingface.co/api/models");
    assert_eq!(query[0], ("search".to_string(), "qwen".to_string()));
    assert_eq!(query[1], ("limit".to_string(), "20".to_string()));
}

#[test]
fn a_reply_that_is_no_template_is_refused() {
    assert_eq!(fetched_text("t", "200 OK", true, "{{ x }}".into()).unwrap(), "{{ x }}");
    assert_eq!(fetched_text("t", "404 Not Found", false, "".into()).unwrap_err(), "t: HTTP 404 Not Found");
    let big = "x".repeat(5 << 20);
    assert!(fetched_text("t", "200 OK", true, big).unwrap_err().contains("too large"));
    assert_eq!(
        refused("searching the Hub", "500", &vec![b'n', b'o', 0xff]),
        "searching the Hub: 500 no\u{fffd}"
    );
}

#[test]
fn the_linked_size_wins_over_the_content_length() {
    assert_eq!(head_size(Some("12"), Some("34")), Some(12));
    assert_eq!(head_size(None, Some("34")), Some(34));
    assert_eq!(head_size(Some("x"), Some("34")), None);
    assert_eq!(head_size(None, None), None);
}

#[test]
fn a_download_names_exactly_the_wanted_files() {
    let files = vec![file("a", 5, true), file("b", 7, false), file("c", 9, true)];
    let wanted = wanted_files(&files).unwrap();
    assert_eq!(total_size(&wanted), Some(14));
    assert_eq!(
        download_args("o/r", "main", 0, &wanted),
        vec!["download", "o/r", "--revision", "main", "--max-workers", "1", "--format", "json", "a", "c"]
    );
    assert_eq!(wanted_files(&vec![file("b", 7, false)]).unwrap_err(), "no files selected");
    assert_eq!(total_size(&vec![file("a", u64::MAX, true), file("b", 1, true)]), None);
}

#[test]
fn a_token_goes_into_the_environment_and_never_into_the_arguments() {
    let env = download_env("/hf/hub", Some("secret"));
    assert!(env.contains(&("HF_TOKEN".to_string(), "secret".to_string())));
    assert!(env.contains(&("HF_HUB_CACHE".to_string(), "/hf/hub".to_string())));
    assert_eq!(download_env("/hf/hub", None).len(), 2);
}

#[test]
fn progress_counts_whole_files_and_what_is_staged() {
    let wanted = vec![file("a", 5, true), file("b", 7, true), file("c", 0, true)];
    let s = sample(&wanted, &vec![Some(5), Some(3), Some(0)], &vec![4], 100);
    assert_eq!((s.bytes, s.files_done, s.pending.as_str()), (9, 1, "b"));
    let s = sample(&wanted, &vec![Some(5), Some(7), None], &vec![1000], 12);
    assert_eq!((s.bytes, s.files_done, s.pending.as_str()), (12, 2, "c"), "never past the total");
}

fn watch() -> DownloadWatch {
    DownloadWatch {
        id: 3,
        repo_dir: "/hf/hub/models--o--r".into(),
        total: 12,
        files_done: 0,
        done: 5,
        pending: String::new(),
    }
}

#[test]
fn a_tick_reports_files_and_never_goes_back() {
    let mut w = watch();
    let events = w.tick(Sample { bytes: 4, files_done: 2, pending: "b".into() });
    assert_eq!(w.done, 5, "bytes are monotonic");
    assert_eq!(w.files_done, 2);
    assert_eq!(events.len(), 3);
    assert!(matches!(&events[2], DownloadEvent::Progress { id: 3, current } if current == "b"));
    let events = w.tick(Sample { bytes: 9, files_done: 2, pending: "b".into() });
    assert!(events.is_empty());
    assert_eq!(w.done, 9);
}

#[test]
fn a_finished_download_reports_where_it_landed() {
    let mut w = watch();
    let done = Waited::Exited { code: Some(0), signal: None };
    let e = w.finish(&done, Some(DownloadReport { path: "/snap".into() }), "");
    assert!(matches!(&e, DownloadEvent::Finished { id: 3, result: Ok(p) } if p == "/snap"));
    assert_eq!(w.done, 12);
    let e = watch().finish(&done, None, "");
    assert!(matches!(&e, DownloadEvent::Finished { result: Ok(p), .. } if p == "/hf/hub/models--o--r"));
    let failed = Waited::Exited { code: Some(1), signal: None };
    let e = watch().finish(&failed, None, "warning\n  no space left \n\n");
    assert!(matches!(&e, DownloadEvent::Finished { result: Err(e), .. }
        if e == "hf download exited 1: no space left"));
    let e = watch().finish(&Waited::Lost("gone".into()), None, "");
    assert!(matches!(&e, DownloadEvent::Finished { result: Err(e), .. } if e == "hf download: gone"));
    assert!(matches!(watch().canceled(), DownloadEvent::Finished { result: Err(e), .. } if e == "canceled"));
}

#[test]
fn a_download_is_tracked_from_its_start_to_its_cancellation() {
    let start = Sample { bytes: 5, files_done: 1, pending: "b".into() };
    let mut d = start_download(7, "/hf/hub", "o/r".into(), "main".into(), 12, 2, &start, 1_000, 0);
    assert_eq!(d.target, "/hf/hub/models--o--r");
    assert_eq!(d.share(), (5, 12));
    assert!(d.is_running());
    assert_eq!(d.elapsed(3_500), 2_500);
    assert_eq!(d.sample_rate(1), None, "too soon for a rate");
    d.done_bytes = 9;
    assert_eq!(d.sample_rate(500_000_000), Some((9, 500_000_000)));
    d.cancel(4_000);
    assert!(matches!(d.status, DownloadStatus::Canceled));
    assert!(d.cancel_requested);
    assert_eq!(d.elapsed(9_000), 3_000);
}

#[test]
fn the_hf_cli_is_looked_for_in_order() {
    let mut cfg = Config::defaults(Some("/home/u"));
    cfg.freetoken.venv = Some("~/ft/.venv".into());
    let places = cli_places(&cfg, Some("/opt/ft/bin/ft"), Some("/home/u"));
    assert_eq!(places.in_venv.as_deref(), Some("/home/u/ft/.venv/bin/hf"));
    assert_eq!(places.beside_ft.as_deref(), Some("/opt/ft/bin/hf"));
    let found = CliFound { configured: false, in_venv: false, beside_ft: true, on_path: Some("/usr/bin/hf".into()) };
    assert_eq!(locate_cli(&places, &found, "/c").unwrap(), "/opt/ft/bin/hf");
    let none = CliFound { configured: false, in_venv: false, beside_ft: false, on_path: None };
    assert!(locate_cli(&places, &none, "/cfg.toml").unwrap_err().contains("set hub.cli in /cfg.toml"));
    cfg.hub.cli = Some("/x/hf".into());
    let places = cli_places(&cfg, Some("/opt/ft/bin/ft"), Some("/home/u"));
    assert_eq!(
        locate_cli(&places, &found, "/c").unwrap_err(),
        "hub.cli is set to /x/hf, which is not an executable"
    );
}

#[test]
fn an_installer_is_believed_only_where_hf_is_found() {
    let (first, second) = installed_places(Some("/home/u"));
    assert_eq!(first, "/home/u/.local/bin/hf");
    assert_eq!(second, "/home/u/.cargo/bin/hf");
    let ok = Waited::Exited { code: Some(0), signal: None };
    assert_eq!(install_cli(&ok, "", Some(first), None, None).unwrap(), "/home/u/.local/bin/hf");
    assert!(install_cli(&ok, "", None, None, None).unwrap_err().contains("still not on PATH"));
    let bad = Waited::Exited { code: Some(22), signal: None };
    assert_eq!(
        install_cli(&bad, "curl: (22)\n", None, None, None).unwrap_err(),
        "the installer exited 22: curl: (22)"
    );
    assert_eq!(
        install_cli(&Waited::Lost("no bash".into()), "", None, None, None).unwrap_err(),
        "could not run the installer: no bash"
    );
}

#[test]
fn the_last_line_that_says_something_is_the_reason() {
    assert_eq!(last_line("a\n  b  \n\n"), "b");
    assert_eq!(last_line("\n"), "no output");
}

#[test]
fn free_space_is_looked_for_on_the_way_up() {
    assert_eq!(ancestors("/a/b/c"), vec!["/a/b/c", "/a/b", "/a", "/"]);
}
