use paddock::config::FreetokenCfg;
use paddock::ft::checkout::{check, commit_distance, Answers};
use paddock::ft::locate::{candidate_venvs, candidates, read_version, resolve, which, Test};

#[test]
fn a_configured_binary_is_tried_first() {
    let cfg = FreetokenCfg { binary: Some("/x/ft".into()), ..Default::default() };
    let list = candidates(&cfg, Some("/usr/bin/ft"), &vec![], &vec![]);
    assert!(list[0].test == Test::Executable);
    assert_eq!(list[0].found.program, "/x/ft");
    let passed = vec![true; list.len()];
    assert_eq!(resolve(&cfg, &list, &passed, "/c").unwrap().program, "/x/ft");
    let failed = vec![false; list.len()];
    assert!(resolve(&cfg, &list, &failed, "/c").is_err());
}

#[test]
fn what_is_on_path_is_taken_before_a_venv_is_searched_for() {
    let cfg = FreetokenCfg::default();
    let venvs = candidate_venvs(Some("/active"), Some("/home/u"));
    assert_eq!(venvs[0], "/active");
    assert!(venvs.contains(&"/home/u/FreeToken/.venv".to_string()));
    let list = candidates(&cfg, Some("/usr/bin/ft"), &venvs, &vec!["/usr/bin/python3".into()]);
    let passed = vec![true; list.len()];
    assert_eq!(resolve(&cfg, &list, &passed, "/c").unwrap().program, "/usr/bin/ft");
    let list = candidates(&cfg, None, &venvs, &vec!["/usr/bin/python3".into()]);
    let only_python: Vec<bool> = list.iter().map(|c| c.test == Test::Imports).collect();
    let found = resolve(&cfg, &list, &only_python, "/c").unwrap();
    assert_eq!(found.prefix, vec!["-m", "freetoken.cli"]);
    let err = resolve(&cfg, &list, &vec![false; list.len()], "/cfg.toml").unwrap_err();
    assert!(err.contains("/cfg.toml"), "{err}");
}

#[test]
fn a_version_is_the_first_line() {
    assert_eq!(read_version("  freetoken 0.3 \nmore\n").as_deref(), Some("freetoken 0.3"));
    assert_eq!(read_version("\nfreetoken"), None);
    assert_eq!(read_version(""), None);
}

#[test]
fn every_directory_of_path_is_a_place_to_look() {
    let dirs = vec!["/usr/bin".to_string(), "/opt/bin/".to_string()];
    assert_eq!(which("ft", &dirs), vec!["/usr/bin/ft", "/opt/bin/ft"]);
}

#[test]
fn two_counts_are_read_and_one_stands_alone() {
    assert_eq!(commit_distance("3\t5\n"), (3, 5));
    assert_eq!(commit_distance("4\n"), (4, 0));
    assert_eq!(commit_distance("fatal"), (0, 0));
}

#[test]
fn a_checkout_is_what_git_says_it_is() {
    let answers = Answers {
        upstream: Some("https://u.git\n".into()),
        origin: Some("git@o.git".into()),
        local_sha: Some("abc\n".into()),
        upstream_sha: Some("def".into()),
        origin_sha: None,
        distance: Some("1\t2\n".into()),
        missing: Some("7\n".into()),
        status: Some(" M file\n".into()),
    };
    let c = check(&answers).unwrap();
    assert_eq!(c.upstream, "https://u.git");
    assert_eq!((c.origin_ahead, c.origin_behind, c.upstream_behind), (1, 2, 7));
    assert_eq!(c.origin_sha, "");
    assert!(c.dirty);
    let clean = Answers { status: Some("\n".into()), upstream_sha: None, ..answers };
    let c = check(&clean).unwrap();
    assert!(!c.dirty);
    assert_eq!(c.upstream_behind, 0);
    assert!(check(&Answers { origin: None, ..clean }).is_none());
}
