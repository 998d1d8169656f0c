use paddock::ft::locate::Freetoken;
use paddock::ft::preflight::{
    architectures_command, convert_command, not_run, parse_architectures, python_beside,
    python_for, template_command, verdict, Outcome,
};

fn is_clean_with(o: &Outcome, text: &str) -> bool {
    matches!(o, Outcome::Clean(s) if s == text)
}

#[test]
fn outcomes_parse_into_their_three_forms() {
    assert!(is_clean_with(
        &Outcome::parse("OK Qwen3MoE: MoE, 128 experts x 48 layers, expert_quant=nvfp4"),
        "Qwen3MoE: MoE, 128 experts x 48 layers, expert_quant=nvfp4"
    ));
    assert!(matches!(Outcome::parse("WARN the checkpoint declares ..."), Outcome::Warn(_)));
    let failed = Outcome::parse("FAIL ValueError: nope");
    assert!(failed.is_fail());
    assert_eq!(failed.detail(), "ValueError: nope");
}

#[test]
fn unrecognized_output_is_a_failure_not_a_pass() {
    assert!(Outcome::parse("").is_fail());
    assert!(Outcome::parse("Traceback (most recent call last):").is_fail());
    assert!(!Outcome::parse("Segmentation fault").is_clean());
}

#[test]
fn only_a_clean_result_is_clean() {
    assert!(Outcome::Clean("x".into()).is_clean());
    assert!(!Outcome::Warn("x".into()).is_clean());
    assert!(!Outcome::Warn("x".into()).is_fail());
    assert!(Outcome::Fail("x".into()).is_fail());
}

#[test]
fn the_architecture_listing_is_parsed_or_reported() {
    let out = "OK 3\nGptOssForCausalLM\nLlamaForCausalLM\nQwen3MoeForCausalLM\n";
    assert_eq!(
        parse_architectures(out).unwrap(),
        vec!["GptOssForCausalLM", "LlamaForCausalLM", "Qwen3MoeForCausalLM"]
    );
    assert!(parse_architectures("FAIL ImportError: no freetoken").is_err());
    assert!(parse_architectures("OK 0\n").is_err(), "a count with no names is not a list");
    assert!(parse_architectures("").is_err());
}

#[test]
fn a_bare_binary_uses_the_interpreter_beside_it() {
    // A python-form CLI runs its own interpreter.
    let via_python = Freetoken {
        program: "/venv/bin/python".into(),
        prefix: vec!["-m".into(), "freetoken.cli".into()],
        origin: "test".into(),
    };
    assert_eq!(python_for(&via_python, false), Some("/venv/bin/python".to_string()));

    // A bare `ft` with no sibling interpreter has nothing to run.
    let missing = Freetoken {
        program: "/nonexistent/bin/ft".into(),
        prefix: Vec::new(),
        origin: "test".into(),
    };
    assert_eq!(python_for(&missing, false), None);
    assert!(convert_command(&missing, false, "/models/x", "offload").is_none());
}

#[test]
fn an_interpreter_beside_the_binary_runs_the_checks() {
    let ft = Freetoken {
        program: "/venv/bin/ft".into(),
        prefix: Vec::new(),
        origin: "test".into(),
    };
    assert_eq!(python_beside(&ft), Some("/venv/bin/python".to_string()));
    assert_eq!(python_for(&ft, true), Some("/venv/bin/python".to_string()));
    let argv = template_command(&ft, true, "/models/x", "/store/t.jinja").unwrap();
    assert_eq!(argv[0], "/venv/bin/python");
    assert_eq!(argv[1], "-c");
    assert_eq!(&argv[3..], &["/models/x".to_string(), "/store/t.jinja".to_string()]);
    assert!(architectures_command(&ft, true).is_some());
    assert!(architectures_command(&ft, false).is_none());
}

#[test]
fn the_last_line_said_decides_and_silence_is_a_failure() {
    assert!(is_clean_with(&verdict("loading\nOK fine\n\n", ""), "fine"));
    let v = verdict("", "Traceback\nImportError: torch\n\n");
    assert!(v.is_fail());
    assert_eq!(v.detail(), "ImportError: torch");
    assert_eq!(verdict("\n", "").detail(), "the check produced no output");
    assert_eq!(not_run("no such file").detail(), "could not run the check: no such file");
}
