use paddock::compat::read_config;
use paddock::json::Json;
use paddock::models::Format;
use paddock::sampling::{
    apply, effective, revert, status, unsupported, AppliedSampling, Sampling, Status,
};
use paddock::templates::Revert;

/// A checkpoint directory: its generation config, the parked original and the marker.
#[derive(Default)]
struct Dir {
    file: Option<String>,
    backup: Option<String>,
    marker: Option<AppliedSampling>,
}

impl Dir {
    fn with(text: &str) -> Dir {
        Dir { file: Some(text.into()), ..Default::default() }
    }

    fn status(&self) -> Status {
        status(self.marker.as_ref(), self.file.is_some())
    }

    fn apply(&mut self, want: &Sampling) -> Result<(), String> {
        let original = match self.backup.as_ref().or(self.file.as_ref()) {
            Some(text) => Ok(text.clone()),
            None => Err("no such file".to_string()),
        };
        let has_file = self.file.is_some();
        let a = apply("/m", true, self.marker.as_ref(), has_file, &original, want, "now")?;
        if a.back_up {
            self.backup = self.file.take();
        }
        let written = a.write?;
        self.file = Some(written.content);
        self.marker = Some(written.marker);
        Ok(())
    }

    fn revert(&mut self) -> Result<(), String> {
        let v = revert("/m", self.marker.as_ref(), self.file.is_some(), self.backup.is_some())?;
        self.file = match v {
            Revert::Restore => self.backup.take(),
            Revert::Remove => None,
        };
        self.marker = None;
        Ok(())
    }

    fn read(&self) -> Json {
        read_config(self.file.as_ref().unwrap()).unwrap()
    }
}

fn number(v: &Json, key: &str) -> f64 {
    match v.get(key) {
        Some(Json::Real(text)) => text.parse().unwrap(),
        Some(Json::Unsigned(n)) => *n as f64,
        other => panic!("{key} is {other:?}"),
    }
}

fn list(v: &Json, key: &str) -> Vec<u64> {
    v.get(key).unwrap().as_array().unwrap().iter().map(|n| n.as_u64().unwrap()).collect()
}

fn want() -> Sampling {
    Sampling { temperature: Some("0.6".into()), top_k: Some(20), top_p: Some("0.95".into()) }
}

fn only_temperature(t: &str) -> Sampling {
    Sampling { temperature: Some(t.into()), ..Default::default() }
}

#[test]
fn apply_preserves_everything_that_is_not_sampling() {
    let mut dir = Dir::with(r#"{"eos_token_id": [1, 2], "temperature": 1.0, "top_p": 0.8}"#);

    dir.apply(&want()).unwrap();

    let out = dir.read();
    // The stop ids are the reason this is a merge and not a replacement.
    assert_eq!(list(&out, "eos_token_id"), vec![1, 2]);
    assert_eq!(number(&out, "temperature"), 0.6);
    assert_eq!(number(&out, "top_p"), 0.95);
    assert_eq!(number(&out, "top_k"), 20.0);
    assert_eq!(out.get("do_sample").unwrap().as_bool(), Some(true));
}

#[test]
fn the_original_is_moved_aside_not_overwritten() {
    let mut dir = Dir::with(r#"{"temperature": 1.0}"#);

    dir.apply(&want()).unwrap();

    assert_eq!(dir.backup.as_deref(), Some(r#"{"temperature": 1.0}"#));
    assert!(dir.status().is_overridden());
}

#[test]
fn reapplying_merges_over_the_original_not_over_the_last_override() {
    let mut dir = Dir::with(r#"{"eos_token_id": 7, "temperature": 1.0}"#);

    dir.apply(&want()).unwrap();
    dir.apply(&only_temperature("0.3")).unwrap();

    let out = dir.read();
    assert_eq!(number(&out, "temperature"), 0.3);
    assert_eq!(number(&out, "eos_token_id"), 7.0);
    // Dropped from the second override, so it must not linger from the first.
    assert!(out.get("top_k").is_none(), "stale top_k survived a re-apply");
    assert!(out.get("top_p").is_none(), "stale top_p survived a re-apply");
    // And the backup is still the checkpoint's, not the first override's.
    let backup = read_config(dir.backup.as_ref().unwrap()).unwrap();
    assert_eq!(number(&backup, "temperature"), 1.0);
}

#[test]
fn revert_restores_the_original_exactly() {
    let original = r#"{"eos_token_id": 7, "temperature": 1.0}"#;
    let mut dir = Dir::with(original);

    dir.apply(&want()).unwrap();
    dir.revert().unwrap();

    assert_eq!(dir.file.as_deref(), Some(original));
    assert!(dir.backup.is_none());
    assert!(dir.marker.is_none());
    assert!(!dir.status().is_overridden());
}

#[test]
fn revert_removes_the_file_when_the_checkpoint_never_had_one() {
    let mut dir = Dir::default();

    dir.apply(&want()).unwrap();
    assert!(dir.file.is_some());

    dir.revert().unwrap();
    // Leaving an empty or stale file behind would keep feeding the engine our numbers.
    assert!(dir.file.is_none());
}

#[test]
fn a_greedy_override_is_written_as_do_sample_false() {
    let mut dir = Dir::with(r#"{"eos_token_id": 7, "top_p": 0.8}"#);

    dir.apply(&only_temperature("0.0")).unwrap();

    let out = dir.read();
    assert_eq!(out.get("do_sample").unwrap().as_bool(), Some(false));
    assert_eq!(number(&out, "eos_token_id"), 7.0);
    // The loader ignores these once do_sample is false; leaving them would mislead.
    assert!(out.get("top_p").is_none());
}

#[test]
fn a_sampling_override_overrules_a_greedy_checkpoint() {
    // Without do_sample: true on the way out, load_generation_sampling short-circuits
    // on the checkpoint's false and never reads a single value paddock wrote.
    let mut dir = Dir::with(r#"{"do_sample": false}"#);

    dir.apply(&want()).unwrap();

    assert_eq!(dir.read().get("do_sample").unwrap().as_bool(), Some(true));
}

#[test]
fn status_ignores_a_marker_whose_file_has_gone() {
    let mut dir = Dir::with("{}");
    dir.apply(&want()).unwrap();

    dir.file = None;

    assert!(!dir.status().is_overridden(), "a marker outlived the file it describes");
}

#[test]
fn effective_reads_a_checkpoint_ft_man_never_touched() {
    let s = effective(Some(r#"{"temperature": 0.7, "top_k": 20}"#)).unwrap();
    assert_eq!(s.temperature.map(|t| t.parse::<f64>().unwrap()), Some(0.7));
    assert_eq!(s.top_k, Some(20));
    assert_eq!(s.top_p, None);
}

#[test]
fn effective_reads_do_sample_false_the_way_the_engine_will() {
    assert!(effective(Some(r#"{"do_sample": false, "temperature": 0.7}"#)).unwrap().is_greedy());
}

#[test]
fn what_is_no_object_has_no_sampling() {
    assert!(effective(None).is_none());
    assert!(effective(Some("[1]")).is_none());
    assert!(effective(Some("nonsense")).is_none());
    assert!(effective(Some(r#"{"eos_token_id": 7}"#)).is_none());
}

#[test]
fn validate_rejects_what_the_engine_would_not_take() {
    let top_p = |p: &str| Sampling { top_p: Some(p.into()), ..Default::default() };
    assert!(Sampling::default().validate().is_some());
    assert!(only_temperature("3.0").validate().is_some());
    assert!(top_p("1.5").validate().is_some());
    assert!(top_p("0.0").validate().is_some());
    assert!(Sampling { top_k: Some(0), ..Default::default() }.validate().is_some());
    assert!(Sampling { top_k: Some(-1), ..Default::default() }.validate().is_none());
    assert!(want().validate().is_none());
}

#[test]
fn warnings_call_out_filters_that_cannot_fire() {
    assert!(!Sampling { top_p: Some("0.9".into()), ..Default::default() }.warnings().is_empty());
    assert!(!Sampling {
        temperature: Some("0.0".into()),
        top_k: Some(20),
        ..Default::default()
    }
    .warnings()
    .is_empty());
    assert!(want().warnings().is_empty());
}

#[test]
fn gguf_is_refused_because_the_override_would_be_ignored() {
    assert!(unsupported(Format::Gguf).is_some());
    assert!(unsupported(Format::Hf).is_none());
    assert!(unsupported(Format::Ftw).is_none());
}

/// A real Qwen-family `generation_config.json`: `pad_token_id` and the two-entry
/// `eos_token_id` are the fields that matter, since FreeToken unions that list into its stop
/// ids and a model that loses them does not stop talking.
const QWEN: &str = r#"{
  "bos_token_id": 151643,
  "do_sample": true,
  "eos_token_id": [
    151645,
    151643
  ],
  "max_length": 40960,
  "pad_token_id": 151654,
  "temperature": 0.6,
  "top_k": 20,
  "top_p": 0.95,
  "transformers_version": "5.5.4"
}"#;

#[test]
fn an_override_on_a_real_config_changes_only_the_sampling() {
    let mut dir = Dir::with(QWEN);
    let s =
        Sampling { temperature: Some("1.0".into()), top_k: None, top_p: Some("0.8".into()) };
    dir.apply(&s).unwrap();

    let out = dir.read();
    assert_eq!(number(&out, "temperature"), 1.0);
    assert_eq!(number(&out, "top_p"), 0.8);
    // Dropped from the override, so dropped from the file: the engine falls back to
    // top_k -1 rather than to the 20 the checkpoint happened to recommend.
    assert!(out.get("top_k").is_none());
    // Everything the file is also for.
    assert_eq!(list(&out, "eos_token_id"), vec![151645, 151643]);
    assert_eq!(number(&out, "pad_token_id"), 151654.0);
    assert_eq!(number(&out, "bos_token_id"), 151643.0);
    assert_eq!(number(&out, "max_length"), 40960.0);
    assert_eq!(out.get("transformers_version").unwrap().as_str(), Some("5.5.4"));

    // And this is what FreeToken's loader would make of the result.
    let read = Sampling::from_config(out.as_object().unwrap());
    assert_eq!(read.temperature.map(|t| t.parse::<f64>().unwrap()), Some(1.0));
    assert_eq!(read.top_k, None);
    assert_eq!(read.top_p.map(|p| p.parse::<f64>().unwrap()), Some(0.8));

    dir.revert().unwrap();
    assert_eq!(dir.file.as_deref(), Some(QWEN));
}

#[test]
fn the_written_config_is_spread_over_lines() {
    let mut dir = Dir::default();
    dir.apply(&only_temperature("0.5")).unwrap();
    assert_eq!(dir.file.as_deref(), Some("{\n  \"do_sample\": true,\n  \"temperature\": 0.5\n}"));
}

#[test]
fn a_config_that_cannot_be_read_is_left_alone() {
    let mut dir = Dir::with("nonsense");
    let err = dir.apply(&want()).unwrap_err();
    assert!(err.starts_with("reading /m/generation_config.json.ft-man-original: "), "{err}");
    assert!(err.contains("is not valid JSON"), "{err}");
}

#[test]
fn a_summary_reads_as_the_engine_reports_it() {
    assert_eq!(want().summary(), "temperature 0.6  top_p 0.95  top_k 20");
    assert_eq!(only_temperature("0").summary(), "greedy (temperature 0)");
}
