use paddock::models::{Format, Model};
use paddock::templates::{
    apply, extract_version, get, is_hub_cache_path, list, name_for, revert, sanitize_name, save,
    status, targets, validate, AppliedTemplate, Revert, Status, StoredTemplate, TemplateMeta,
};

/// A checkpoint directory: its template, the parked original and the marker.
#[derive(Default)]
struct Dir {
    file: Option<String>,
    backup: Option<String>,
    marker: Option<AppliedTemplate>,
}

impl Dir {
    fn with(text: &str) -> Dir {
        Dir { file: Some(text.into()), ..Default::default() }
    }

    fn status(&self) -> Status {
        status(self.marker.as_ref(), self.file.is_some())
    }

    fn apply(&mut self, template: &StoredTemplate, jinja: &str) -> Result<(), String> {
        let has_file = self.file.is_some();
        let a = apply("/m", true, self.marker.as_ref(), has_file, template, jinja, "now")?;
        if a.back_up {
            self.backup = self.file.take();
        }
        self.file = Some(a.content);
        self.marker = Some(a.marker);
        Ok(())
    }

    fn revert(&mut self) -> Result<(), String> {
        let v = revert("/m", self.marker.as_ref(), self.file.is_some(), self.backup.is_some())?;
        self.file = match v {
            Revert::Restore => self.backup.take(),
            Revert::Remove => None,
        };
        self.marker = None;
        Ok(())
    }
}

fn stored(name: &str) -> StoredTemplate {
    StoredTemplate {
        name: name.into(),
        path: "/dev/null".into(),
        meta: TemplateMeta {
            source: Some("org/repo".into()),
            version: Some("v22.4.1".into()),
            ..Default::default()
        },
        size: 0,
    }
}

const JINJA: &str = "{%- set template_version = \"qwen3.8-froggeric-v22.4.1\" %}\n{{ x }}";

#[test]
fn the_declared_version_is_extracted() {
    assert_eq!(extract_version(JINJA).as_deref(), Some("qwen3.8-froggeric-v22.4.1"));
    assert_eq!(extract_version("{%- set template_version = 'v1' %}").as_deref(), Some("v1"));
    assert_eq!(extract_version("{{ nothing }}"), None);
}

#[test]
fn validation_rejects_things_that_are_not_templates() {
    assert!(validate("").is_some());
    assert!(validate("   ").is_some());
    assert!(validate("<!DOCTYPE html><html><body>404</body></html>").is_some());
    assert!(validate("just some prose with no tags").is_some());
    // A truncated tag is caught by the balance check.
    assert!(validate("{% if x %").is_some());
    assert!(validate(JINJA).is_none());
    assert!(validate("{{ messages }}").is_none());

    // What this check deliberately does NOT do: an unclosed `if` is tag-balanced and
    // only a real jinja parser would notice. That is what the render preflight is
    // for, so the cheap check must not pretend to cover it.
    assert!(validate("{% if x %} body").is_none());
}

#[test]
fn names_are_derived_from_the_repo_and_path() {
    assert_eq!(
        name_for("peculiar-ragdoll/Qwen-Sharp-Chat-Templates", "chat_template.jinja"),
        "Qwen-Sharp-Chat-Templates"
    );
    assert_eq!(
        name_for(
            "peculiar-ragdoll/Qwen-Sharp-Chat-Templates",
            "archive/v22.3.2-sharp/chat_template.jinja"
        ),
        "Qwen-Sharp-Chat-Templates-v22.3.2-sharp"
    );
}

#[test]
fn names_stay_safe_as_filenames() {
    assert_eq!(sanitize_name("../../etc/passwd"), "etc-passwd");
    assert_eq!(sanitize_name("a b/c"), "a-b-c");
    assert_eq!(sanitize_name("  ...  "), "template");
    assert!(!sanitize_name("../x").contains('/'));
}

#[test]
fn letters_of_any_script_stay_in_a_name() {
    assert_eq!(sanitize_name("模板 ü☃"), "模板-ü");
    assert_eq!(sanitize_name("a\u{a0}b\u{3000}"), "a-b");
}

#[test]
fn a_clean_name_is_left_as_it_is() {
    for name in ["../../etc/passwd", " a b/c ", "  ...  ", "模板 ü☃", "v1.2_x", "\u{2003}.x."] {
        let once = sanitize_name(name);
        assert_eq!(sanitize_name(&once), once);
    }
    assert_eq!(sanitize_name("template"), "template");
    assert_eq!(sanitize_name("☃ - ☃"), "template");
}

#[test]
fn applying_over_a_checkpoints_own_template_is_reversible() {
    let mut dir = Dir::with("ORIGINAL {{ x }}");
    assert!(matches!(dir.status(), Status::Foreign));

    dir.apply(&stored("sharp"), JINJA).unwrap();
    assert_eq!(dir.file.as_deref(), Some(JINJA));
    assert_eq!(dir.backup.as_deref(), Some("ORIGINAL {{ x }}"));
    let Status::Overridden(a) = dir.status() else { panic!("should be overridden") };
    assert_eq!(a.name, "sharp");
    assert_eq!(a.version.as_deref(), Some("v22.4.1"));
    assert!(a.had_original);

    dir.revert().unwrap();
    assert_eq!(dir.file.as_deref(), Some("ORIGINAL {{ x }}"));
    assert!(dir.backup.is_none());
    assert!(dir.marker.is_none());
}

#[test]
fn applying_to_a_checkpoint_without_one_removes_the_file_on_revert() {
    let mut dir = Dir::default();
    assert!(matches!(dir.status(), Status::BuiltIn));

    dir.apply(&stored("sharp"), JINJA).unwrap();
    assert!(dir.file.is_some());
    assert!(dir.backup.is_none(), "there was nothing to back up");

    dir.revert().unwrap();
    // Leaving even an empty file would keep shadowing tokenizer_config.json.
    assert!(dir.file.is_none());
    assert!(matches!(dir.status(), Status::BuiltIn));
}

#[test]
fn re_applying_preserves_the_checkpoints_genuine_original() {
    let mut dir = Dir::with("ORIGINAL {{ x }}");

    dir.apply(&stored("first"), "{{ first }}").unwrap();
    dir.apply(&stored("second"), "{{ second }}").unwrap();
    // The backup must still be the checkpoint's own, not the first override.
    assert_eq!(dir.backup.as_deref(), Some("ORIGINAL {{ x }}"));

    dir.revert().unwrap();
    assert_eq!(dir.file.as_deref(), Some("ORIGINAL {{ x }}"));
}

#[test]
fn a_marker_without_its_file_is_not_trusted() {
    let mut dir = Dir::default();
    dir.apply(&stored("sharp"), JINJA).unwrap();
    dir.file = None;
    // Someone deleted the template by hand: report reality, not the marker.
    assert!(matches!(dir.status(), Status::BuiltIn));
    assert!(dir.revert().is_err());
}

#[test]
fn a_broken_template_is_refused_before_anything_is_touched() {
    let mut dir = Dir::with("ORIGINAL {{ x }}");
    assert!(dir.apply(&stored("bad"), "not a template").is_err());
    // The checkpoint is untouched: no backup taken, no marker written.
    assert_eq!(dir.file.as_deref(), Some("ORIGINAL {{ x }}"));
    assert!(dir.backup.is_none());
    assert!(dir.marker.is_none());
}

#[test]
fn reverting_when_nothing_was_applied_is_an_error_not_a_silent_no_op() {
    assert!(Dir::default().revert().is_err());
}

#[test]
fn a_lost_original_is_named() {
    let mut dir = Dir::with("ORIGINAL {{ x }}");
    dir.apply(&stored("sharp"), JINJA).unwrap();
    dir.backup = None;
    assert_eq!(
        dir.revert().unwrap_err(),
        "the checkpoint's original template is missing from /m/chat_template.jinja.ft-man-original"
    );
    assert_eq!(
        apply("/gone", false, None, false, &stored("x"), JINJA, "now").unwrap_err(),
        "/gone is not a directory"
    );
}

#[test]
fn a_cache_snapshot_is_recognized_wherever_it_is_mounted() {
    assert!(is_hub_cache_path(
        "/workspace/huggingface/hub/models--unsloth--Qwen3.8/snapshots/abc123"
    ));
    // Same cache, different mount point in a sibling container.
    assert!(is_hub_cache_path("/mnt/shared/hub/models--acme--M/snapshots/deadbeef/nested"));
    assert!(!is_hub_cache_path("/workspace/models/unsloth--Qwen3.8-ftw"));
    assert!(!is_hub_cache_path("/models/models--not--a--cache"));
}

fn model(name: &str, path: &str, format: Format) -> Model {
    Model {
        name: name.into(),
        repo: None,
        variant: None,
        path: path.into(),
        format,
        size_bytes: 0,
        arch: None,
        model_type: None,
        is_moe: false,
        num_experts: None,
        num_layers: None,
        quant: None,
        max_position: None,
        ftw_fingerprint: None,
        converted_to: None,
        modified: None,
        template_status: Status::BuiltIn,
        sampling_status: paddock::sampling::Status::Checkpoint,
        sampling_effective: None,
        has_inference_config: false,
    }
}

/// A GGUF checkpoint downloaded into the cache has no FTW build, because `ft checkpoint`
/// converts safetensors and cannot produce one: with cache paths left out, an apply would
/// have nowhere to go.
#[test]
fn a_cache_checkpoint_is_a_target_so_an_apply_has_somewhere_to_go() {
    let model = Model {
        repo: Some("acme/M".into()),
        variant: Some("Q4_K_M".into()),
        ..model(
            "acme/M:Q4_K_M",
            "/hf/hub/models--acme--M/snapshots/abc123/Q4_K_M",
            Format::Gguf,
        )
    };
    let targets = targets(&model);
    assert_eq!(targets.len(), 1, "a cache checkpoint must still be writable: {targets:?}");
    assert!(is_hub_cache_path(&targets[0]), "and the caller must be able to warn about it");
}

#[test]
fn an_ftw_build_is_targeted_alongside_its_checkpoint() {
    let mut model = model("m", "/models/m", Format::Hf);
    assert_eq!(targets(&model), vec!["/models/m".to_string()]);

    model.converted_to = Some("/models/m-ftw".into());
    assert_eq!(targets(&model), vec!["/models/m".to_string(), "/models/m-ftw".to_string()]);
}

#[test]
fn a_saved_template_records_its_version_and_when_it_was_fetched() {
    let t = save("/store", "my template", JINJA, TemplateMeta::default(), "2026-01-01").unwrap();
    assert_eq!(t.name, "my-template");
    assert_eq!(t.path, "/store/my-template.jinja");
    assert_eq!(t.size as usize, JINJA.len());
    assert_eq!(t.meta.version.as_deref(), Some("qwen3.8-froggeric-v22.4.1"));
    assert_eq!(t.meta.fetched_at.as_deref(), Some("2026-01-01"));
    assert_eq!(t.subtitle(), "qwen3.8-froggeric-v22.4.1");
    let nameless = save("/store", "  ", JINJA, TemplateMeta::default(), "x");
    assert_eq!(nameless.unwrap_err(), "a template needs a name");
    assert!(save("/store", "x", "prose", TemplateMeta::default(), "x").is_err());
}

#[test]
fn the_store_is_listed_by_name() {
    let all = list(vec![stored("b"), stored("a")]);
    assert_eq!(all[0].name, "a");
    assert_eq!(get(&all, "b").unwrap().name, "b");
    assert!(get(&all, "c").is_none());
    assert_eq!(stored("b").subtitle(), "v22.4.1");
    let mut unversioned = stored("b");
    unversioned.meta.version = None;
    assert_eq!(unversioned.subtitle(), "org/repo");
    unversioned.meta.source = None;
    assert_eq!(unversioned.subtitle(), "imported");
}
