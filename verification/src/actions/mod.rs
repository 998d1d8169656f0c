//! Every operation the two front ends share.
//!
//! A key in the TUI and a request to the web server must do the same thing, so the thing
//! itself lives here once, as a function of `&mut App` plus an explicit target: a model
//! *path*, a job *id*, a profile *name*, a knob *key and value*. The terminal resolves
//! "the selected row" to a target and calls in; the web layer resolves a request body to
//! the same target and calls the same function.
//!
//! Refusals are reported twice over, deliberately. A refusal about the *state* of the
//! machine (an engine already running, a GPU already busy) pushes the toast the TUI has
//! always shown and also returns a [`Refusal`] carrying the HTTP status the web API
//! documents for it, so the terminal keeps behaving exactly as it did while a browser
//! learns why nothing happened.
//!
//! A refusal about the *request* does not toast. A rejected knob value, an empty profile
//! name, a path that is no longer in the library: each belongs against the field or the row
//! that produced it, where the reader is already looking, and a floating toast beside it is
//! the same problem rendered twice. The terminal has no inline slot, so it raises
//! those toasts on its own side of the shared action.
//!
//! Every `Refusal` therefore carries [`Refusal::toasted`], and the web error envelope
//! reports it, so a client knows whether a toast is also on its way.

pub mod engine;
pub mod hub;
pub mod jobs;
pub mod serve;
pub mod templates;

pub use crate::actions::engine::{
    convert_model, delete_confirm, delete_model, engine_failed, engine_started, find_uv,
    on_convert_preflight, reconvert_confirm, request_stop, rescan, smoke_test, start_blocked,
    start_engine, summarize_origin, update_freetoken, use_model, uv_places,
};
pub use crate::actions::hub::{
    choose_variant, download, download_started, offer_hf_install, open_repo, search, select_files,
    selection_fits, toggle_file, variant_fits,
};
pub use crate::actions::jobs::{
    cancel_download, cancel_job, clear_finished, clear_logs, clear_requests, run_bench,
    set_requests_paused,
};
pub use crate::actions::serve::{
    apply_cache, apply_plan, build_plan, cycle_knob, delete_profile, dismiss_plan, load_profile,
    profiles_not_saved, reset_cache, save_profile, set_cache_pending, set_knob, toggle_flag,
    unset_knob, KnobSet,
};
pub use crate::actions::templates::{
    apply_template, delete_template, fetch_template, list_template_repo, request_apply_sampling,
    request_revert_sampling, request_revert_template, sampling_reverted, sampling_written,
    template_deleted, template_reverted, template_written, verify_template, ReadBack, Reverted,
    Written,
};
use vstd::prelude::*;
use vstd::string::*;
use crate::config::{without_name, ProfilesView};
use crate::ft::locate::Freetoken;
use crate::ft::preflight::{command_of, convert_command, python_of, CONVERT_SCRIPT};
use crate::ft::proc::{
    shell_line, spawn_job, Job, JobKind, JobSpec, JobView, Run, RunView, Started, SIGINT,
};
use crate::hub::{Download, DownloadStatus};
use crate::knobs::value_of;
use crate::models::{as_text_opt, build_dir, ftw_output_path, Model};
use crate::paths::{display_name, name_or_path, same_path, same_place};
use crate::state::{
    job_views, rebuild_from_pending, rebuild_of, App, AppView, Confirm, ConfirmAction,
    ConfirmActionView, ConfirmView, Effect, EffectView, Known, Pending, Purpose, PurposeView, Tab, ToastKind,
};
use crate::templates::copy_opt;
use crate::text::{
    cat2, cat3, cat4, dec, decimal, lemma_texts_push, opt_str, opt_text, same, texts, trim,
    trimmed,
};

verus! {

// ---------------------------------------------------------------- outcomes

/// What an action did. The TUI ignores this; the web layer renders it as the reply body.
#[derive(Debug, Clone)]
pub enum Done {
    Finished,
    /// A task was spawned; the result arrives as a snapshot change and a toast.
    Started { job_id: Option<u64>, log_path: Option<String> },
    /// `app.confirm` is now set and nothing has happened yet.
    ConfirmPending,
    /// A process is to be started; what came of that is the outcome.
    Spawning,
}

pub enum DoneView {
    Finished,
    Started { job_id: Option<u64>, log_path: Option<Seq<char>> },
    ConfirmPending,
    Spawning,
}

impl View for Done {
    type V = DoneView;

    open spec fn view(&self) -> DoneView {
        match self {
            Done::Finished => DoneView::Finished,
            Done::Started { job_id, log_path } => DoneView::Started {
                job_id: *job_id,
                log_path: opt_text(*log_path),
            },
            Done::ConfirmPending => DoneView::ConfirmPending,
            Done::Spawning => DoneView::Spawning,
        }
    }
}

pub open spec fn begun() -> DoneView {
    DoneView::Started { job_id: None, log_path: None }
}

impl Done {
    pub fn started() -> (r: Self)
        ensures
            r@ == begun(),
    {
        Done::Started { job_id: None, log_path: None }
    }
}

/// Why an action declined to act, with the status the web API documents for that case.
#[derive(Debug, Clone)]
pub struct Refusal {
    pub status: u16,
    pub message: String,
    /// Whether this refusal also went onto `app.toasts`, and so will arrive in the next
    /// snapshot. False for the field-shaped ones the caller renders inline.
    pub toasted: bool,
}

pub struct RefusalView {
    pub status: u16,
    pub message: Seq<char>,
    pub toasted: bool,
}

impl View for Refusal {
    type V = RefusalView;

    open spec fn view(&self) -> RefusalView {
        RefusalView { status: self.status, message: self.message@, toasted: self.toasted }
    }
}

pub open spec fn loud(status: u16, message: Seq<char>) -> RefusalView {
    RefusalView { status, message, toasted: true }
}

pub open spec fn hushed(status: u16, message: Seq<char>) -> RefusalView {
    RefusalView { status, message, toasted: false }
}

impl Refusal {
    /// A refusal the reader will see where they are already looking: under the field they
    /// submitted, or against the row they clicked. No toast.
    pub fn quiet(status: u16, message: &str) -> (r: Self)
        ensures
            r@ == hushed(status, message@),
    {
        Refusal { status, message: message.to_owned(), toasted: false }
    }
}

pub type Outcome = Result<Done, Refusal>;

/// The state that an action leaves, and what it reports.
pub type Step = (AppView, Result<DoneView, RefusalView>);

pub open spec fn outcome_view(o: Outcome) -> Result<DoneView, RefusalView> {
    match o {
        Ok(d) => Ok(d@),
        Err(r) => Err(r@),
    }
}

/// The time, on a clock that never goes back, in nanoseconds, and on the wall, in Unix
/// milliseconds.
#[derive(Debug, Clone, Copy)]
pub struct Clock {
    pub ns: u64,
    pub ms: i64,
}

pub open spec fn warned(a: AppView, status: u16, message: Seq<char>) -> Step {
    (a.says(message, ToastKind::Warn), Err(loud(status, message)))
}

pub open spec fn failed(a: AppView, status: u16, message: Seq<char>) -> Step {
    (a.says(message, ToastKind::Error), Err(loud(status, message)))
}

/// A refusal says truly whether it was also shown: one that was is the last thing said, as
/// a warning or an error, and one that was not left what was said alone. Either way there is
/// nothing to be done.
pub open spec fn honest<T>(a: AppView, step: (AppView, Result<T, RefusalView>)) -> bool {
    match step.1 {
        Ok(_) => true,
        Err(r) => {
            &&& step.0.effects == a.effects
            &&& if r.toasted {
                &&& step.0.toasts.len() > a.toasts.len()
                &&& step.0.toasts.last() == (r.message, ToastKind::Warn) || step.0.toasts.last()
                    == (r.message, ToastKind::Error)
            } else {
                step.0.toasts == a.toasts
            }
        },
    }
}

/// Decline, saying so in the terminal and on the wire at once.
pub(crate) fn refuse(app: &mut App, status: u16, kind: ToastKind, message: String) -> (r: Refusal)
    ensures
        final(app)@ == old(app)@.says(message@, kind),
        r@ == loud(status, message@),
{
    app.toast(message.as_str(), kind);
    Refusal { status, message, toasted: true }
}

pub(crate) fn warn_off(app: &mut App, status: u16, message: String) -> (r: Refusal)
    ensures
        final(app)@ == old(app)@.says(message@, ToastKind::Warn),
        r@ == loud(status, message@),
{
    refuse(app, status, ToastKind::Warn, message)
}

pub(crate) fn error_off(app: &mut App, status: u16, message: String) -> (r: Refusal)
    ensures
        final(app)@ == old(app)@.says(message@, ToastKind::Error),
        r@ == loud(status, message@),
{
    refuse(app, status, ToastKind::Error, message)
}

/// Why there is no FreeToken CLI.
pub open spec fn no_cli(k: Known) -> Seq<char> {
    match k.ft_error {
        Some(why) => why@,
        None => "the FreeToken CLI was not found"@,
    }
}

pub(crate) fn cli_missing(k: &Known) -> (r: String)
    ensures
        r@ == no_cli(*k),
{
    match &k.ft_error {
        Some(why) => why.clone(),
        None => "the FreeToken CLI was not found".to_owned(),
    }
}

pub open spec fn home_of(k: Known) -> Option<Seq<char>> {
    opt_text(k.env.home)
}

pub(crate) fn push_line(body: &mut Vec<String>, line: &str)
    ensures
        texts(final(body)@) == texts(old(body)@).push(line@),
{
    let s = line.to_owned();
    proof {
        lemma_texts_push(body@, s);
    }
    body.push(s);
}

// ---------------------------------------------------------------- models by path

/// The first model at `path`.
pub open spec fn found_model(models: Seq<Model>, path: Seq<char>) -> Option<Model>
    decreases models.len(),
{
    if models.len() == 0 {
        None
    } else if same_place(models[0].path@, path) {
        Some(models[0])
    } else {
        found_model(models.drop_first(), path)
    }
}

pub(crate) fn find_model<'a>(models: &'a Vec<Model>, path: &str) -> (r: Option<&'a Model>)
    ensures
        (match r {
            Some(m) => Some(*m),
            None => None,
        }) == found_model(models@, path@),
{
    let mut i: usize = 0;
    assert(models@.skip(0) =~= models@);
    while i < models.len()
        invariant
            i <= models.len(),
            found_model(models@, path@) == found_model(models@.skip(i as int), path@),
        decreases models.len() - i,
    {
        assert(models@.skip(i as int)[0] == models@[i as int]);
        if same_path(models[i].path.as_str(), path) {
            return Some(&models[i]);
        }
        assert(models@.skip(i as int).drop_first() =~= models@.skip(i + 1));
        i = i + 1;
    }
    None
}

/// A model named by a path that is no longer in the library. No toast: the TUI resolves
/// its target from the list it just drew and cannot reach this, so the only reader is a
/// browser acting on a stale list.
pub open spec fn no_model() -> RefusalView {
    hushed(404, "that model is no longer in the library"@)
}

pub(crate) fn not_found_model() -> (r: Refusal)
    ensures
        r@ == no_model(),
{
    Refusal::quiet(404, "that model is no longer in the library")
}

// ---------------------------------------------------------------- conversion

/// `offload` packs experts into banks, which is what every offload-family backend wants;
/// `triton` keeps them dense for resident serving. Matching the Serve configuration's MoE
/// backend keeps the output usable by the configuration that asked for it.
pub open spec fn moe_backend_of(serve: Map<Seq<char>, Seq<char>>) -> Seq<char> {
    if value_of(serve, "moe_strategy"@) == Some("fused"@) {
        "triton"@
    } else {
        "offload"@
    }
}

fn convert_moe_backend(app: &App) -> (r: &'static str)
    ensures
        r@ == moe_backend_of(app@.serve),
{
    match app.serve.get("moe_strategy") {
        Some(s) => if same(s, "fused") {
            "triton"
        } else {
            "offload"
        },
        None => "offload",
    }
}

/// Where the FTW build of `source` goes.
pub open spec fn ftw_out_of(k: Known, source: Seq<char>) -> Seq<char> {
    let m = found_model(k.models@, source);
    build_dir(
        source,
        match m {
            Some(m) => opt_text(m.repo),
            None => None,
        },
        match m {
            Some(m) => opt_text(m.variant),
            None => None,
        },
        k.config.library.builds(home_of(k)),
        home_of(k),
    )
}

/// Where the FTW build of `source` goes, resolving the checkpoint's repo id out of the
/// library so one that came from the Hugging Face cache gets an org-qualified name.
pub fn ftw_out(app: &App, source: &str) -> (r: String)
    ensures
        r@ == ftw_out_of(app@.known, source@),
{
    let home = crate::config::home_of(&app.known.env);
    let dir = app.known.config.library.ftw_dir(home);
    match find_model(&app.known.models, source) {
        Some(m) => ftw_output_path(
            source,
            as_text_opt(&m.repo),
            as_text_opt(&m.variant),
            dir.as_str(),
            home,
        ),
        None => ftw_output_path(source, None, None, dir.as_str(), home),
    }
}

pub open spec fn option_args(flag: Seq<char>, value: Option<Seq<char>>) -> Seq<Seq<char>> {
    match value {
        Some(v) => seq![flag, v],
        None => Seq::empty(),
    }
}

/// The arguments of `ft checkpoint`. The expert banks are physically packed for the kernel
/// that will read them, and the FTW records which one in `quant_format`, so a conversion
/// that ignores the serve configuration's --quant-backend bakes in a layout the serve will
/// not ask for.
pub open spec fn conversion_args(
    serve: Map<Seq<char>, Seq<char>>,
    source: Seq<char>,
    out: Seq<char>,
) -> Seq<Seq<char>> {
    seq!["--model"@, source, "--out"@, out, "--moe-backend"@, moe_backend_of(serve)] + option_args(
        "--quant-backend"@,
        value_of(serve, "quant_backend"@),
    ) + option_args("--gpu"@, value_of(serve, "gpu"@))
}

/// A FreeToken subcommand as a job.
pub open spec fn job_run(
    ft: Freetoken,
    subcommand: Seq<Seq<char>>,
    args: Seq<Seq<char>>,
    kind: JobKind,
    title: Seq<char>,
    k: Known,
) -> RunView {
    let argv = ft@.prefix + subcommand + args;
    RunView {
        program: ft@.program,
        args: argv,
        cwd: None,
        display: shell_line(seq![ft.display_text()] + argv),
        kind,
        title,
        log_capacity: k.config.ui.log_capacity,
    }
}

#[verifier::opaque]
pub open spec fn conversion_started(a: AppView, source: Seq<char>) -> (AppView, DoneView) {
    match a.known.ft {
        None => (a.says("the FreeToken CLI was not found"@, ToastKind::Error), DoneView::Finished),
        Some(ft) => {
            let out = ftw_out_of(a.known, source);
            let name = name_or_path(source);
            (
                a.wants(
                    EffectView::Spawn {
                        run: job_run(
                            ft,
                            seq!["checkpoint"@],
                            conversion_args(a.serve, source, out),
                            JobKind::Convert,
                            name + " → FTW"@,
                            a.known,
                        ),
                        purpose: PurposeView::Convert { name, out },
                    },
                ),
                DoneView::Spawning,
            )
        },
    }
}

pub(crate) fn push_option(args: &mut Vec<String>, flag: &str, value: Option<&str>)
    ensures
        texts(final(args)@) == texts(old(args)@) + option_args(flag@, opt_str(value)),
{
    let ghost before = texts(args@);
    if let Some(v) = value {
        push_line(args, flag);
        push_line(args, v);
    }
    assert(texts(args@) =~= before + option_args(flag@, opt_str(value)));
}

/// Spawn `ft checkpoint` for a checkpoint that has been cleared to convert.
pub(crate) fn start_conversion(app: &mut App, source: &str) -> (r: Done)
    ensures
        (final(app)@, r@) == conversion_started(old(app)@, source@),
{
    proof {
        reveal(conversion_started);
    }
    let out = ftw_out(app, source);
    let name = display_name(source);
    let backend = convert_moe_backend(app);
    let run = match &app.known.ft {
        None => None,
        Some(ft) => {
            let mut args: Vec<String> = vec![
                "--model".to_owned(),
                source.to_owned(),
                "--out".to_owned(),
                out.clone(),
                "--moe-backend".to_owned(),
                backend.to_owned(),
            ];
            assert(texts(args@) =~= seq![
                "--model"@,
                source@,
                "--out"@,
                out@,
                "--moe-backend"@,
                backend@,
            ]);
            push_option(&mut args, "--quant-backend", app.serve.get("quant_backend"));
            push_option(&mut args, "--gpu", app.serve.get("gpu"));
            let subcommand: Vec<String> = vec!["checkpoint".to_owned()];
            assert(texts(subcommand@) =~= seq!["checkpoint"@]);
            Some(
                spawn_job(
                    ft,
                    JobSpec {
                        kind: JobKind::Convert,
                        subcommand,
                        args,
                        title: cat2(name.as_str(), " → FTW"),
                        log_capacity: app.known.config.ui.log_capacity,
                    },
                ),
            )
        },
    };
    match run {
        None => {
            app.error("the FreeToken CLI was not found");
            Done::Finished
        },
        Some(run) => {
            app.want(Effect::Spawn { run, purpose: Purpose::Convert { name, out } });
            Done::Spawning
        },
    }
}

/// The command that checks a checkpoint before it is converted, where there is an
/// interpreter to check with.
pub open spec fn check_command(a: AppView, source: Seq<char>) -> Option<Seq<Seq<char>>> {
    command_of(
        python_of(a.known.ft->0@, a.known.python_beside),
        CONVERT_SCRIPT@,
        seq![source, moe_backend_of(a.serve)],
    )
}

#[verifier::opaque]
pub open spec fn conversion_begun(a: AppView, source: Seq<char>) -> (AppView, DoneView) {
    if !a.known.config.convert.preflight {
        conversion_started(a, source)
    } else if a.known.ft is None {
        (a.says("the FreeToken CLI was not found"@, ToastKind::Error), DoneView::Finished)
    } else {
        match check_command(a, source) {
            // No interpreter to check with is not a reason to refuse the conversion.
            None => conversion_started(a, source),
            Some(argv) => (
                (AppView { convert_checking: Some(source), ..a }).says(
                    "checking that FreeToken can read this checkpoint…"@,
                    ToastKind::Info,
                ).wants(EffectView::ConvertPreflight { source, argv }),
                begun(),
            ),
        }
    }
}

/// Ask FreeToken what it makes of the checkpoint, then convert.
///
/// The check is cheap and the job is not: a conversion that cannot read the experts
/// still spends minutes writing most of the model to disk before it finds out.
pub(crate) fn begin_conversion(app: &mut App, source: &str) -> (r: Done)
    ensures
        (final(app)@, r@) == conversion_begun(old(app)@, source@),
{
    proof {
        reveal(conversion_begun);
    }
    if !app.known.config.convert.preflight {
        return start_conversion(app, source);
    }
    let backend = convert_moe_backend(app);
    let argv = match &app.known.ft {
        None => {
            app.error("the FreeToken CLI was not found");
            return Done::Finished;
        },
        Some(ft) => convert_command(ft, app.known.python_beside, source, backend),
    };
    match argv {
        None => start_conversion(app, source),
        Some(argv) => {
            app.convert_checking = Some(source.to_owned());
            app.info("checking that FreeToken can read this checkpoint…");
            app.want(Effect::ConvertPreflight { source: source.to_owned(), argv });
            Done::started()
        },
    }
}

/// Continue a retried conversion once its leftovers have actually been removed.
pub fn start_after_leftovers(app: &mut App, source: &str) -> (r: Done)
    ensures
        (final(app)@, r@) == conversion_begun(old(app)@, source@),
{
    begin_conversion(app, source)
}

// ---------------------------------------------------------------- update

/// How many commits the checkout is behind origin.
pub open spec fn behind_of(k: Known) -> usize {
    match k.checkout {
        Some(c) => c.origin_behind,
        None => 0,
    }
}

/// Why an update would be refused, in the order the reasons are looked for: what is true
/// about the world first, what is missing from the setup second, because being told the
/// venv is unconfigured is no use to someone who has nothing to pull anyway.
pub open spec fn update_refusal(a: AppView) -> Option<(u16, Seq<char>)> {
    if a.known.tools.checkout_dir is None {
        Some((503, "no FreeToken checkout to update"@))
    } else if a.engine.state.live() {
        Some((409, "stop the engine first; an update rewrites the files it is running from"@))
    } else if a.known.checkout is Some && a.known.checkout->0.dirty {
        Some((409, "the checkout has local changes; commit or discard them first"@))
    } else if behind_of(a.known) == 0 {
        Some((409, "already at origin; nothing to update"@))
    } else if a.known.config.freetoken.venv is None {
        Some(
            (503, "freetoken.venv is not set; paddock does not know which venv to install into"@),
        )
    } else if a.known.tools.git is None {
        Some((503, "git is not on PATH"@))
    } else if a.known.tools.uv is None {
        Some(
            (
                503,
                "uv was not found on PATH or in ~/.local/bin; FreeToken's venv has no pip to fall back on"@,
            ),
        )
    } else {
        None
    }
}

/// One shell, because the second command must not run if the first fails, but every
/// program is passed in by path: nothing here is looked up in an inherited PATH.
pub const UPDATE_SCRIPT: &'static str = "set -e; \"$1\" pull --ff-only; VIRTUAL_ENV=\"$2\" \"$3\" pip install -e \".[accel]\"";

pub open spec fn update_run(k: Known) -> RunView {
    let dir = k.tools.checkout_dir->0@;
    RunView {
        program: "/bin/sh"@,
        args: seq![
            "-c"@,
            UPDATE_SCRIPT@,
            "paddock-update"@,
            k.tools.git->0@,
            k.config.freetoken.venv->0@,
            k.tools.uv->0@,
        ],
        cwd: Some(dir),
        display: "git pull --ff-only && uv pip install -e \".[accel]\"  # in "@ + dir,
        kind: JobKind::Update,
        title: "update FreeToken ("@ + dec(behind_of(k) as nat) + " commits)"@,
        log_capacity: k.config.ui.log_capacity,
    }
}

#[verifier::opaque]
pub open spec fn update_started(a: AppView) -> (AppView, DoneView) {
    match update_refusal(a) {
        Some((_, message)) => (a.says(message, ToastKind::Warn), DoneView::Finished),
        None => (
            a.wants(
                EffectView::Spawn { run: update_run(a.known), purpose: PurposeView::Update },
            ),
            DoneView::Spawning,
        ),
    }
}

/// What an update would run.
pub struct UpdatePlan {
    pub dir: String,
    pub venv: String,
    pub git: String,
    pub uv: String,
    pub behind: usize,
}

pub(crate) fn update_plan(app: &mut App) -> (r: Result<UpdatePlan, Refusal>)
    ensures
        match r {
            Err(e) => update_refusal(old(app)@) is Some && {
                let (status, message) = update_refusal(old(app)@)->0;
                final(app)@ == old(app)@.says(message, ToastKind::Warn) && e@ == loud(
                    status,
                    message,
                )
            },
            Ok(p) => {
                let k = old(app)@.known;
                &&& update_refusal(old(app)@) is None
                &&& final(app)@ == old(app)@
                &&& p.dir@ == k.tools.checkout_dir->0@
                &&& p.venv@ == k.config.freetoken.venv->0@
                &&& p.git@ == k.tools.git->0@
                &&& p.uv@ == k.tools.uv->0@
                &&& p.behind == behind_of(k)
            },
        },
{
    let dir = match copy_opt(&app.known.tools.checkout_dir) {
        Some(d) => d,
        None => {
            return Err(warn_off(app, 503, "no FreeToken checkout to update".to_owned()));
        },
    };
    // An editable install is the files on disk: pulling under a running engine swaps the
    // modules it imports lazily and the kernels it has mapped, which is a crash with a
    // confusing cause rather than an update.
    if app.engine.is_live() {
        return Err(
            warn_off(
                app,
                409,
                "stop the engine first; an update rewrites the files it is running from".to_owned(),
            ),
        );
    }
    let (dirty, behind) = match &app.known.checkout {
        Some(c) => (c.dirty, c.origin_behind),
        None => (false, 0usize),
    };
    if dirty {
        return Err(
            warn_off(
                app,
                409,
                "the checkout has local changes; commit or discard them first".to_owned(),
            ),
        );
    }
    if behind == 0 {
        return Err(warn_off(app, 409, "already at origin; nothing to update".to_owned()));
    }
    let venv = match copy_opt(&app.known.config.freetoken.venv) {
        Some(v) => v,
        None => {
            return Err(
                warn_off(
                    app,
                    503,
                    "freetoken.venv is not set; paddock does not know which venv to install into".to_owned(),
                ),
            );
        },
    };
    let git = match copy_opt(&app.known.tools.git) {
        Some(g) => g,
        None => {
            return Err(warn_off(app, 503, "git is not on PATH".to_owned()));
        },
    };
    // No pip fallback: a uv-created venv does not ship one, so the absence of uv is the end
    // of the road and should say so rather than be discovered mid-run.
    let uv = match copy_opt(&app.known.tools.uv) {
        Some(u) => u,
        None => {
            return Err(
                warn_off(
                    app,
                    503,
                    "uv was not found on PATH or in ~/.local/bin; FreeToken's venv has no pip to fall back on".to_owned(),
                ),
            );
        },
    };
    Ok(UpdatePlan { dir, venv, git, uv, behind })
}

fn start_update(app: &mut App) -> (r: Done)
    ensures
        (final(app)@, r@) == update_started(old(app)@),
{
    proof {
        reveal(update_started);
    }
    let plan = match update_plan(app) {
        Ok(p) => p,
        // The preconditions are re-checked on the way in: a confirmation can sit on screen
        // while the engine is started in another window.
        Err(_) => {
            return Done::Finished;
        },
    };
    let args: Vec<String> = vec![
        "-c".to_owned(),
        UPDATE_SCRIPT.to_owned(),
        "paddock-update".to_owned(),
        plan.git,
        plan.venv,
        plan.uv,
    ];
    assert(texts(args@) =~= update_run(app@.known).args);
    let run = Run {
        program: "/bin/sh".to_owned(),
        args,
        display: cat2(
            "git pull --ff-only && uv pip install -e \".[accel]\"  # in ",
            plan.dir.as_str(),
        ),
        cwd: Some(plan.dir),
        kind: JobKind::Update,
        title: cat3(
            "update FreeToken (",
            decimal(plan.behind as u64).as_str(),
            " commits)",
        ),
        log_capacity: app.known.config.ui.log_capacity,
    };
    app.want(Effect::Spawn { run, purpose: Purpose::Update });
    Done::Spawning
}

// ---------------------------------------------------------------- what a spawn came to

pub open spec fn with_job(a: AppView, job: JobView) -> AppView {
    (AppView { jobs: a.jobs.push(job), ..a }).wants(EffectView::SelectLastJob)
}

pub open spec fn job_begun(job: JobView) -> DoneView {
    DoneView::Started { job_id: Some(job.id), log_path: None }
}

/// What comes of a job that was to be spawned.
pub open spec fn spawn_ended(
    a: AppView,
    purpose: PurposeView,
    result: Result<JobView, Seq<char>>,
) -> Step {
    match (purpose, result) {
        (PurposeView::Convert { name, out }, Ok(job)) => (
            (AppView { tab: Tab::Jobs, ..with_job(a, job) }).says(
                "converting "@ + name + " to "@ + out,
                ToastKind::Info,
            ),
            Ok(job_begun(job)),
        ),
        (PurposeView::Convert { .. }, Err(e)) => (
            a.says("could not start the conversion: "@ + e, ToastKind::Error),
            Ok(DoneView::Finished),
        ),
        // The summary is the engine's account of the commits this checkout is behind
        // origin. The update consumes exactly those, so it goes as the pull begins.
        (PurposeView::Update, Ok(job)) => (
            (AppView { tab: Tab::Jobs, origin_summary: None, ..with_job(a, job) }).says(
                "updating FreeToken"@,
                ToastKind::Info,
            ),
            Ok(job_begun(job)),
        ),
        (PurposeView::Update, Err(e)) => (
            a.says("could not start the update: "@ + e, ToastKind::Error),
            Ok(DoneView::Finished),
        ),
        (PurposeView::Bench, Ok(job)) => (
            with_job(a, job).says(
                "benchmarking CPU and PCIe bandwidth; this takes a few minutes"@,
                ToastKind::Info,
            ),
            Ok(job_begun(job)),
        ),
        (PurposeView::Bench, Err(e)) => failed(a, 500, "could not start the benchmark: "@ + e),
    }
}

fn push_job(app: &mut App, job: Job)
    ensures
        final(app)@ == with_job(old(app)@, job@),
{
    let ghost before = app.jobs@;
    app.jobs.push(job);
    assert(job_views(app.jobs@) =~= job_views(before).push(job@));
    app.want(Effect::SelectLastJob);
}

/// Take in what came of a job that was to be spawned.
pub fn spawned(app: &mut App, purpose: Purpose, result: Result<Job, String>) -> (r: Outcome)
    ensures
        (final(app)@, outcome_view(r)) == spawn_ended(
            old(app)@,
            purpose@,
            match result {
                Ok(j) => Ok(j@),
                Err(e) => Err(e@),
            },
        ),
{
    match result {
        Ok(job) => {
            let id = job.id;
            push_job(app, job);
            match purpose {
                Purpose::Convert { name, out } => {
                    app.tab = Tab::Jobs;
                    let text = cat4("converting ", name.as_str(), " to ", out.as_str());
                    app.info(text.as_str());
                },
                Purpose::Update => {
                    app.tab = Tab::Jobs;
                    app.origin_summary = None;
                    app.info("updating FreeToken");
                },
                Purpose::Bench => {
                    app.info("benchmarking CPU and PCIe bandwidth; this takes a few minutes");
                },
            }
            Ok(Done::Started { job_id: Some(id), log_path: None })
        },
        Err(e) => match purpose {
            Purpose::Convert { .. } => {
                app.error(cat2("could not start the conversion: ", e.as_str()).as_str());
                Ok(Done::Finished)
            },
            Purpose::Update => {
                app.error(cat2("could not start the update: ", e.as_str()).as_str());
                Ok(Done::Finished)
            },
            Purpose::Bench => Err(
                error_off(app, 500, cat2("could not start the benchmark: ", e.as_str())),
            ),
        },
    }
}

// ---------------------------------------------------------------- confirmations

/// Where the first job with an id stands; the length when there is none.
pub open spec fn job_index(jobs: Seq<JobView>, id: u64) -> nat
    decreases jobs.len(),
{
    if jobs.len() == 0 || jobs[0].id == id {
        0
    } else {
        1 + job_index(jobs.drop_first(), id)
    }
}

pub open spec fn download_index(downloads: Seq<Download>, id: u64) -> nat
    decreases downloads.len(),
{
    if downloads.len() == 0 || downloads[0].id == id {
        0
    } else {
        1 + download_index(downloads.drop_first(), id)
    }
}

pub(crate) fn find_job(jobs: &Vec<Job>, id: u64) -> (r: usize)
    ensures
        r == job_index(job_views(jobs@), id),
        r <= jobs@.len(),
{
    let mut i: usize = 0;
    assert(job_views(jobs@).skip(0) =~= job_views(jobs@));
    while i < jobs.len()
        invariant
            i <= jobs.len(),
            job_index(job_views(jobs@), id) == i + job_index(job_views(jobs@).skip(i as int), id),
        decreases jobs.len() - i,
    {
        assert(job_views(jobs@).skip(i as int)[0] == jobs@[i as int]@);
        if jobs[i].id == id {
            return i;
        }
        assert(job_views(jobs@).skip(i as int).drop_first() =~= job_views(jobs@).skip(i + 1));
        i = i + 1;
    }
    assert(job_views(jobs@).skip(i as int).len() == 0);
    i
}

pub(crate) fn find_download(downloads: &Vec<Download>, id: u64) -> (r: usize)
    ensures
        r == download_index(downloads@, id),
        r <= downloads@.len(),
{
    let mut i: usize = 0;
    assert(downloads@.skip(0) =~= downloads@);
    while i < downloads.len()
        invariant
            i <= downloads.len(),
            download_index(downloads@, id) == i + download_index(downloads@.skip(i as int), id),
        decreases downloads.len() - i,
    {
        assert(downloads@.skip(i as int)[0] == downloads@[i as int]);
        if downloads[i].id == id {
            return i;
        }
        assert(downloads@.skip(i as int).drop_first() =~= downloads@.skip(i + 1));
        i = i + 1;
    }
    assert(downloads@.skip(i as int).len() == 0);
    i
}

pub open spec fn signaled(a: AppView, signal: Option<(u32, i32)>) -> AppView {
    match signal {
        Some((pid, signal)) => a.wants(EffectView::Signal { pid, signal }),
        None => a,
    }
}

pub(crate) fn send(app: &mut App, signal: Option<(u32, i32)>)
    ensures
        final(app)@ == signaled(old(app)@, signal),
{
    if let Some((pid, signal)) = signal {
        app.want(Effect::Signal { pid, signal });
    }
}

#[verifier::opaque]
pub open spec fn engine_stopped(a: AppView, force: bool, now: u64) -> AppView {
    signaled(
        AppView { engine: a.engine.stopping(force, now), ..a },
        a.engine.stop_signal(force),
    ).says(
        if force {
            "force-stopping the engine"@
        } else {
            "stopping the engine"@
        },
        ToastKind::Info,
    )
}

/// A job that is asked to stop: it is signaled while it runs and has a process.
pub open spec fn job_signal(j: JobView) -> Option<(u32, i32)> {
    match j.pid {
        Some(pid) if j.status is Running => Some((pid, SIGINT)),
        _ => None,
    }
}

#[verifier::opaque]
pub open spec fn job_canceled(a: AppView, id: u64) -> AppView {
    let i = job_index(a.jobs, id) as int;
    if i < a.jobs.len() {
        let j = a.jobs[i];
        match job_signal(j) {
            Some(_) => signaled(
                AppView {
                    jobs: a.jobs.update(
                        i,
                        JobView {
                            log: j.log.after_push("[ft-man] cancel requested (SIGINT)"@, false),
                            ..j
                        },
                    ),
                    ..a
                },
                job_signal(j),
            ),
            None => a,
        }
    } else {
        a
    }
}

#[verifier::opaque]
pub open spec fn download_canceled(a: AppView, id: u64, ms: i64) -> AppView {
    let i = download_index(a.downloads, id) as int;
    if i < a.downloads.len() {
        (AppView {
            downloads: a.downloads.update(
                i,
                Download {
                    cancel_requested: true,
                    status: DownloadStatus::Canceled,
                    finished_at: Some(ms),
                    ..a.downloads[i]
                },
            ),
            ..a
        }).says("download canceled"@, ToastKind::Warn)
    } else {
        a
    }
}

#[verifier::opaque]
pub open spec fn profile_deleted(a: AppView, name: Seq<char>) -> AppView {
    let items = without_name(a.profiles.items, name);
    if items.len() != a.profiles.items.len() {
        (AppView {
            profiles: ProfilesView {
                items,
                last_used: if a.profiles.last_used == Some(name) {
                    None
                } else {
                    a.profiles.last_used
                },
            },
            ..a
        }).wants(EffectView::SaveProfiles).says(
            "deleted profile '"@ + name + "'"@,
            ToastKind::Success,
        )
    } else {
        AppView { profiles: ProfilesView { items, ..a.profiles }, ..a }
    }
}

#[verifier::opaque]
pub open spec fn cache_rebuilt(a: AppView) -> (AppView, DoneView) {
    if a.pending == Pending::none() {
        (a, DoneView::Finished)
    } else {
        (
            (AppView { applying: true, ..a }).says("rebuilding cache pools…"@, ToastKind::Info).wants(
                EffectView::RebuildCache(rebuild_of(a.pending)),
            ),
            begun(),
        )
    }
}

/// What carrying out a confirmed action does.
#[verifier::opaque]
pub open spec fn ran(a: AppView, action: ConfirmActionView, clock: Clock) -> (AppView, DoneView) {
    match action {
        ConfirmActionView::Quit => (AppView { should_quit: true, ..a }, DoneView::Finished),
        ConfirmActionView::UpdateFreetoken => update_started(a),
        ConfirmActionView::StopEngine { force } => (
            engine_stopped(a, force, clock.ns),
            DoneView::Finished,
        ),
        ConfirmActionView::DeleteModel(path) => (model_deleted(a, path), begun()),
        ConfirmActionView::DeleteHfCacheModel { path, repo } => cached_deleted(a, path, repo),
        ConfirmActionView::CancelJob(id) => (job_canceled(a, id), DoneView::Finished),
        ConfirmActionView::CancelDownload(id) => (
            download_canceled(a, id, clock.ms),
            DoneView::Finished,
        ),
        ConfirmActionView::DeleteProfile(name) => (profile_deleted(a, name), DoneView::Finished),
        ConfirmActionView::InstallHfCli => (cli_installing(a), begun()),
        ConfirmActionView::ApplyCacheRebuild => cache_rebuilt(a),
        ConfirmActionView::ApplyTemplate { template, model } => (
            a.wants(EffectView::WriteTemplate { template, model }),
            DoneView::Finished,
        ),
        ConfirmActionView::RevertTemplate(model) => (
            a.wants(EffectView::RevertTemplate(model)),
            DoneView::Finished,
        ),
        ConfirmActionView::ApplySampling { model, sampling } => (
            a.wants(EffectView::WriteSampling { model, sampling }),
            DoneView::Finished,
        ),
        ConfirmActionView::RevertSampling(model) => (
            a.wants(EffectView::RevertSampling(model)),
            DoneView::Finished,
        ),
        ConfirmActionView::ConvertAnyway(source) => conversion_started(a, source),
        ConfirmActionView::ReconvertModel(source) => (leftovers_removed(a, source), begun()),
        ConfirmActionView::DeleteTemplate(name) => (
            a.wants(EffectView::DeleteTemplate(name)),
            DoneView::Finished,
        ),
    }
}

fn cancel_one_job(app: &mut App, id: u64)
    requires
        old(app)@.has_room(),
    ensures
        final(app)@ == job_canceled(old(app)@, id),
{
    proof {
        reveal(job_canceled);
    }
    let ghost before = app@;
    let i = find_job(&app.jobs, id);
    if i < app.jobs.len() {
        assert(before.jobs[i as int] == app.jobs@[i as int]@);
        let signal = app.jobs[i].cancel();
        assert(app@.jobs =~= job_canceled(before, id).jobs);
        send(app, signal);
    }
}

fn cancel_one_download(app: &mut App, id: u64, ms: i64)
    ensures
        final(app)@ == download_canceled(old(app)@, id, ms),
{
    proof {
        reveal(download_canceled);
    }
    let ghost before = app@;
    let i = find_download(&app.downloads, id);
    if i < app.downloads.len() {
        app.downloads[i].cancel(ms);
        assert(app@.downloads =~= download_canceled(before, id, ms).downloads);
        app.warn("download canceled");
    }
}

fn delete_one_profile(app: &mut App, name: &str)
    ensures
        final(app)@ == profile_deleted(old(app)@, name@),
{
    proof {
        reveal(profile_deleted);
    }
    if app.profiles.remove(name) {
        let same_name = match &app.profiles.last_used {
            Some(n) => same(n.as_str(), name),
            None => false,
        };
        if same_name {
            app.profiles.last_used = None;
        }
        app.want(Effect::SaveProfiles);
        app.success(cat3("deleted profile '", name, "'").as_str());
    }
}

fn apply_cache_rebuild(app: &mut App) -> (r: Done)
    ensures
        (final(app)@, r@) == cache_rebuilt(old(app)@),
{
    proof {
        reveal(cache_rebuilt);
    }
    let req = rebuild_from_pending(&app.pending);
    if req.is_empty() {
        return Done::Finished;
    }
    app.applying = true;
    app.info("rebuilding cache pools…");
    app.want(Effect::RebuildCache(req));
    Done::started()
}

fn stop_now(app: &mut App, force: bool, now: u64) -> (r: Done)
    requires
        old(app)@.has_room(),
    ensures
        final(app)@ == engine_stopped(old(app)@, force, now),
        r@ == DoneView::Finished,
{
    proof {
        reveal(engine_stopped);
    }
    let signal = app.engine.stop(force, now);
    send(app, signal);
    app.info(
        if force {
            "force-stopping the engine"
        } else {
            "stopping the engine"
        },
    );
    Done::Finished
}

#[verifier::opaque]
pub open spec fn model_deleted(a: AppView, path: Seq<char>) -> AppView {
    a.says("deleting "@ + path + "…"@, ToastKind::Info).wants(EffectView::DeleteModel(path))
}

fn delete_now(app: &mut App, path: String) -> (r: Done)
    ensures
        final(app)@ == model_deleted(old(app)@, path@),
        r@ == begun(),
{
    proof {
        reveal(model_deleted);
    }
    // Tens of thousands of `unlink`s against a 200 GiB checkpoint: left to the front end,
    // because inline it would hold every reader of this state for as long as the filesystem
    // took.
    app.info(cat3("deleting ", path.as_str(), "…").as_str());
    app.want(Effect::DeleteModel(path));
    Done::started()
}

#[verifier::opaque]
pub open spec fn cached_deleted(a: AppView, path: Seq<char>, repo: Seq<char>) -> (
    AppView,
    DoneView,
) {
    match a.known.hf_cli {
        None => (
            a.says(
                "the hf CLI is not installed — install it from the Hub tab first"@,
                ToastKind::Error,
            ),
            DoneView::Finished,
        ),
        Some(cli) => (
            a.says("deleting "@ + path + " from the HF cache…"@, ToastKind::Info).wants(
                EffectView::DeleteFromCache { cli: cli@, path, repo },
            ),
            begun(),
        ),
    }
}

fn delete_cached_now(app: &mut App, path: String, repo: String) -> (r: Done)
    ensures
        (final(app)@, r@) == cached_deleted(old(app)@, path@, repo@),
{
    proof {
        reveal(cached_deleted);
    }
    // The hub cache belongs to `huggingface_hub`: deleting a snapshot directory
    // only removes symlinks into `blobs/`, leaving the actual weight data behind.
    // `hf cache delete` is the reference implementation that knows how to take a
    // repo apart, removing dangling blobs and cleaning up refs.
    match copy_opt(&app.known.hf_cli) {
        None => {
            app.error("the hf CLI is not installed — install it from the Hub tab first");
            Done::Finished
        },
        Some(cli) => {
            app.info(cat3("deleting ", path.as_str(), " from the HF cache…").as_str());
            app.want(Effect::DeleteFromCache { cli, path, repo });
            Done::started()
        },
    }
}

#[verifier::opaque]
pub open spec fn cli_installing(a: AppView) -> AppView {
    (AppView { hf_installing: true, ..a }).says("installing the hf CLI…"@, ToastKind::Info).wants(
        EffectView::InstallHfCli,
    )
}

fn install_now(app: &mut App) -> (r: Done)
    ensures
        final(app)@ == cli_installing(old(app)@),
        r@ == begun(),
{
    proof {
        reveal(cli_installing);
    }
    app.hf_installing = true;
    app.info("installing the hf CLI…");
    app.want(Effect::InstallHfCli);
    Done::started()
}

#[verifier::opaque]
pub open spec fn leftovers_removed(a: AppView, source: Seq<char>) -> AppView {
    let out = ftw_out_of(a.known, source);
    a.says("removing the incomplete "@ + out + "…"@, ToastKind::Info).wants(
        EffectView::RemoveLeftovers { source, out },
    )
}

fn remove_leftovers_now(app: &mut App, source: String) -> (r: Done)
    ensures
        final(app)@ == leftovers_removed(old(app)@, source@),
        r@ == begun(),
{
    proof {
        reveal(leftovers_removed);
    }
    let out = ftw_out(app, source.as_str());
    app.info(cat3("removing the incomplete ", out.as_str(), "…").as_str());
    app.want(Effect::RemoveLeftovers { source, out });
    Done::started()
}

fn leave(app: &mut App, e: Effect) -> (r: Done)
    ensures
        final(app)@ == old(app)@.wants(e@),
        r@ == DoneView::Finished,
{
    app.want(e);
    Done::Finished
}

/// Carry out a confirmed action.
pub fn run_action(app: &mut App, action: ConfirmAction, clock: Clock) -> (r: Done)
    requires
        old(app)@.has_room(),
    ensures
        (final(app)@, r@) == ran(old(app)@, action@, clock),
{
    proof {
        reveal(ran);
    }
    match action {
        ConfirmAction::Quit => {
            app.should_quit = true;
            Done::Finished
        },
        ConfirmAction::UpdateFreetoken => start_update(app),
        ConfirmAction::StopEngine { force } => stop_now(app, force, clock.ns),
        ConfirmAction::DeleteModel(path) => delete_now(app, path),
        ConfirmAction::DeleteHfCacheModel { path, repo } => delete_cached_now(app, path, repo),
        ConfirmAction::CancelJob(id) => {
            cancel_one_job(app, id);
            Done::Finished
        },
        ConfirmAction::CancelDownload(id) => {
            cancel_one_download(app, id, clock.ms);
            Done::Finished
        },
        ConfirmAction::DeleteProfile(name) => {
            delete_one_profile(app, name.as_str());
            Done::Finished
        },
        ConfirmAction::InstallHfCli => install_now(app),
        ConfirmAction::ApplyCacheRebuild => apply_cache_rebuild(app),
        ConfirmAction::ApplyTemplate { template, model } => leave(
            app,
            Effect::WriteTemplate { template, model },
        ),
        ConfirmAction::RevertTemplate(model) => leave(app, Effect::RevertTemplate(model)),
        ConfirmAction::ApplySampling { model, sampling } => leave(
            app,
            Effect::WriteSampling { model, sampling },
        ),
        ConfirmAction::RevertSampling(model) => leave(app, Effect::RevertSampling(model)),
        ConfirmAction::ConvertAnyway(source) => start_conversion(app, source.as_str()),
        ConfirmAction::ReconvertModel(source) => remove_leftovers_now(app, source),
        ConfirmAction::DeleteTemplate(name) => leave(app, Effect::DeleteTemplate(name)),
    }
}

pub open spec fn asked(a: AppView, c: ConfirmView, clock: Clock) -> (AppView, DoneView) {
    if a.known.config.ui.confirm_destructive {
        (AppView { confirm: Some(c), ..a }, DoneView::ConfirmPending)
    } else {
        ran(a, c.action, clock)
    }
}

pub open spec fn asks(a: AppView, c: ConfirmView, clock: Clock) -> Step {
    (asked(a, c, clock).0, Ok(asked(a, c, clock).1))
}

/// Raise a confirmation, or act at once when the user has turned confirmations off.
pub fn ask(app: &mut App, confirm: Confirm, clock: Clock) -> (r: Done)
    requires
        old(app)@.has_room(),
    ensures
        (final(app)@, r@) == asked(old(app)@, confirm@, clock),
{
    if app.known.config.ui.confirm_destructive {
        app.confirm = Some(confirm);
        Done::ConfirmPending
    } else {
        run_action(app, confirm.action, clock)
    }
}

pub open spec fn answered(a: AppView, accept: bool, clock: Clock) -> Step {
    match a.confirm {
        None => warned(a, 409, "no confirmation is pending"@),
        Some(c) => {
            let b = AppView { confirm: None, ..a };
            if accept {
                (ran(b, c.action, clock).0, Ok(ran(b, c.action, clock).1))
            } else {
                (b, Ok(DoneView::Finished))
            }
        },
    }
}

/// Answer a pending confirmation by identity-free accept/dismiss, as `POST /api/confirm`
/// and the modal's `y`/`n` both do.
pub fn answer_confirm(app: &mut App, accept: bool, clock: Clock) -> (r: Outcome)
    requires
        old(app)@.has_room(),
    ensures
        (final(app)@, outcome_view(r)) == answered(old(app)@, accept, clock),
{
    let mut taken: Option<Confirm> = None;
    core::mem::swap(&mut app.confirm, &mut taken);
    match taken {
        None => Err(warn_off(app, 409, "no confirmation is pending".to_owned())),
        Some(confirm) => {
            if !accept {
                return Ok(Done::Finished);
            }
            Ok(run_action(app, confirm.action, clock))
        },
    }
}

/// With confirmations on, asking changes nothing but what is asked: the state is as it was
/// until the answer comes, and a refusal leaves it so.
pub proof fn law_nothing_happens_before_the_answer(a: AppView, c: ConfirmView, clock: Clock)
    requires
        a.known.config.ui.confirm_destructive,
    ensures
        asked(a, c, clock).0 == (AppView { confirm: Some(c), ..a }),
        answered(asked(a, c, clock).0, false, clock).0 == (AppView { confirm: None, ..a }),
        answered(asked(a, c, clock).0, true, clock).0 == ran(
            AppView { confirm: None, ..a },
            c.action,
            clock,
        ).0,
{
}

/// What became of a spawned job, and answering a confirmation, are refused honestly too.
pub proof fn law_answers_are_refused_honestly(
    a: AppView,
    purpose: PurposeView,
    result: Result<JobView, Seq<char>>,
    accept: bool,
    clock: Clock,
)
    ensures
        honest(a, spawn_ended(a, purpose, result)),
        honest(a, answered(a, accept, clock)),
{
}

/// The engine is let go of: quitting sends it nothing and changes nothing of it.
pub proof fn law_quitting_leaves_the_engine_running(a: AppView, clock: Clock)
    ensures
        ran(a, ConfirmActionView::Quit, clock).0.engine == a.engine,
        ran(a, ConfirmActionView::Quit, clock).0.effects == a.effects,
{
    reveal(ran);
}

/// Only a stop that was asked for stops the engine: every other action that is confirmed
/// leaves the engine as it was and, unless a job is canceled, sends no signal.
pub proof fn law_only_a_stop_stops_the_engine(
    a: AppView,
    action: ConfirmActionView,
    clock: Clock,
    i: int,
)
    requires
        !(action is StopEngine),
    ensures
        ran(a, action, clock).0.engine == a.engine,
        a.effects.is_prefix_of(ran(a, action, clock).0.effects),
        a.effects.len() <= i < ran(a, action, clock).0.effects.len() && !(action is CancelJob)
            ==> !(ran(a, action, clock).0.effects[i] is Signal),
{
    reveal(ran);
    reveal(conversion_started);
    reveal(conversion_begun);
    reveal(update_started);
    reveal(job_canceled);
    reveal(download_canceled);
    reveal(profile_deleted);
    reveal(cache_rebuilt);
    reveal(model_deleted);
    reveal(cached_deleted);
    reveal(cli_installing);
    reveal(leftovers_removed);
}

/// A confirmation can be answered once.
pub proof fn law_a_confirmation_is_answered_once(a: AppView, first: Clock, second: Clock)
    requires
        a.confirm is Some,
    ensures
        answered(answered(a, false, first).0, true, second).1 == Err::<DoneView, RefusalView>(
            loud(409, "no confirmation is pending"@),
        ),
{
}

/// What became of `hf cache delete`: `status` is its exit status as it is displayed, and
/// `success` whether it stands for one.
pub fn cache_delete_result(
    cli: &str,
    failure: Option<&str>,
    success: bool,
    status: &str,
    out: &str,
    err: &str,
) -> (r: Result<(), String>)
    ensures
        match failure {
            Some(e) => r is Err && r->Err_0@ == "could not run "@ + cli@ + ": "@ + e@,
            None => if success {
                r is Ok
            } else {
                let msg = if trimmed(err@).len() == 0 {
                    trimmed(out@)
                } else {
                    trimmed(err@)
                };
                r is Err && r->Err_0@ == (if msg.len() == 0 {
                    "hf cache delete exited with status "@ + status@
                } else {
                    msg
                })
            },
        },
{
    if let Some(e) = failure {
        return Err(cat4("could not run ", cli, ": ", e));
    }
    if success {
        return Ok(());
    }
    let e = trim(err);
    let msg = if e.as_str().is_empty() {
        trim(out)
    } else {
        e
    };
    if msg.as_str().is_empty() {
        Err(cat2("hf cache delete exited with status ", status))
    } else {
        Err(msg)
    }
}

} // verus!
