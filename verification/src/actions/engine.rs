//! Starting and stopping the engine, and the models it serves.

use vstd::prelude::*;
use vstd::string::*;
use crate::actions::{
    ask, asked, asks, begin_conversion, begun, behind_of, cli_missing, conversion_begun,
    conversion_started, error_off, failed, find_model, found_model, honest, loud, no_cli, no_model,
    not_found_model, outcome_view, refuse, start_conversion, update_plan, update_refusal, warn_off,
    warned, Clock, Done, DoneView, Outcome, RefusalView, Step,
};
use crate::ft::preflight::Outcome as Preflight;
use crate::ft::proc::{
    env_views, launch_env, opt_state, shell_line, EngineState, EngineView, JobView, Launch,
    ServeState, ServeStateView, Started,
};
use crate::knobs::{after_set, args_of, first_error, flag_of, knob, value_of};
use crate::models::{as_text_opt, build_dir, ftw_output_path, Format, Model};
use crate::paths::{display_name, join, joined_path, name_or_path};
use crate::state::{
    job_views, App, AppView, Confirm, ConfirmAction, ConfirmActionView, ConfirmView, Effect,
    EffectView, Known, LaunchView, OriginSummary, OriginView, Tab, ToastKind,
};
use crate::templates::{cache_shape, copy_opt, is_hub_cache_path};
use crate::text::{
    cat2, cat3, cat4, cat5, dec, decimal, opt_text, parse_upto, same, texts, trim, trimmed,
    unsigned_of,
};
use crate::util::{bytes, bytes_text};

verus! {

// ---------------------------------------------------------------- starting

/// The first job that runs.
pub open spec fn first_running(jobs: Seq<JobView>) -> Option<JobView>
    decreases jobs.len(),
{
    if jobs.len() == 0 {
        None
    } else if jobs[0].status is Running {
        Some(jobs[0])
    } else {
        first_running(jobs.drop_first())
    }
}

/// Why a start would be refused, with everything the two callers need to report it.
pub struct StartRefusal {
    pub status: u16,
    pub kind: ToastKind,
    pub message: String,
    /// Whether the refusal is something to fix on the Serve tab.
    pub focus_serve: bool,
}

pub struct StartRefusalView {
    pub status: u16,
    pub kind: ToastKind,
    pub message: Seq<char>,
    pub focus_serve: bool,
}

impl View for StartRefusal {
    type V = StartRefusalView;

    open spec fn view(&self) -> StartRefusalView {
        StartRefusalView {
            status: self.status,
            kind: self.kind,
            message: self.message@,
            focus_serve: self.focus_serve,
        }
    }
}

pub open spec fn start_warning(message: Seq<char>) -> Option<StartRefusalView> {
    Some(StartRefusalView { status: 409, kind: ToastKind::Warn, message, focus_serve: false })
}

/// The single predicate behind `POST /api/engine/start` and `engine.start_blocked`, because
/// the snapshot advertises in advance what the route will do, and a button that says "start"
/// against a daemon that would answer 409 is worse than no button.
#[verifier::opaque]
pub open spec fn start_refusal_of(a: AppView) -> Option<StartRefusalView> {
    if a.engine.state.live() {
        start_warning("an engine is already running; stop it first"@)
    } else if a.engine.foreign is Some {
        // Another paddock on this machine (a terminal beside the daemon, or a second daemon)
        // may have started one since the last tick. The state file is the handoff; starting
        // a second engine on the same GPU and port is how both end up broken.
        start_warning(
            "an engine started elsewhere is already running (pid "@ + dec(
                a.engine.foreign->0.pid as nat,
            ) + ", port "@ + dec(a.engine.foreign->0.port as nat)
                + "); paddock has              attached to it"@,
        )
    } else {
        match first_running(a.jobs) {
            Some(job) => start_warning(
                "a "@ + job.kind.label_text()
                    + " job is using the GPU; wait for it or cancel it first"@,
            ),
            None => if a.known.ft is None {
                Some(
                    StartRefusalView {
                        status: 503,
                        kind: ToastKind::Error,
                        message: no_cli(a.known),
                        focus_serve: false,
                    },
                )
            } else {
                match first_error(a.serve) {
                    Some((key, msg)) => Some(
                        StartRefusalView {
                            status: 409,
                            kind: ToastKind::Error,
                            message: flag_of(key) + ": "@ + msg,
                            focus_serve: true,
                        },
                    ),
                    None => None,
                }
            },
        }
    }
}

fn find_running(jobs: &Vec<crate::ft::proc::Job>) -> (r: Option<crate::ft::proc::JobKind>)
    ensures
        match first_running(job_views(jobs@)) {
            Some(j) => r == Some(j.kind),
            None => r is None,
        },
{
    let mut i: usize = 0;
    assert(job_views(jobs@).skip(0) =~= job_views(jobs@));
    while i < jobs.len()
        invariant
            i <= jobs.len(),
            first_running(job_views(jobs@)) == first_running(job_views(jobs@).skip(i as int)),
        decreases jobs.len() - i,
    {
        assert(job_views(jobs@).skip(i as int)[0] == jobs@[i as int]@);
        if jobs[i].is_running() {
            return Some(jobs[i].kind);
        }
        assert(job_views(jobs@).skip(i as int).drop_first() =~= job_views(jobs@).skip(i + 1));
        i = i + 1;
    }
    None
}

fn warning(message: String) -> (r: Option<StartRefusal>)
    ensures
        r is Some && Some(r->0@) == start_warning(message@),
{
    Some(StartRefusal { status: 409, kind: ToastKind::Warn, message, focus_serve: false })
}

/// Why a start would be refused. It reads state only: the cross-process check it depends on
/// is refreshed by the engine's own tick once a second, and forced by the route itself.
fn start_refusal(app: &App) -> (r: Option<StartRefusal>)
    ensures
        (match r {
            Some(s) => Some(s@),
            None => None,
        }) == start_refusal_of(app@),
{
    proof {
        reveal(start_refusal_of);
    }
    if app.engine.is_live() {
        return warning("an engine is already running; stop it first".to_owned());
    }
    if let Some(state) = app.engine.foreign() {
        return warning(
            cat5(
                "an engine started elsewhere is already running (pid ",
                decimal(state.pid as u64).as_str(),
                ", port ",
                decimal(state.port as u64).as_str(),
                "); paddock has              attached to it",
            ),
        );
    }
    if let Some(kind) = find_running(&app.jobs) {
        return warning(
            cat3("a ", kind.label(), " job is using the GPU; wait for it or cancel it first"),
        );
    }
    if app.known.ft.is_none() {
        return Some(
            StartRefusal {
                status: 503,
                kind: ToastKind::Error,
                message: cli_missing(&app.known),
                focus_serve: false,
            },
        );
    }
    match app.serve.first_error() {
        Some((key, msg)) => {
            let message = match knob(key.as_str()) {
                Some(k) => cat3(k.flag, ": ", msg.as_str()),
                None => cat3(key.as_str(), ": ", msg.as_str()),
            };
            Some(StartRefusal { status: 409, kind: ToastKind::Error, message, focus_serve: true })
        },
        None => None,
    }
}

/// Why `POST /api/engine/start` would be refused right now; `None` when it would try.
pub fn start_blocked(app: &App) -> (r: Option<String>)
    ensures
        opt_text(r) == (match start_refusal_of(app@) {
            Some(s) => Some(s.message),
            None => None,
        }),
{
    match start_refusal(app) {
        Some(s) => Some(s.message),
        None => None,
    }
}

/// The port to serve on: the configured one where the serve configuration names none that
/// can be read.
pub open spec fn port_of(serve: Map<Seq<char>, Seq<char>>, fallback: u16) -> u16 {
    match value_of(serve, "port"@) {
        Some(p) => match unsigned_of(p) {
            Some(n) if n <= u16::MAX => n as u16,
            _ => fallback,
        },
        None => fallback,
    }
}

pub open spec fn model_of(serve: Map<Seq<char>, Seq<char>>) -> Seq<char> {
    match value_of(serve, "model"@) {
        Some(m) => m,
        None => ""@,
    }
}

/// What starting the engine runs.
#[verifier::opaque]
pub open spec fn serve_launch(a: AppView) -> LaunchView {
    let ft = a.known.ft->0;
    let argv = ft@.prefix.push("serve"@) + args_of(a.serve);
    LaunchView {
        program: ft@.program,
        argv,
        env: launch_env(env_views(a.known.config.freetoken.env@)),
        cwd: None,
        display: shell_line(seq![ft.display_text()] + argv),
    }
}

/// What asking for a start does once the state file has been taken in.
#[verifier::opaque]
pub open spec fn start_decided(b: AppView) -> Step {
    match start_refusal_of(b) {
        Some(r) => {
            let c = AppView {
                tab: if r.focus_serve {
                    Tab::Serve
                } else {
                    b.tab
                },
                ..b
            };
            (c.says(r.message, r.kind), Err(loud(r.status, r.message)))
        },
        None => (
            b.wants(
                EffectView::StartEngine {
                    launch: serve_launch(b),
                    args: args_of(b.serve),
                    model: model_of(b.serve),
                    port: port_of(b.serve, b.known.config.server.port),
                },
            ),
            Ok(DoneView::Spawning),
        ),
    }
}

/// What asking for a start does, with the record in the state file and whether its process
/// is alive. The record is taken in first: an engine started in the last second is exactly
/// the race this closes.
#[verifier::opaque]
pub open spec fn start_asked(a: AppView, record: Option<ServeStateView>, alive: bool) -> Step {
    start_decided(AppView { engine: a.engine.refreshed(record, alive), ..a })
}

pub open spec fn opt_record(record: Option<&ServeState>) -> Option<ServeStateView> {
    match record {
        Some(s) => Some(s@),
        None => None,
    }
}

fn serve_effect(app: &App) -> (r: Option<Effect>)
    requires
        start_refusal_of(app@) is None,
    ensures
        r is Some && r->0@ == (EffectView::StartEngine {
            launch: serve_launch(app@),
            args: args_of(app@.serve),
            model: model_of(app@.serve),
            port: port_of(app@.serve, app@.known.config.server.port),
        }),
{
    proof {
        reveal(start_refusal_of);
        reveal(serve_launch);
    }
    let model = match app.serve.get("model") {
        Some(m) => m.to_owned(),
        None => "".to_owned(),
    };
    let fallback: u16 = app.known.config.server.port;
    let port: u16 = match app.serve.get("port") {
        Some(p) => match parse_upto(p, 65535) {
            Some(n) => n as u16,
            None => fallback,
        },
        None => fallback,
    };
    let args = app.serve.to_args();
    match &app.known.ft {
        Some(ft) => match app.engine.start(ft, &args, &app.known.config.freetoken.env) {
            Ok(launch) => Some(Effect::StartEngine { launch, args, model, port }),
            Err(_) => None,
        },
        None => None,
    }
}

fn decide_start(app: &mut App) -> (r: Outcome)
    ensures
        (final(app)@, outcome_view(r)) == start_decided(old(app)@),
{
    proof {
        reveal(start_decided);
    }
    match start_refusal(app) {
        Some(s) => {
            if s.focus_serve {
                app.tab = Tab::Serve;
            }
            Err(refuse(app, s.status, s.kind, s.message))
        },
        None => {
            match serve_effect(app) {
                Some(e) => {
                    app.want(e);
                },
                None => {},
            }
            Ok(Done::Spawning)
        },
    }
}

/// Start the engine: what is left for the front end is to start the process and report back.
pub fn start_engine(app: &mut App, record: Option<&ServeState>, alive: bool) -> (r: Outcome)
    requires
        old(app)@.has_room(),
    ensures
        (final(app)@, outcome_view(r)) == start_asked(old(app)@, opt_record(record), alive),
{
    proof {
        reveal(start_asked);
    }
    app.engine.refresh_foreign(record, alive);
    decide_start(app)
}

/// The state once the engine's process has started.
pub open spec fn engine_up(a: AppView, engine: EngineView, model: Seq<char>, log_path: Seq<char>)
    -> AppView {
    (AppView {
        engine,
        geometry: None,
        active: 0,
        requests: Seq::empty(),
        requests_cursor: 0,
        tab: Tab::Logs,
        logs_follow: true,
        logs_scroll: 0,
        ..a.wants(EffectView::ResetTelemetry)
    }).says("starting "@ + model + "; logging to "@ + log_path, ToastKind::Info)
}

/// Take in that the engine's process has started. Returns what is to be written down of it.
pub fn engine_started(
    app: &mut App,
    pid: u32,
    starttime: Option<u64>,
    launch: &Launch,
    args: &Vec<String>,
    log_path: &str,
    model: &str,
    port: u16,
    now: i64,
) -> (r: (Started, Done))
    requires
        old(app)@.has_room(),
    ensures
        r.0.header@ == "[ft-man] $ "@ + launch.display@,
        r.0.second@ == "[ft-man] pid "@ + dec(pid as nat) + ", logging to "@ + log_path@,
        opt_state(r.0.record) == (match starttime {
            Some(starttime) => Some(
                ServeStateView {
                    pid,
                    starttime,
                    model: model@,
                    port,
                    args: texts(args@),
                    log_path: log_path@,
                    started_at: now,
                },
            ),
            None => None,
        }),
        r.1@ == (DoneView::Started { job_id: None, log_path: Some(log_path@) }),
        final(app)@ == engine_up(
            old(app)@,
            EngineView {
                state: EngineState::Starting,
                pid: Some(pid),
                model: Some(model@),
                port: Some(port),
                log_path: Some(log_path@),
                command_line: Some(launch.display@),
                has_child: true,
                ..old(app)@.engine.says(r.0.header@, false).says(r.0.second@, false)
            },
            model@,
            log_path@,
        ),
{
    let started = app.engine.started(pid, starttime, launch, args, log_path, model, port, now);
    app.geometry = None;
    app.active = 0;
    app.want(Effect::ResetTelemetry);
    app.requests = Vec::new();
    app.requests_cursor = 0;
    app.tab = Tab::Logs;
    app.logs_follow = true;
    app.logs_scroll = 0;
    let text = cat4("starting ", model, "; logging to ", log_path);
    app.info(text.as_str());
    assert(app@.requests =~= Seq::<crate::ft::types::RequestRecord>::empty());
    (started, Done::Started { job_id: None, log_path: Some(log_path.to_owned()) })
}

/// Take in that the engine's process could not be started.
pub fn engine_failed(app: &mut App, error: &str) -> (r: Outcome)
    ensures
        (final(app)@, outcome_view(r)) == failed(
            old(app)@,
            500,
            "could not start the engine: "@ + error@,
        ),
{
    Err(error_off(app, 500, cat2("could not start the engine: ", error)))
}

/// What the snapshot advertises is what the route does: a start is refused exactly when it
/// is said to be blocked, with that message, once the state file has been taken in.
pub proof fn law_a_blocked_start_is_refused(
    a: AppView,
    record: Option<ServeStateView>,
    alive: bool,
)
    ensures
        ({
            let b = AppView { engine: a.engine.refreshed(record, alive), ..a };
            let r = start_asked(a, record, alive).1;
            match start_refusal_of(b) {
                Some(s) => r == Err::<DoneView, RefusalView>(loud(s.status, s.message)),
                None => r == Ok::<DoneView, RefusalView>(DoneView::Spawning),
            }
        }),
{
    reveal(start_asked);
    reveal(start_decided);
}

/// A start never leads to a second engine: while one is live, or another process's is, no
/// process is asked for.
pub proof fn law_no_second_engine_is_started(
    a: AppView,
    record: Option<ServeStateView>,
    alive: bool,
)
    requires
        a.engine.state.live() || a.engine.is_foreign(record, alive),
    ensures
        start_asked(a, record, alive).1 is Err,
        start_asked(a, record, alive).0.effects == a.effects,
{
    reveal(start_asked);
    reveal(start_decided);
    reveal(start_refusal_of);
}

// ---------------------------------------------------------------- stopping

pub open spec fn stop_confirm(a: AppView, force: bool) -> ConfirmView {
    let model = match a.known.current_model {
        Some(m) => m@,
        None => "the model"@,
    };
    ConfirmView {
        title: if force {
            "Force-stop the engine"@
        } else {
            "Stop the engine"@
        },
        body: seq![
            "Stop the engine serving "@ + model + "?"@,
            ""@,
            if force {
                "SIGKILL does not let the engine drain in-flight requests or release VRAM cleanly. Use it only when a normal stop has already failed."@
            } else if a.engine.state == EngineState::Adopted {
                "This engine was started by an earlier paddock run and re-attached to. In-flight requests are aborted and the weights are unloaded."@
            } else {
                "In-flight requests are aborted and the weights are unloaded."@
            },
        ],
        action: ConfirmActionView::StopEngine { force },
        danger: force,
    }
}

pub open spec fn stop_asked(a: AppView, force: bool, clock: Clock) -> Step {
    if !a.engine.state.live() {
        warned(a, 409, "no engine is running"@)
    } else {
        asks(a, stop_confirm(a, force), clock)
    }
}

pub fn request_stop(app: &mut App, force: bool, clock: Clock) -> (r: Outcome)
    requires
        old(app)@.has_room(),
    ensures
        (final(app)@, outcome_view(r)) == stop_asked(old(app)@, force, clock),
{
    if !app.engine.is_live() {
        return Err(warn_off(app, 409, "no engine is running".to_owned()));
    }
    let adopted = app.engine.state == EngineState::Adopted;
    let model = match copy_opt(&app.known.current_model) {
        Some(m) => m,
        None => "the model".to_owned(),
    };
    let mut body: Vec<String> = vec![
        cat3("Stop the engine serving ", model.as_str(), "?"),
        "".to_owned(),
        if force {
            "SIGKILL does not let the engine drain in-flight requests or release VRAM cleanly. Use it only when a normal stop has already failed.".to_owned()
        } else if adopted {
            "This engine was started by an earlier paddock run and re-attached to. In-flight requests are aborted and the weights are unloaded.".to_owned()
        } else {
            "In-flight requests are aborted and the weights are unloaded.".to_owned()
        },
    ];
    assert(texts(body@) =~= stop_confirm(app@, force).body);
    let confirm = Confirm::new(
        if force {
            "Force-stop the engine"
        } else {
            "Stop the engine"
        },
        body,
        ConfirmAction::StopEngine { force },
        force,
    );
    Ok(ask(app, confirm, clock))
}

pub open spec fn smoke_begun(a: AppView) -> Step {
    if !a.known.reachable {
        warned(a, 409, "the server is not answering"@)
    } else {
        (
            a.says("running a /generate smoke test…"@, ToastKind::Info).wants(
                EffectView::SmokeTest { prompt: "The capital of France is"@, max_tokens: 16 },
            ),
            Ok(begun()),
        )
    }
}

pub fn smoke_test(app: &mut App) -> (r: Outcome)
    ensures
        (final(app)@, outcome_view(r)) == smoke_begun(old(app)@),
{
    if !app.known.reachable {
        return Err(warn_off(app, 409, "the server is not answering".to_owned()));
    }
    app.info("running a /generate smoke test…");
    app.want(
        Effect::SmokeTest { prompt: "The capital of France is".to_owned(), max_tokens: 16 },
    );
    Ok(Done::started())
}

// ---------------------------------------------------------------- models

pub fn rescan(app: &mut App) -> (r: Outcome)
    ensures
        (final(app)@, outcome_view(r)) == (
            old(app)@.wants(EffectView::Rescan),
            Ok::<DoneView, RefusalView>(begun()),
        ),
{
    app.want(Effect::Rescan);
    Ok(Done::started())
}

/// One of the models is served under `name`.
pub open spec fn served_under(models: Seq<Model>, name: Seq<char>) -> bool {
    exists|i: int| 0 <= i < models.len() && (#[trigger] models[i])@.served_name() == name
}

/// Whether the served name is paddock's to choose: it is unset or blank, or it is the name
/// derived of some model. A name typed by hand, or loaded from a profile, is a decision
/// about the API this engine publishes, and picking a different model must not silently
/// rewrite it.
pub open spec fn name_is_ours(a: AppView) -> bool {
    match value_of(a.serve, "served_model_name"@) {
        None => true,
        Some(n) => trimmed(n).len() == 0 || served_under(a.known.models@, trimmed(n)),
    }
}

/// The serve configuration with a model loaded into it. An FTW build loads meaningfully
/// faster, so it is preferred when one exists.
pub open spec fn serving(a: AppView, m: Model) -> Map<Seq<char>, Seq<char>> {
    let target = match m.converted_to {
        Some(ftw) => ftw@,
        None => m.path@,
    };
    let s = after_set(a.serve, "model"@, target);
    if name_is_ours(a) {
        after_set(s, "served_model_name"@, m@.served_name())
    } else {
        s
    }
}

/// The state with a model loaded into the serve configuration.
pub open spec fn loaded(a: AppView, m: Model) -> AppView {
    let b = AppView { serve: serving(a, m), ..a };
    match m.converted_to {
        Some(ftw) => b.says("using the FTW build at "@ + ftw@, ToastKind::Info),
        None => b,
    }
}

pub open spec fn model_used(
    a: AppView,
    path: Seq<char>,
    and_serve: bool,
    record: Option<ServeStateView>,
    alive: bool,
) -> Step {
    match found_model(a.known.models@, path) {
        None => (a, Err(no_model())),
        Some(m) => if m.format == Format::PartialFtw {
            warned(
                a,
                409,
                m.name@ + " is an incomplete conversion and cannot be served; delete it with D"@,
            )
        } else if and_serve {
            start_asked(loaded(a, m), record, alive)
        } else {
            (
                (AppView { tab: Tab::Serve, ..loaded(a, m) }).says(
                    m.name@ + " loaded into the Serve configuration"@,
                    ToastKind::Success,
                ),
                Ok(DoneView::Finished),
            )
        },
    }
}

fn is_served_under(models: &Vec<Model>, name: &str) -> (r: bool)
    ensures
        r == served_under(models@, name@),
{
    let mut i: usize = 0;
    while i < models.len()
        invariant
            i <= models.len(),
            forall|j: int| 0 <= j < i ==> (#[trigger] models@[j])@.served_name() != name@,
        decreases models.len() - i,
    {
        let served = models[i].served_name();
        if same(served.as_str(), name) {
            return true;
        }
        i = i + 1;
    }
    false
}

fn load_model(app: &mut App, model: &Model)
    ensures
        final(app)@ == loaded(old(app)@, *model),
{
    let derive = match app.serve.get("served_model_name") {
        None => true,
        Some(n) => {
            let n = trim(n);
            n.as_str().is_empty() || is_served_under(&app.known.models, n.as_str())
        },
    };
    match &model.converted_to {
        Some(ftw) => app.serve.set("model", ftw.as_str()),
        None => app.serve.set("model", model.path.as_str()),
    }
    if derive {
        let served = model.served_name();
        app.serve.set("served_model_name", served.as_str());
    }
    if let Some(ftw) = &model.converted_to {
        let note = cat2("using the FTW build at ", ftw.as_str());
        app.info(note.as_str());
    }
}

/// Load a checkpoint into the Serve configuration, optionally starting it.
pub fn use_model(
    app: &mut App,
    path: &str,
    and_serve: bool,
    record: Option<&ServeState>,
    alive: bool,
) -> (r: Outcome)
    requires
        old(app)@.has_room(),
    ensures
        (final(app)@, outcome_view(r)) == model_used(
            old(app)@,
            path@,
            and_serve,
            opt_record(record),
            alive,
        ),
{
    let model = match find_model(&app.known.models, path) {
        Some(m) => m.copy(),
        None => {
            return Err(not_found_model());
        },
    };
    if model.is_partial() {
        return Err(
            warn_off(
                app,
                409,
                cat2(
                    model.name.as_str(),
                    " is an incomplete conversion and cannot be served; delete it with D",
                ),
            ),
        );
    }
    load_model(app, &model);
    if and_serve {
        start_engine(app, record, alive)
    } else {
        app.tab = Tab::Serve;
        let text = cat2(model.name.as_str(), " loaded into the Serve configuration");
        app.success(text.as_str());
        Ok(Done::Finished)
    }
}

/// Every refusal of an action on the engine, its models or its checkout says truly whether it
/// was also shown, and leaves nothing to be done.
pub proof fn law_engine_refusals_are_honest(
    a: AppView,
    record: Option<ServeStateView>,
    alive: bool,
    force: bool,
    path: Seq<char>,
    and_serve: bool,
    exists_already: bool,
    partial: bool,
    changes: Option<Changes>,
    clock: Clock,
)
    ensures
        honest(a, start_asked(a, record, alive)),
        honest(a, stop_asked(a, force, clock)),
        honest(a, smoke_begun(a)),
        honest(a, model_used(a, path, and_serve, record, alive)),
        honest(a, conversion_asked(a, path, exists_already, partial)),
        honest(a, deletion_asked(a, path)),
        honest(a, update_asked(a, clock)),
        honest(a, summary_asked(a, changes)),
{
    reveal(start_asked);
    reveal(start_decided);
    reveal(start_refusal_of);
}

/// A name typed by hand is kept: picking a model changes it only when it is blank or the
/// name derived of some model.
pub proof fn law_a_typed_name_is_kept(a: AppView, m: Model)
    requires
        value_of(a.serve, "served_model_name"@) is Some,
        trimmed(value_of(a.serve, "served_model_name"@)->0).len() > 0,
        !served_under(
            a.known.models@,
            trimmed(value_of(a.serve, "served_model_name"@)->0),
        ),
    ensures
        serving(a, m) == after_set(
            a.serve,
            "model"@,
            match m.converted_to {
                Some(ftw) => ftw@,
                None => m.path@,
            },
        ),
{
}

// ---------------------------------------------------------------- converting

/// The question put before leftovers are removed.
pub open spec fn reconvert_question(
    name: Seq<char>,
    out: Seq<char>,
    source: Seq<char>,
    size: u64,
) -> ConfirmView {
    ConfirmView {
        title: "Retry conversion"@,
        body: seq![
            name + " has leftovers from a conversion that failed."@,
            ""@,
            out,
            "Delete those "@ + bytes_text(size as nat)
                + " and convert again? They hold no index and cannot be served."@,
        ],
        action: ConfirmActionView::ReconvertModel(source),
        danger: true,
    }
}

pub fn reconvert_confirm(name: &str, out: &str, source: &str, size: u64) -> (r: Confirm)
    ensures
        r@ == reconvert_question(name@, out@, source@, size),
{
    let body: Vec<String> = vec![
        cat2(name, " has leftovers from a conversion that failed."),
        "".to_owned(),
        out.to_owned(),
        cat3(
            "Delete those ",
            bytes(size).as_str(),
            " and convert again? They hold no index and cannot be served.",
        ),
    ];
    assert(texts(body@) =~= reconvert_question(name@, out@, source@, size).body);
    Confirm::new("Retry conversion", body, ConfirmAction::ReconvertModel(source.to_owned()), true)
}

/// Where the build of a model goes.
pub open spec fn out_of(a: AppView, m: Model) -> Seq<char> {
    build_dir(
        m.path@,
        opt_text(m.repo),
        opt_text(m.variant),
        a.known.config.library.builds(opt_text(a.known.env.home)),
        opt_text(a.known.env.home),
    )
}

/// What asking for a conversion does: `exists` is whether its output is there already, and
/// `partial` whether that is what a failed conversion left.
pub open spec fn conversion_asked(
    a: AppView,
    path: Seq<char>,
    exists_already: bool,
    partial: bool,
) -> Step {
    match found_model(a.known.models@, path) {
        None => (a, Err(no_model())),
        Some(m) => if m.format != Format::Hf {
            warned(
                a,
                409,
                m.name@ + " is already in "@ + format_label(m.format)
                    + " format; conversion only applies to Hugging Face checkpoints"@,
            )
        } else if a.known.gpu_busy is Some {
            warned(a, 409, "cannot convert: "@ + a.known.gpu_busy->0@)
        } else if a.convert_checking is Some {
            warned(a, 409, "a checkpoint check is already running"@)
        } else if exists_already && !partial {
            warned(
                a,
                409,
                out_of(a, m) + " already exists; delete it from the Models tab to reconvert"@,
            )
        } else if exists_already {
            // A finished build is a real artifact; the leftovers of a failed run are not,
            // and refusing to touch either would leave a retry with nowhere to go.
            (
                a.wants(
                    EffectView::MeasureLeftovers {
                        name: m.name@,
                        out: out_of(a, m),
                        source: m.path@,
                    },
                ),
                Ok(begun()),
            )
        } else {
            (conversion_begun(a, m.path@).0, Ok(conversion_begun(a, m.path@).1))
        },
    }
}

pub open spec fn format_label(f: Format) -> Seq<char> {
    match f {
        Format::Hf => "HF"@,
        Format::Ftw => "FTW"@,
        Format::Gguf => "GGUF"@,
        Format::PartialFtw => "PART"@,
    }
}

pub fn convert_model(app: &mut App, path: &str, exists_already: bool, partial: bool) -> (r: Outcome)
    ensures
        (final(app)@, outcome_view(r)) == conversion_asked(
            old(app)@,
            path@,
            exists_already,
            partial,
        ),
{
    let model = match find_model(&app.known.models, path) {
        Some(m) => m.copy(),
        None => {
            return Err(not_found_model());
        },
    };
    if model.format != Format::Hf {
        return Err(
            warn_off(
                app,
                409,
                cat4(
                    model.name.as_str(),
                    " is already in ",
                    model.format.label(),
                    " format; conversion only applies to Hugging Face checkpoints",
                ),
            ),
        );
    }
    if let Some(reason) = copy_opt(&app.known.gpu_busy) {
        return Err(warn_off(app, 409, cat2("cannot convert: ", reason.as_str())));
    }
    if app.convert_checking.is_some() {
        return Err(warn_off(app, 409, "a checkpoint check is already running".to_owned()));
    }
    if exists_already {
        let home = crate::config::home_of(&app.known.env);
        let dir = app.known.config.library.ftw_dir(home);
        let out = ftw_output_path(
            model.path.as_str(),
            as_text_opt(&model.repo),
            as_text_opt(&model.variant),
            dir.as_str(),
            home,
        );
        if !partial {
            return Err(
                warn_off(
                    app,
                    409,
                    cat2(
                        out.as_str(),
                        " already exists; delete it from the Models tab to reconvert",
                    ),
                ),
            );
        }
        app.want(Effect::MeasureLeftovers { name: model.name, out, source: model.path });
        return Ok(Done::started());
    }
    Ok(begin_conversion(app, model.path.as_str()))
}

pub open spec fn convert_anyway(source: Seq<char>, detail: Seq<char>) -> ConfirmView {
    ConfirmView {
        title: "Convert anyway?"@,
        body: seq![
            "FreeToken may not be able to convert "@ + name_or_path(source) + "."@,
            ""@,
            detail,
            ""@,
            "Converting anyway will run for several minutes and write most of the model to disk before it can fail."@,
        ],
        action: ConfirmActionView::ConvertAnyway(source),
        danger: false,
    }
}

/// Act on a conversion preflight: start silently when it is clean, explain and ask when
/// it is not.
pub fn on_convert_preflight(app: &mut App, source: &str, outcome: Preflight, clock: Clock) -> (r:
    Done)
    requires
        old(app)@.has_room(),
    ensures
        (final(app)@, r@) == (match outcome {
            Preflight::Clean(detail) => conversion_started(
                old(app)@.says(detail@, ToastKind::Info),
                source@,
            ),
            Preflight::Warn(detail) => asked(old(app)@, convert_anyway(source@, detail@), clock),
            Preflight::Fail(detail) => asked(old(app)@, convert_anyway(source@, detail@), clock),
        }),
{
    let name = display_name(source);
    let detail = match outcome {
        Preflight::Clean(detail) => {
            app.info(detail.as_str());
            return start_conversion(app, source);
        },
        Preflight::Warn(detail) => detail,
        Preflight::Fail(detail) => detail,
    };
    let body: Vec<String> = vec![
        cat3("FreeToken may not be able to convert ", name.as_str(), "."),
        "".to_owned(),
        detail,
        "".to_owned(),
        "Converting anyway will run for several minutes and write most of the model to disk before it can fail.".to_owned(),
    ];
    assert(texts(body@) =~= convert_anyway(source@, detail@).body);
    let confirm = Confirm::new(
        "Convert anyway?",
        body,
        ConfirmAction::ConvertAnyway(source.to_owned()),
        false,
    );
    ask(app, confirm, clock)
}

// ---------------------------------------------------------------- deleting

pub open spec fn delete_question(name: Seq<char>, path: Seq<char>, size: u64) -> ConfirmView {
    ConfirmView {
        title: "Delete checkpoint"@,
        body: seq![
            "Permanently delete "@ + name + "?"@,
            ""@,
            path,
            "This frees "@ + bytes_text(size as nat) + " and cannot be undone."@,
        ],
        action: ConfirmActionView::DeleteModel(path),
        danger: true,
    }
}

pub fn delete_confirm(name: &str, path: &str, size: u64) -> (r: Confirm)
    ensures
        r@ == delete_question(name@, path@, size),
{
    let body: Vec<String> = vec![
        cat3("Permanently delete ", name, "?"),
        "".to_owned(),
        path.to_owned(),
        cat3("This frees ", bytes(size).as_str(), " and cannot be undone."),
    ];
    assert(texts(body@) =~= delete_question(name@, path@, size).body);
    Confirm::new("Delete checkpoint", body, ConfirmAction::DeleteModel(path.to_owned()), true)
}

pub open spec fn cache_delete_question(m: Model) -> ConfirmView {
    ConfirmView {
        title: "Delete from HF cache"@,
        body: seq![
            "Permanently delete "@ + m.name@ + " from the Hugging Face cache?"@,
            ""@,
            m.path@,
            "This runs `hf cache delete` to remove the snapshot and any dangling blobs. Cannot be undone."@,
        ],
        action: ConfirmActionView::DeleteHfCacheModel {
            path: m.path@,
            repo: match m.repo {
                Some(r) => r@,
                None => m.name@,
            },
        },
        danger: true,
    }
}

pub open spec fn deletion_asked(a: AppView, path: Seq<char>) -> Step {
    match found_model(a.known.models@, path) {
        None => (a, Err(no_model())),
        Some(m) => if cache_shape(crate::paths::components_of(m.path@)) {
            (a.wants(EffectView::Ask(cache_delete_question(m))), Ok(begun()))
        } else {
            (
                a.says("measuring "@ + m.path@ + "…"@, ToastKind::Info).wants(
                    EffectView::MeasureModel { name: m.name@, path: m.path@ },
                ),
                Ok(begun()),
            )
        },
    }
}

/// Delete a checkpoint, once it is measured and the question is answered. The hub cache
/// belongs to `huggingface_hub`: a snapshot directory is symlinks into `blobs/`, and deleting
/// it frees the links, leaves the blobs, and breaks `refs/`. `hf cache delete` is the only
/// thing that knows how to take a repo apart properly.
pub fn delete_model(app: &mut App, path: &str) -> (r: Outcome)
    ensures
        (final(app)@, outcome_view(r)) == deletion_asked(old(app)@, path@),
{
    let model = match find_model(&app.known.models, path) {
        Some(m) => m.copy(),
        None => {
            return Err(not_found_model());
        },
    };
    if is_hub_cache_path(model.path.as_str()) {
        let repo = match copy_opt(&model.repo) {
            Some(r) => r,
            None => model.name.clone(),
        };
        let body: Vec<String> = vec![
            cat3(
                "Permanently delete ",
                model.name.as_str(),
                " from the Hugging Face cache?",
            ),
            "".to_owned(),
            model.path.clone(),
            "This runs `hf cache delete` to remove the snapshot and any dangling blobs. Cannot be undone.".to_owned(),
        ];
        assert(texts(body@) =~= cache_delete_question(model).body);
        let confirm = Confirm::new(
            "Delete from HF cache",
            body,
            ConfirmAction::DeleteHfCacheModel { path: model.path, repo },
            true,
        );
        app.want(Effect::Ask(confirm));
        return Ok(Done::started());
    }
    app.info(cat3("measuring ", model.path.as_str(), "…").as_str());
    app.want(Effect::MeasureModel { name: model.name, path: model.path });
    Ok(Done::started())
}

// ---------------------------------------------------------------- updating

pub open spec fn update_question(k: Known) -> ConfirmView {
    ConfirmView {
        title: "Update FreeToken"@,
        body: seq![
            k.tools.checkout_dir->0@,
            ""@,
            "git pull --ff-only  ("@ + dec(behind_of(k) as nat) + " commit(s) behind origin)"@,
            "uv pip install -e \".[accel]\""@,
            ""@,
            "the engine must be started again afterwards"@,
        ],
        action: ConfirmActionView::UpdateFreetoken,
        danger: false,
    }
}

pub open spec fn update_asked(a: AppView, clock: Clock) -> Step {
    match update_refusal(a) {
        Some((status, message)) => warned(a, status, message),
        None => asks(a, update_question(a.known), clock),
    }
}

/// Update the FreeToken this machine runs: pull the checkout, reinstall it into its venv.
///
/// The same two commands an operator would type, with nothing inherited from a shell that
/// may not be there: a systemd unit's PATH is not a login shell's, and this runs under
/// both. Every program is resolved to a path first and refused by name if missing, rather
/// than failing halfway through with `uv: not found` and a half-updated tree.
///
/// Asks before doing it. This rewrites the files the engine loads from.
pub fn update_freetoken(app: &mut App, clock: Clock) -> (r: Outcome)
    requires
        old(app)@.has_room(),
    ensures
        (final(app)@, outcome_view(r)) == update_asked(old(app)@, clock),
{
    let plan = match update_plan(app) {
        Ok(p) => p,
        Err(e) => {
            return Err(e);
        },
    };
    let body: Vec<String> = vec![
        plan.dir,
        "".to_owned(),
        cat3(
            "git pull --ff-only  (",
            decimal(plan.behind as u64).as_str(),
            " commit(s) behind origin)",
        ),
        "uv pip install -e \".[accel]\"".to_owned(),
        "".to_owned(),
        "the engine must be started again afterwards".to_owned(),
    ];
    assert(texts(body@) =~= update_question(app@.known).body);
    let confirm = Confirm::new("Update FreeToken", body, ConfirmAction::UpdateFreetoken, false);
    Ok(ask(app, confirm, clock))
}

/// Where `uv` may stand when it is not on PATH, in the order they are looked at.
pub fn uv_places(home: &str) -> (r: (String, String))
    ensures
        r.0@ == joined_path(home@, ".local/bin/uv"@),
        r.1@ == joined_path(home@, ".cargo/bin/uv"@),
{
    (join(home, ".local/bin/uv"), join(home, ".cargo/bin/uv"))
}

/// The `uv` to use: the one on PATH, else the first of [`uv_places`] that is a file. Without
/// a home directory there are no such places.
pub fn find_uv(on_path: Option<String>, home: Option<&str>, first: bool, second: bool) -> (r: Option<
    String,
>)
    ensures
        opt_text(r) == (match (on_path, home) {
            (Some(p), _) => Some(p@),
            (None, None) => None,
            (None, Some(h)) => if first {
                Some(joined_path(h@, ".local/bin/uv"@))
            } else if second {
                Some(joined_path(h@, ".cargo/bin/uv"@))
            } else {
                None
            },
        }),
{
    if on_path.is_some() {
        return on_path;
    }
    match home {
        Some(h) => {
            let (local, cargo) = uv_places(h);
            if first {
                Some(local)
            } else if second {
                Some(cargo)
            } else {
                None
            }
        },
        None => None,
    }
}

// ---------------------------------------------------------------- summarizing origin

/// What origin holds that a checkout does not.
#[derive(Debug)]
pub struct Changes {
    pub range: String,
    pub commits: usize,
    pub log: String,
    pub stat: String,
    pub patch: String,
    /// The patch was cut to the budget.
    pub truncated: bool,
}

/// Output budget for a summary, thinking included.
///
/// A reasoning model spends this before it answers, and the graded ladder the checkpoint
/// advertises has no "off" gear on every family, so the request asks for the low gear and
/// still leaves room for a model that thinks anyway. Six bullet points need a few hundred
/// tokens; the rest of this is headroom for the reasoning that precedes them, because
/// running out mid-thought produces no answer at all rather than a short one.
pub const SUMMARY_MAX_TOKENS: u32 = 4096;

/// Bytes of patch text sent with a summary request. Large enough for an ordinary origin
/// week, small enough that prefill is seconds rather than minutes on a loaded engine.
pub const PATCH_BUDGET: usize = 65536;

/// What the engine is asked to be. Deliberately narrow: the reader is an operator deciding
/// whether to pull, and the failure mode of a model shown a diff is confident invention
/// about code it cannot see.
pub const SUMMARY_SYSTEM: &'static str = "You summarize changes to FreeToken, a local LLM inference engine, for the operator of a machine running it. Answer in at most six bullet points, plainest first. Say what changed and what it means for someone running the engine — new or renamed CLI flags, changed defaults, new model support, anything that alters how a server should be started or what it will accept. If the patch was truncated, say which parts of your answer rest on the diffstat alone. Do not speculate about code you were not shown, and do not repeat the commit subjects back as a list.";

pub open spec fn summary_prompt(c: Changes) -> Seq<char> {
    "Below are the commits "@ + c.range@
        + " that the local FreeToken checkout is missing.\n\nCOMMIT LOG (oldest first)\n"@ + c.log@
        + "\n\nDIFFSTAT\n"@ + c.stat@ + "\n\nPATCH"@ + (if c.truncated {
        " (truncated — the diffstat above is complete)"@
    } else {
        ""@
    }) + "\n"@ + c.patch@ + "\n"@
}

pub open spec fn summary_asked(a: AppView, changes: Option<Changes>) -> Step {
    if a.known.tools.checkout_dir is None {
        warned(a, 503, "no FreeToken checkout to compare against"@)
    } else if !a.known.reachable {
        warned(a, 409, "no engine is answering; start one to ask it"@)
    } else if a.known.current_model is None {
        warned(a, 409, "no model is loaded to ask"@)
    } else {
        match changes {
            None => warned(a, 409, "this checkout is already at origin"@),
            Some(c) => (
                (AppView {
                    origin_summary: Some(
                        OriginView {
                            range: c.range@,
                            commits: c.commits,
                            model: a.known.current_model->0@,
                            pending: true,
                            truncated: c.truncated,
                            text: None,
                            error: None,
                        },
                    ),
                    ..a
                }).wants(
                    EffectView::Summarize {
                        model: a.known.current_model->0@,
                        system: SUMMARY_SYSTEM@,
                        prompt: summary_prompt(c),
                        max_tokens: SUMMARY_MAX_TOKENS,
                        effort: "low"@,
                        timeout_s: 600,
                    },
                ),
                Ok(begun()),
            ),
        }
    }
}

/// Ask the running engine what origin changed: `changes` are what the checkout is missing,
/// where there is anything.
///
/// The one place paddock uses the model it supervises for something other than proving the
/// server answers. The material is the commit log, the diffstat and as much of the patch
/// as the budget allows; the log and the stat always fit, and only the patch is cut,
/// because they are the parts that describe a change rather than spell it out.
///
/// Every refusal here is a different missing precondition, and each says which: there is
/// no checkout to read, it is already current, or nothing is loaded to ask.
pub fn summarize_origin(app: &mut App, changes: Option<Changes>) -> (r: Outcome)
    ensures
        (final(app)@, outcome_view(r)) == summary_asked(old(app)@, changes),
{
    if app.known.tools.checkout_dir.is_none() {
        return Err(warn_off(app, 503, "no FreeToken checkout to compare against".to_owned()));
    }
    if !app.known.reachable {
        return Err(warn_off(app, 409, "no engine is answering; start one to ask it".to_owned()));
    }
    let model = match copy_opt(&app.known.current_model) {
        Some(m) => m,
        None => {
            return Err(warn_off(app, 409, "no model is loaded to ask".to_owned()));
        },
    };
    let c = match changes {
        Some(c) => c,
        None => {
            return Err(warn_off(app, 409, "this checkout is already at origin".to_owned()));
        },
    };
    let mut prompt = "Below are the commits ".to_owned();
    prompt.append(c.range.as_str());
    prompt.append(
        " that the local FreeToken checkout is missing.\n\nCOMMIT LOG (oldest first)\n",
    );
    prompt.append(c.log.as_str());
    prompt.append("\n\nDIFFSTAT\n");
    prompt.append(c.stat.as_str());
    prompt.append("\n\nPATCH");
    prompt.append(
        if c.truncated {
            " (truncated — the diffstat above is complete)"
        } else {
            ""
        },
    );
    prompt.append("\n");
    prompt.append(c.patch.as_str());
    prompt.append("\n");
    app.origin_summary = Some(
        OriginSummary {
            range: c.range,
            commits: c.commits,
            model: model.clone(),
            pending: true,
            truncated: c.truncated,
            text: None,
            error: None,
        },
    );
    app.want(
        Effect::Summarize {
            model,
            system: SUMMARY_SYSTEM.to_owned(),
            prompt,
            max_tokens: SUMMARY_MAX_TOKENS,
            effort: "low".to_owned(),
            timeout_s: 600,
        },
    );
    Ok(Done::started())
}

} // verus!
