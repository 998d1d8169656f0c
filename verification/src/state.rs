//! The state that the actions of both front ends read and change.
//!
//! What an action cannot do itself (start a process, delete a directory, talk to a server)
//! it leaves in [`App::effects`], in order, for the front end to carry out.

use vstd::prelude::*;
use crate::config::{Config, HfEnv, Profiles, ProfilesView};
use crate::cache_pools::Pool;
use crate::ft::api::CacheRebuild;
use crate::ft::checkout::FtCheckout;
use crate::ft::locate::Freetoken;
use crate::ft::preflight::Outcome as Preflight;
use crate::ft::proc::{
    env_views, Engine, EngineView, Job, JobView, Launch, Run, RunView,
};
use crate::ft::types::{CacheGeometry, RequestRecord};
use crate::hub::{Download, RepoFile, RepoInfo, RepoSummary};
use crate::knobs::ServeConfig;
use crate::models::Model;
use crate::plan::{Plan, PlanView};
use crate::sampling::{Sampling, SamplingView};
use crate::templates::StoredTemplate;
use crate::text::{opt_text, texts};

verus! {

#[derive(Debug, Clone, Copy, PartialEq, Eq, Structural)]
pub enum Tab {
    Dashboard,
    Models,
    Serve,
    Hub,
    Templates,
    Cache,
    Jobs,
    Logs,
    Requests,
}

// ---------------------------------------------------------------- toasts

#[derive(Debug, Clone, Copy, PartialEq, Eq, Structural)]
pub enum ToastKind {
    Info,
    Success,
    Warn,
    Error,
}

#[derive(Debug)]
pub struct Toast {
    pub text: String,
    pub kind: ToastKind,
}

pub open spec fn toast_views(v: Seq<Toast>) -> Seq<(Seq<char>, ToastKind)> {
    Seq::new(v.len(), |i: int| (v[i].text@, v[i].kind))
}

// ---------------------------------------------------------------- confirmations

/// What a confirmation stands for.
#[derive(Debug)]
pub enum ConfirmAction {
    Quit,
    UpdateFreetoken,
    StopEngine { force: bool },
    DeleteModel(String),
    DeleteHfCacheModel { path: String, repo: String },
    CancelJob(u64),
    CancelDownload(u64),
    DeleteProfile(String),
    InstallHfCli,
    ApplyCacheRebuild,
    ApplyTemplate { template: String, model: String },
    RevertTemplate(String),
    ApplySampling { model: String, sampling: Sampling },
    RevertSampling(String),
    ConvertAnyway(String),
    ReconvertModel(String),
    DeleteTemplate(String),
}

pub enum ConfirmActionView {
    Quit,
    UpdateFreetoken,
    StopEngine { force: bool },
    DeleteModel(Seq<char>),
    DeleteHfCacheModel { path: Seq<char>, repo: Seq<char> },
    CancelJob(u64),
    CancelDownload(u64),
    DeleteProfile(Seq<char>),
    InstallHfCli,
    ApplyCacheRebuild,
    ApplyTemplate { template: Seq<char>, model: Seq<char> },
    RevertTemplate(Seq<char>),
    ApplySampling { model: Seq<char>, sampling: SamplingView },
    RevertSampling(Seq<char>),
    ConvertAnyway(Seq<char>),
    ReconvertModel(Seq<char>),
    DeleteTemplate(Seq<char>),
}

impl View for ConfirmAction {
    type V = ConfirmActionView;

    open spec fn view(&self) -> ConfirmActionView {
        match self {
            ConfirmAction::Quit => ConfirmActionView::Quit,
            ConfirmAction::UpdateFreetoken => ConfirmActionView::UpdateFreetoken,
            ConfirmAction::StopEngine { force } => ConfirmActionView::StopEngine { force: *force },
            ConfirmAction::DeleteModel(p) => ConfirmActionView::DeleteModel(p@),
            ConfirmAction::DeleteHfCacheModel { path, repo } =>
                ConfirmActionView::DeleteHfCacheModel { path: path@, repo: repo@ },
            ConfirmAction::CancelJob(id) => ConfirmActionView::CancelJob(*id),
            ConfirmAction::CancelDownload(id) => ConfirmActionView::CancelDownload(*id),
            ConfirmAction::DeleteProfile(n) => ConfirmActionView::DeleteProfile(n@),
            ConfirmAction::InstallHfCli => ConfirmActionView::InstallHfCli,
            ConfirmAction::ApplyCacheRebuild => ConfirmActionView::ApplyCacheRebuild,
            ConfirmAction::ApplyTemplate { template, model } => ConfirmActionView::ApplyTemplate {
                template: template@,
                model: model@,
            },
            ConfirmAction::RevertTemplate(p) => ConfirmActionView::RevertTemplate(p@),
            ConfirmAction::ApplySampling { model, sampling } => ConfirmActionView::ApplySampling {
                model: model@,
                sampling: sampling@,
            },
            ConfirmAction::RevertSampling(p) => ConfirmActionView::RevertSampling(p@),
            ConfirmAction::ConvertAnyway(p) => ConfirmActionView::ConvertAnyway(p@),
            ConfirmAction::ReconvertModel(p) => ConfirmActionView::ReconvertModel(p@),
            ConfirmAction::DeleteTemplate(n) => ConfirmActionView::DeleteTemplate(n@),
        }
    }
}

/// A question that is put before something is done.
#[derive(Debug)]
pub struct Confirm {
    pub title: String,
    pub body: Vec<String>,
    pub action: ConfirmAction,
    /// What is asked for cannot be undone.
    pub danger: bool,
}

pub struct ConfirmView {
    pub title: Seq<char>,
    pub body: Seq<Seq<char>>,
    pub action: ConfirmActionView,
    pub danger: bool,
}

impl View for Confirm {
    type V = ConfirmView;

    open spec fn view(&self) -> ConfirmView {
        ConfirmView {
            title: self.title@,
            body: texts(self.body@),
            action: self.action@,
            danger: self.danger,
        }
    }
}

impl Confirm {
    pub fn new(title: &str, body: Vec<String>, action: ConfirmAction, danger: bool) -> (r: Self)
        ensures
            r@ == (ConfirmView { title: title@, body: texts(body@), action: action@, danger }),
    {
        Confirm { title: title.to_owned(), body, action, danger }
    }
}

pub open spec fn opt_confirm(c: Option<Confirm>) -> Option<ConfirmView> {
    match c {
        Some(c) => Some(c@),
        None => None,
    }
}

// ---------------------------------------------------------------- effects

/// What a job that is to be spawned is for.
#[derive(Debug)]
pub enum Purpose {
    /// Converting a checkpoint, under this name, to this directory.
    Convert { name: String, out: String },
    Update,
    Bench,
}

pub enum PurposeView {
    Convert { name: Seq<char>, out: Seq<char> },
    Update,
    Bench,
}

impl View for Purpose {
    type V = PurposeView;

    open spec fn view(&self) -> PurposeView {
        match self {
            Purpose::Convert { name, out } => PurposeView::Convert { name: name@, out: out@ },
            Purpose::Update => PurposeView::Update,
            Purpose::Bench => PurposeView::Bench,
        }
    }
}

pub struct LaunchView {
    pub program: Seq<char>,
    pub argv: Seq<Seq<char>>,
    pub env: Seq<(Seq<char>, Seq<char>)>,
    pub cwd: Option<Seq<char>>,
    pub display: Seq<char>,
}

pub open spec fn launch_view(l: Launch) -> LaunchView {
    LaunchView {
        program: l.program@,
        argv: texts(l.argv@),
        env: env_views(l.env@),
        cwd: opt_text(l.cwd),
        display: l.display@,
    }
}

/// Something for the front end to carry out.
#[derive(Debug)]
pub enum Effect {
    /// Send a signal to a process group.
    Signal { pid: u32, signal: i32 },
    /// Start `ft serve`, then report back with `engine_started` or `engine_failed`.
    StartEngine { launch: Launch, args: Vec<String>, model: String, port: u16 },
    /// Start a job, then report back with `spawned`.
    Spawn { run: Run, purpose: Purpose },
    /// Forget what was polled, and poll at once.
    ResetTelemetry,
    SelectLastJob,
    ClampJobSelection,
    /// Delete a checkpoint's directory.
    DeleteModel(String),
    /// Run `hf cache delete`, then report back with what `cache_delete_result` makes of it.
    DeleteFromCache { cli: String, path: String, repo: String },
    /// Measure a directory, then ask with `delete_confirm`.
    MeasureModel { name: String, path: String },
    /// Measure leftovers, then ask with `reconvert_confirm`.
    MeasureLeftovers { name: String, out: String, source: String },
    /// Put up a confirmation whatever the configuration says of them.
    Ask(Confirm),
    /// Remove what a conversion left, then go on with `start_after_leftovers`.
    RemoveLeftovers { source: String, out: String },
    Rescan,
    /// Have the engine continue a text, to see that it generates.
    SmokeTest { prompt: String, max_tokens: u32 },
    SaveProfiles,
    InstallHfCli,
    RebuildCache(CacheRebuild),
    /// Write a template into every directory of a model, then report `template_written`.
    WriteTemplate { template: String, model: String },
    /// Undo a template override in every directory of a model, then report
    /// `template_reverted`.
    RevertTemplate(String),
    WriteSampling { model: String, sampling: Sampling },
    RevertSampling(String),
    /// Remove a template from the store, then report `template_deleted`.
    DeleteTemplate(String),
    ReloadTemplates,
    RefreshTemplateStatus(String),
    RefreshSamplingStatus(String),
    /// Run a check of a checkpoint, then report `on_convert_preflight`.
    ConvertPreflight { source: String, argv: Vec<String> },
    TemplatePreflight { name: String, argv: Vec<String> },
    /// Search the Hub, for so many results at most.
    Search { query: String, limit: u32 },
    RepoInfo { repo: String, revision: String },
    CheckCompatibility { repo: String, revision: String },
    /// Judge the listed repo again.
    RepriceCompat,
    StartDownload { repo: String, revision: String, cli: String, files: Vec<RepoFile> },
    ListTemplateRepo(String),
    FetchTemplate { repo: String, revision: String, path: String, name: String },
    /// Ask the engine for a summary of what origin changed, within so many seconds.
    Summarize {
        model: String,
        system: String,
        prompt: String,
        max_tokens: u32,
        effort: String,
        timeout_s: u64,
    },
}

pub enum EffectView {
    Signal { pid: u32, signal: i32 },
    StartEngine { launch: LaunchView, args: Seq<Seq<char>>, model: Seq<char>, port: u16 },
    Spawn { run: RunView, purpose: PurposeView },
    ResetTelemetry,
    SelectLastJob,
    ClampJobSelection,
    DeleteModel(Seq<char>),
    DeleteFromCache { cli: Seq<char>, path: Seq<char>, repo: Seq<char> },
    MeasureModel { name: Seq<char>, path: Seq<char> },
    MeasureLeftovers { name: Seq<char>, out: Seq<char>, source: Seq<char> },
    Ask(ConfirmView),
    RemoveLeftovers { source: Seq<char>, out: Seq<char> },
    Rescan,
    SmokeTest { prompt: Seq<char>, max_tokens: u32 },
    SaveProfiles,
    InstallHfCli,
    RebuildCache(RebuildView),
    WriteTemplate { template: Seq<char>, model: Seq<char> },
    RevertTemplate(Seq<char>),
    WriteSampling { model: Seq<char>, sampling: SamplingView },
    RevertSampling(Seq<char>),
    DeleteTemplate(Seq<char>),
    ReloadTemplates,
    RefreshTemplateStatus(Seq<char>),
    RefreshSamplingStatus(Seq<char>),
    ConvertPreflight { source: Seq<char>, argv: Seq<Seq<char>> },
    TemplatePreflight { name: Seq<char>, argv: Seq<Seq<char>> },
    Search { query: Seq<char>, limit: u32 },
    RepoInfo { repo: Seq<char>, revision: Seq<char> },
    CheckCompatibility { repo: Seq<char>, revision: Seq<char> },
    RepriceCompat,
    StartDownload { repo: Seq<char>, revision: Seq<char>, cli: Seq<char>, files: Seq<RepoFile> },
    ListTemplateRepo(Seq<char>),
    FetchTemplate { repo: Seq<char>, revision: Seq<char>, path: Seq<char>, name: Seq<char> },
    Summarize {
        model: Seq<char>,
        system: Seq<char>,
        prompt: Seq<char>,
        max_tokens: u32,
        effort: Seq<char>,
        timeout_s: u64,
    },
}

/// A rebuild that is asked for: the sizes, when the server is to act on it, and how many
/// seconds it has.
pub struct RebuildView {
    pub sizes: Pending,
    pub mode: Seq<char>,
    pub timeout: u64,
}

/// The rebuild that applies staged sizes: once the scheduler is idle, within five minutes.
pub open spec fn rebuild_of(pending: Pending) -> RebuildView {
    RebuildView { sizes: pending, mode: "if_idle"@, timeout: 300 }
}

pub open spec fn rebuild_view(r: CacheRebuild) -> RebuildView {
    RebuildView { sizes: rebuild_sizes(r), mode: r.mode@, timeout: r.timeout }
}

/// The sizes that a rebuild asks for.
pub open spec fn rebuild_sizes(r: CacheRebuild) -> Pending {
    Pending {
        moe: r.moe_cache_size,
        kv: r.num_pages,
        mamba: r.num_mamba_slots,
        swa: r.num_swa_pages,
    }
}

impl View for Effect {
    type V = EffectView;

    open spec fn view(&self) -> EffectView {
        match self {
            Effect::Signal { pid, signal } => EffectView::Signal { pid: *pid, signal: *signal },
            Effect::StartEngine { launch, args, model, port } => EffectView::StartEngine {
                launch: launch_view(*launch),
                args: texts(args@),
                model: model@,
                port: *port,
            },
            Effect::Spawn { run, purpose } => EffectView::Spawn { run: run@, purpose: purpose@ },
            Effect::ResetTelemetry => EffectView::ResetTelemetry,
            Effect::SelectLastJob => EffectView::SelectLastJob,
            Effect::ClampJobSelection => EffectView::ClampJobSelection,
            Effect::DeleteModel(p) => EffectView::DeleteModel(p@),
            Effect::DeleteFromCache { cli, path, repo } => EffectView::DeleteFromCache {
                cli: cli@,
                path: path@,
                repo: repo@,
            },
            Effect::MeasureModel { name, path } => EffectView::MeasureModel {
                name: name@,
                path: path@,
            },
            Effect::MeasureLeftovers { name, out, source } => EffectView::MeasureLeftovers {
                name: name@,
                out: out@,
                source: source@,
            },
            Effect::Ask(c) => EffectView::Ask(c@),
            Effect::RemoveLeftovers { source, out } => EffectView::RemoveLeftovers {
                source: source@,
                out: out@,
            },
            Effect::Rescan => EffectView::Rescan,
            Effect::SmokeTest { prompt, max_tokens } => EffectView::SmokeTest {
                prompt: prompt@,
                max_tokens: *max_tokens,
            },
            Effect::SaveProfiles => EffectView::SaveProfiles,
            Effect::InstallHfCli => EffectView::InstallHfCli,
            Effect::RebuildCache(r) => EffectView::RebuildCache(rebuild_view(*r)),
            Effect::WriteTemplate { template, model } => EffectView::WriteTemplate {
                template: template@,
                model: model@,
            },
            Effect::RevertTemplate(p) => EffectView::RevertTemplate(p@),
            Effect::WriteSampling { model, sampling } => EffectView::WriteSampling {
                model: model@,
                sampling: sampling@,
            },
            Effect::RevertSampling(p) => EffectView::RevertSampling(p@),
            Effect::DeleteTemplate(n) => EffectView::DeleteTemplate(n@),
            Effect::ReloadTemplates => EffectView::ReloadTemplates,
            Effect::RefreshTemplateStatus(p) => EffectView::RefreshTemplateStatus(p@),
            Effect::RefreshSamplingStatus(p) => EffectView::RefreshSamplingStatus(p@),
            Effect::ConvertPreflight { source, argv } => EffectView::ConvertPreflight {
                source: source@,
                argv: texts(argv@),
            },
            Effect::TemplatePreflight { name, argv } => EffectView::TemplatePreflight {
                name: name@,
                argv: texts(argv@),
            },
            Effect::Search { query, limit } => EffectView::Search { query: query@, limit: *limit },
            Effect::RepoInfo { repo, revision } => EffectView::RepoInfo {
                repo: repo@,
                revision: revision@,
            },
            Effect::CheckCompatibility { repo, revision } => EffectView::CheckCompatibility {
                repo: repo@,
                revision: revision@,
            },
            Effect::RepriceCompat => EffectView::RepriceCompat,
            Effect::StartDownload { repo, revision, cli, files } => EffectView::StartDownload {
                repo: repo@,
                revision: revision@,
                cli: cli@,
                files: files@,
            },
            Effect::ListTemplateRepo(r) => EffectView::ListTemplateRepo(r@),
            Effect::FetchTemplate { repo, revision, path, name } => EffectView::FetchTemplate {
                repo: repo@,
                revision: revision@,
                path: path@,
                name: name@,
            },
            Effect::Summarize { model, system, prompt, max_tokens, effort, timeout_s } =>
                EffectView::Summarize {
                model: model@,
                system: system@,
                prompt: prompt@,
                max_tokens: *max_tokens,
                effort: effort@,
                timeout_s: *timeout_s,
            },
        }
    }
}

pub open spec fn effect_views(v: Seq<Effect>) -> Seq<EffectView> {
    Seq::new(v.len(), |i: int| v[i]@)
}

// ---------------------------------------------------------------- cache edits

/// The pool sizes that are staged, each waiting to be applied.
#[derive(Debug, Clone, Copy, PartialEq, Eq, Structural)]
pub struct Pending {
    pub moe: Option<u64>,
    pub kv: Option<u64>,
    pub mamba: Option<u64>,
    pub swa: Option<u64>,
}

impl Pending {
    pub open spec fn none() -> Pending {
        Pending { moe: None, kv: None, mamba: None, swa: None }
    }

    pub open spec fn of(self, pool: Pool) -> Option<u64> {
        match pool {
            Pool::Moe => self.moe,
            Pool::Kv => self.kv,
            Pool::Mamba => self.mamba,
            Pool::Swa => self.swa,
        }
    }

    pub open spec fn with(self, pool: Pool, size: Option<u64>) -> Pending {
        match pool {
            Pool::Moe => Pending { moe: size, ..self },
            Pool::Kv => Pending { kv: size, ..self },
            Pool::Mamba => Pending { mamba: size, ..self },
            Pool::Swa => Pending { swa: size, ..self },
        }
    }

    pub fn empty() -> (r: Pending)
        ensures
            r == Pending::none(),
    {
        Pending { moe: None, kv: None, mamba: None, swa: None }
    }

    pub fn pending_for(&self, pool: Pool) -> (r: Option<u64>)
        ensures
            r == self.of(pool),
    {
        match pool {
            Pool::Moe => self.moe,
            Pool::Kv => self.kv,
            Pool::Mamba => self.mamba,
            Pool::Swa => self.swa,
        }
    }

    pub fn set_pending(&mut self, pool: Pool, size: Option<u64>)
        ensures
            *final(self) == old(self).with(pool, size),
    {
        match pool {
            Pool::Moe => {
                self.moe = size;
            },
            Pool::Kv => {
                self.kv = size;
            },
            Pool::Mamba => {
                self.mamba = size;
            },
            Pool::Swa => {
                self.swa = size;
            },
        }
    }

    pub fn has_pending(&self) -> (r: bool)
        ensures
            r == (*self != Pending::none()),
    {
        self.moe.is_some() || self.kv.is_some() || self.mamba.is_some() || self.swa.is_some()
    }
}

/// The rebuild that applies the staged sizes.
pub fn rebuild_from_pending(pending: &Pending) -> (r: CacheRebuild)
    ensures
        rebuild_view(r) == rebuild_of(*pending),
{
    let base = CacheRebuild::default();
    CacheRebuild {
        moe_cache_size: pending.moe,
        num_pages: pending.kv,
        num_mamba_slots: pending.mamba,
        num_swa_pages: pending.swa,
        mode: base.mode,
        timeout: base.timeout,
    }
}

// ---------------------------------------------------------------- the state

/// The programs and the checkout that an update needs, where they were found.
#[derive(Debug)]
pub struct Tools {
    pub checkout_dir: Option<String>,
    pub git: Option<String>,
    pub uv: Option<String>,
}

/// What the actions read of the machine and never change themselves.
pub struct Known {
    pub config: Config,
    pub env: HfEnv,
    /// The Hugging Face token in use.
    pub hub_token: Option<String>,
    /// Why no client of the Hub can be built, where none can.
    pub hub_error: Option<String>,
    pub ft: Option<Freetoken>,
    /// Why there is no FreeToken CLI.
    pub ft_error: Option<String>,
    /// An interpreter that can be run stands beside the CLI.
    pub python_beside: bool,
    pub tools: Tools,
    pub checkout: Option<FtCheckout>,
    /// The `hf` CLI, where it was found.
    pub hf_cli: Option<String>,
    pub models: Vec<Model>,
    /// The server answers.
    pub reachable: bool,
    /// The model that is loaded.
    pub current_model: Option<String>,
    /// What keeps the GPU busy.
    pub gpu_busy: Option<String>,
}

/// A quantization of the listed repo, and the files it takes.
#[derive(Debug)]
pub struct Variant {
    pub label: String,
    pub files: Vec<String>,
}

/// The Hub tab.
#[derive(Debug)]
pub struct HubState {
    pub query: String,
    pub searching: bool,
    pub results: Vec<RepoSummary>,
    pub info: Option<RepoInfo>,
    pub files: Vec<RepoFile>,
    pub revision: String,
    pub variants: Vec<Variant>,
    pub variant: Option<String>,
    pub custom_selection: bool,
    pub loading_info: bool,
    /// The files have the focus, not the search.
    pub files_focused: bool,
    /// A verdict on the listed repo is held.
    pub judged: bool,
    pub checking_compat: bool,
}

pub struct HubView {
    pub query: Seq<char>,
    pub searching: bool,
    pub results: Seq<RepoSummary>,
    pub info: Option<RepoInfo>,
    pub files: Seq<RepoFile>,
    pub revision: Seq<char>,
    pub variants: Seq<Variant>,
    pub variant: Option<Seq<char>>,
    pub custom_selection: bool,
    pub loading_info: bool,
    pub files_focused: bool,
    pub judged: bool,
    pub checking_compat: bool,
}

impl View for HubState {
    type V = HubView;

    open spec fn view(&self) -> HubView {
        HubView {
            query: self.query@,
            searching: self.searching,
            results: self.results@,
            info: self.info,
            files: self.files@,
            revision: self.revision@,
            variants: self.variants@,
            variant: opt_text(self.variant),
            custom_selection: self.custom_selection,
            loading_info: self.loading_info,
            files_focused: self.files_focused,
            judged: self.judged,
            checking_compat: self.checking_compat,
        }
    }
}

/// The Templates tab.
#[derive(Debug)]
pub struct TemplatesState {
    pub stored: Vec<StoredTemplate>,
    pub repo: String,
    pub loading: bool,
    pub remote_revision: Option<String>,
    pub checking: bool,
    /// What the last render check said.
    pub preflight: Option<Preflight>,
}

pub struct TemplatesView {
    pub stored: Seq<StoredTemplate>,
    pub repo: Seq<char>,
    pub loading: bool,
    pub remote_revision: Option<Seq<char>>,
    pub checking: bool,
    pub preflight: Option<Preflight>,
}

impl View for TemplatesState {
    type V = TemplatesView;

    open spec fn view(&self) -> TemplatesView {
        TemplatesView {
            stored: self.stored@,
            repo: self.repo@,
            loading: self.loading,
            remote_revision: opt_text(self.remote_revision),
            checking: self.checking,
            preflight: self.preflight,
        }
    }
}

/// The engine's account of the commits that a checkout is behind origin.
#[derive(Debug)]
pub struct OriginSummary {
    pub range: String,
    pub commits: usize,
    pub model: String,
    pub pending: bool,
    pub truncated: bool,
    pub text: Option<String>,
    pub error: Option<String>,
}

pub struct OriginView {
    pub range: Seq<char>,
    pub commits: usize,
    pub model: Seq<char>,
    pub pending: bool,
    pub truncated: bool,
    pub text: Option<Seq<char>>,
    pub error: Option<Seq<char>>,
}

impl View for OriginSummary {
    type V = OriginView;

    open spec fn view(&self) -> OriginView {
        OriginView {
            range: self.range@,
            commits: self.commits,
            model: self.model@,
            pending: self.pending,
            truncated: self.truncated,
            text: opt_text(self.text),
            error: opt_text(self.error),
        }
    }
}

/// The state of a front end, as far as the shared actions concern it.
pub struct App {
    pub known: Known,
    pub should_quit: bool,
    pub engine: Engine,
    pub serve: ServeConfig,
    /// The plan that is shown, waiting to be applied or dismissed.
    pub plan: Option<Plan>,
    pub profiles: Profiles,
    /// The selected row of the profiles.
    pub profile_index: usize,
    pub jobs: Vec<Job>,
    pub downloads: Vec<Download>,
    pub hub: HubState,
    pub hf_installing: bool,
    pub templates: TemplatesState,
    pub pending: Pending,
    pub applying: bool,
    /// The pools of the running engine, as last polled.
    pub geometry: Option<CacheGeometry>,
    /// Requests in flight, as last polled.
    pub active: u64,
    /// The checkpoint that is being checked before a conversion.
    pub convert_checking: Option<String>,
    pub origin_summary: Option<OriginSummary>,
    pub requests: Vec<RequestRecord>,
    pub requests_cursor: u64,
    pub requests_paused: bool,
    /// The selected row of the requests.
    pub request_index: usize,
    pub logs_follow: bool,
    pub logs_scroll: usize,
    pub tab: Tab,
    pub confirm: Option<Confirm>,
    pub toasts: Vec<Toast>,
    pub effects: Vec<Effect>,
}

pub struct AppView {
    pub known: Known,
    pub should_quit: bool,
    pub engine: EngineView,
    pub serve: Map<Seq<char>, Seq<char>>,
    pub plan: Option<PlanView>,
    pub profiles: ProfilesView,
    pub profile_index: usize,
    pub jobs: Seq<JobView>,
    pub downloads: Seq<Download>,
    pub hub: HubView,
    pub hf_installing: bool,
    pub templates: TemplatesView,
    pub pending: Pending,
    pub applying: bool,
    pub geometry: Option<CacheGeometry>,
    pub active: u64,
    pub convert_checking: Option<Seq<char>>,
    pub origin_summary: Option<OriginView>,
    pub requests: Seq<RequestRecord>,
    pub requests_cursor: u64,
    pub requests_paused: bool,
    pub request_index: usize,
    pub logs_follow: bool,
    pub logs_scroll: usize,
    pub tab: Tab,
    pub confirm: Option<ConfirmView>,
    pub toasts: Seq<(Seq<char>, ToastKind)>,
    pub effects: Seq<EffectView>,
}

pub open spec fn job_views(v: Seq<Job>) -> Seq<JobView> {
    Seq::new(v.len(), |i: int| v[i]@)
}

impl View for App {
    type V = AppView;

    open spec fn view(&self) -> AppView {
        AppView {
            known: self.known,
            should_quit: self.should_quit,
            engine: self.engine@,
            serve: self.serve@,
            plan: match self.plan {
                Some(p) => Some(p@),
                None => None,
            },
            profiles: self.profiles@,
            profile_index: self.profile_index,
            jobs: job_views(self.jobs@),
            downloads: self.downloads@,
            hub: self.hub@,
            hf_installing: self.hf_installing,
            templates: self.templates@,
            pending: self.pending,
            applying: self.applying,
            geometry: self.geometry,
            active: self.active,
            convert_checking: opt_text(self.convert_checking),
            origin_summary: match self.origin_summary {
                Some(o) => Some(o@),
                None => None,
            },
            requests: self.requests@,
            requests_cursor: self.requests_cursor,
            requests_paused: self.requests_paused,
            request_index: self.request_index,
            logs_follow: self.logs_follow,
            logs_scroll: self.logs_scroll,
            tab: self.tab,
            confirm: opt_confirm(self.confirm),
            toasts: toast_views(self.toasts@),
            effects: effect_views(self.effects@),
        }
    }
}

impl AppView {
    /// Said to the user.
    pub open spec fn says(self, text: Seq<char>, kind: ToastKind) -> AppView {
        AppView { toasts: self.toasts.push((text, kind)), ..self }
    }

    /// Left for the front end to carry out.
    pub open spec fn wants(self, e: EffectView) -> AppView {
        AppView { effects: self.effects.push(e), ..self }
    }

    /// The logs have room for what an action may write.
    pub open spec fn has_room(self) -> bool {
        &&& self.engine.log.room(4)
        &&& forall|i: int| 0 <= i < self.jobs.len() ==> (#[trigger] self.jobs[i]).log.room(1)
    }
}

impl App {
    pub fn toast(&mut self, text: &str, kind: ToastKind)
        ensures
            final(self)@ == old(self)@.says(text@, kind),
    {
        let ghost before = self.toasts@;
        self.toasts.push(Toast { text: text.to_owned(), kind });
        assert(toast_views(self.toasts@) =~= toast_views(before).push((text@, kind)));
    }

    pub fn info(&mut self, text: &str)
        ensures
            final(self)@ == old(self)@.says(text@, ToastKind::Info),
    {
        self.toast(text, ToastKind::Info);
    }

    pub fn success(&mut self, text: &str)
        ensures
            final(self)@ == old(self)@.says(text@, ToastKind::Success),
    {
        self.toast(text, ToastKind::Success);
    }

    pub fn warn(&mut self, text: &str)
        ensures
            final(self)@ == old(self)@.says(text@, ToastKind::Warn),
    {
        self.toast(text, ToastKind::Warn);
    }

    pub fn error(&mut self, text: &str)
        ensures
            final(self)@ == old(self)@.says(text@, ToastKind::Error),
    {
        self.toast(text, ToastKind::Error);
    }

    /// Whether the logs have room for what an action may write.
    pub fn has_room(&self) -> (r: bool)
        ensures
            r == self@.has_room(),
    {
        if !self.engine.log.has_room(4) {
            return false;
        }
        let mut i: usize = 0;
        assert(self@.jobs.len() == self.jobs.len());
        while i < self.jobs.len()
            invariant
                i <= self.jobs.len(),
                self@.jobs.len() == self.jobs.len(),
                forall|j: int| 0 <= j < i ==> (#[trigger] self@.jobs[j]).log.room(1),
            decreases self.jobs.len() - i,
        {
            assert(self@.jobs[i as int] == self.jobs@[i as int]@);
            if !self.jobs[i].log.has_room(1) {
                return false;
            }
            i = i + 1;
        }
        true
    }

    pub fn want(&mut self, e: Effect)
        ensures
            final(self)@ == old(self)@.wants(e@),
    {
        let ghost before = self.effects@;
        self.effects.push(e);
        assert(effect_views(self.effects@) =~= effect_views(before).push(e@));
    }
}

} // verus!
