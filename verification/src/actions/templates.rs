//! Chat templates and sampling defaults, as they are applied to checkpoints.

use vstd::prelude::*;
use vstd::string::*;
use crate::actions::{
    ask, asks, begun, failed, find_model, found_model, honest, hushed, no_model, not_found_model,
    outcome_view, push_line, warn_off, warned, Clock, Done, Outcome, Refusal, RefusalView, Step,
};
use crate::actions::hub::hub_or_refuse;
use crate::ft::preflight::{command_of, python_of, template_command, TEMPLATE_SCRIPT};
use crate::models::{Format, Model};
use crate::paths::components_of;
use crate::sampling::{refusal, unsupported, Sampling, SamplingView};
use crate::state::{
    App, AppView, Confirm, ConfirmAction, ConfirmActionView, ConfirmView, Effect, EffectView,
    TemplatesView, ToastKind,
};
use crate::templates::{
    cache_shape, copy_opt, get, index_of, is_hub_cache_path, name_for, store_name, targets,
    StoredTemplate,
};
use crate::text::{cat2, cat3, cat4, cat5, cat6, dec, decimal, opt_str, texts, trim, trimmed};

verus! {

// ---------------------------------------------------------------- fetching

pub open spec fn listing_begun(a: AppView, repo: Seq<char>) -> Step {
    let r = trimmed(repo);
    if r.len() == 0 {
        (a, Err(hushed(400, "enter a Hugging Face repo id first"@)))
    } else {
        let b = AppView { templates: TemplatesView { repo: r, ..a.templates }, ..a };
        match a.known.hub_error {
            Some(why) => failed(b, 503, why@),
            None => (
                (AppView { templates: TemplatesView { loading: true, ..b.templates }, ..b }).wants(
                    EffectView::ListTemplateRepo(r),
                ),
                Ok(begun()),
            ),
        }
    }
}

/// List the `.jinja` files in a repo.
pub fn list_template_repo(app: &mut App, repo: &str) -> (r: Outcome)
    ensures
        (final(app)@, outcome_view(r)) == listing_begun(old(app)@, repo@),
{
    let repo = trim(repo);
    if repo.as_str().is_empty() {
        // Field-shaped: the repo box is right there. The terminal toasts it, because it has
        // nowhere else to put it.
        return Err(Refusal::quiet(400, "enter a Hugging Face repo id first"));
    }
    app.templates.repo = repo.clone();
    if let Err(e) = hub_or_refuse(app) {
        return Err(e);
    }
    app.templates.loading = true;
    app.want(Effect::ListTemplateRepo(repo));
    Ok(Done::started())
}

pub open spec fn fetch_begun(
    a: AppView,
    repo: Seq<char>,
    revision: Option<Seq<char>>,
    path: Seq<char>,
) -> Step {
    let r = trimmed(repo);
    let known = if revision is Some {
        revision
    } else {
        a.templates.remote_revision
    };
    if r.len() == 0 {
        (a, Err(hushed(400, "a fetch needs a repo id"@)))
    } else {
        match (known, a.known.hub_error) {
            (None, _) => (
                a,
                Err(hushed(400, "no revision is known for that repo; list it first"@)),
            ),
            (Some(_), Some(why)) => failed(a, 503, why@),
            (Some(rev), None) => (
                (AppView { templates: TemplatesView { loading: true, ..a.templates }, ..a }).says(
                    "fetching "@ + path,
                    ToastKind::Info,
                ).wants(
                    EffectView::FetchTemplate {
                        repo: r,
                        revision: rev,
                        path,
                        name: store_name(r, path),
                    },
                ),
                Ok(begun()),
            ),
        }
    }
}

/// Download one repo file into the local store.
pub fn fetch_template(app: &mut App, repo: &str, revision: Option<&str>, path: &str) -> (r: Outcome)
    ensures
        (final(app)@, outcome_view(r)) == fetch_begun(
            old(app)@,
            repo@,
            opt_str(revision),
            path@,
        ),
{
    let repo = trim(repo);
    if repo.as_str().is_empty() {
        return Err(Refusal::quiet(400, "a fetch needs a repo id"));
    }
    let known = match revision {
        Some(r) => Some(r.to_owned()),
        None => copy_opt(&app.templates.remote_revision),
    };
    let revision = match known {
        Some(r) => r,
        None => {
            return Err(
                Refusal::quiet(400, "no revision is known for that repo; list it first"),
            );
        },
    };
    if let Err(e) = hub_or_refuse(app) {
        return Err(e);
    }
    let name = name_for(repo.as_str(), path);
    app.templates.loading = true;
    app.info(cat2("fetching ", path).as_str());
    app.want(Effect::FetchTemplate { repo, revision, path: path.to_owned(), name });
    Ok(Done::started())
}

// ---------------------------------------------------------------- applying a template

pub open spec fn no_template(name: Seq<char>) -> RefusalView {
    hushed(404, "no template named '"@ + name + "'"@)
}

fn template_missing(name: &str) -> (r: Refusal)
    ensures
        r@ == no_template(name@),
{
    Refusal::quiet(404, cat3("no template named '", name, "'").as_str())
}

pub open spec fn stored_named(stored: Seq<StoredTemplate>, name: Seq<char>) -> Option<
    StoredTemplate,
> {
    let i = index_of(stored, name);
    if i < stored.len() {
        Some(stored[i as int])
    } else {
        None
    }
}

/// The directories an override is written to.
pub open spec fn dirs_of(m: Model) -> Seq<Seq<char>> {
    match m.converted_to {
        Some(ftw) => seq![m.path@, ftw@],
        None => seq![m.path@],
    }
}

pub open spec fn indented(paths: Seq<Seq<char>>) -> Seq<Seq<char>> {
    Seq::new(paths.len(), |i: int| "    "@ + paths[i])
}

/// One of the directories is inside a hub cache.
pub open spec fn shared(dirs: Seq<Seq<char>>) -> bool {
    exists|i: int| 0 <= i < dirs.len() && cache_shape(components_of(#[trigger] dirs[i]))
}

pub open spec fn line_if(cond: bool, line: Seq<char>) -> Seq<Seq<char>> {
    if cond {
        seq![""@, line]
    } else {
        Seq::empty()
    }
}

fn push_dirs(body: &mut Vec<String>, dirs: &Vec<String>)
    ensures
        texts(final(body)@) == texts(old(body)@) + indented(texts(dirs@)),
{
    let ghost before = texts(body@);
    let ghost all = indented(texts(dirs@));
    let mut i: usize = 0;
    assert(before + all.take(0) =~= before);
    while i < dirs.len()
        invariant
            i <= dirs.len(),
            all == indented(texts(dirs@)),
            texts(body@) == before + all.take(i as int),
        decreases dirs.len() - i,
    {
        assert(texts(dirs@)[i as int] == dirs@[i as int]@);
        push_line(body, cat2("    ", dirs[i].as_str()).as_str());
        assert(all.take(i + 1) =~= all.take(i as int).push(all[i as int]));
        assert(texts(body@) =~= before + all.take(i + 1));
        i = i + 1;
    }
    assert(all.take(i as int) =~= all);
}

fn push_if(body: &mut Vec<String>, cond: bool, line: &str)
    ensures
        texts(final(body)@) == texts(old(body)@) + line_if(cond, line@),
{
    let ghost before = texts(body@);
    if cond {
        push_line(body, "");
        push_line(body, line);
    }
    assert(texts(body@) =~= before + line_if(cond, line@));
}

fn any_shared(dirs: &Vec<String>) -> (r: bool)
    ensures
        r == shared(texts(dirs@)),
{
    let mut i: usize = 0;
    assert(texts(dirs@).len() == dirs.len());
    while i < dirs.len()
        invariant
            i <= dirs.len(),
            texts(dirs@).len() == dirs.len(),
            forall|j: int| 0 <= j < i ==> !cache_shape(components_of(#[trigger] texts(dirs@)[j])),
        decreases dirs.len() - i,
    {
        assert(texts(dirs@)[i as int] == dirs@[i as int]@);
        if is_hub_cache_path(dirs[i].as_str()) {
            return true;
        }
        i = i + 1;
    }
    false
}

pub open spec fn template_status_line(s: crate::templates::Status) -> Seq<char> {
    match s {
        crate::templates::Status::BuiltIn =>
            "The checkpoint's own template is preserved and can be restored with u."@,
        crate::templates::Status::Foreign =>
            "There is already a chat_template.jinja here that paddock did not write; it              will be backed up, not lost."@,
        crate::templates::Status::Overridden(a) => "This replaces the override '"@ + a.name@
            + "'. The checkpoint's original stays backed up."@,
    }
}

/// What is said before a template is written.
pub open spec fn template_body(t: StoredTemplate, m: Model, live: bool) -> Seq<Seq<char>> {
    seq![
        match t.meta.version {
            Some(v) => "Apply '"@ + t.name@ + "' ("@ + v@ + ") to "@ + m.name@ + "?"@,
            None => "Apply '"@ + t.name@ + "' to "@ + m.name@ + "?"@,
        },
        ""@,
        "FreeToken reads the chat template from the checkpoint, so this writes          chat_template.jinja into:"@,
    ] + indented(dirs_of(m)) + seq![""@, template_status_line(m.template_status)] + line_if(
        shared(dirs_of(m)),
        "That is inside the Hugging Face cache, which other tools on this machine read too — they will see this template as well. A later `hf download` of the repo may replace it. The checkpoint's own template is backed up either way, and u restores it."@,
    ) + line_if(
        live,
        "The engine is running and read its template at load time, so restart it for              this to take effect."@,
    )
}

fn template_status_text(s: &crate::templates::Status) -> (r: String)
    ensures
        r@ == template_status_line(*s),
{
    match s {
        crate::templates::Status::BuiltIn =>
            "The checkpoint's own template is preserved and can be restored with u.".to_owned(),
        crate::templates::Status::Foreign =>
            "There is already a chat_template.jinja here that paddock did not write; it              will be backed up, not lost.".to_owned(),
        crate::templates::Status::Overridden(a) => cat3(
            "This replaces the override '",
            a.name.as_str(),
            "'. The checkpoint's original stays backed up.",
        ),
    }
}

fn template_lines(t: &StoredTemplate, m: &Model, live: bool) -> (r: Vec<String>)
    ensures
        texts(r@) == template_body(*t, *m, live),
{
    let dirs = targets(m);
    let first = match &t.meta.version {
        Some(v) => {
            let mut s = "Apply '".to_owned();
            s.append(t.name.as_str());
            s.append("' (");
            s.append(v.as_str());
            s.append(") to ");
            s.append(m.name.as_str());
            s.append("?");
            s
        },
        None => cat5("Apply '", t.name.as_str(), "' to ", m.name.as_str(), "?"),
    };
    let mut body: Vec<String> = vec![
        first,
        "".to_owned(),
        "FreeToken reads the chat template from the checkpoint, so this writes          chat_template.jinja into:".to_owned(),
    ];
    let ghost head = texts(body@);
    assert(head =~= seq![
        first@,
        ""@,
        "FreeToken reads the chat template from the checkpoint, so this writes          chat_template.jinja into:"@,
    ]);
    push_dirs(&mut body, &dirs);
    let ghost listed = texts(body@);
    push_line(&mut body, "");
    push_line(&mut body, template_status_text(&m.template_status).as_str());
    assert(texts(body@) =~= listed + seq![""@, template_status_line(m.template_status)]);
    // A cache directory is shared with every other tool reading it, so the reader needs to
    // know that this reaches further than the model in front of them.
    push_if(
        &mut body,
        any_shared(&dirs),
        "That is inside the Hugging Face cache, which other tools on this machine read too — they will see this template as well. A later `hf download` of the repo may replace it. The checkpoint's own template is backed up either way, and u restores it.",
    );
    push_if(
        &mut body,
        live,
        "The engine is running and read its template at load time, so restart it for              this to take effect.",
    );
    body
}

pub open spec fn apply_question(t: StoredTemplate, m: Model, live: bool) -> ConfirmView {
    ConfirmView {
        title: "Apply chat template"@,
        body: template_body(t, m, live),
        action: ConfirmActionView::ApplyTemplate { template: t.name@, model: m.path@ },
        danger: false,
    }
}

pub open spec fn template_asked(a: AppView, template: Seq<char>, path: Seq<char>, clock: Clock) -> Step {
    match stored_named(
        a.templates.stored,
        template,
    ) {
        None => (a, Err(no_template(template))),
        Some(t) => match found_model(a.known.models@, path) {
            None => (a, Err(no_model())),
            Some(m) => asks(
                a,
                apply_question(t, m, a.engine.state.live()),
                clock,
            ),
        },
    }
}

/// Ask before writing a template into a checkpoint directory.
pub fn apply_template(app: &mut App, template: &str, model_path: &str, clock: Clock) -> (r: Outcome)
    requires
        old(app)@.has_room(),
    ensures
        (final(app)@, outcome_view(r)) == template_asked(old(app)@, template@, model_path@, clock),
{
    let stored = match get(&app.templates.stored, template) {
        Some(t) => t,
        None => {
            return Err(template_missing(template));
        },
    };
    let model = match find_model(&app.known.models, model_path) {
        Some(m) => m,
        None => {
            return Err(not_found_model());
        },
    };
    let body = template_lines(stored, model, app.engine.is_live());
    let confirm = Confirm::new(
        "Apply chat template",
        body,
        ConfirmAction::ApplyTemplate { template: stored.name.clone(), model: model.path.clone() },
        false,
    );
    Ok(ask(app, confirm, clock))
}

/// What became of writing an override into each directory of a model: those that were written
/// before one failed, with that one and why.
#[derive(Debug)]
pub struct Written {
    pub dirs: Vec<String>,
    pub failure: Option<(String, String)>,
}

/// How reading a template from the store went.
#[derive(Debug)]
pub enum ReadBack {
    Missing,
    Unreadable(String),
    /// The template is there: this is its name and where it is kept.
    Kept { name: String, path: String },
}

pub open spec fn director(n: nat) -> Seq<char> {
    if n == 1 {
        "y"@
    } else {
        "ies"@
    }
}

pub open spec fn restart_warned(a: AppView, text: Seq<char>) -> AppView {
    if a.engine.state.live() {
        a.says(text, ToastKind::Warn)
    } else {
        a
    }
}

/// A render check of a template, where there is anything to check with.
pub open spec fn check_begun(a: AppView, name: Seq<char>, dir: Seq<char>, jinja: Seq<char>) -> Step {
    match a.known.ft {
        None => warned(a, 503, "cannot verify the template without the FreeToken CLI"@),
        Some(ft) => match command_of(
            python_of(ft@, a.known.python_beside),
            TEMPLATE_SCRIPT@,
            seq![dir, jinja],
        ) {
            None => warned(
                a,
                503,
                "cannot verify the template: no Python found beside the FreeToken CLI"@,
            ),
            Some(argv) => (
                (AppView {
                    templates: TemplatesView { checking: true, preflight: None, ..a.templates },
                    ..a
                }).says("checking that '"@ + name + "' renders…"@, ToastKind::Info).wants(
                    EffectView::TemplatePreflight { name, argv },
                ),
                Ok(begun()),
            ),
        },
    }
}

/// Spawn the template render check. It needs FreeToken's Python (for transformers), so
/// it is a no-op with a clear message when that is not available.
fn run_preflight_checked(app: &mut App, name: &str, model_dir: &str, jinja: &str) -> (r: Outcome)
    ensures
        (final(app)@, outcome_view(r)) == check_begun(old(app)@, name@, model_dir@, jinja@),
{
    let argv = match &app.known.ft {
        Some(ft) => template_command(ft, app.known.python_beside, model_dir, jinja),
        None => {
            return Err(
                warn_off(
                    app,
                    503,
                    "cannot verify the template without the FreeToken CLI".to_owned(),
                ),
            );
        },
    };
    let argv = match argv {
        Some(a) => a,
        None => {
            return Err(
                warn_off(
                    app,
                    503,
                    "cannot verify the template: no Python found beside the FreeToken CLI".to_owned(),
                ),
            );
        },
    };
    app.templates.checking = true;
    app.templates.preflight = None;
    app.info(cat3("checking that '", name, "' renders…").as_str());
    app.want(Effect::TemplatePreflight { name: name.to_owned(), argv });
    Ok(Done::started())
}

/// The state once a template stands in `count` directories of `m`.
pub open spec fn template_set(a: AppView, name: Seq<char>, m: Model, count: nat) -> AppView {
    restart_warned(
        a.wants(EffectView::RefreshTemplateStatus(m.path@)).says(
            "applied '"@ + name + "' to "@ + dec(count) + " director"@ + director(count),
            ToastKind::Success,
        ),
        "restart the engine for the new template to take effect"@,
    )
}

pub open spec fn template_done(
    a: AppView,
    name: Seq<char>,
    path: Seq<char>,
    m: Model,
    w: Written,
) -> AppView {
    match w.failure {
        Some((dir, e)) => a.says(
            "could not apply to "@ + dir@ + ": "@ + e@,
            ToastKind::Error,
        ),
        // Writing nothing is a failure, not a quiet success.
        None => if w.dirs@.len() == 0 {
            a.says(
                "nothing to apply '"@ + name + "' to — "@ + m.name@
                    + " has no writable directory"@,
                ToastKind::Error,
            )
        } else {
            let b = template_set(a, name, m, w.dirs@.len());
            // Verify against the real tokenizer now that it is in place.
            if a.known.config.templates.preflight {
                check_begun(b, name, w.dirs@[0]@, path).0
            } else {
                b
            }
        },
    }
}

fn set_template(app: &mut App, name: &str, model: &Model, count: usize)
    ensures
        final(app)@ == template_set(old(app)@, name@, *model, count as nat),
{
    app.want(Effect::RefreshTemplateStatus(model.path.clone()));
    let text = cat6(
        "applied '",
        name,
        "' to ",
        decimal(count as u64).as_str(),
        " director",
        if count == 1 {
            "y"
        } else {
            "ies"
        },
    );
    app.success(text.as_str());
    if app.engine.is_live() {
        app.warn("restart the engine for the new template to take effect");
    }
}

/// Take in what became of writing a template into a model's directories.
pub fn template_written(
    app: &mut App,
    asked_for: &str,
    model_path: &str,
    read: ReadBack,
    written: Written,
)
    ensures
        final(app)@ == (match read {
            ReadBack::Missing => old(app)@.says(
                "template '"@ + asked_for@ + "' is no longer in the store"@,
                ToastKind::Error,
            ),
            ReadBack::Unreadable(e) => old(app)@.says(
                "could not read the template: "@ + e@,
                ToastKind::Error,
            ),
            ReadBack::Kept { name, path } => match found_model(
                old(app)@.known.models@,
                model_path@,
            ) {
                None => old(app)@.says(
                    "that model is no longer in the library"@,
                    ToastKind::Error,
                ),
                Some(m) => template_done(old(app)@, name@, path@, m, written),
            },
        }),
{
    let (name, path) = match read {
        ReadBack::Missing => {
            app.error(
                cat3("template '", asked_for, "' is no longer in the store").as_str(),
            );
            return;
        },
        ReadBack::Unreadable(e) => {
            app.error(cat2("could not read the template: ", e.as_str()).as_str());
            return;
        },
        ReadBack::Kept { name, path } => (name, path),
    };
    let model = match find_model(&app.known.models, model_path) {
        Some(m) => m.copy(),
        None => {
            app.error("that model is no longer in the library");
            return;
        },
    };
    if let Some((dir, e)) = &written.failure {
        app.error(cat4("could not apply to ", dir.as_str(), ": ", e.as_str()).as_str());
        return;
    }
    if written.dirs.len() == 0 {
        app.error(
            cat5(
                "nothing to apply '",
                name.as_str(),
                "' to — ",
                model.name.as_str(),
                " has no writable directory",
            ).as_str(),
        );
        return;
    }
    set_template(app, name.as_str(), &model, written.dirs.len());
    if app.known.config.templates.preflight {
        let _ = run_preflight_checked(
            app,
            name.as_str(),
            written.dirs[0].as_str(),
            path.as_str(),
        );
    }
}

// ---------------------------------------------------------------- reverting a template

pub open spec fn revert_body(first: Seq<char>, m: Model) -> Seq<Seq<char>> {
    seq![first, ""@, "This reverses the override in:"@] + indented(dirs_of(m))
}

fn revert_lines(first: String, m: &Model) -> (r: Vec<String>)
    ensures
        texts(r@) == revert_body(first@, *m),
{
    let dirs = targets(m);
    let mut body: Vec<String> = vec![
        first,
        "".to_owned(),
        "This reverses the override in:".to_owned(),
    ];
    assert(texts(body@) =~= seq![first@, ""@, "This reverses the override in:"@]);
    push_dirs(&mut body, &dirs);
    body
}

pub open spec fn template_revert_asked(a: AppView, path: Seq<char>, clock: Clock) -> Step {
    match found_model(
        a.known.models@,
        path,
    ) {
        None => (a, Err(no_model())),
        Some(m) => if !(m.template_status is Overridden) {
            warned(a, 409, m.name@ + " is not using an paddock template override"@)
        } else {
            asks(
                a,
                ConfirmView {
                    title: "Restore built-in template"@,
                    body: revert_body("Restore "@ + m.name@ + "'s own chat template?"@, m),
                    action: ConfirmActionView::RevertTemplate(m.path@),
                    danger: false,
                },
                clock,
            )
        },
    }
}

pub fn request_revert_template(app: &mut App, model_path: &str, clock: Clock) -> (r: Outcome)
    requires
        old(app)@.has_room(),
    ensures
        (final(app)@, outcome_view(r)) == template_revert_asked(old(app)@, model_path@, clock),
{
    let model = match find_model(&app.known.models, model_path) {
        Some(m) => m.copy(),
        None => {
            return Err(not_found_model());
        },
    };
    if !model.template_status.is_overridden() {
        return Err(
            warn_off(
                app,
                409,
                cat2(model.name.as_str(), " is not using an paddock template override"),
            ),
        );
    }
    let first = cat3("Restore ", model.name.as_str(), "'s own chat template?");
    let body = revert_lines(first, &model);
    let confirm = Confirm::new(
        "Restore built-in template",
        body,
        ConfirmAction::RevertTemplate(model.path),
        false,
    );
    Ok(ask(app, confirm, clock))
}

/// What became of undoing an override in each directory of a model: how many were restored
/// before one failed, with that one and why. A directory without an override is passed over:
/// the FTW build may never have had one applied, and that is not an error.
#[derive(Debug)]
pub struct Reverted {
    pub count: usize,
    pub failure: Option<(String, String)>,
}

/// Take in what became of undoing a template override.
pub fn template_reverted(app: &mut App, model_path: &str, done: Reverted)
    ensures
        final(app)@ == (match found_model(old(app)@.known.models@, model_path@) {
            None => old(app)@.says("that model is no longer in the library"@, ToastKind::Error),
            Some(m) => match done.failure {
                Some((dir, e)) => old(app)@.says(
                    "could not revert "@ + dir@ + ": "@ + e@,
                    ToastKind::Error,
                ),
                None => {
                    let b = (AppView {
                        templates: TemplatesView { preflight: None, ..old(app)@.templates },
                        ..old(app)@
                    }).wants(EffectView::RefreshTemplateStatus(m.path@));
                    if done.count == 0 {
                        b.says("found no override to restore"@, ToastKind::Error)
                    } else {
                        restart_warned(
                            b.says(
                                "restored the built-in template in "@ + dec(done.count as nat)
                                    + " director(ies)"@,
                                ToastKind::Success,
                            ),
                            "restart the engine for the change to take effect"@,
                        )
                    }
                },
            },
        }),
{
    let model = match find_model(&app.known.models, model_path) {
        Some(m) => m.copy(),
        None => {
            app.error("that model is no longer in the library");
            return;
        },
    };
    if let Some((dir, e)) = &done.failure {
        app.error(cat4("could not revert ", dir.as_str(), ": ", e.as_str()).as_str());
        return;
    }
    app.templates.preflight = None;
    app.want(Effect::RefreshTemplateStatus(model.path));
    if done.count == 0 {
        app.error("found no override to restore");
        return;
    }
    app.success(
        cat3(
            "restored the built-in template in ",
            decimal(done.count as u64).as_str(),
            " director(ies)",
        ).as_str(),
    );
    if app.engine.is_live() {
        app.warn("restart the engine for the change to take effect");
    }
}

// ---------------------------------------------------------------- verifying and deleting

pub open spec fn verification_begun(a: AppView, template: Seq<char>, path: Seq<char>) -> Step {
    match stored_named(
        a.templates.stored,
        template,
    ) {
        None => (a, Err(no_template(template))),
        Some(t) => match found_model(a.known.models@, path) {
            None => (a, Err(no_model())),
            Some(m) => check_begun(a, t.name@, m.path@, t.path@),
        },
    }
}

/// Render a stored template against a model's real tokenizer.
pub fn verify_template(app: &mut App, template: &str, model_path: &str) -> (r: Outcome)
    ensures
        (final(app)@, outcome_view(r)) == verification_begun(old(app)@, template@, model_path@),
{
    let (name, jinja) = match get(&app.templates.stored, template) {
        Some(t) => (t.name.clone(), t.path.clone()),
        None => {
            return Err(template_missing(template));
        },
    };
    let dir = match find_model(&app.known.models, model_path) {
        Some(m) => m.path.clone(),
        None => {
            return Err(not_found_model());
        },
    };
    run_preflight_checked(app, name.as_str(), dir.as_str(), jinja.as_str())
}

pub open spec fn delete_template_question(name: Seq<char>) -> ConfirmView {
    ConfirmView {
        title: "Delete template"@,
        body: seq![
            "Remove '"@ + name + "' from the template store?"@,
            ""@,
            "Checkpoints it was already applied to keep using it; this only removes the stored copy."@,
        ],
        action: ConfirmActionView::DeleteTemplate(name),
        danger: true,
    }
}

pub open spec fn template_deletion_asked(a: AppView, name: Seq<char>, clock: Clock) -> Step {
    match stored_named(
        a.templates.stored,
        name,
    ) {
        None => (a, Err(no_template(name))),
        Some(t) => asks(a, delete_template_question(t.name@), clock),
    }
}

pub fn delete_template(app: &mut App, name: &str, clock: Clock) -> (r: Outcome)
    requires
        old(app)@.has_room(),
    ensures
        (final(app)@, outcome_view(r)) == template_deletion_asked(old(app)@, name@, clock),
{
    let name = match get(&app.templates.stored, name) {
        Some(t) => t.name.clone(),
        None => {
            return Err(template_missing(name));
        },
    };
    let body: Vec<String> = vec![
        cat3("Remove '", name.as_str(), "' from the template store?"),
        "".to_owned(),
        "Checkpoints it was already applied to keep using it; this only removes the stored copy.".to_owned(),
    ];
    assert(texts(body@) =~= delete_template_question(name@).body);
    let confirm = Confirm::new(
        "Delete template",
        body,
        ConfirmAction::DeleteTemplate(name),
        true,
    );
    Ok(ask(app, confirm, clock))
}

/// Take in what became of removing a template from the store.
pub fn template_deleted(app: &mut App, name: &str, failure: Option<&str>)
    ensures
        final(app)@ == (match failure {
            None => old(app)@.wants(EffectView::ReloadTemplates).says(
                "deleted template '"@ + name@ + "'"@,
                ToastKind::Success,
            ),
            Some(e) => old(app)@.says("could not delete it: "@ + e@, ToastKind::Error),
        }),
{
    match failure {
        None => {
            app.want(Effect::ReloadTemplates);
            app.success(cat3("deleted template '", name, "'").as_str());
        },
        Some(e) => {
            app.error(cat2("could not delete it: ", e).as_str());
        },
    }
}

// ---------------------------------------------------------------- sampling

pub open spec fn sampling_status_line(s: crate::sampling::Status) -> Seq<char> {
    match s {
        crate::sampling::Status::Checkpoint =>
            "Everything else in that file — the stop token ids especially — is kept, and the original is backed up so u can restore it."@,
        crate::sampling::Status::Overridden(a) => "This replaces the override '"@
            + a.sampling@.shown() + "'. The checkpoint's original stays backed up."@,
    }
}

/// Each remark behind an empty line.
pub open spec fn spaced(remarks: Seq<Seq<char>>) -> Seq<Seq<char>>
    decreases remarks.len(),
{
    if remarks.len() == 0 {
        Seq::empty()
    } else {
        spaced(remarks.drop_last()) + seq![""@, remarks.last()]
    }
}

/// What is said before sampling defaults are merged.
pub open spec fn sampling_body(want: SamplingView, m: Model, live: bool) -> Seq<Seq<char>> {
    seq![
        "Serve "@ + m.name@ + " with "@ + want.shown() + "?"@,
        ""@,
        "FreeToken reads its sampling defaults from the checkpoint, so this merges them into generation_config.json in:"@,
    ] + indented(dirs_of(m)) + seq![""@, sampling_status_line(m.sampling_status)] + spaced(
        want.remarks(),
    ) + line_if(
        shared(dirs_of(m)),
        "That is inside the Hugging Face cache, which other tools on this machine read too — they will see these defaults as well. A later `hf download` of the repo may replace them. The checkpoint's own config is backed up either way, and u restores it."@,
    ) + line_if(
        live,
        "The engine read its sampling defaults at load time, so restart it for this to take effect."@,
    )
}

fn sampling_status_text(s: &crate::sampling::Status) -> (r: String)
    ensures
        r@ == sampling_status_line(*s),
{
    match s {
        crate::sampling::Status::Checkpoint =>
            "Everything else in that file — the stop token ids especially — is kept, and the original is backed up so u can restore it.".to_owned(),
        crate::sampling::Status::Overridden(a) => cat3(
            "This replaces the override '",
            a.sampling.summary().as_str(),
            "'. The checkpoint's original stays backed up.",
        ),
    }
}

fn push_spaced(body: &mut Vec<String>, remarks: &Vec<String>)
    ensures
        texts(final(body)@) == texts(old(body)@) + spaced(texts(remarks@)),
{
    let ghost before = texts(body@);
    let ghost all = texts(remarks@);
    let mut i: usize = 0;
    assert(all.take(0) =~= Seq::<Seq<char>>::empty());
    assert(before + spaced(all.take(0)) =~= before);
    while i < remarks.len()
        invariant
            i <= remarks.len(),
            all == texts(remarks@),
            texts(body@) == before + spaced(all.take(i as int)),
        decreases remarks.len() - i,
    {
        assert(all.take(i + 1).drop_last() =~= all.take(i as int));
        assert(all.take(i + 1).last() == remarks@[i as int]@);
        push_line(body, "");
        push_line(body, remarks[i].as_str());
        assert(texts(body@) =~= before + spaced(all.take(i + 1)));
        i = i + 1;
    }
    assert(all.take(i as int) =~= all);
}

fn sampling_lines(want: &Sampling, m: &Model, live: bool) -> (r: Vec<String>)
    ensures
        texts(r@) == sampling_body(want@, *m, live),
{
    let dirs = targets(m);
    let first = cat5("Serve ", m.name.as_str(), " with ", want.summary().as_str(), "?");
    let mut body: Vec<String> = vec![
        first,
        "".to_owned(),
        "FreeToken reads its sampling defaults from the checkpoint, so this merges them into generation_config.json in:".to_owned(),
    ];
    assert(texts(body@) =~= seq![
        first@,
        ""@,
        "FreeToken reads its sampling defaults from the checkpoint, so this merges them into generation_config.json in:"@,
    ]);
    push_dirs(&mut body, &dirs);
    let ghost listed = texts(body@);
    push_line(&mut body, "");
    push_line(&mut body, sampling_status_text(&m.sampling_status).as_str());
    assert(texts(body@) =~= listed + seq![""@, sampling_status_line(m.sampling_status)]);
    push_spaced(&mut body, &want.warnings());
    push_if(
        &mut body,
        any_shared(&dirs),
        "That is inside the Hugging Face cache, which other tools on this machine read too — they will see these defaults as well. A later `hf download` of the repo may replace them. The checkpoint's own config is backed up either way, and u restores it.",
    );
    push_if(
        &mut body,
        live,
        "The engine read its sampling defaults at load time, so restart it for this to take effect.",
    );
    body
}

pub open spec fn sampling_asked(
    a: AppView,
    path: Seq<char>,
    want: SamplingView,
    clock: Clock,
) -> Step {
    match found_model(a.known.models@, path) {
        None => (a, Err(no_model())),
        Some(m) => match refusal(m.format) {
            // Refused rather than warned about: the file would be written and then never
            // read, which looks exactly like a working override until someone checks.
            Some(why) => warned(a, 409, m.name@ + ": "@ + why),
            None => match want.problem() {
                Some(problem) => warned(a, 400, problem),
                None => asks(
                    a,
                    ConfirmView {
                        title: "Set sampling defaults"@,
                        body: sampling_body(want, m, a.engine.state.live()),
                        action: ConfirmActionView::ApplySampling {
                            model: m.path@,
                            sampling: want,
                        },
                        danger: false,
                    },
                    clock,
                ),
            },
        },
    }
}

/// Ask before merging sampling defaults into a checkpoint's `generation_config.json`.
pub fn request_apply_sampling(
    app: &mut App,
    model_path: &str,
    sampling: Sampling,
    clock: Clock,
) -> (r: Outcome)
    requires
        old(app)@.has_room(),
    ensures
        (final(app)@, outcome_view(r)) == sampling_asked(
            old(app)@,
            model_path@,
            sampling@,
            clock,
        ),
{
    let model = match find_model(&app.known.models, model_path) {
        Some(m) => m.copy(),
        None => {
            return Err(not_found_model());
        },
    };
    if let Some(why) = unsupported(model.format) {
        return Err(warn_off(app, 409, cat3(model.name.as_str(), ": ", why)));
    }
    if let Some(problem) = sampling.validate() {
        return Err(warn_off(app, 400, problem));
    }
    let body = sampling_lines(&sampling, &model, app.engine.is_live());
    let confirm = Confirm::new(
        "Set sampling defaults",
        body,
        ConfirmAction::ApplySampling { model: model.path, sampling },
        false,
    );
    Ok(ask(app, confirm, clock))
}

/// Take in what became of writing sampling defaults into a model's directories.
pub fn sampling_written(app: &mut App, model_path: &str, sampling: &Sampling, written: Written)
    ensures
        final(app)@ == (match found_model(old(app)@.known.models@, model_path@) {
            None => old(app)@.says("that model is no longer in the library"@, ToastKind::Error),
            Some(m) => match written.failure {
                Some((dir, e)) => old(app)@.says(
                    "could not apply to "@ + dir@ + ": "@ + e@,
                    ToastKind::Error,
                ),
                // Writing nothing is a failure, not a quiet success.
                None => if written.dirs@.len() == 0 {
                    old(app)@.says(
                        "nothing to write sampling defaults to — "@ + m.name@
                            + " has no writable directory"@,
                        ToastKind::Error,
                    )
                } else {
                    restart_warned(
                        old(app)@.wants(EffectView::RefreshSamplingStatus(m.path@)).says(
                            "set "@ + sampling@.shown() + " for "@ + m.name@,
                            ToastKind::Success,
                        ),
                        "restart the engine for the new sampling defaults to take effect"@,
                    )
                },
            },
        }),
{
    let model = match find_model(&app.known.models, model_path) {
        Some(m) => m.copy(),
        None => {
            app.error("that model is no longer in the library");
            return;
        },
    };
    if let Some((dir, e)) = &written.failure {
        app.error(cat4("could not apply to ", dir.as_str(), ": ", e.as_str()).as_str());
        return;
    }
    if written.dirs.len() == 0 {
        app.error(
            cat3(
                "nothing to write sampling defaults to — ",
                model.name.as_str(),
                " has no writable directory",
            ).as_str(),
        );
        return;
    }
    let text = cat4("set ", sampling.summary().as_str(), " for ", model.name.as_str());
    app.want(Effect::RefreshSamplingStatus(model.path));
    app.success(text.as_str());
    if app.engine.is_live() {
        app.warn("restart the engine for the new sampling defaults to take effect");
    }
}

pub open spec fn sampling_revert_asked(a: AppView, path: Seq<char>, clock: Clock) -> Step {
    match found_model(
        a.known.models@,
        path,
    ) {
        None => (a, Err(no_model())),
        Some(m) => if !(m.sampling_status is Overridden) {
            warned(a, 409, m.name@ + " is not using paddock sampling defaults"@)
        } else {
            asks(
                a,
                ConfirmView {
                    title: "Restore checkpoint sampling"@,
                    body: revert_body("Restore "@ + m.name@ + "'s own sampling defaults?"@, m),
                    action: ConfirmActionView::RevertSampling(m.path@),
                    danger: false,
                },
                clock,
            )
        },
    }
}

pub fn request_revert_sampling(app: &mut App, model_path: &str, clock: Clock) -> (r: Outcome)
    requires
        old(app)@.has_room(),
    ensures
        (final(app)@, outcome_view(r)) == sampling_revert_asked(old(app)@, model_path@, clock),
{
    let model = match find_model(&app.known.models, model_path) {
        Some(m) => m.copy(),
        None => {
            return Err(not_found_model());
        },
    };
    if !model.sampling_status.is_overridden() {
        return Err(
            warn_off(
                app,
                409,
                cat2(model.name.as_str(), " is not using paddock sampling defaults"),
            ),
        );
    }
    let first = cat3("Restore ", model.name.as_str(), "'s own sampling defaults?");
    let body = revert_lines(first, &model);
    let confirm = Confirm::new(
        "Restore checkpoint sampling",
        body,
        ConfirmAction::RevertSampling(model.path),
        false,
    );
    Ok(ask(app, confirm, clock))
}

/// Take in what became of undoing a sampling override.
pub fn sampling_reverted(app: &mut App, model_path: &str, done: Reverted)
    ensures
        final(app)@ == (match found_model(old(app)@.known.models@, model_path@) {
            None => old(app)@.says("that model is no longer in the library"@, ToastKind::Error),
            Some(m) => match done.failure {
                Some((dir, e)) => old(app)@.says(
                    "could not revert "@ + dir@ + ": "@ + e@,
                    ToastKind::Error,
                ),
                None => {
                    let b = old(app)@.wants(EffectView::RefreshSamplingStatus(m.path@));
                    if done.count == 0 {
                        b.says("found no override to restore"@, ToastKind::Error)
                    } else {
                        restart_warned(
                            b.says(
                                "restored the checkpoint's sampling in "@ + dec(done.count as nat)
                                    + " director(ies)"@,
                                ToastKind::Success,
                            ),
                            "restart the engine for the change to take effect"@,
                        )
                    }
                },
            },
        }),
{
    let model = match find_model(&app.known.models, model_path) {
        Some(m) => m.copy(),
        None => {
            app.error("that model is no longer in the library");
            return;
        },
    };
    if let Some((dir, e)) = &done.failure {
        app.error(cat4("could not revert ", dir.as_str(), ": ", e.as_str()).as_str());
        return;
    }
    app.want(Effect::RefreshSamplingStatus(model.path));
    if done.count == 0 {
        app.error("found no override to restore");
        return;
    }
    app.success(
        cat3(
            "restored the checkpoint's sampling in ",
            decimal(done.count as u64).as_str(),
            " director(ies)",
        ).as_str(),
    );
    if app.engine.is_live() {
        app.warn("restart the engine for the change to take effect");
    }
}

/// Every refusal of an action on templates or sampling says truly whether it was also shown,
/// and leaves nothing to be done.
pub proof fn law_template_refusals_are_honest(
    a: AppView,
    repo: Seq<char>,
    revision: Option<Seq<char>>,
    name: Seq<char>,
    path: Seq<char>,
    want: SamplingView,
    clock: Clock,
)
    ensures
        honest(a, listing_begun(a, repo)),
        honest(a, fetch_begun(a, repo, revision, path)),
        honest(a, template_asked(a, name, path, clock)),
        honest(a, template_revert_asked(a, path, clock)),
        honest(a, verification_begun(a, name, path)),
        honest(a, template_deletion_asked(a, name, clock)),
        honest(a, sampling_asked(a, path, want, clock)),
        honest(a, sampling_revert_asked(a, path, clock)),
{
}

/// Without a client of the Hub no template is asked of it, and nothing is marked as being
/// loaded.
pub proof fn law_without_a_client_no_template_is_fetched(
    a: AppView,
    repo: Seq<char>,
    revision: Option<Seq<char>>,
    path: Seq<char>,
)
    requires
        a.known.hub_error is Some,
    ensures
        listing_begun(a, repo).1 is Err,
        listing_begun(a, repo).0.effects == a.effects,
        listing_begun(a, repo).0.templates.loading == a.templates.loading,
        fetch_begun(a, repo, revision, path).1 is Err,
        fetch_begun(a, repo, revision, path).0.effects == a.effects,
        fetch_begun(a, repo, revision, path).0.templates.loading == a.templates.loading,
{
}

/// An override that the engine would ignore is never written: whatever is asked of a
/// checkpoint whose format cannot take one, nothing is left to be done.
pub proof fn law_an_ignored_override_is_refused(
    a: AppView,
    path: Seq<char>,
    want: SamplingView,
    clock: Clock,
)
    requires
        found_model(a.known.models@, path) is Some,
        found_model(a.known.models@, path)->0.format == Format::Gguf,
    ensures
        sampling_asked(a, path, want, clock).1 is Err,
        sampling_asked(a, path, want, clock).0.effects == a.effects,
        sampling_asked(a, path, want, clock).0.confirm == a.confirm,
{
}

} // verus!
