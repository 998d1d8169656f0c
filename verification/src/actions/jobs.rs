//! Jobs, downloads, logs and recorded requests.

use vstd::prelude::*;
use vstd::string::*;
use crate::actions::{
    ask, asks, cli_missing, download_index, error_off, failed, find_download, find_job, honest, hushed,
    job_index, job_run, no_cli, option_args, outcome_view, push_option, warn_off, warned, Clock,
    Done, DoneView, Outcome, Refusal, Step,
};
use crate::ft::proc::{spawn_job, Job, JobKind, JobSpec, JobView};
use crate::ft::types::RequestRecord;
use crate::hub::Download;
use crate::knobs::value_of;
use crate::state::{
    job_views, App, AppView, Confirm, ConfirmAction, ConfirmActionView, ConfirmView, Effect,
    EffectView, Purpose, PurposeView, ToastKind,
};
use crate::text::{cat2, cat3, dec, decimal, texts};

verus! {

pub open spec fn bench_begun(a: AppView) -> Step {
    match a.known.gpu_busy {
        Some(why) => warned(a, 409, "cannot benchmark: "@ + why@),
        None => match a.known.ft {
            None => failed(a, 503, no_cli(a.known)),
            Some(ft) => (
                a.wants(
                    EffectView::Spawn {
                        run: job_run(
                            ft,
                            seq!["bench"@, "bw"@],
                            option_args("--gpu"@, value_of(a.serve, "gpu"@)),
                            JobKind::Bench,
                            "CPU vs PCIe bandwidth"@,
                            a.known,
                        ),
                        purpose: PurposeView::Bench,
                    },
                ),
                Ok(DoneView::Spawning),
            ),
        },
    }
}

/// Measure CPU against PCIe bandwidth.
pub fn run_bench(app: &mut App) -> (r: Outcome)
    ensures
        (final(app)@, outcome_view(r)) == bench_begun(old(app)@),
{
    let busy = match &app.known.gpu_busy {
        Some(why) => Some(cat2("cannot benchmark: ", why.as_str())),
        None => None,
    };
    if let Some(text) = busy {
        return Err(warn_off(app, 409, text));
    }
    let run = match &app.known.ft {
        None => Err(cli_missing(&app.known)),
        Some(ft) => {
            let mut args: Vec<String> = Vec::new();
            assert(texts(args@) =~= Seq::<Seq<char>>::empty());
            push_option(&mut args, "--gpu", app.serve.get("gpu"));
            let subcommand: Vec<String> = vec!["bench".to_owned(), "bw".to_owned()];
            assert(texts(subcommand@) =~= seq!["bench"@, "bw"@]);
            assert(texts(args@) =~= option_args("--gpu"@, value_of(app.serve@, "gpu"@)));
            Ok(
                spawn_job(
                    ft,
                    JobSpec {
                        kind: JobKind::Bench,
                        subcommand,
                        args,
                        title: "CPU vs PCIe bandwidth".to_owned(),
                        log_capacity: app.known.config.ui.log_capacity,
                    },
                ),
            )
        },
    };
    match run {
        Ok(run) => {
            app.want(Effect::Spawn { run, purpose: Purpose::Bench });
            Ok(Done::Spawning)
        },
        Err(why) => Err(error_off(app, 503, why)),
    }
}

pub open spec fn cancel_job_question(j: JobView) -> ConfirmView {
    ConfirmView {
        title: "Cancel job"@,
        body: seq![
            "Cancel '"@ + j.title + "'?"@,
            ""@,
            "A partly written FTW directory is left behind and must be deleted before the conversion can be retried."@,
        ],
        action: ConfirmActionView::CancelJob(j.id),
        danger: true,
    }
}

pub open spec fn cancel_job_asked(a: AppView, id: u64, clock: Clock) -> Step {
    let i = job_index(a.jobs, id);
    if i >= a.jobs.len() {
        (a, Err(hushed(404, "no job with id "@ + dec(id as nat))))
    } else if !(a.jobs[i as int].status is Running) {
        warned(a, 409, "that job has already finished"@)
    } else {
        asks(a, cancel_job_question(a.jobs[i as int]), clock)
    }
}

/// Ask before a running job is canceled.
pub fn cancel_job(app: &mut App, id: u64, clock: Clock) -> (r: Outcome)
    requires
        old(app)@.has_room(),
    ensures
        (final(app)@, outcome_view(r)) == cancel_job_asked(old(app)@, id, clock),
{
    let i = find_job(&app.jobs, id);
    if i >= app.jobs.len() {
        return Err(Refusal::quiet(404, cat2("no job with id ", decimal(id).as_str()).as_str()));
    }
    assert(app@.jobs[i as int] == app.jobs@[i as int]@);
    if !app.jobs[i].is_running() {
        return Err(warn_off(app, 409, "that job has already finished".to_owned()));
    }
    let body: Vec<String> = vec![
        cat3("Cancel '", app.jobs[i].title.as_str(), "'?"),
        "".to_owned(),
        "A partly written FTW directory is left behind and must be deleted before the conversion can be retried.".to_owned(),
    ];
    proof {
        lemma_job_at(app@.jobs, id);
    }
    assert(texts(body@) =~= cancel_job_question(app@.jobs[i as int]).body);
    let confirm = Confirm::new("Cancel job", body, ConfirmAction::CancelJob(id), true);
    Ok(ask(app, confirm, clock))
}

/// The job found under an id has that id.
proof fn lemma_job_at(jobs: Seq<JobView>, id: u64)
    ensures
        job_index(jobs, id) < jobs.len() ==> jobs[job_index(jobs, id) as int].id == id,
    decreases jobs.len(),
{
    if jobs.len() > 0 && jobs[0].id != id {
        lemma_job_at(jobs.drop_first(), id);
    }
}

proof fn lemma_download_at(downloads: Seq<Download>, id: u64)
    ensures
        download_index(downloads, id) < downloads.len() ==> downloads[download_index(
            downloads,
            id,
        ) as int].id == id,
    decreases downloads.len(),
{
    if downloads.len() > 0 && downloads[0].id != id {
        lemma_download_at(downloads.drop_first(), id);
    }
}

pub open spec fn cancel_download_question(d: Download) -> ConfirmView {
    ConfirmView {
        title: "Cancel download"@,
        body: seq![
            "Cancel the download of "@ + d.repo@ + "?"@,
            ""@,
            "Completed files are kept and a partial file resumes where it stopped."@,
        ],
        action: ConfirmActionView::CancelDownload(d.id),
        danger: false,
    }
}

pub open spec fn cancel_download_asked(a: AppView, id: u64, clock: Clock) -> Step {
    let i = download_index(a.downloads, id);
    if i >= a.downloads.len() {
        (a, Err(hushed(404, "no download with id "@ + dec(id as nat))))
    } else if !(a.downloads[i as int].status is Running) {
        warned(a, 409, "that download has already finished"@)
    } else {
        asks(a, cancel_download_question(a.downloads[i as int]), clock)
    }
}

/// Ask before a running download is canceled.
pub fn cancel_download(app: &mut App, id: u64, clock: Clock) -> (r: Outcome)
    requires
        old(app)@.has_room(),
    ensures
        (final(app)@, outcome_view(r)) == cancel_download_asked(old(app)@, id, clock),
{
    let i = find_download(&app.downloads, id);
    if i >= app.downloads.len() {
        return Err(
            Refusal::quiet(404, cat2("no download with id ", decimal(id).as_str()).as_str()),
        );
    }
    if !app.downloads[i].is_running() {
        return Err(warn_off(app, 409, "that download has already finished".to_owned()));
    }
    let body: Vec<String> = vec![
        cat3("Cancel the download of ", app.downloads[i].repo.as_str(), "?"),
        "".to_owned(),
        "Completed files are kept and a partial file resumes where it stopped.".to_owned(),
    ];
    proof {
        lemma_download_at(app@.downloads, id);
    }
    assert(texts(body@) =~= cancel_download_question(app@.downloads[i as int]).body);
    let confirm = Confirm::new("Cancel download", body, ConfirmAction::CancelDownload(id), false);
    Ok(ask(app, confirm, clock))
}

// ---------------------------------------------------------------- clearing

pub open spec fn running_jobs(jobs: Seq<JobView>) -> Seq<JobView>
    decreases jobs.len(),
{
    if jobs.len() == 0 {
        jobs
    } else if jobs.last().status is Running {
        running_jobs(jobs.drop_last()).push(jobs.last())
    } else {
        running_jobs(jobs.drop_last())
    }
}

pub open spec fn running_downloads(downloads: Seq<Download>) -> Seq<Download>
    decreases downloads.len(),
{
    if downloads.len() == 0 {
        downloads
    } else if downloads.last().status is Running {
        running_downloads(downloads.drop_last()).push(downloads.last())
    } else {
        running_downloads(downloads.drop_last())
    }
}

fn keep_running_jobs(jobs: Vec<Job>) -> (r: Vec<Job>)
    ensures
        job_views(r@) == running_jobs(job_views(jobs@)),
        r@.len() <= jobs@.len(),
{
    let ghost all = job_views(jobs@);
    let ghost mut seen: int = 0;
    let mut rest = jobs;
    let mut kept: Vec<Job> = Vec::new();
    assert(all.take(0) =~= Seq::<JobView>::empty());
    assert(job_views(kept@) =~= Seq::<JobView>::empty());
    assert(job_views(rest@) =~= all.skip(0));
    while rest.len() > 0
        invariant
            0 <= seen <= all.len(),
            job_views(rest@) == all.skip(seen),
            job_views(kept@) == running_jobs(all.take(seen)),
            kept@.len() <= seen,
        decreases rest.len(),
    {
        let ghost before = rest@;
        let ghost held = kept@;
        assert(job_views(before).len() == all.len() - seen);
        assert(all.skip(seen)[0] == all[seen]);
        let job = rest.remove(0);
        assert(job@ == job_views(before)[0]);
        assert(job_views(rest@) =~= job_views(before).drop_first());
        assert(all.skip(seen).drop_first() =~= all.skip(seen + 1));
        assert(all.take(seen + 1).drop_last() =~= all.take(seen));
        assert(all.take(seen + 1).last() == all[seen]);
        if job.is_running() {
            kept.push(job);
            assert(job_views(kept@) =~= job_views(held).push(job@));
        }
        proof {
            seen = seen + 1;
        }
    }
    assert(all.skip(seen).len() == 0);
    assert(all.take(seen) =~= all);
    kept
}

fn keep_running_downloads(downloads: Vec<Download>) -> (r: Vec<Download>)
    ensures
        r@ == running_downloads(downloads@),
        r@.len() <= downloads@.len(),
{
    let ghost all = downloads@;
    let ghost mut seen: int = 0;
    let mut rest = downloads;
    let mut kept: Vec<Download> = Vec::new();
    assert(all.take(0) =~= Seq::<Download>::empty());
    assert(rest@ =~= all.skip(0));
    while rest.len() > 0
        invariant
            0 <= seen <= all.len(),
            rest@ == all.skip(seen),
            kept@ == running_downloads(all.take(seen)),
            kept@.len() <= seen,
        decreases rest.len(),
    {
        let d = rest.remove(0);
        assert(d == all[seen]);
        assert(rest@ =~= all.skip(seen + 1));
        assert(all.take(seen + 1).drop_last() =~= all.take(seen));
        assert(all.take(seen + 1).last() == all[seen]);
        if d.is_running() {
            kept.push(d);
        }
        proof {
            seen = seen + 1;
        }
    }
    assert(all.take(seen) =~= all);
    kept
}

/// How many rows are finished.
pub open spec fn finished(a: AppView) -> nat {
    (a.jobs.len() + a.downloads.len() - running_jobs(a.jobs).len() - running_downloads(
        a.downloads,
    ).len()) as nat
}

pub open spec fn finished_cleared(a: AppView) -> AppView {
    let b = (AppView {
        jobs: running_jobs(a.jobs),
        downloads: running_downloads(a.downloads),
        ..a
    }).wants(EffectView::ClampJobSelection);
    if finished(a) > 0 {
        b.says("cleared "@ + dec(finished(a)) + " finished entr(ies)"@, ToastKind::Info)
    } else {
        b
    }
}

/// Drop every finished job and download. Returns how many rows went.
pub fn clear_finished(app: &mut App) -> (r: usize)
    requires
        old(app)@.jobs.len() + old(app)@.downloads.len() <= usize::MAX,
    ensures
        final(app)@ == finished_cleared(old(app)@),
        r == finished(old(app)@),
{
    let before: usize = app.jobs.len() + app.downloads.len();
    let mut jobs: Vec<Job> = Vec::new();
    core::mem::swap(&mut jobs, &mut app.jobs);
    app.jobs = keep_running_jobs(jobs);
    let mut downloads: Vec<Download> = Vec::new();
    core::mem::swap(&mut downloads, &mut app.downloads);
    app.downloads = keep_running_downloads(downloads);
    let removed: usize = before - (app.jobs.len() + app.downloads.len());
    app.want(Effect::ClampJobSelection);
    if removed > 0 {
        app.info(cat3("cleared ", decimal(removed as u64).as_str(), " finished entr(ies)").as_str());
    }
    removed
}

/// Empty the engine's log.
pub fn clear_logs(app: &mut App)
    requires
        old(app)@.engine.log.dropped + old(app)@.engine.log.lines.len() <= u64::MAX,
    ensures
        final(app)@ == (AppView {
            engine: crate::ft::proc::EngineView {
                log: old(app)@.engine.log.after_clear(),
                ..old(app)@.engine
            },
            logs_scroll: 0,
            ..old(app)@
        }),
{
    app.engine.log.clear();
    app.logs_scroll = 0;
}

pub fn set_requests_paused(app: &mut App, paused: bool)
    ensures
        final(app)@ == (AppView { requests_paused: paused, ..old(app)@ }).says(
            "request polling "@ + (if paused {
                "paused"@
            } else {
                "resumed"@
            }),
            ToastKind::Info,
        ),
{
    app.requests_paused = paused;
    let state = if paused {
        "paused"
    } else {
        "resumed"
    };
    app.info(cat2("request polling ", state).as_str());
}

/// Forget the recorded requests. Polling goes on from where it was.
pub fn clear_requests(app: &mut App)
    ensures
        final(app)@ == (AppView {
            requests: Seq::empty(),
            request_index: 0,
            ..old(app)@
        }),
{
    app.requests = Vec::new();
    app.request_index = 0;
    assert(app@.requests =~= Seq::<RequestRecord>::empty());
}

// ---------------------------------------------------------------- laws

/// Clearing what is finished never touches what runs: whatever still runs is kept, in order,
/// and clearing a second time removes nothing.
pub proof fn law_only_what_is_finished_is_cleared(jobs: Seq<JobView>)
    ensures
        running_jobs(running_jobs(jobs)) == running_jobs(jobs),
        forall|i: int|
            0 <= i < jobs.len() && (#[trigger] jobs[i]).status is Running ==> running_jobs(
                jobs,
            ).contains(jobs[i]),
        forall|i: int|
            0 <= i < running_jobs(jobs).len() ==> (#[trigger] running_jobs(jobs)[i]).status
                is Running,
    decreases jobs.len(),
{
    if jobs.len() > 0 {
        let head = jobs.drop_last();
        law_only_what_is_finished_is_cleared(head);
        let kept = running_jobs(head);
        if jobs.last().status is Running {
            assert(kept.push(jobs.last()).drop_last() =~= kept);
        }
        assert forall|i: int|
            0 <= i < jobs.len() && (#[trigger] jobs[i]).status is Running implies running_jobs(
            jobs,
        ).contains(jobs[i]) by {
            if i < head.len() {
                assert(head[i] == jobs[i]);
                let k = kept.index_of(jobs[i]);
                assert(running_jobs(jobs)[k] == jobs[i]);
            } else {
                assert(running_jobs(jobs)[kept.len() as int] == jobs[i]);
            }
        }
    }
}

/// The same of downloads.
pub proof fn law_only_finished_downloads_are_cleared(downloads: Seq<Download>)
    ensures
        running_downloads(running_downloads(downloads)) == running_downloads(downloads),
        forall|i: int|
            0 <= i < downloads.len() && (#[trigger] downloads[i]).status is Running
                ==> running_downloads(downloads).contains(downloads[i]),
        forall|i: int|
            0 <= i < running_downloads(downloads).len() ==> (#[trigger] running_downloads(
                downloads,
            )[i]).status is Running,
    decreases downloads.len(),
{
    if downloads.len() > 0 {
        let head = downloads.drop_last();
        law_only_finished_downloads_are_cleared(head);
        let kept = running_downloads(head);
        if downloads.last().status is Running {
            assert(kept.push(downloads.last()).drop_last() =~= kept);
        }
        assert forall|i: int|
            0 <= i < downloads.len() && (#[trigger] downloads[i]).status is Running implies
            running_downloads(downloads).contains(downloads[i]) by {
            if i < head.len() {
                assert(head[i] == downloads[i]);
                let k = kept.index_of(downloads[i]);
                assert(running_downloads(downloads)[k] == downloads[i]);
            } else {
                assert(running_downloads(downloads)[kept.len() as int] == downloads[i]);
            }
        }
    }
}

/// Every refusal of an action on jobs and downloads says truly whether it was also shown, and
/// leaves nothing to be done.
pub proof fn law_job_refusals_are_honest(a: AppView, id: u64, clock: Clock)
    ensures
        honest(a, bench_begun(a)),
        honest(a, cancel_job_asked(a, id, clock)),
        honest(a, cancel_download_asked(a, id, clock)),
{
}

/// A job that has ended is never signaled by a cancel, and asking to cancel it changes
/// nothing but what is said.
pub proof fn law_a_finished_job_is_not_canceled(a: AppView, id: u64, clock: Clock)
    requires
        job_index(a.jobs, id) < a.jobs.len(),
        !(a.jobs[job_index(a.jobs, id) as int].status is Running),
    ensures
        cancel_job_asked(a, id, clock).0 == a.says("that job has already finished"@, ToastKind::Warn),
        cancel_job_asked(a, id, clock).1 is Err,
{
}

} // verus!
