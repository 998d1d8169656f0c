//! What downloads, conversions, jobs and overrides are started with, and when they are not.

use vstd::prelude::*;
use crate::actions::engine::{conversion_asked, deletion_asked, smoke_begun, summary_asked, Changes};
use crate::actions::hub::{
    download_decided, downloading, file_index, file_toggled, files_among, files_at, gate_warned,
    listed_gated, only_variant, repo_opened, search_begun, selection, variant_named,
};
use crate::actions::jobs::{
    bench_begun, cancel_download_asked, cancel_job_asked, running_downloads, running_jobs,
};
use crate::actions::templates::{
    dirs_of, fetch_begun, listing_begun, sampling_asked, sampling_revert_asked, shared,
    stored_named, template_asked, template_done, template_revert_asked, Written,
};
use crate::actions::{
    check_command, conversion_args, conversion_begun, conversion_started, download_canceled,
    download_index, found_model, ftw_out_of, job_canceled, job_index, moe_backend_of, ran,
    update_refusal, Clock,
};
use crate::ft::proc::{JobKind, JobView};
use crate::hub::{gated_by, wanted_of, Download, RepoFile, RepoSummary};
use crate::knobs::value_of;
use crate::models::{Format, Model};
use crate::sampling::SamplingView;
use crate::state::{AppView, ConfirmActionView, EffectView, PurposeView, Variant};
use crate::templates::cache_shape;
use crate::text::{texts, trimmed};

verus! {

// ---------------------------------------------------------------- searching and opening

/// A search goes out with what was typed, without the spaces round it.
pub proof fn law_a_search_asks_for_what_was_typed(a: AppView, query: Seq<char>)
    ensures
        search_begun(a, query).1 is Ok <==> trimmed(query).len() > 0 && a.known.hub_error is None,
        search_begun(a, query).1 is Ok ==> search_begun(a, query).0.effects == a.effects.push(
            EffectView::Search { query: trimmed(query), limit: 50 },
        ) && search_begun(a, query).0.hub.searching,
{
}

/// An opened repo is listed and judged, both at the revision that was asked for or else the
/// one that is set.
pub proof fn law_an_opened_repo_is_listed_and_judged(
    a: AppView,
    repo: Seq<char>,
    revision: Option<Seq<char>>,
)
    requires
        a.known.hub_error is None,
    ensures
        ({
            let b = repo_opened(a, repo, revision).0;
            let rev = if revision is Some {
                revision->0
            } else {
                a.hub.revision
            };
            &&& repo_opened(a, repo, revision).1 is Ok
            &&& b.hub.revision == rev
            &&& b.hub.checking_compat
            &&& !b.hub.judged
            &&& b.effects == a.effects.push(EffectView::RepoInfo { repo, revision: rev }).push(
                EffectView::CheckCompatibility { repo, revision: rev },
            )
        }),
{
}

/// A gated repo is warned of where there is no token, and only there.
pub proof fn law_a_gated_repo_is_warned_of(a: AppView, repo: Seq<char>, i: int)
    ensures
        gate_warned(a, repo).toasts.len() > a.toasts.len() <==> listed_gated(a.hub.results, repo)
            && a.known.hub_token is None,
        gate_warned(a, repo).effects == a.effects,
        0 <= i < a.hub.results.len() && a.hub.results[i].id@ == repo && (forall|j: int|
            0 <= j < i ==> (#[trigger] a.hub.results[j]).id@ != repo) ==> (listed_gated(
            a.hub.results,
            repo,
        ) <==> gated_by(a.hub.results[i].gated@)),
{
    if 0 <= i < a.hub.results.len() && a.hub.results[i].id@ == repo && (forall|j: int|
        0 <= j < i ==> (#[trigger] a.hub.results[j]).id@ != repo) {
        lemma_gated(a.hub.results, repo, i);
    }
}

proof fn lemma_gated(results: Seq<RepoSummary>, id: Seq<char>, i: int)
    requires
        0 <= i < results.len(),
        results[i].id@ == id,
        forall|j: int| 0 <= j < i ==> (#[trigger] results[j]).id@ != id,
    ensures
        listed_gated(results, id) == gated_by(results[i].gated@),
    decreases i,
{
    if i > 0 {
        let tail = results.drop_first();
        assert(results[0].id@ != id);
        assert forall|j: int| 0 <= j < i - 1 implies (#[trigger] tail[j]).id@ != id by {
            assert(results[j + 1].id@ != id);
        }
        lemma_gated(tail, id, i - 1);
    }
}

// ---------------------------------------------------------------- selecting

proof fn lemma_file_index(files: Seq<RepoFile>, path: Seq<char>)
    ensures
        file_index(files, path) <= files.len(),
        file_index(files, path) < files.len() ==> files[file_index(files, path) as int].path@
            == path,
        forall|i: int| 0 <= i < file_index(files, path) ==> (#[trigger] files[i]).path@ != path,
    decreases files.len(),
{
    if files.len() > 0 && files[0].path@ != path {
        let tail = files.drop_first();
        lemma_file_index(tail, path);
        assert forall|i: int| 0 <= i < file_index(files, path) implies (#[trigger] files[i]).path@
            != path by {
            if i > 0 {
                assert(tail[i - 1] == files[i]);
            }
        }
    }
}

/// Toggling a file sets it as asked, or the other way from how it was, and no other file.
pub proof fn law_a_toggle_sets_one_file(
    a: AppView,
    path: Seq<char>,
    wanted: Option<bool>,
    i: int,
)
    requires
        0 <= i < a.hub.files.len(),
        a.hub.files[i].path@ == path,
        forall|j: int|
            0 <= j < a.hub.files.len() && j != i ==> (#[trigger] a.hub.files[j]).path@ != path,
    ensures
        ({
            let (b, r) = file_toggled(a, path, wanted);
            &&& r is Ok
            &&& b.hub.files.len() == a.hub.files.len()
            &&& b.hub.files[i].wanted == r->Ok_0
            &&& r->Ok_0 == (if wanted is Some {
                wanted->0
            } else {
                !a.hub.files[i].wanted
            })
            &&& forall|j: int|
                0 <= j < a.hub.files.len() && j != i ==> #[trigger] b.hub.files[j]
                    == a.hub.files[j]
            &&& b.hub.custom_selection
        }),
{
    lemma_file_index(a.hub.files, path);
    let at = file_index(a.hub.files, path) as int;
    assert(at == i) by {
        if at < i {
            assert(a.hub.files[at].path@ == path);
        }
    }
}

/// A chosen quantization wants its own files and no others.
pub proof fn law_a_variant_wants_its_own_files(files: Seq<RepoFile>, v: Variant, i: int)
    requires
        0 <= i < files.len(),
    ensures
        only_variant(files, v).len() == files.len(),
        only_variant(files, v)[i].path@ == files[i].path@,
        only_variant(files, v)[i].wanted <==> texts(v.files@).contains(files[i].path@),
{
}

/// Files that are asked for by name are downloaded in the order they are named, each from
/// the listing; one that is not listed fails the whole.
pub proof fn law_named_files_are_downloaded(files: Seq<RepoFile>, paths: Seq<Seq<char>>)
    ensures
        files_at(files, paths) is Ok <==> (forall|i: int|
            0 <= i < paths.len() ==> file_index(files, #[trigger] paths[i]) < files.len()),
        files_at(files, paths) is Ok ==> files_at(files, paths)->Ok_0.len() == paths.len()
            && forall|i: int|
            0 <= i < paths.len() ==> (#[trigger] files_at(files, paths)->Ok_0[i]).path@ == paths[i]
                && files.contains(files_at(files, paths)->Ok_0[i]),
    decreases paths.len(),
{
    if paths.len() > 0 {
        let head = paths.drop_last();
        let last = paths.last();
        law_named_files_are_downloaded(files, head);
        lemma_file_index(files, last);
        let r = files_at(files, paths);
        let h = files_at(files, head);
        assert forall|i: int| 0 <= i < head.len() implies #[trigger] head[i] == paths[i] by {}
        if forall|i: int|
            0 <= i < paths.len() ==> file_index(files, #[trigger] paths[i]) < files.len() {
            assert forall|i: int| 0 <= i < head.len() implies file_index(files, #[trigger] head[i])
                < files.len() by {
                assert(file_index(files, paths[i]) < files.len());
            }
            assert(file_index(files, paths[paths.len() - 1]) < files.len());
        }
        if r is Ok {
            assert(h is Ok);
            assert forall|i: int| 0 <= i < paths.len() implies file_index(
                files,
                #[trigger] paths[i],
            ) < files.len() by {
                if i < head.len() {
                    assert(file_index(files, head[i]) < files.len());
                }
            }
            assert forall|i: int| 0 <= i < paths.len() implies (#[trigger] r->Ok_0[i]).path@
                == paths[i] && files.contains(r->Ok_0[i]) by {
                if i < head.len() {
                    assert(h->Ok_0[i].path@ == head[i]);
                    assert(r->Ok_0[i] == h->Ok_0[i]);
                } else {
                    assert(files.contains(files[file_index(files, last) as int]));
                }
            }
        }
    }
}

/// A quantization is downloaded as those of the listed files that belong to it.
pub proof fn law_a_variant_is_downloaded_whole(
    files: Seq<RepoFile>,
    names: Seq<Seq<char>>,
    f: RepoFile,
)
    ensures
        files_among(files, names).contains(f) <==> files.contains(f) && names.contains(f.path@),
    decreases files.len(),
{
    if files.len() > 0 {
        let head = files.drop_last();
        let last = files.last();
        let w = files_among(head, names);
        law_a_variant_is_downloaded_whole(head, names, f);
        assert(files =~= head.push(last));
        assert(files.contains(f) <==> head.contains(f) || f == last) by {
            if head.contains(f) {
                let i = choose|i: int| 0 <= i < head.len() && head[i] == f;
                assert(files[i] == f);
            }
            if f == last {
                assert(files[files.len() - 1] == f);
            }
        }
        assert(w.push(last).contains(f) <==> w.contains(f) || f == last) by {
            if w.contains(f) {
                let i = choose|i: int| 0 <= i < w.len() && w[i] == f;
                assert(w.push(last)[i] == f);
            }
            assert(w.push(last)[w.len() as int] == last);
        }
    }
}

/// What is downloaded: the files that are named; or else the quantization that is named; or
/// else what is marked in the listing.
pub proof fn law_what_is_selected_for_a_download(
    a: AppView,
    variant: Option<Seq<char>>,
    files: Option<Seq<Seq<char>>>,
)
    ensures
        files is Some && files->0.len() > 0 ==> (selection(a, variant, files) is Ok <==> files_at(
            a.hub.files,
            files->0,
        ) is Ok) && (selection(a, variant, files) is Ok ==> selection(a, variant, files)->Ok_0
            == files_at(a.hub.files, files->0)->Ok_0),
        (files is None || files->0.len() == 0) && variant is None ==> selection(
            a,
            variant,
            files,
        ) == Ok::<Seq<RepoFile>, crate::actions::RefusalView>(wanted_of(a.hub.files)),
        (files is None || files->0.len() == 0) && variant is Some && variant_named(
            a.hub.variants,
            variant->0,
        ) is None ==> selection(a, variant, files) is Err,
        (files is None || files->0.len() == 0) && variant is Some && variant_named(
            a.hub.variants,
            variant->0,
        ) is Some && variant_named(a.hub.variants, variant->0)->0.files@.len() > 0 ==> selection(
            a,
            variant,
            files,
        ) == Ok::<Seq<RepoFile>, crate::actions::RefusalView>(
            files_among(
                a.hub.files,
                texts(variant_named(a.hub.variants, variant->0)->0.files@),
            ),
        ),
{
}

/// A download starts exactly when something is selected, its repo is not downloading
/// already, and the Hub and the CLI are there; it starts with the selected files.
pub proof fn law_when_a_download_starts(a: AppView, repo: Seq<char>, sel: Seq<RepoFile>)
    ensures
        download_decided(a, repo, sel).1 is Ok <==> sel.len() > 0 && !downloading(
            a.downloads,
            repo,
        ) && a.known.hub_error is None && a.known.hf_cli is Some,
        download_decided(a, repo, sel).1 is Ok ==> download_decided(a, repo, sel).0.effects
            == a.effects.push(
            EffectView::StartDownload {
                repo,
                revision: a.hub.revision,
                cli: a.known.hf_cli->0@,
                files: sel,
            },
        ),
        download_decided(a, repo, sel).1 is Err ==> download_decided(a, repo, sel).0.effects
            == a.effects,
{
}

// ---------------------------------------------------------------- jobs

proof fn lemma_job_index(jobs: Seq<JobView>, id: u64)
    ensures
        job_index(jobs, id) <= jobs.len(),
        job_index(jobs, id) < jobs.len() ==> jobs[job_index(jobs, id) as int].id == id,
        forall|i: int| 0 <= i < job_index(jobs, id) ==> (#[trigger] jobs[i]).id != id,
    decreases jobs.len(),
{
    if jobs.len() > 0 && jobs[0].id != id {
        let tail = jobs.drop_first();
        lemma_job_index(tail, id);
        assert forall|i: int| 0 <= i < job_index(jobs, id) implies (#[trigger] jobs[i]).id != id by {
            if i > 0 {
                assert(tail[i - 1] == jobs[i]);
            }
        }
    }
}

/// Canceling a running job interrupts its process, and touches no other job.
pub proof fn law_a_canceled_job_is_interrupted(a: AppView, id: u64, i: int, pid: u32)
    requires
        0 <= i < a.jobs.len(),
        a.jobs[i].id == id,
        a.jobs[i].status is Running,
        a.jobs[i].pid == Some(pid),
        forall|j: int| 0 <= j < i ==> (#[trigger] a.jobs[j]).id != id,
    ensures
        job_canceled(a, id).effects == a.effects.push(EffectView::Signal { pid, signal: 2 }),
        job_canceled(a, id).jobs.len() == a.jobs.len(),
        job_canceled(a, id).jobs[i].status is Running,
        forall|j: int|
            0 <= j < a.jobs.len() && j != i ==> #[trigger] job_canceled(a, id).jobs[j] == a.jobs[j],
{
    reveal(job_canceled);
    lemma_job_index(a.jobs, id);
    let at = job_index(a.jobs, id) as int;
    assert(at == i) by {
        if at < i {
            assert(a.jobs[at].id == id);
        }
    }
}

/// A job that does not run is not canceled: nothing is sent.
pub proof fn law_a_job_that_ended_is_left_alone(a: AppView, id: u64)
    requires
        forall|j: int|
            0 <= j < a.jobs.len() && (#[trigger] a.jobs[j]).id == id ==> !(a.jobs[j].status
                is Running),
    ensures
        job_canceled(a, id) == a,
{
    reveal(job_canceled);
    lemma_job_index(a.jobs, id);
}

/// A cancelation is asked about for a running job, and names that job.
pub proof fn law_a_running_job_can_be_canceled(a: AppView, id: u64, clock: Clock)
    ensures
        cancel_job_asked(a, id, clock).1 is Ok <==> job_index(a.jobs, id) < a.jobs.len()
            && a.jobs[job_index(a.jobs, id) as int].status is Running,
        cancel_job_asked(a, id, clock).1 is Ok && a.known.config.ui.confirm_destructive ==> (
        cancel_job_asked(a, id, clock).0.confirm is Some && cancel_job_asked(
            a,
            id,
            clock,
        ).0.confirm->0.action == ConfirmActionView::CancelJob(id)),
{
    lemma_job_index(a.jobs, id);
}

proof fn lemma_download_index(downloads: Seq<Download>, id: u64)
    ensures
        download_index(downloads, id) <= downloads.len(),
        download_index(downloads, id) < downloads.len() ==> downloads[download_index(
            downloads,
            id,
        ) as int].id == id,
        forall|i: int|
            0 <= i < download_index(downloads, id) ==> (#[trigger] downloads[i]).id != id,
    decreases downloads.len(),
{
    if downloads.len() > 0 && downloads[0].id != id {
        let tail = downloads.drop_first();
        lemma_download_index(tail, id);
        assert forall|i: int| 0 <= i < download_index(downloads, id) implies (
        #[trigger] downloads[i]).id != id by {
            if i > 0 {
                assert(tail[i - 1] == downloads[i]);
            }
        }
    }
}

/// A canceled download is marked so, at the time it was, and no other is touched.
pub proof fn law_a_canceled_download_is_marked(a: AppView, id: u64, ms: i64, i: int)
    requires
        0 <= i < a.downloads.len(),
        a.downloads[i].id == id,
        forall|j: int| 0 <= j < i ==> (#[trigger] a.downloads[j]).id != id,
    ensures
        ({
            let b = download_canceled(a, id, ms);
            &&& b.downloads.len() == a.downloads.len()
            &&& b.downloads[i].cancel_requested
            &&& b.downloads[i].status is Canceled
            &&& b.downloads[i].finished_at == Some(ms)
            &&& b.downloads[i].repo == a.downloads[i].repo
            &&& forall|j: int|
                0 <= j < a.downloads.len() && j != i ==> #[trigger] b.downloads[j]
                    == a.downloads[j]
        }),
{
    reveal(download_canceled);
    lemma_download_index(a.downloads, id);
    let at = download_index(a.downloads, id) as int;
    assert(at == i) by {
        if at < i {
            assert(a.downloads[at].id == id);
        }
    }
}

/// A benchmark runs on a free GPU, as `ft bench bw`, on the card that is configured.
pub proof fn law_a_benchmark_runs_on_the_configured_card(a: AppView, card: Seq<char>)
    ensures
        bench_begun(a).1 is Ok <==> a.known.gpu_busy is None && a.known.ft is Some,
        bench_begun(a).1 is Ok ==> ({
            let e = bench_begun(a).0.effects.last();
            &&& bench_begun(a).0.effects.len() == a.effects.len() + 1
            &&& e is Spawn
            &&& e->purpose == PurposeView::Bench
            &&& e->run.kind == JobKind::Bench
            &&& e->run.program == a.known.ft->0@.program
            &&& value_of(a.serve, "gpu"@) == Some(card) ==> e->run.args == a.known.ft->0@.prefix
                + seq!["bench"@, "bw"@, "--gpu"@, card]
            &&& value_of(a.serve, "gpu"@) is None ==> e->run.args == a.known.ft->0@.prefix + seq![
                "bench"@,
                "bw"@,
            ]
        }),
{
    if bench_begun(a).1 is Ok {
        let p = a.known.ft->0@.prefix;
        assert(p + seq!["bench"@, "bw"@] + seq!["--gpu"@, card] =~= p + seq![
            "bench"@,
            "bw"@,
            "--gpu"@,
            card,
        ]);
        assert(p + seq!["bench"@, "bw"@] + Seq::<Seq<char>>::empty() =~= p + seq!["bench"@, "bw"@]);
    }
}

/// Clearing keeps the running jobs in their order.
pub proof fn law_running_jobs_keep_their_order(jobs: Seq<JobView>, more: JobView)
    ensures
        running_jobs(jobs.push(more)) == (if more.status is Running {
            running_jobs(jobs).push(more)
        } else {
            running_jobs(jobs)
        }),
        running_jobs(Seq::empty()) == Seq::<JobView>::empty(),
{
    assert(jobs.push(more).drop_last() =~= jobs);
}

/// Clearing keeps the running downloads in their order.
pub proof fn law_running_downloads_keep_their_order(downloads: Seq<Download>, more: Download)
    ensures
        running_downloads(downloads.push(more)) == (if more.status is Running {
            running_downloads(downloads).push(more)
        } else {
            running_downloads(downloads)
        }),
{
    assert(downloads.push(more).drop_last() =~= downloads);
}

// ---------------------------------------------------------------- conversions

/// A conversion reads the checkpoint and writes the build, for the backend that the strategy
/// calls for: `triton` for fused experts, `offload` for any other.
pub proof fn law_a_conversion_names_its_ends(
    serve: Map<Seq<char>, Seq<char>>,
    source: Seq<char>,
    out: Seq<char>,
)
    ensures
        value_of(serve, "moe_strategy"@) == Some("fused"@) ==> moe_backend_of(serve) == "triton"@,
        value_of(serve, "moe_strategy"@) != Some("fused"@) ==> moe_backend_of(serve)
            == "offload"@,
        conversion_args(serve, source, out).take(6) == seq![
            "--model"@,
            source,
            "--out"@,
            out,
            "--moe-backend"@,
            moe_backend_of(serve),
        ],
        value_of(serve, "quant_backend"@) is Some ==> conversion_args(serve, source, out)[6]
            == "--quant-backend"@ && conversion_args(serve, source, out)[7] == value_of(
            serve,
            "quant_backend"@,
        )->0,
        value_of(serve, "gpu"@) is Some ==> ({
            let c = conversion_args(serve, source, out);
            c[c.len() - 2] == "--gpu"@ && c.last() == value_of(serve, "gpu"@)->0
        }),
        conversion_args(serve, source, out).len() == 6 + (if value_of(serve, "quant_backend"@)
            is Some {
            2int
        } else {
            0
        }) + (if value_of(serve, "gpu"@) is Some {
            2int
        } else {
            0
        }),
{
    assert(conversion_args(serve, source, out).take(6) =~= seq![
        "--model"@,
        source,
        "--out"@,
        out,
        "--moe-backend"@,
        moe_backend_of(serve),
    ]);
}

/// A conversion starts with the CLI's own checkpoint command, and writes to the build
/// directory of the checkpoint.
pub proof fn law_a_conversion_writes_the_build(a: AppView, source: Seq<char>)
    requires
        a.known.ft is Some,
    ensures
        ({
            let b = conversion_started(a, source).0;
            let e = b.effects.last();
            let out = ftw_out_of(a.known, source);
            &&& b.effects.len() == a.effects.len() + 1
            &&& e is Spawn
            &&& e->run.kind == JobKind::Convert
            &&& e->run.program == a.known.ft->0@.program
            &&& e->run.args == a.known.ft->0@.prefix + seq!["checkpoint"@] + conversion_args(
                a.serve,
                source,
                out,
            )
            &&& e->purpose is Convert
            &&& e->purpose->out == out
        }),
{
    reveal(conversion_started);
}

/// A conversion is checked first where the configuration wants it and an interpreter is
/// there; otherwise it starts at once.
pub proof fn law_a_conversion_is_checked_first(a: AppView, source: Seq<char>)
    requires
        a.known.ft is Some,
    ensures
        !a.known.config.convert.preflight || check_command(a, source) is None ==> conversion_begun(
            a,
            source,
        ) == conversion_started(a, source),
        a.known.config.convert.preflight && check_command(a, source) is Some ==> ({
            let b = conversion_begun(a, source).0;
            &&& b.convert_checking == Some(source)
            &&& b.effects == a.effects.push(
                EffectView::ConvertPreflight { source, argv: check_command(a, source)->0 },
            )
        }),
{
    reveal(conversion_begun);
}

/// Only a Hugging Face checkpoint is converted, with the GPU free, no check running, and no
/// finished build in the way. Leftovers are measured before anything is removed.
pub proof fn law_when_a_conversion_is_begun(
    a: AppView,
    path: Seq<char>,
    exists_already: bool,
    partial: bool,
)
    ensures
        conversion_asked(a, path, exists_already, partial).1 is Ok <==> {
            &&& found_model(a.known.models@, path) is Some
            &&& found_model(a.known.models@, path)->0.format == Format::Hf
            &&& a.known.gpu_busy is None
            &&& a.convert_checking is None
            &&& exists_already ==> partial
        },
        conversion_asked(a, path, exists_already, partial).1 is Ok && exists_already ==> (
        conversion_asked(a, path, exists_already, partial).0.effects.last() is MeasureLeftovers
            && conversion_asked(a, path, exists_already, partial).0.effects.len()
            == a.effects.len() + 1),
        conversion_asked(a, path, exists_already, partial).1 is Err ==> conversion_asked(
            a,
            path,
            exists_already,
            partial,
        ).0.effects == a.effects,
{
}

// ---------------------------------------------------------------- deleting and updating

/// A checkpoint in the Hugging Face cache is deleted through its CLI, any other by its
/// directory; either way it is asked about first.
pub proof fn law_a_deletion_asks_first(a: AppView, path: Seq<char>)
    requires
        found_model(a.known.models@, path) is Some,
    ensures
        ({
            let m = found_model(a.known.models@, path)->0;
            let b = deletion_asked(a, path).0;
            &&& b.effects.len() == a.effects.len() + 1
            &&& cache_shape(crate::paths::components_of(m.path@)) ==> b.effects.last() is Ask
                && b.effects.last()->Ask_0.action is DeleteHfCacheModel
                && b.effects.last()->Ask_0.danger
            &&& !cache_shape(crate::paths::components_of(m.path@)) ==> b.effects.last()
                == (EffectView::MeasureModel { name: m.name@, path: m.path@ })
        }),
{
}

/// What is confirmed is what is done: each deletion reaches what it names.
pub proof fn law_a_confirmed_deletion_reaches_what_it_names(
    a: AppView,
    path: Seq<char>,
    repo: Seq<char>,
    clock: Clock,
)
    ensures
        ran(a, ConfirmActionView::DeleteModel(path), clock).0.effects == a.effects.push(
            EffectView::DeleteModel(path),
        ),
        ran(a, ConfirmActionView::DeleteTemplate(path), clock).0.effects == a.effects.push(
            EffectView::DeleteTemplate(path),
        ),
        ran(a, ConfirmActionView::RevertTemplate(path), clock).0.effects == a.effects.push(
            EffectView::RevertTemplate(path),
        ),
        ran(a, ConfirmActionView::RevertSampling(path), clock).0.effects == a.effects.push(
            EffectView::RevertSampling(path),
        ),
        a.known.hf_cli is Some ==> ran(
            a,
            ConfirmActionView::DeleteHfCacheModel { path, repo },
            clock,
        ).0.effects == a.effects.push(
            EffectView::DeleteFromCache { cli: a.known.hf_cli->0@, path, repo },
        ),
        a.known.hf_cli is None ==> ran(
            a,
            ConfirmActionView::DeleteHfCacheModel { path, repo },
            clock,
        ).0.effects == a.effects,
        ran(a, ConfirmActionView::InstallHfCli, clock).0.effects == a.effects.push(
            EffectView::InstallHfCli,
        ),
        ran(a, ConfirmActionView::ReconvertModel(path), clock).0.effects == a.effects.push(
            EffectView::RemoveLeftovers { source: path, out: ftw_out_of(a.known, path) },
        ),
        ran(a, ConfirmActionView::ApplyTemplate { template: repo, model: path }, clock).0.effects
            == a.effects.push(EffectView::WriteTemplate { template: repo, model: path }),
        ran(a, ConfirmActionView::Quit, clock).0.should_quit,
{
    reveal(ran);
    reveal(crate::actions::model_deleted);
    reveal(crate::actions::cached_deleted);
    reveal(crate::actions::cli_installing);
    reveal(crate::actions::leftovers_removed);
}

/// An update goes ahead exactly when there is a clean checkout behind its origin, no engine
/// runs from it, and the environment and both tools are there.
pub proof fn law_when_an_update_goes_ahead(a: AppView)
    ensures
        update_refusal(a) is None <==> {
            &&& a.known.tools.checkout_dir is Some
            &&& !a.engine.state.live()
            &&& a.known.checkout is Some
            &&& !a.known.checkout->0.dirty
            &&& a.known.checkout->0.origin_behind > 0
            &&& a.known.config.freetoken.venv is Some
            &&& a.known.tools.git is Some
            &&& a.known.tools.uv is Some
        },
        update_refusal(a) is Some ==> (update_refusal(a)->0).0 == 503 || (update_refusal(a)->0).0
            == 409,
{
}

/// A summary is asked of an engine that answers and has a model loaded, of a checkout that
/// misses something.
pub proof fn law_when_a_summary_is_asked_for(a: AppView, changes: Option<Changes>)
    ensures
        summary_asked(a, changes).1 is Ok <==> a.known.tools.checkout_dir is Some
            && a.known.reachable && a.known.current_model is Some && changes is Some,
        summary_asked(a, changes).1 is Ok ==> ({
            let b = summary_asked(a, changes).0;
            &&& b.effects.len() == a.effects.len() + 1
            &&& b.effects.last() is Summarize
            &&& b.effects.last()->Summarize_model == a.known.current_model->0@
            &&& b.origin_summary is Some
            &&& b.origin_summary->0.pending
            &&& b.origin_summary->0.range == changes->0.range@
            &&& b.origin_summary->0.commits == changes->0.commits
            &&& b.origin_summary->0.truncated == changes->0.truncated
        }),
{
}

// ---------------------------------------------------------------- overrides

/// An override goes into the checkpoint, and into its build where it has one.
pub proof fn law_an_override_reaches_every_directory(m: Model)
    ensures
        dirs_of(m).contains(m.path@),
        m.converted_to is Some ==> dirs_of(m).contains(m.converted_to->0@) && dirs_of(m).len() == 2,
        m.converted_to is None ==> dirs_of(m).len() == 1,
        shared(dirs_of(m)) <==> cache_shape(crate::paths::components_of(m.path@)) || (
        m.converted_to is Some && cache_shape(
            crate::paths::components_of(m.converted_to->0@),
        )),
{
    assert(dirs_of(m)[0] == m.path@);
    if m.converted_to is Some {
        assert(dirs_of(m)[1] == m.converted_to->0@);
    }
}

/// An override of sampling is asked about for a model of the library whose config is read,
/// with values that are in range; it carries those values to that model.
pub proof fn law_when_sampling_is_overridden(
    a: AppView,
    path: Seq<char>,
    want: SamplingView,
    clock: Clock,
)
    ensures
        sampling_asked(a, path, want, clock).1 is Ok <==> {
            &&& found_model(a.known.models@, path) is Some
            &&& found_model(a.known.models@, path)->0.format == Format::Hf || found_model(
                a.known.models@,
                path,
            )->0.format == Format::Ftw
            &&& want.problem() is None
        },
        sampling_asked(a, path, want, clock).1 is Ok && a.known.config.ui.confirm_destructive
            ==> sampling_asked(a, path, want, clock).0.confirm is Some && sampling_asked(
            a,
            path,
            want,
            clock,
        ).0.confirm->0.action == (ConfirmActionView::ApplySampling {
            model: found_model(a.known.models@, path)->0.path@,
            sampling: want,
        }),
{
}

/// Only an override is undone.
pub proof fn law_only_an_override_is_undone(a: AppView, path: Seq<char>, clock: Clock)
    ensures
        template_revert_asked(a, path, clock).1 is Ok <==> found_model(a.known.models@, path)
            is Some && found_model(a.known.models@, path)->0.template_status is Overridden,
        sampling_revert_asked(a, path, clock).1 is Ok <==> found_model(a.known.models@, path)
            is Some && found_model(a.known.models@, path)->0.sampling_status is Overridden,
{
}

/// A stored template is applied to a model of the library, and to no other place.
pub proof fn law_a_stored_template_is_applied(
    a: AppView,
    template: Seq<char>,
    path: Seq<char>,
    clock: Clock,
)
    ensures
        template_asked(a, template, path, clock).1 is Ok <==> stored_named(
            a.templates.stored,
            template,
        ) is Some && found_model(a.known.models@, path) is Some,
        template_asked(a, template, path, clock).1 is Ok && a.known.config.ui.confirm_destructive
            ==> template_asked(a, template, path, clock).0.confirm is Some && template_asked(
            a,
            template,
            path,
            clock,
        ).0.confirm->0.action == (ConfirmActionView::ApplyTemplate {
            template,
            model: found_model(a.known.models@, path)->0.path@,
        }),
{
    crate::laws::overrides::law_a_template_is_found_by_its_name(a.templates.stored, template);
}

/// A template is fetched at a revision that is known, into the name of its repo.
pub proof fn law_a_template_is_fetched_at_a_known_revision(
    a: AppView,
    repo: Seq<char>,
    revision: Option<Seq<char>>,
    path: Seq<char>,
)
    ensures
        fetch_begun(a, repo, revision, path).1 is Ok <==> trimmed(repo).len() > 0
            && a.known.hub_error is None && (revision is Some || a.templates.remote_revision
            is Some),
        fetch_begun(a, repo, revision, path).1 is Ok ==> fetch_begun(
            a,
            repo,
            revision,
            path,
        ).0.effects == a.effects.push(
            EffectView::FetchTemplate {
                repo: trimmed(repo),
                revision: if revision is Some {
                    revision->0
                } else {
                    a.templates.remote_revision->0
                },
                path,
                name: crate::templates::store_name(trimmed(repo), path),
            },
        ),
{
}

/// A smoke test is run on a server that answers.
pub proof fn law_a_smoke_test_needs_a_server(a: AppView)
    ensures
        smoke_begun(a).1 is Ok <==> a.known.reachable,
        smoke_begun(a).1 is Ok ==> smoke_begun(a).0.effects.last() is SmokeTest
            && smoke_begun(a).0.effects.len() == a.effects.len() + 1,
{
}

/// A quantization is found by its label: the first that has it.
pub proof fn law_a_variant_is_found_by_its_label(v: Seq<Variant>, label: Seq<char>, i: int)
    requires
        0 <= i < v.len(),
        v[i].label@ == label,
        forall|j: int| 0 <= j < i ==> (#[trigger] v[j]).label@ != label,
    ensures
        variant_named(v, label) == Some(v[i]),
    decreases i,
{
    if i > 0 {
        let tail = v.drop_first();
        assert(v[0].label@ != label);
        assert forall|j: int| 0 <= j < i - 1 implies (#[trigger] tail[j]).label@ != label by {
            assert(v[j + 1].label@ != label);
        }
        law_a_variant_is_found_by_its_label(tail, label, i - 1);
    }
}

/// A template that was written is checked where the configuration wants it; one that could
/// not be written anywhere is a failure.
pub proof fn law_a_written_template_is_checked(
    a: AppView,
    name: Seq<char>,
    path: Seq<char>,
    m: Model,
    w: Written,
)
    ensures
        w.failure is Some || w.dirs@.len() == 0 ==> template_done(a, name, path, m, w).effects
            == a.effects,
        w.failure is None && w.dirs@.len() > 0 && !a.known.config.templates.preflight
            ==> template_done(a, name, path, m, w).effects == a.effects.push(
            EffectView::RefreshTemplateStatus(m.path@),
        ),
        w.failure is None && w.dirs@.len() > 0 && a.known.config.templates.preflight
            && a.known.ft is None ==> template_done(a, name, path, m, w).effects == a.effects.push(
            EffectView::RefreshTemplateStatus(m.path@),
        ),
        w.failure is None && w.dirs@.len() > 0 && a.known.config.templates.preflight
            && a.known.ft is Some && a.known.ft->0@.prefix == seq!["-m"@, "freetoken.cli"@]
            ==> template_done(a, name, path, m, w).effects.last() is TemplatePreflight
            && template_done(a, name, path, m, w).effects.len() == a.effects.len() + 2,
{
}

/// The templates of a repo are listed where one is named and the Hub is there.
pub proof fn law_a_named_repo_is_listed(a: AppView, repo: Seq<char>)
    ensures
        listing_begun(a, repo).1 is Ok <==> trimmed(repo).len() > 0 && a.known.hub_error is None,
        listing_begun(a, repo).1 is Ok ==> listing_begun(a, repo).0.effects == a.effects.push(
            EffectView::ListTemplateRepo(trimmed(repo)),
        ),
{
}

/// A running download can be canceled, and no other.
pub proof fn law_a_running_download_can_be_canceled(a: AppView, id: u64, clock: Clock)
    ensures
        cancel_download_asked(a, id, clock).1 is Ok <==> download_index(a.downloads, id)
            < a.downloads.len() && a.downloads[download_index(a.downloads, id) as int].status
            is Running,
        cancel_download_asked(a, id, clock).1 is Ok && a.known.config.ui.confirm_destructive ==> (
        cancel_download_asked(a, id, clock).0.confirm is Some && cancel_download_asked(
            a,
            id,
            clock,
        ).0.confirm->0.action == ConfirmActionView::CancelDownload(id)),
{
    lemma_download_index(a.downloads, id);
}

/// A label that no quantization has finds none.
pub proof fn law_an_unknown_label_finds_nothing(v: Seq<Variant>, label: Seq<char>)
    requires
        forall|j: int| 0 <= j < v.len() ==> (#[trigger] v[j]).label@ != label,
    ensures
        variant_named(v, label) is None,
    decreases v.len(),
{
    if v.len() > 0 {
        let tail = v.drop_first();
        assert(v[0].label@ != label);
        assert forall|j: int| 0 <= j < tail.len() implies (#[trigger] tail[j]).label@ != label by {
            assert(v[j + 1].label@ != label);
        }
        law_an_unknown_label_finds_nothing(tail, label);
    }
}

} // verus!
