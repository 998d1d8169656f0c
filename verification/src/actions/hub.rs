//! Searching the Hub and downloading from it.

use vstd::prelude::*;
use crate::actions::{
    ask, asks, begun, error_off, failed, honest, hushed, loud, outcome_view, warn_off, warned, Clock,
    Done, DoneView, Outcome, Refusal, RefusalView, Step,
};
use crate::hub::{
    gated_by, total_of, total_size, wanted_files, wanted_of, Download, RepoFile, RepoSummary,
    INSTALL_COMMAND,
};
use crate::state::{
    App, AppView, Confirm, ConfirmAction, ConfirmActionView, ConfirmView, Effect, EffectView,
    HubState, HubView, Tab, ToastKind, Variant,
};
use crate::templates::copy_opt;
use crate::text::{
    cat2, cat3, cat5, cat6, dec, decimal, listed, opt_str, same, texts, trim, trimmed,
};
use crate::util::{bytes, bytes_text};

verus! {

/// How many repos a search asks for.
pub const SEARCH_LIMIT: u32 = 50;

pub open spec fn search_begun(a: AppView, query: Seq<char>) -> Step {
    let q = trimmed(query);
    if q.len() == 0 {
        (a, Err(hushed(400, "a search needs a query"@)))
    } else {
        let b = AppView { hub: HubView { query: q, ..a.hub }, ..a };
        match a.known.hub_error {
            Some(why) => failed(b, 503, why@),
            None => (
                (AppView { hub: HubView { searching: true, ..b.hub }, ..b }).wants(
                    EffectView::Search { query: q, limit: SEARCH_LIMIT },
                ),
                Ok(begun()),
            ),
        }
    }
}

/// A client of the Hub, or the 503 that explains its absence.
pub(crate) fn hub_or_refuse(app: &mut App) -> (r: Result<(), Refusal>)
    ensures
        match (old(app)@.known.hub_error, r) {
            (None, Ok(_)) => final(app)@ == old(app)@,
            (Some(why), Err(e)) => (final(app)@, Err::<DoneView, RefusalView>(e@)) == failed(
                old(app)@,
                503,
                why@,
            ),
            _ => false,
        },
{
    match copy_opt(&app.known.hub_error) {
        Some(why) => Err(error_off(app, 503, why)),
        None => Ok(()),
    }
}

pub fn search(app: &mut App, query: &str) -> (r: Outcome)
    ensures
        (final(app)@, outcome_view(r)) == search_begun(old(app)@, query@),
{
    let q = trim(query);
    if q.as_str().is_empty() {
        return Err(Refusal::quiet(400, "a search needs a query"));
    }
    app.hub.take_query(q.as_str());
    assert(app@ == (AppView { hub: HubView { query: q@, ..old(app)@.hub }, ..old(app)@ }));
    if let Err(e) = hub_or_refuse(app) {
        return Err(e);
    }
    app.hub.start_search();
    app.want(Effect::Search { query: q, limit: SEARCH_LIMIT });
    Ok(Done::started())
}

/// The first result with this id says that the repo is gated.
pub open spec fn listed_gated(results: Seq<RepoSummary>, id: Seq<char>) -> bool
    decreases results.len(),
{
    if results.len() == 0 {
        false
    } else if results[0].id@ == id {
        gated_by(results[0].gated@)
    } else {
        listed_gated(results.drop_first(), id)
    }
}

fn is_listed_gated(results: &Vec<RepoSummary>, id: &str) -> (r: bool)
    ensures
        r == listed_gated(results@, id@),
{
    let mut i: usize = 0;
    assert(results@.skip(0) =~= results@);
    while i < results.len()
        invariant
            i <= results.len(),
            listed_gated(results@, id@) == listed_gated(results@.skip(i as int), id@),
        decreases results.len() - i,
    {
        assert(results@.skip(i as int)[0] == results@[i as int]);
        if same(results[i].id.as_str(), id) {
            return results[i].is_gated();
        }
        assert(results@.skip(i as int).drop_first() =~= results@.skip(i + 1));
        i = i + 1;
    }
    false
}

pub open spec fn gate_warned(a: AppView, repo: Seq<char>) -> AppView {
    if listed_gated(a.hub.results, repo) && a.known.hub_token is None {
        a.says(
            repo
                + " is gated — set HF_TOKEN or hub.token and accept its terms on the Hub first"@,
            ToastKind::Warn,
        )
    } else {
        a
    }
}

pub open spec fn repo_opened(a: AppView, repo: Seq<char>, revision: Option<Seq<char>>) -> Step {
    let rev = match revision {
        Some(r) => r,
        None => a.hub.revision,
    };
    match a.known.hub_error {
        Some(why) => failed(a, 503, why@),
        None => (
            (AppView {
                hub: HubView {
                    revision: rev,
                    loading_info: true,
                    files_focused: true,
                    judged: false,
                    checking_compat: true,
                    ..a.hub
                },
                ..gate_warned(a, repo)
            }).wants(EffectView::RepoInfo { repo, revision: rev }).wants(
                EffectView::CheckCompatibility { repo, revision: rev },
            ),
            Ok(begun()),
        ),
    }
}

impl HubState {
    fn take_query(&mut self, query: &str)
        ensures
            final(self)@ == (HubView { query: query@, ..old(self)@ }),
    {
        self.query = query.to_owned();
    }

    fn start_search(&mut self)
        ensures
            final(self)@ == (HubView { searching: true, ..old(self)@ }),
    {
        self.searching = true;
    }

    /// A repo's files are being listed and judged. Returns the revision.
    fn open(&mut self, revision: Option<&str>) -> (r: String)
        ensures
            r@ == (match revision {
                Some(rev) => rev@,
                None => old(self)@.revision,
            }),
            final(self)@ == (HubView {
                revision: r@,
                loading_info: true,
                files_focused: true,
                judged: false,
                checking_compat: true,
                ..old(self)@
            }),
    {
        if let Some(rev) = revision {
            self.revision = rev.to_owned();
        }
        self.loading_info = true;
        self.files_focused = true;
        self.judged = false;
        self.checking_compat = true;
        self.revision.clone()
    }

    /// A quantization is the selection.
    fn take_variant(&mut self, files: Vec<RepoFile>, label: &str)
        ensures
            final(self)@ == (HubView {
                files: files@,
                variant: Some(label@),
                custom_selection: false,
                ..old(self)@
            }),
    {
        self.files = files;
        self.variant = Some(label.to_owned());
        self.custom_selection = false;
    }

    /// A selection made by hand.
    fn reselect(&mut self, files: Vec<RepoFile>)
        ensures
            final(self)@ == (HubView { files: files@, custom_selection: true, ..old(self)@ }),
    {
        self.files = files;
        self.custom_selection = true;
    }
}

fn warn_gated(app: &mut App, repo_id: &str)
    ensures
        final(app)@ == gate_warned(old(app)@, repo_id@),
{
    if is_listed_gated(&app.hub.results, repo_id) && app.known.hub_token.is_none() {
        let text = cat2(
            repo_id,
            " is gated — set HF_TOKEN or hub.token and accept its terms on the Hub first",
        );
        app.warn(text.as_str());
    }
}

/// List a repo's files and judge whether FreeToken could run it.
///
/// The judgment fetches just the repo's `config.json`: one small request against a download
/// measured in tens of gigabytes, to answer "can this even work here?" before committing to
/// the transfer.
pub fn open_repo(app: &mut App, repo_id: &str, revision: Option<&str>) -> (r: Outcome)
    ensures
        (final(app)@, outcome_view(r)) == repo_opened(old(app)@, repo_id@, opt_str(revision)),
{
    if let Err(e) = hub_or_refuse(app) {
        return Err(e);
    }
    warn_gated(app, repo_id);
    let rev = app.hub.open(revision);
    app.want(Effect::RepoInfo { repo: repo_id.to_owned(), revision: rev.clone() });
    app.want(Effect::CheckCompatibility { repo: repo_id.to_owned(), revision: rev });
    Ok(Done::started())
}

// ---------------------------------------------------------------- selecting files

/// The first variant with a label.
pub open spec fn variant_named(v: Seq<Variant>, label: Seq<char>) -> Option<Variant>
    decreases v.len(),
{
    if v.len() == 0 {
        None
    } else if v[0].label@ == label {
        Some(v[0])
    } else {
        variant_named(v.drop_first(), label)
    }
}

fn find_variant<'a>(v: &'a Vec<Variant>, label: &str) -> (r: Option<&'a Variant>)
    ensures
        (match r {
            Some(x) => Some(*x),
            None => None,
        }) == variant_named(v@, label@),
        r matches Some(x) ==> x.label@ == label@,
{
    let mut i: usize = 0;
    assert(v@.skip(0) =~= v@);
    while i < v.len()
        invariant
            i <= v.len(),
            variant_named(v@, label@) == variant_named(v@.skip(i as int), label@),
        decreases v.len() - i,
    {
        assert(v@.skip(i as int)[0] == v@[i as int]);
        if same(v[i].label.as_str(), label) {
            return Some(&v[i]);
        }
        assert(v@.skip(i as int).drop_first() =~= v@.skip(i + 1));
        i = i + 1;
    }
    None
}

/// The files with exactly those of a variant wanted.
pub open spec fn only_variant(files: Seq<RepoFile>, v: Variant) -> Seq<RepoFile> {
    Seq::new(
        files.len(),
        |i: int| RepoFile { wanted: texts(v.files@).contains(files[i].path@), ..files[i] },
    )
}

fn with_variant(files: &Vec<RepoFile>, v: &Variant) -> (r: Vec<RepoFile>)
    ensures
        r@ == only_variant(files@, *v),
{
    let mut out: Vec<RepoFile> = Vec::new();
    let mut i: usize = 0;
    while i < files.len()
        invariant
            i <= files.len(),
            out@.len() == i,
            forall|j: int| 0 <= j < i ==> #[trigger] out@[j] == only_variant(files@, *v)[j],
        decreases files.len() - i,
    {
        let mut f = files[i].copy();
        f.wanted = listed(f.path.as_str(), &v.files);
        out.push(f);
        i = i + 1;
    }
    assert(out@ =~= only_variant(files@, *v));
    out
}

pub open spec fn variant_chosen(a: AppView, label: Seq<char>) -> Step {
    match variant_named(a.hub.variants, label) {
        None => warned(a, 409, "this repo has no '"@ + label + "' quantization"@),
        Some(v) => {
            let files = only_variant(a.hub.files, v);
            let wanted = wanted_of(files);
            (
                (AppView {
                    hub: HubView {
                        files,
                        variant: Some(label),
                        custom_selection: false,
                        ..a.hub
                    },
                    ..a
                }).wants(EffectView::RepriceCompat).says(
                    label + ": "@ + dec(wanted.len()) + " file(s), "@ + bytes_text(
                        total_of(wanted),
                    ),
                    ToastKind::Info,
                ),
                Ok(DoneView::Finished),
            )
        },
    }
}

/// How many files are wanted, and their bytes.
fn selected(files: &Vec<RepoFile>) -> (r: (usize, u64))
    requires
        total_of(wanted_of(files@)) <= u64::MAX,
    ensures
        r.0 == wanted_of(files@).len(),
        r.1 == total_of(wanted_of(files@)),
{
    match wanted_files(files) {
        Ok(w) => match total_size(&w) {
            Some(n) => (w.len(), n),
            None => (0, 0),
        },
        Err(_) => (0, 0),
    }
}

fn variant_text(label: &str, files: &Vec<RepoFile>) -> (r: String)
    requires
        total_of(wanted_of(files@)) <= u64::MAX,
    ensures
        r@ == label@ + ": "@ + dec(wanted_of(files@).len()) + " file(s), "@ + bytes_text(
            total_of(wanted_of(files@)),
        ),
{
    let (n, total) = selected(files);
    cat5(label, ": ", decimal(n as u64).as_str(), " file(s), ", bytes(total).as_str())
}

/// Whether the sizes of what [`choose_variant`] would select can be added up.
pub fn variant_fits(app: &App, label: &str) -> (r: bool)
    ensures
        r == (variant_named(app@.hub.variants, label@) matches Some(v) ==> total_of(
            wanted_of(only_variant(app@.hub.files, v)),
        ) <= u64::MAX),
{
    match find_variant(&app.hub.variants, label) {
        Some(v) => match wanted_files(&with_variant(&app.hub.files, v)) {
            Ok(w) => total_size(&w).is_some(),
            Err(_) => true,
        },
        None => true,
    }
}

/// Apply a quantization to the file selection.
pub fn choose_variant(app: &mut App, label: &str) -> (r: Outcome)
    requires
        variant_named(old(app)@.hub.variants, label@) matches Some(v) ==> total_of(
            wanted_of(only_variant(old(app)@.hub.files, v)),
        ) <= u64::MAX,
    ensures
        (final(app)@, outcome_view(r)) == variant_chosen(old(app)@, label@),
{
    let files = match find_variant(&app.hub.variants, label) {
        Some(v) => with_variant(&app.hub.files, v),
        None => {
            return Err(warn_off(app, 409, cat3("this repo has no '", label, "' quantization")));
        },
    };
    let text = variant_text(label, &files);
    app.hub.take_variant(files, label);
    // A quantization is a weight size, and a weight size is how much of the card is left for
    // the cache. The context the verdict promises moves with this choice.
    app.want(Effect::RepriceCompat);
    app.info(text.as_str());
    Ok(Done::Finished)
}

/// Where the first file at a path stands; the length when there is none.
pub open spec fn file_index(files: Seq<RepoFile>, path: Seq<char>) -> nat
    decreases files.len(),
{
    if files.len() == 0 || files[0].path@ == path {
        0
    } else {
        1 + file_index(files.drop_first(), path)
    }
}

fn find_file(files: &Vec<RepoFile>, path: &str) -> (r: usize)
    ensures
        r == file_index(files@, path@),
        r <= files@.len(),
{
    let mut i: usize = 0;
    assert(files@.skip(0) =~= files@);
    while i < files.len()
        invariant
            i <= files.len(),
            file_index(files@, path@) == i + file_index(files@.skip(i as int), path@),
        decreases files.len() - i,
    {
        assert(files@.skip(i as int)[0] == files@[i as int]);
        if same(files[i].path.as_str(), path) {
            return i;
        }
        assert(files@.skip(i as int).drop_first() =~= files@.skip(i + 1));
        i = i + 1;
    }
    assert(files@.skip(i as int).len() == 0);
    i
}

/// The selection no longer is a quantization, so nothing downstream may go on claiming it is
/// one.
pub open spec fn reselected(a: AppView, files: Seq<RepoFile>) -> AppView {
    (AppView { hub: HubView { files, custom_selection: true, ..a.hub }, ..a }).wants(
        EffectView::RepriceCompat,
    )
}

pub open spec fn file_toggled(a: AppView, path: Seq<char>, wanted: Option<bool>) -> (
    AppView,
    Result<bool, RefusalView>,
) {
    let i = file_index(a.hub.files, path) as int;
    if i < a.hub.files.len() {
        let f = a.hub.files[i];
        let now = match wanted {
            Some(w) => w,
            None => !f.wanted,
        };
        (reselected(a, a.hub.files.update(i, RepoFile { wanted: now, ..f })), Ok(now))
    } else {
        (a, Err(hushed(404, "no file named "@ + path + " in this repo's listing"@)))
    }
}

/// Toggle one file by path. `wanted` of `None` flips it, which is what `Space` does.
pub fn toggle_file(app: &mut App, path: &str, wanted: Option<bool>) -> (r: Result<bool, Refusal>)
    ensures
        (
            final(app)@,
            match r {
                Ok(now) => Ok(now),
                Err(e) => Err(e@),
            },
        ) == file_toggled(old(app)@, path@, wanted),
{
    let i = find_file(&app.hub.files, path);
    if i >= app.hub.files.len() {
        return Err(
            Refusal::quiet(404, cat3("no file named ", path, " in this repo's listing").as_str()),
        );
    }
    let mut f = app.hub.files[i].copy();
    let now = match wanted {
        Some(w) => w,
        None => !f.wanted,
    };
    f.wanted = now;
    app.hub.files.set(i, f);
    app.hub.custom_selection = true;
    app.want(Effect::RepriceCompat);
    Ok(now)
}

/// The files, all wanted or none.
pub open spec fn all_set(files: Seq<RepoFile>, all: bool) -> Seq<RepoFile> {
    Seq::new(files.len(), |i: int| RepoFile { wanted: all, ..files[i] })
}

/// Select every file, or none. Returns how many are now wanted.
pub fn select_files(app: &mut App, all: bool) -> (r: usize)
    ensures
        final(app)@ == reselected(old(app)@, all_set(old(app)@.hub.files, all)),
        r == (if all {
            old(app)@.hub.files.len()
        } else {
            0
        }),
{
    let ghost before = app.hub.files@;
    let mut out: Vec<RepoFile> = Vec::new();
    let mut i: usize = 0;
    while i < app.hub.files.len()
        invariant
            i <= app.hub.files.len(),
            app.hub.files@ == before,
            *app == *old(app),
            out@.len() == i,
            forall|j: int| 0 <= j < i ==> #[trigger] out@[j] == all_set(before, all)[j],
        decreases app.hub.files.len() - i,
    {
        let mut f = app.hub.files[i].copy();
        f.wanted = all;
        out.push(f);
        i = i + 1;
    }
    assert(out@ =~= all_set(before, all));
    let n = out.len();
    app.hub.reselect(out);
    app.want(Effect::RepriceCompat);
    if all {
        n
    } else {
        0
    }
}

/// Whether a file is wanted does not change where it stands.
proof fn lemma_file_index(files: Seq<RepoFile>, path: Seq<char>, wanted: bool)
    ensures
        ({
            let i = file_index(files, path) as int;
            i < files.len() ==> file_index(
                files.update(i, RepoFile { wanted, ..files[i] }),
                path,
            ) == i
        }),
    decreases files.len(),
{
    if files.len() > 0 && files[0].path@ != path {
        let tail = files.drop_first();
        lemma_file_index(tail, path, wanted);
        let k = file_index(tail, path) as int;
        if k < tail.len() {
            let changed = files.update(k + 1, RepoFile { wanted, ..files[k + 1] });
            assert(changed.drop_first() =~= tail.update(k, RepoFile { wanted, ..tail[k] }));
        }
    }
}

/// What is toggled twice is as it was.
pub proof fn law_a_file_toggled_twice_is_as_it_was(a: AppView, path: Seq<char>)
    requires
        file_index(a.hub.files, path) < a.hub.files.len(),
    ensures
        file_toggled(file_toggled(a, path, None).0, path, None).0.hub.files == a.hub.files,
{
    let i = file_index(a.hub.files, path) as int;
    let f = a.hub.files[i];
    lemma_file_index(a.hub.files, path, !f.wanted);
    assert(a.hub.files.update(i, RepoFile { wanted: !f.wanted, ..f }).update(i, f)
        =~= a.hub.files);
}

// ---------------------------------------------------------------- downloading

/// The files at `paths`, in their order, or the first path that is not listed.
pub open spec fn files_at(files: Seq<RepoFile>, paths: Seq<Seq<char>>) -> Result<
    Seq<RepoFile>,
    Seq<char>,
>
    decreases paths.len(),
{
    if paths.len() == 0 {
        Ok(Seq::empty())
    } else {
        match files_at(files, paths.drop_last()) {
            Err(p) => Err(p),
            Ok(head) => {
                let i = file_index(files, paths.last()) as int;
                if i < files.len() {
                    Ok(head.push(files[i]))
                } else {
                    Err(paths.last())
                }
            },
        }
    }
}

/// The files of `files` whose path is among `names`.
pub open spec fn files_among(files: Seq<RepoFile>, names: Seq<Seq<char>>) -> Seq<RepoFile>
    decreases files.len(),
{
    if files.len() == 0 {
        files
    } else {
        let head = files_among(files.drop_last(), names);
        if names.contains(files.last().path@) {
            head.push(files.last())
        } else {
            head
        }
    }
}

/// The files of a variant: none when there is no such variant.
pub open spec fn variant_files(a: AppView, label: Seq<char>) -> Seq<Seq<char>> {
    match variant_named(a.hub.variants, label) {
        Some(v) => texts(v.files@),
        None => Seq::empty(),
    }
}

/// What a download takes: explicit `files`, else a `variant` expanded through the listing,
/// else whatever is currently wanted. The error is the refusal and whether it is said aloud.
pub open spec fn selection(
    a: AppView,
    variant: Option<Seq<char>>,
    files: Option<Seq<Seq<char>>>,
) -> Result<Seq<RepoFile>, RefusalView> {
    if files is Some && files->0.len() > 0 {
        match files_at(a.hub.files, files->0) {
            Ok(s) => Ok(s),
            Err(p) => Err(hushed(400, p + " is not in this repo's listing"@)),
        }
    } else {
        match variant {
            Some(label) => if variant_files(a, label).len() == 0 {
                Err(loud(409, "this repo has no '"@ + label + "' quantization"@))
            } else {
                Ok(files_among(a.hub.files, variant_files(a, label)))
            },
            None => Ok(wanted_of(a.hub.files)),
        }
    }
}

/// A repo is being downloaded.
pub open spec fn downloading(d: Seq<Download>, repo: Seq<char>) -> bool {
    exists|i: int|
        0 <= i < d.len() && (#[trigger] d[i]).status is Running && d[i].repo@ == repo
}

pub open spec fn opt_paths(files: Option<&Vec<String>>) -> Option<Seq<Seq<char>>> {
    match files {
        Some(f) => Some(texts(f@)),
        None => None,
    }
}

/// What starting a download of `sel` from `repo` does, unless something stands in its way.
pub open spec fn download_decided(a: AppView, repo: Seq<char>, sel: Seq<RepoFile>) -> Step {
    if sel.len() == 0 {
        warned(a, 409, "no files selected"@)
    } else if downloading(a.downloads, repo) {
        warned(a, 409, repo + " is already downloading"@)
    } else {
        match (a.known.hub_error, a.known.hf_cli) {
            (Some(why), _) => failed(a, 503, why@),
            (None, None) => failed(
                a,
                503,
                "the hf CLI is not installed — press i on the Hub tab to install it"@,
            ),
            (None, Some(cli)) => (
                (AppView {
                    tab: Tab::Jobs,
                    ..a.says(
                        "downloading "@ + dec(sel.len()) + " file(s), "@ + bytes_text(
                            total_of(sel),
                        ) + " from "@ + repo,
                        ToastKind::Info,
                    )
                }).wants(
                    EffectView::StartDownload {
                        repo,
                        revision: a.hub.revision,
                        cli: cli@,
                        files: sel,
                    },
                ),
                Ok(begun()),
            ),
        }
    }
}

pub open spec fn download_asked(
    a: AppView,
    variant: Option<Seq<char>>,
    files: Option<Seq<Seq<char>>>,
) -> Step {
    match a.hub.info {
        None => warned(a, 409, "select a repo and press Enter to list its files first"@),
        Some(info) => match selection(a, variant, files) {
            Err(r) => (
                if r.toasted {
                    a.says(r.message, ToastKind::Warn)
                } else {
                    a
                },
                Err(r),
            ),
            Ok(sel) => download_decided(a, info.id@, sel),
        },
    }
}

fn pick_files(all: &Vec<RepoFile>, paths: &Vec<String>) -> (r: Result<Vec<RepoFile>, String>)
    ensures
        (match r {
            Ok(v) => Ok(v@),
            Err(p) => Err(p@),
        }) == files_at(all@, texts(paths@)),
{
    let ghost names = texts(paths@);
    let mut out: Vec<RepoFile> = Vec::new();
    let mut i: usize = 0;
    assert(names.len() == paths.len());
    assert(names.take(0) =~= Seq::<Seq<char>>::empty());
    while i < paths.len()
        invariant
            i <= paths.len(),
            names == texts(paths@),
            names.len() == paths.len(),
            files_at(all@, names.take(i as int)) == Ok::<Seq<RepoFile>, Seq<char>>(out@),
        decreases paths.len() - i,
    {
        assert(names.take(i + 1).drop_last() =~= names.take(i as int));
        assert(names.take(i + 1).last() == paths@[i as int]@);
        let k = find_file(all, paths[i].as_str());
        if k >= all.len() {
            proof {
                lemma_unlisted(all@, names, i + 1);
            }
            return Err(paths[i].clone());
        }
        out.push(all[k].copy());
        i = i + 1;
    }
    assert(names.take(i as int) =~= names);
    Ok(out)
}

/// A path that is not listed decides, whatever follows it.
proof fn lemma_unlisted(all: Seq<RepoFile>, names: Seq<Seq<char>>, i: int)
    requires
        0 <= i <= names.len(),
        files_at(all, names.take(i)) is Err,
    ensures
        files_at(all, names) == files_at(all, names.take(i)),
    decreases names.len() - i,
{
    if i < names.len() {
        assert(names.take(i + 1).drop_last() =~= names.take(i));
        lemma_unlisted(all, names, i + 1);
    } else {
        assert(names.take(i) =~= names);
    }
}

fn keep_files(all: &Vec<RepoFile>, names: &Vec<String>) -> (r: Vec<RepoFile>)
    ensures
        r@ == files_among(all@, texts(names@)),
{
    let ghost s = all@;
    let mut out: Vec<RepoFile> = Vec::new();
    let mut i: usize = 0;
    assert(s.take(0) =~= Seq::<RepoFile>::empty());
    while i < all.len()
        invariant
            i <= all.len(),
            s == all@,
            out@ == files_among(s.take(i as int), texts(names@)),
        decreases all.len() - i,
    {
        assert(s.take(i + 1).drop_last() =~= s.take(i as int));
        assert(s.take(i + 1).last() == all@[i as int]);
        if listed(all[i].path.as_str(), names) {
            out.push(all[i].copy());
        }
        i = i + 1;
    }
    assert(s.take(i as int) =~= s);
    out
}

fn select(app: &App, variant: Option<&str>, files: Option<&Vec<String>>) -> (r: Result<
    Vec<RepoFile>,
    Refusal,
>)
    ensures
        (match r {
            Ok(v) => Ok(v@),
            Err(e) => Err(e@),
        }) == selection(app@, opt_str(variant), opt_paths(files)),
{
    if let Some(paths) = files {
        assert(texts(paths@).len() == paths.len());
        if paths.len() > 0 {
            return match pick_files(&app.hub.files, paths) {
                Ok(v) => Ok(v),
                Err(p) => Err(
                    Refusal::quiet(
                        400,
                        cat2(p.as_str(), " is not in this repo's listing").as_str(),
                    ),
                ),
            };
        }
    }
    match variant {
        Some(label) => {
            let none: Vec<String> = Vec::new();
            assert(texts(none@) =~= Seq::<Seq<char>>::empty());
            let names: &Vec<String> = match find_variant(&app.hub.variants, label) {
                Some(v) => &v.files,
                None => &none,
            };
            assert(texts(names@).len() == names.len());
            if names.len() == 0 {
                return Err(
                    Refusal {
                        status: 409,
                        message: cat3("this repo has no '", label, "' quantization"),
                        toasted: true,
                    },
                );
            }
            Ok(keep_files(&app.hub.files, names))
        },
        None => match wanted_files(&app.hub.files) {
            Ok(v) => Ok(v),
            Err(_) => {
                let none: Vec<RepoFile> = Vec::new();
                assert(none@ =~= wanted_of(app@.hub.files));
                Ok(none)
            },
        },
    }
}

fn is_downloading(d: &Vec<Download>, repo: &str) -> (r: bool)
    ensures
        r == downloading(d@, repo@),
{
    let mut i: usize = 0;
    while i < d.len()
        invariant
            i <= d.len(),
            forall|j: int|
                0 <= j < i ==> !((#[trigger] d@[j]).status is Running && d@[j].repo@ == repo@),
        decreases d.len() - i,
    {
        if d[i].is_running() && same(d[i].repo.as_str(), repo) {
            return true;
        }
        i = i + 1;
    }
    false
}

fn decide_download(app: &mut App, repo: String, sel: Vec<RepoFile>) -> (r: Outcome)
    requires
        total_of(sel@) <= u64::MAX,
    ensures
        (final(app)@, outcome_view(r)) == download_decided(old(app)@, repo@, sel@),
{
    if sel.len() == 0 {
        return Err(warn_off(app, 409, "no files selected".to_owned()));
    }
    if is_downloading(&app.downloads, repo.as_str()) {
        return Err(warn_off(app, 409, cat2(repo.as_str(), " is already downloading")));
    }
    if let Err(e) = hub_or_refuse(app) {
        return Err(e);
    }
    let cli = match copy_opt(&app.known.hf_cli) {
        Some(c) => c,
        None => {
            return Err(
                error_off(
                    app,
                    503,
                    "the hf CLI is not installed — press i on the Hub tab to install it".to_owned(),
                ),
            );
        },
    };
    let total: u64 = match total_size(&sel) {
        Some(n) => n,
        None => 0,
    };
    let text = cat6(
        "downloading ",
        decimal(sel.len() as u64).as_str(),
        " file(s), ",
        bytes(total).as_str(),
        " from ",
        repo.as_str(),
    );
    app.info(text.as_str());
    app.tab = Tab::Jobs;
    let revision = app.hub.revision.clone();
    app.want(Effect::StartDownload { repo, revision, cli, files: sel });
    Ok(Done::started())
}

/// Whether the sizes of what [`download`] would take can be added up.
pub fn selection_fits(app: &App, variant: Option<&str>, files: Option<&Vec<String>>) -> (r: bool)
    ensures
        r == (selection(app@, opt_str(variant), opt_paths(files)) matches Ok(sel) ==> total_of(sel)
            <= u64::MAX),
{
    match select(app, variant, files) {
        Ok(sel) => total_size(&sel).is_some(),
        Err(_) => true,
    }
}

/// Start a repo download.
///
/// Resolution order matches the API: explicit `files`, else a `variant` expanded through
/// the listing, else whatever is currently wanted, which is the TUI's own behavior.
pub fn download(app: &mut App, variant: Option<&str>, files: Option<&Vec<String>>) -> (r: Outcome)
    requires
        selection(old(app)@, opt_str(variant), opt_paths(files)) matches Ok(sel) ==> total_of(sel)
            <= u64::MAX,
    ensures
        (final(app)@, outcome_view(r)) == download_asked(
            old(app)@,
            opt_str(variant),
            opt_paths(files),
        ),
{
    let repo = match &app.hub.info {
        Some(info) => info.id.clone(),
        None => {
            return Err(
                warn_off(
                    app,
                    409,
                    "select a repo and press Enter to list its files first".to_owned(),
                ),
            );
        },
    };
    match select(app, variant, files) {
        Err(e) => {
            if e.toasted {
                app.warn(e.message.as_str());
            }
            Err(e)
        },
        Ok(sel) => decide_download(app, repo, sel),
    }
}

/// What is known once a download was to be started: the download, or why there is none.
pub open spec fn download_reported(a: AppView, started: Result<Download, String>) -> AppView {
    match started {
        Ok(d) => AppView { downloads: a.downloads.push(d), ..a },
        Err(e) => a.says("could not start the download: "@ + e@, ToastKind::Error),
    }
}

/// Take note of a download that was to be started.
pub fn download_started(app: &mut App, started: Result<Download, String>)
    ensures
        final(app)@ == download_reported(old(app)@, started),
{
    match started {
        Ok(d) => {
            app.downloads.push(d);
        },
        Err(e) => {
            app.error(cat2("could not start the download: ", e.as_str()).as_str());
        },
    }
}

/// Every refusal of an action on the Hub says truly whether it was also shown, and leaves
/// nothing to be done.
pub proof fn law_hub_refusals_are_honest(
    a: AppView,
    query: Seq<char>,
    revision: Option<Seq<char>>,
    label: Seq<char>,
    path: Seq<char>,
    wanted: Option<bool>,
    variant: Option<Seq<char>>,
    files: Option<Seq<Seq<char>>>,
)
    ensures
        honest(a, search_begun(a, query)),
        honest(a, repo_opened(a, query, revision)),
        honest(a, variant_chosen(a, label)),
        honest(a, file_toggled(a, path, wanted)),
        honest(a, download_asked(a, variant, files)),
{
}

/// Without a client of the Hub nothing is asked of it: every such action is refused, says
/// why, leaves nothing to be done, and marks nothing as under way.
pub proof fn law_without_a_client_nothing_is_asked_of_the_hub(
    a: AppView,
    query: Seq<char>,
    revision: Option<Seq<char>>,
    repo: Seq<char>,
    sel: Seq<RepoFile>,
)
    requires
        a.known.hub_error is Some,
    ensures
        search_begun(a, query).1 is Err,
        search_begun(a, query).0.effects == a.effects,
        search_begun(a, query).0.hub.searching == a.hub.searching,
        repo_opened(a, repo, revision) == failed(a, 503, a.known.hub_error->0@),
        download_decided(a, repo, sel).1 is Err,
        download_decided(a, repo, sel).0.effects == a.effects,
{
}

/// A repo is never downloaded twice at once.
pub proof fn law_no_repo_is_downloaded_twice_at_once(a: AppView, repo: Seq<char>, sel: Seq<RepoFile>)
    requires
        downloading(a.downloads, repo),
    ensures
        download_decided(a, repo, sel).1 is Err,
        download_decided(a, repo, sel).0.effects == a.effects,
{
}

pub open spec fn install_question() -> ConfirmView {
    ConfirmView {
        title: "Install the Hugging Face CLI"@,
        body: seq![
            "paddock delegates Hub downloads to `hf`, and it is not installed."@,
            ""@,
            "This runs Hugging Face's own installer, the method their CLI guide lists as recommended:"@,
            ""@,
            "  "@ + INSTALL_COMMAND@,
            ""@,
            "It downloads and executes a script from hf.co and installs into ~/.local/bin. `--exclude-skill` keeps it from also writing agent skills into your home directory."@,
        ],
        action: ConfirmActionView::InstallHfCli,
        danger: false,
    }
}

/// Offer Hugging Face's own installer for the missing `hf` CLI.
pub fn offer_hf_install(app: &mut App, clock: Clock) -> (r: Outcome)
    requires
        old(app)@.has_room(),
    ensures
        (final(app)@, outcome_view(r)) == (if old(app)@.known.hf_cli is Some {
            warned(old(app)@, 409, "the hf CLI is already installed"@)
        } else if old(app)@.hf_installing {
            warned(old(app)@, 409, "the hf CLI is already being installed"@)
        } else {
            asks(old(app)@, install_question(), clock)
        }),
{
    if app.known.hf_cli.is_some() {
        return Err(warn_off(app, 409, "the hf CLI is already installed".to_owned()));
    }
    if app.hf_installing {
        return Err(warn_off(app, 409, "the hf CLI is already being installed".to_owned()));
    }
    let body: Vec<String> = vec![
        "paddock delegates Hub downloads to `hf`, and it is not installed.".to_owned(),
        "".to_owned(),
        "This runs Hugging Face's own installer, the method their CLI guide lists as recommended:".to_owned(),
        "".to_owned(),
        cat2("  ", INSTALL_COMMAND),
        "".to_owned(),
        "It downloads and executes a script from hf.co and installs into ~/.local/bin. `--exclude-skill` keeps it from also writing agent skills into your home directory.".to_owned(),
    ];
    assert(texts(body@) =~= install_question().body);
    // Not destructive: it adds a tool, it does not remove or overwrite anything of the
    // user's.
    let confirm = Confirm::new(
        "Install the Hugging Face CLI",
        body,
        ConfirmAction::InstallHfCli,
        false,
    );
    Ok(ask(app, confirm, clock))
}

} // verus!
