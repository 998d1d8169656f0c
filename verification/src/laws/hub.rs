//! What choosing, downloading and watching the files of a repo owe to its listing.

use vstd::prelude::*;
use crate::ft::proc::Waited;
use crate::hub::{
    any_safetensors, cli_of, closing_line, complete_bytes, complete_count, covers, encoded,
    encoded_byte, files_in, first_pending, gated_by, hex_digit, noise, outcome_of, pulled,
    sample_of, selected, sum, templates_in, total_of, unreserved, useful, wanted_of,
    without_leading_stars, without_trailing_stars, CliFound, CliPlacesView, DownloadReport,
    RepoFile, RepoFileView, SampleView, Sibling, WatchView,
};
use crate::json::JsonView;
use crate::order::{in_order, lemma_ordered, ordered};
use crate::text::{after_last, lt, occurs, trimmed};

verus! {

// ---------------------------------------------------------------- choosing files

/// The name of a file is what follows the last slash of its path.
pub proof fn law_a_name_follows_the_last_slash(dir: Seq<char>, name: Seq<char>)
    requires
        !name.contains('/'),
        dir.len() == 0 || dir.last() == '/',
    ensures
        after_last(dir + name, '/') == name,
    decreases name.len(),
{
    let path = dir + name;
    if name.len() == 0 {
        assert(path =~= dir);
        assert(after_last(path, '/') =~= name);
    } else {
        let head = name.drop_last();
        assert forall|i: int| 0 <= i < head.len() implies head[i] != '/' by {
            assert(name[i] != '/') by {
                if name[i] == '/' {
                    assert(name.contains('/'));
                }
            }
        }
        law_a_name_follows_the_last_slash(dir, head);
        assert(path.drop_last() =~= dir + head);
        assert(path.last() == name.last());
        assert(name.contains(name.last()));
        assert(after_last(path, '/') =~= head.push(name.last()));
        assert(head.push(name.last()) =~= name);
    }
}

/// `path` stands below the directory `dir` of the repo.
pub open spec fn below(path: Seq<char>, dir: Seq<char>) -> bool {
    exists|rest: Seq<char>| path == dir + "/"@ + rest
}

proof fn lemma_below(path: Seq<char>, dir: Seq<char>, start: Seq<char>)
    requires
        start == dir + "/"@,
    ensures
        start.is_prefix_of(path) <==> below(path, dir),
{
    if start.is_prefix_of(path) {
        let rest = path.skip(start.len() as int);
        assert(path =~= dir + "/"@ + rest);
    }
    if below(path, dir) {
        let rest = choose|rest: Seq<char>| path == dir + "/"@ + rest;
        assert(path.take(start.len() as int) =~= start);
    }
}

/// A file is deselected only for a listed reason, and for each of them: its name starts with
/// a dot, matches a pattern that is ignored, ends in `.gguf` beside safetensors or starts
/// with `consolidated`, or it stands below the directory of another runtime. Everything else
/// is wanted: weights, tokenizer, config and whatever the repo holds besides.
pub proof fn law_a_file_is_dropped_only_for_a_reason(
    dir: Seq<char>,
    name: Seq<char>,
    ignore: Seq<Seq<char>>,
    has_safetensors: bool,
)
    requires
        !name.contains('/'),
        dir.len() == 0 || dir.last() == '/',
    ensures
        ({
            let path = dir + name;
            !pulled(path, ignore, has_safetensors) <==> {
                ||| name.len() > 0 && name[0] == '.'
                ||| exists|i: int| 0 <= i < ignore.len() && covers(#[trigger] ignore[i], name)
                ||| has_safetensors && ".gguf"@.is_suffix_of(name)
                ||| "consolidated"@.is_prefix_of(name)
                ||| below(path, "onnx"@)
                ||| below(path, "coreml"@)
                ||| below(path, "openvino"@)
                ||| below(path, "tflite"@)
            }
        }),
{
    let path = dir + name;
    law_a_name_follows_the_last_slash(dir, name);
    reveal_strlit(".");
    reveal_strlit("/");
    reveal_strlit("onnx");
    reveal_strlit("onnx/");
    reveal_strlit("coreml");
    reveal_strlit("coreml/");
    reveal_strlit("openvino");
    reveal_strlit("openvino/");
    reveal_strlit("tflite");
    reveal_strlit("tflite/");
    assert("onnx/"@ =~= "onnx"@ + "/"@);
    assert("coreml/"@ =~= "coreml"@ + "/"@);
    assert("openvino/"@ =~= "openvino"@ + "/"@);
    assert("tflite/"@ =~= "tflite"@ + "/"@);
    lemma_below(path, "onnx"@, "onnx/"@);
    lemma_below(path, "coreml"@, "coreml/"@);
    lemma_below(path, "openvino"@, "openvino/"@);
    lemma_below(path, "tflite"@, "tflite/"@);
    assert("."@.is_prefix_of(name) <==> name.len() > 0 && name[0] == '.') by {
        if name.len() > 0 && name[0] == '.' {
            assert(name.subrange(0, 1) =~= "."@);
        }
        if "."@.is_prefix_of(name) {
            assert(name.subrange(0, 1)[0] == name[0]);
            assert("."@[0] == '.');
        }
    }
}

/// A pattern with a star at one end covers what ends or starts with the rest of it; one
/// without a star covers only itself; one with a star at both ends covers what holds the
/// text between.
pub proof fn law_a_star_stands_for_anything(text: Seq<char>, name: Seq<char>)
    requires
        !text.contains('*'),
        text.len() > 0,
    ensures
        covers(text, name) <==> text == name,
        covers(seq!['*'] + text, name) <==> text.is_suffix_of(name),
        covers(text.push('*'), name) <==> text.is_prefix_of(name),
        covers((seq!['*'] + text).push('*'), name) <==> occurs(name, text),
        covers(seq!['*'], name),
        covers(Seq::empty(), name) <==> name.len() == 0,
{
    assert(text[0] != '*' && text.last() != '*') by {
        assert(text.contains(text[0]) && text.contains(text.last()));
    }
    let a = seq!['*'] + text;
    assert(a.drop_first() =~= text);
    assert(a.last() == text.last());
    let b = text.push('*');
    assert(b.drop_last() =~= text);
    let c = a.push('*');
    assert(c[0] == '*' && c.last() == '*');
    assert(c.drop_first() =~= b);
    assert(without_leading_stars(b) == b);
    assert(without_leading_stars(c) == b);
    assert(without_trailing_stars(text) == text);
    assert(without_trailing_stars(b) == text);
    let d = seq!['*'];
    assert(d.drop_first() =~= Seq::<char>::empty());
    assert(without_leading_stars(Seq::<char>::empty()) =~= Seq::<char>::empty());
    assert(without_leading_stars(d) =~= Seq::<char>::empty());
    assert(without_trailing_stars(Seq::<char>::empty()) =~= Seq::<char>::empty());
    assert(covers(Seq::empty(), name) <==> name.len() == 0) by {
        if name.len() == 0 {
            assert(name =~= Seq::empty());
        }
    }
}

/// The listed size of a file, or nothing where the listing gives none.
pub open spec fn listed_size(s: Sibling) -> u64 {
    if s.size is Some {
        s.size->0
    } else {
        0
    }
}

/// The entry of a listing that names a file.
pub open spec fn entry_of(s: Sibling, ignore: Seq<Seq<char>>, has_safetensors: bool) -> RepoFileView {
    RepoFileView {
        path: s.path@,
        size: listed_size(s),
        wanted: pulled(s.path@, ignore, has_safetensors),
    }
}

/// A path that names a directory.
pub open spec fn is_directory(s: Sibling) -> bool {
    s.path@.len() > 0 && s.path@.last() == '/'
}

proof fn lemma_directory(s: Sibling)
    ensures
        "/"@.is_suffix_of(s.path@) == is_directory(s),
{
    reveal_strlit("/");
    if is_directory(s) {
        assert(s.path@.subrange(s.path@.len() - 1, s.path@.len() as int) =~= "/"@);
    }
    if "/"@.is_suffix_of(s.path@) {
        assert(s.path@.subrange(s.path@.len() - 1, s.path@.len() as int)[0] == s.path@.last());
        assert("/"@[0] == '/');
    }
}

proof fn lemma_files_in(siblings: Seq<Sibling>, ignore: Seq<Seq<char>>, has: bool)
    ensures
        forall|i: int|
            0 <= i < siblings.len() && !is_directory(#[trigger] siblings[i]) ==> files_in(
                siblings,
                ignore,
                has,
            ).contains((siblings[i].path@, entry_of(siblings[i], ignore, has))),
        forall|x: (Seq<char>, RepoFileView)| #[trigger]
            files_in(siblings, ignore, has).contains(x) ==> exists|i: int|
                0 <= i < siblings.len() && !is_directory(#[trigger] siblings[i]) && x == (
                    siblings[i].path@,
                    entry_of(siblings[i], ignore, has),
                ),
        files_in(siblings, ignore, has).len() == siblings.filter(|s: Sibling| !is_directory(s)).len(),
    decreases siblings.len(),
{
    reveal_with_fuel(Seq::filter, 2);
    if siblings.len() > 0 {
        let init = siblings.drop_last();
        lemma_files_in(init, ignore, has);
        lemma_directory(siblings.last());
        let head = files_in(init, ignore, has);
        let all = files_in(siblings, ignore, has);
        let last = siblings.last();
        assert forall|i: int|
            0 <= i < siblings.len() && !is_directory(#[trigger] siblings[i]) implies all.contains(
            (siblings[i].path@, entry_of(siblings[i], ignore, has)),
        ) by {
            let x = (siblings[i].path@, entry_of(siblings[i], ignore, has));
            if i < init.len() {
                assert(init[i] == siblings[i]);
                assert(head.contains(x));
                let k = head.index_of(x);
                assert(all[k] == x);
            } else {
                assert(all.last() == x);
            }
        }
        assert forall|x: (Seq<char>, RepoFileView)| #[trigger] all.contains(x) implies exists|
            i: int,
        |
            0 <= i < siblings.len() && !is_directory(#[trigger] siblings[i]) && x == (
                siblings[i].path@,
                entry_of(siblings[i], ignore, has),
            ) by {
            let k = all.index_of(x);
            assert(all[k] == x);
            if k < head.len() {
                assert(head[k] == x);
                assert(head.contains(x));
                let i = choose|i: int|
                    0 <= i < init.len() && !is_directory(#[trigger] init[i]) && x == (
                        init[i].path@,
                        entry_of(init[i], ignore, has),
                    );
                assert(siblings[i] == init[i]);
            } else {
                assert(siblings[siblings.len() - 1] == last);
            }
        }
    }
}

/// The entry is that of a file of the listing.
pub open spec fn comes_from(
    siblings: Seq<Sibling>,
    ignore: Seq<Seq<char>>,
    has_safetensors: bool,
    f: RepoFileView,
) -> bool {
    exists|i: int|
        0 <= i < siblings.len() && !is_directory(#[trigger] siblings[i]) && f == entry_of(
            siblings[i],
            ignore,
            has_safetensors,
        )
}

/// A selection lists every file of the repo with the size it was listed with, wanted or not,
/// and nothing else; no directory is a file; and the files stand in the order of their paths.
pub proof fn law_a_selection_lists_every_file(siblings: Seq<Sibling>, ignore: Seq<Seq<char>>)
    ensures
        ({
            let r = selected(siblings, ignore);
            let has = any_safetensors(siblings);
            &&& forall|i: int|
                0 <= i < siblings.len() && !is_directory(#[trigger] siblings[i]) ==> r.contains(
                    entry_of(siblings[i], ignore, has),
                )
            &&& forall|k: int|
                0 <= k < r.len() ==> comes_from(siblings, ignore, has, #[trigger] r[k])
            &&& r.len() == siblings.filter(|s: Sibling| !is_directory(s)).len()
            &&& forall|i: int, j: int|
                0 <= i < j < r.len() ==> !lt((#[trigger] r[j]).path, (#[trigger] r[i]).path)
        }),
{
    let has = any_safetensors(siblings);
    let files = files_in(siblings, ignore, has);
    let sorted = ordered(files);
    let r = selected(siblings, ignore);
    lemma_files_in(siblings, ignore, has);
    lemma_ordered(files);
    broadcast use vstd::seq_lib::group_to_multiset_ensures;

    assert forall|x: (Seq<char>, RepoFileView)| #[trigger] sorted.contains(x) <==> files.contains(
        x,
    ) by {
        assert(sorted.to_multiset().count(x) == files.to_multiset().count(x));
    }
    assert forall|i: int|
        0 <= i < siblings.len() && !is_directory(#[trigger] siblings[i]) implies r.contains(
        entry_of(siblings[i], ignore, has),
    ) by {
        let x = (siblings[i].path@, entry_of(siblings[i], ignore, has));
        assert(files.contains(x));
        assert(sorted.contains(x));
        let k = sorted.index_of(x);
        assert(sorted[k] == x);
        assert(r[k] == x.1);
    }
    assert forall|k: int| 0 <= k < r.len() implies comes_from(
        siblings,
        ignore,
        has,
        #[trigger] r[k],
    ) by {
        assert(sorted.contains(sorted[k]));
        assert(files.contains(sorted[k]));
        let i = choose|i: int|
            0 <= i < siblings.len() && !is_directory(#[trigger] siblings[i]) && sorted[k] == (
                siblings[i].path@,
                entry_of(siblings[i], ignore, has),
            );
        assert(r[k] == entry_of(siblings[i], ignore, has));
    }
    assert forall|k: int| 0 <= k < r.len() implies (#[trigger] r[k]).path == sorted[k].0 by {
        assert(sorted.contains(sorted[k]));
        assert(files.contains(sorted[k]));
    }
    assert forall|i: int, j: int| 0 <= i < j < r.len() implies !lt(
        (#[trigger] r[j]).path,
        (#[trigger] r[i]).path,
    ) by {
        assert(in_order(sorted));
        assert(!lt(sorted[j].0, sorted[i].0));
    }
}

/// A repo has safetensors when a path of its listing ends in that, below a directory or not.
pub proof fn law_one_shard_is_enough(siblings: Seq<Sibling>, i: int)
    requires
        0 <= i < siblings.len(),
        ".safetensors"@.is_suffix_of(siblings[i].path@),
    ensures
        any_safetensors(siblings),
{
}

/// What is downloaded is what is wanted, all of it and in its order.
pub proof fn law_what_is_wanted_is_downloaded(files: Seq<RepoFile>)
    ensures
        wanted_of(files) == files.filter(|f: RepoFile| f.wanted),
    decreases files.len(),
{
    reveal_with_fuel(Seq::filter, 2);
    if files.len() > 0 {
        law_what_is_wanted_is_downloaded(files.drop_last());
    } else {
        assert(files =~= Seq::empty());
    }
}

/// The total grows by the size of each file.
pub proof fn law_every_file_counts_towards_the_total(files: Seq<RepoFile>, more: RepoFile)
    ensures
        total_of(Seq::empty()) == 0,
        total_of(Seq::empty()) == 0,
        total_of(files.push(more)) == total_of(files) + more.size,
{
    assert(files.push(more).drop_last() =~= files);
}

// ---------------------------------------------------------------- watching a download

/// A file that is there at its full size adds its bytes and counts as done; any other adds
/// nothing, and the first such file is the one that is pending.
pub proof fn law_a_whole_file_counts(
    files: Seq<RepoFile>,
    held: Seq<Option<u64>>,
    more: RepoFile,
    at: Option<u64>,
)
    requires
        files.len() == held.len(),
    ensures
        ({
            let all = files.push(more);
            let now = held.push(at);
            let whole = at == Some(more.size) && more.size > 0;
            &&& whole ==> complete_bytes(all, now) == complete_bytes(files, held) + more.size
            &&& whole ==> complete_count(all, now) == complete_count(files, held) + 1
            &&& whole ==> first_pending(all, now) == first_pending(files, held)
            &&& !whole ==> complete_bytes(all, now) == complete_bytes(files, held)
            &&& !whole ==> complete_count(all, now) == complete_count(files, held)
            &&& !whole && first_pending(files, held).len() == 0 ==> first_pending(all, now)
                == more.path@
            &&& first_pending(files, held).len() > 0 ==> first_pending(all, now) == first_pending(
                files,
                held,
            )
        }),
{
    let all = files.push(more);
    let now = held.push(at);
    assert(all.drop_last() =~= files);
    lemma_held_prefix(files, held, now);
}

proof fn lemma_held_prefix(files: Seq<RepoFile>, held: Seq<Option<u64>>, now: Seq<Option<u64>>)
    requires
        files.len() <= held.len() <= now.len(),
        forall|i: int| 0 <= i < files.len() ==> held[i] == now[i],
    ensures
        complete_bytes(files, held) == complete_bytes(files, now),
        complete_count(files, held) == complete_count(files, now),
        first_pending(files, held) == first_pending(files, now),
    decreases files.len(),
{
    if files.len() > 0 {
        lemma_held_prefix(files.drop_last(), held, now);
    }
}

/// Nothing is done of nothing.
pub proof fn law_a_download_starts_at_nothing(held: Seq<Option<u64>>)
    ensures
        complete_bytes(Seq::empty(), held) == 0,
        complete_count(Seq::empty(), held) == 0,
        first_pending(Seq::empty(), held).len() == 0,
{
    reveal_strlit("");
}

/// A download whose files are all there at their full size is done: all its bytes, all its
/// files, and none pending.
pub proof fn law_a_full_cache_is_a_finished_download(
    files: Seq<RepoFile>,
    held: Seq<Option<u64>>,
    total: u64,
)
    requires
        files.len() == held.len(),
        forall|i: int|
            0 <= i < files.len() ==> (#[trigger] files[i]).size > 0 && held[i] == Some(
                files[i].size,
            ),
        total_of(files) == total,
    ensures
        ({
            let s = sample_of(files, held, Seq::empty(), total);
            s.bytes == total && s.files_done == files.len() && s.pending.len() == 0
        }),
{
    lemma_all_complete(files, held);
    reveal_strlit("");
}

proof fn lemma_all_complete(files: Seq<RepoFile>, held: Seq<Option<u64>>)
    requires
        files.len() <= held.len(),
        forall|i: int|
            0 <= i < files.len() ==> (#[trigger] files[i]).size > 0 && held[i] == Some(
                files[i].size,
            ),
    ensures
        complete_bytes(files, held) == total_of(files),
        complete_count(files, held) == files.len(),
        first_pending(files, held).len() == 0,
    decreases files.len(),
{
    reveal_strlit("");
    if files.len() > 0 {
        let head = files.drop_last();
        assert forall|i: int| 0 <= i < head.len() implies (#[trigger] head[i]).size > 0 && held[i]
            == Some(head[i].size) by {
            assert(head[i] == files[i]);
        }
        lemma_all_complete(head, held);
        assert(files[files.len() - 1] == files.last());
    }
}

/// The bytes of a sample are the whole files and the parts that are under way, never more
/// than there are to transfer.
pub proof fn law_a_sample_adds_up(
    files: Seq<RepoFile>,
    held: Seq<Option<u64>>,
    incomplete: Seq<u64>,
    more: u64,
    total: u64,
)
    ensures
        sample_of(files, held, incomplete, total).bytes <= total,
        complete_bytes(files, held) + sum(incomplete) <= total ==> sample_of(
            files,
            held,
            incomplete,
            total,
        ).bytes == complete_bytes(files, held) + sum(incomplete),
        complete_bytes(files, held) + sum(incomplete) > total ==> sample_of(
            files,
            held,
            incomplete,
            total,
        ).bytes == total,
        sum(incomplete.push(more)) == sum(incomplete) + more,
        sum(Seq::empty()) == 0,
        sample_of(files, held, incomplete, total).files_done == complete_count(files, held),
        sample_of(files, held, incomplete, total).pending == first_pending(files, held),
{
    assert(incomplete.push(more).drop_last() =~= incomplete);
}

/// A tick takes in what the cache says, unless it says less than before.
pub proof fn law_a_tick_follows_the_cache(w: WatchView, now: SampleView)
    ensures
        now.bytes >= w.done ==> w.after(now).done == now.bytes,
        now.bytes < w.done ==> w.after(now).done == w.done,
        now.files_done >= w.files_done ==> w.after(now).files_done == now.files_done,
        w.after(now).pending == now.pending,
        w.after(now).id == w.id,
        w.after(now).repo_dir == w.repo_dir,
        w.reports(now).len() == (if now.files_done > w.files_done {
            now.files_done - w.files_done
        } else {
            0
        }) + (if now.pending != w.pending {
            1int
        } else {
            0
        }),
{
}

/// A download that ended well stands where its report says, or else in the directory of its
/// repo; one that did not is an error that says how it ended.
pub proof fn law_a_download_ends_as_its_process_does(
    ended: Waited,
    report: Option<DownloadReport>,
    err: Seq<char>,
    repo_dir: Seq<char>,
)
    ensures
        ({
            let r = outcome_of(ended, report, err, repo_dir);
            &&& ended matches Waited::Exited { code, .. } ==> (r is Ok <==> code == Some(0i32))
            &&& ended is Lost ==> r is Err
            &&& r is Ok && report is Some ==> r->Ok_0 == report->0.path@
            &&& r is Ok && report is None ==> r->Ok_0 == repo_dir
        }),
{
}

/// A failure is explained by the last line that says anything.
pub proof fn law_the_closing_line_is_the_last_that_says_anything(
    lines: Seq<Seq<char>>,
    blank: Seq<char>,
    line: Seq<char>,
)
    requires
        trimmed(blank).len() == 0,
        trimmed(line).len() > 0,
    ensures
        closing_line(lines.push(line)) == trimmed(line),
        closing_line(Seq::empty()) == "no output"@,
        closing_line(lines.push(line).push(blank)) == trimmed(line),
{
    let a = lines.push(line);
    let b = a.push(blank);
    assert(a.last() == line);
    assert(b.last() == blank);
    assert(b.drop_last() =~= a);
}

// ---------------------------------------------------------------- the CLI and the listing

/// The `hf` that is configured is the one that is used, and nothing stands in for it; else
/// the one in the venv, else the one beside `ft`, else the one on PATH.
pub proof fn law_a_configured_cli_is_the_one_used(
    places: CliPlacesView,
    found: CliFound,
    config_path: Seq<char>,
)
    ensures
        ({
            let r = cli_of(places, found, config_path);
            let in_venv = places.in_venv is Some && found.in_venv;
            let beside = places.beside_ft is Some && found.beside_ft;
            &&& places.configured is Some && found.configured ==> r == Ok::<Seq<char>, Seq<char>>(
                places.configured->0,
            )
            &&& places.configured is Some && !found.configured ==> r is Err
            &&& places.configured is None && in_venv ==> r == Ok::<Seq<char>, Seq<char>>(
                places.in_venv->0,
            )
            &&& places.configured is None && !in_venv && beside ==> r == Ok::<
                Seq<char>,
                Seq<char>,
            >(places.beside_ft->0)
            &&& places.configured is None && !in_venv && !beside && found.on_path is Some ==> r
                == Ok::<Seq<char>, Seq<char>>(found.on_path->0@)
            &&& places.configured is None && !in_venv && !beside && found.on_path is None ==> r
                is Err
        }),
{
}

/// A repo is open only where it says so or says nothing.
pub proof fn law_a_repo_is_gated_unless_it_says_not(v: JsonView, s: Seq<char>)
    ensures
        gated_by(JsonView::Text(s)),
        gated_by(JsonView::Bool(true)),
        !gated_by(JsonView::Bool(false)),
        !gated_by(JsonView::Null),
{
}

/// At most six tags are shown, none of them noise, and one more that is worth showing is
/// shown while there is room.
pub proof fn law_only_useful_tags_are_shown(tags: Seq<Seq<char>>, more: Seq<char>)
    ensures
        useful(tags).len() <= 6,
        forall|i: int| 0 <= i < useful(tags).len() ==> !noise(#[trigger] useful(tags)[i]),
        useful(tags).len() < 6 && !noise(more) ==> useful(tags.push(more)) == useful(tags).push(
            more,
        ),
        useful(tags).len() == 6 || noise(more) ==> useful(tags.push(more)) == useful(tags),
    decreases tags.len(),
{
    assert(tags.push(more).drop_last() =~= tags);
    assert(tags.push(more).last() == more);
    if tags.len() > 0 {
        law_only_useful_tags_are_shown(tags.drop_last(), tags.last());
        assert(tags.drop_last().push(tags.last()) =~= tags);
    }
}

/// A tag is noise when it names a base model, a license, a region or a paper.
pub proof fn law_noise_is_named(rest: Seq<char>)
    ensures
        noise("base_model:"@ + rest),
        noise("license:"@ + rest),
        noise("region:"@ + rest),
        noise("arxiv:"@ + rest),
{
    assert(("base_model:"@ + rest).take("base_model:"@.len() as int) =~= "base_model:"@);
    assert(("license:"@ + rest).take("license:"@.len() as int) =~= "license:"@);
    assert(("region:"@ + rest).take("region:"@.len() as int) =~= "region:"@);
    assert(("arxiv:"@ + rest).take("arxiv:"@.len() as int) =~= "arxiv:"@);
}

/// A template is listed exactly when its path ends in `.jinja`, and those at the root of the
/// repo stand before those below a directory.
pub proof fn law_root_templates_come_first(siblings: Seq<Sibling>, more: Sibling)
    ensures
        templates_in(Seq::empty()).len() == 0,
        !".jinja"@.is_suffix_of(more.path@) ==> templates_in(siblings.push(more))
            == templates_in(siblings),
        ".jinja"@.is_suffix_of(more.path@) ==> ({
            let t = templates_in(siblings.push(more));
            &&& t.drop_last() == templates_in(siblings)
            &&& t.len() == templates_in(siblings).len() + 1
            &&& t.last().1 == more
            &&& more.path@.contains('/') <==> t.last().0 == seq!['1'] + more.path@
            &&& !more.path@.contains('/') <==> t.last().0 == seq!['0'] + more.path@
        }),
{
    reveal_strlit("0");
    reveal_strlit("1");
    assert("0"@ =~= seq!['0'] && "1"@ =~= seq!['1']);
    assert(siblings.push(more).drop_last() =~= siblings);
    if ".jinja"@.is_suffix_of(more.path@) {
        let t = templates_in(siblings.push(more));
        assert(t.drop_last() =~= templates_in(siblings));
        assert((seq!['1'] + more.path@)[0] == '1');
        assert((seq!['0'] + more.path@)[0] == '0');
    }
}

/// The number that a hexadecimal digit writes.
pub open spec fn hex_value(c: char) -> int {
    if '0' <= c <= '9' {
        c as int - 48
    } else {
        c as int - 55
    }
}

/// A segment is encoded byte by byte: a letter, a digit and the four marks that need no
/// escape stand for themselves, and any other byte is a percent sign and its two hexadecimal
/// digits, from which it reads back.
pub proof fn law_an_encoded_byte_reads_back(s: Seq<u8>, b: u8)
    ensures
        encoded(Seq::empty()) == Seq::<char>::empty(),
        encoded(s.push(b)) == encoded(s) + encoded_byte(b),
        ('a' as u8 <= b <= 'z' as u8 || 'A' as u8 <= b <= 'Z' as u8 || '0' as u8 <= b <= '9' as u8)
            ==> encoded_byte(b) == seq![b as char],
        (b == '-' as u8 || b == '_' as u8 || b == '.' as u8 || b == '~' as u8) ==> encoded_byte(b)
            == seq![b as char],
        !unreserved(b) ==> ({
            let e = encoded_byte(b);
            e.len() == 3 && e[0] == '%' && 16 * hex_value(e[1]) + hex_value(e[2]) == b
        }),
        unreserved(b) ==> b != 37,
{
    assert(s.push(b).drop_last() =~= s);
    assert(hex_value(hex_digit(b / 16)) == b / 16);
    assert(hex_value(hex_digit(b % 16)) == b % 16);
}

} // verus!
