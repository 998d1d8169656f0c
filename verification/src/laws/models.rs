//! What the library of checkpoints owes to what stands on disk.

use vstd::prelude::*;
use crate::json::JsonView;
use crate::models::{
    all_counted, all_linked, any_of, build_at, build_dir, by_listing, bytes_of, component_keys,
    counted, deduplicated, extension_of, inspected, legacy_build, library_of, linked, model_key,
    newest, path_key, Entry, Format, Found, HfConfig, Model, ModelView, QuantConfig, Scanned,
    Weights,
};
use crate::order::{in_order, lemma_ordered, ordered, values, with_key};
use crate::paths::{
    components_of, dotted, expanded, file_name_of, joined_path, parent_of, rooted, same_place,
};
use crate::text::{after_last, dec, lowercase, lt, occurs, opt_text, replaced};

verus! {

// ---------------------------------------------------------------- files

proof fn lemma_after_dot(stem: Seq<char>, ext: Seq<char>)
    requires
        !ext.contains('.'),
    ensures
        after_last(stem + seq!['.'] + ext, '.') == ext,
    decreases ext.len(),
{
    let s = stem + seq!['.'] + ext;
    if ext.len() == 0 {
        assert(s.last() == '.');
        assert(after_last(s, '.') =~= ext);
    } else {
        let head = ext.drop_last();
        assert forall|i: int| 0 <= i < head.len() implies head[i] != '.' by {
            assert(ext.contains(ext[i]));
        }
        lemma_after_dot(stem, head);
        assert(s.drop_last() =~= stem + seq!['.'] + head);
        assert(ext.contains(ext.last()));
        assert(head.push(ext.last()) =~= ext);
    }
}

/// The extension of a file is what follows its last dot; a name without a dot, or with none
/// but its first character, has none.
pub proof fn law_an_extension_follows_the_last_dot(stem: Seq<char>, ext: Seq<char>)
    requires
        stem.len() > 0,
        ext.len() > 0,
        !ext.contains('.'),
    ensures
        extension_of(stem + seq!['.'] + ext) == Some(ext),
        extension_of(seq!['.'] + ext) is None,
        extension_of(ext) is None,
{
    let s = stem + seq!['.'] + ext;
    lemma_after_dot(stem, ext);
    assert(s[stem.len() as int] == '.');
    reveal_strlit("..");
    assert(".."@.len() == 2 && s.len() >= 3);
    let t = Seq::<char>::empty() + seq!['.'] + ext;
    lemma_after_dot(Seq::empty(), ext);
    assert(t =~= seq!['.'] + ext);
}

/// A weight file is one by its extension: FTW and safetensors and GGUF are told apart, and a
/// pickled `.bin` counts among any weights.
pub proof fn law_weights_go_by_their_extension(name: Seq<char>, ext: Seq<char>)
    requires
        extension_of(name) == Some(ext),
    ensures
        Weights::Ftw.is_file(name) <==> ext == "ftw"@,
        Weights::Gguf.is_file(name) <==> ext == "gguf"@,
        Weights::Safetensors.is_file(name) <==> ext == "safetensors"@,
        Weights::Any.is_file(name) <==> ext == "safetensors"@ || ext == "gguf"@ || ext == "bin"@,
{
}

/// The size of a kind of weights grows by each file of that kind and by no other; one whose
/// size cannot be told adds nothing.
pub proof fn law_every_weight_file_counts(files: Seq<Entry>, more: Entry, kind: Weights)
    ensures
        bytes_of(Seq::empty(), kind) == 0,
        kind.is_file(more.name@) && more.size is Some ==> bytes_of(files.push(more), kind)
            == bytes_of(files, kind) + more.size->0,
        !kind.is_file(more.name@) || more.size is None ==> bytes_of(files.push(more), kind)
            == bytes_of(files, kind),
        any_of(files.push(more), kind) <==> any_of(files, kind) || kind.is_file(more.name@),
{
    let all = files.push(more);
    assert(all.drop_last() =~= files);
    if any_of(all, kind) {
        let i = choose|i: int| 0 <= i < all.len() && kind.is_file((#[trigger] all[i]).name@);
        if i < files.len() {
            assert(files[i] == all[i]);
        }
    }
    if any_of(files, kind) {
        let i = choose|i: int| 0 <= i < files.len() && kind.is_file((#[trigger] files[i]).name@);
        assert(all[i] == files[i]);
    }
    if kind.is_file(more.name@) {
        assert(all[files.len() as int] == more);
    }
}

// ---------------------------------------------------------------- configs

/// What a config says of a field holds; where it says nothing, what the language model
/// inside it says does.
pub proof fn law_a_config_speaks_before_what_it_wraps(c: HfConfig, n: u64)
    ensures
        ({
            let t = c.text_config;
            &&& c.num_hidden_layers == Some(n) ==> c.layers() == Some(n)
            &&& c.num_hidden_layers is None && t is Some ==> c.layers() == t->0.num_hidden_layers
            &&& c.num_hidden_layers is None && t is None ==> c.layers() is None
            &&& c.max_position_embeddings == Some(n) ==> c.context() == Some(n)
            &&& c.max_position_embeddings is None && t is Some ==> c.context()
                == t->0.max_position_embeddings
            &&& c.max_position_embeddings is None && t is None ==> c.context() is None
        }),
{
}

/// Experts count under each of their three names, the first of them first, and in the config
/// before what it wraps.
pub proof fn law_a_checkpoint_counts_its_experts(c: HfConfig, n: u64)
    ensures
        c.num_experts == Some(n) ==> c.experts() == Some(n),
        c.num_experts is None && c.num_local_experts == Some(n) ==> c.experts() == Some(n),
        c.num_experts is None && c.num_local_experts is None && c.n_routed_experts == Some(n)
            ==> c.experts() == Some(n),
        c.num_experts is None && c.num_local_experts is None && c.n_routed_experts is None
            && c.text_config is Some ==> ({
            let t = *c.text_config->0;
            &&& t.num_experts == Some(n) ==> c.experts() == Some(n)
            &&& t.num_experts is None && t.num_local_experts == Some(n) ==> c.experts() == Some(n)
            &&& t.num_experts is None && t.num_local_experts is None ==> c.experts()
                == t.n_routed_experts
        }),
        c.experts() == Some(n) && n > 0 ==> c.declares_moe(),
        c.arch() is Some && occurs(lowercase(c.arch()->0), "moe"@) ==> c.declares_moe(),
        c.declares_moe() ==> (c.experts() is Some && c.experts()->0 > 0) || (c.arch() is Some
            && occurs(lowercase(c.arch()->0), "moe"@)),
{
}

/// The architecture is the first that is listed, and the quantization the one that its block
/// names, by method or else by format.
pub proof fn law_a_checkpoint_names_its_architecture(
    c: HfConfig,
    list: Vec<String>,
    q: QuantConfig,
    s: String,
)
    ensures
        c.architectures == Some(list) && list@.len() > 0 ==> c.arch() == Some(list@[0]@),
        c.architectures is None && c.text_config is Some && c.text_config->0.architectures == Some(
            list,
        ) && list@.len() > 0 ==> c.arch() == Some(list@[0]@),
        c.architectures is None && c.text_config is None ==> c.arch() is None,
        c.quantization_config == Some(q) && q.quant_method == Some(s) ==> c.quantization() == Some(
            s@,
        ),
        c.quantization_config == Some(q) && q.quant_method is None && q.fmt == Some(s)
            ==> c.quantization() == Some(s@),
        c.quantization_config is None && c.text_config is Some
            && c.text_config->0.quantization_config == Some(q) && q.quant_method == Some(s)
            ==> c.quantization() == Some(s@),
        c.quantization_config is None && c.text_config is None ==> c.quantization() is None,
{
}

// ---------------------------------------------------------------- what a directory holds

/// A directory with an index is a finished conversion of the size of its shards, called after
/// itself. Its fingerprint is the index's, and so is its quantization, where the index names
/// one.
pub proof fn law_an_index_makes_a_conversion(
    d: Found,
    index: Option<JsonView>,
    config: Option<HfConfig>,
    name: Seq<char>,
    s: Seq<char>,
)
    requires
        d.has_index,
        file_name_of(d.path@) == Some(name),
        bytes_of(d.files@, Weights::Ftw) <= u64::MAX,
    ensures
        inspected(d, index, config) is Some,
        ({
            let m = inspected(d, index, config)->0;
            &&& m.format == Format::Ftw
            &&& m.name == name && m.path == d.path@
            &&& m.size_bytes == bytes_of(d.files@, Weights::Ftw)
            &&& index is Some && index->0.get("fingerprint"@) == Some(JsonView::Text(s))
                ==> m.ftw_fingerprint == Some(s)
            &&& index is Some && index->0.get("quant_format"@) == Some(JsonView::Text(s))
                ==> m.quant == Some(s)
            &&& index is None && config is Some ==> m.quant == config->0.quantization()
            &&& index is None ==> m.ftw_fingerprint is None
        }),
{
}

/// Shards without an index are the wreckage of a conversion, and nothing is said of them but
/// how large they are.
pub proof fn law_shards_alone_are_wreckage(
    d: Found,
    index: Option<JsonView>,
    config: Option<HfConfig>,
    name: Seq<char>,
)
    requires
        !d.has_index,
        any_of(d.files@, Weights::Ftw),
        file_name_of(d.path@) == Some(name),
        bytes_of(d.files@, Weights::Ftw) <= u64::MAX,
    ensures
        inspected(d, index, config) is Some,
        ({
            let m = inspected(d, index, config)->0;
            &&& m.format == Format::PartialFtw
            &&& m.size_bytes == bytes_of(d.files@, Weights::Ftw)
            &&& m.arch is None && !m.is_moe && m.quant is None && m.max_position is None
        }),
{
}

/// A config with weights beside it is a checkpoint, described by the config: GGUF where that
/// is all its weights are, and Hugging Face otherwise. Its size is that of all its weights.
pub proof fn law_a_config_with_weights_is_a_checkpoint(
    d: Found,
    index: Option<JsonView>,
    c: HfConfig,
    name: Seq<char>,
)
    requires
        !d.has_index,
        !any_of(d.files@, Weights::Ftw),
        d.has_config,
        any_of(d.files@, Weights::Any),
        file_name_of(d.path@) == Some(name),
        bytes_of(d.files@, Weights::Any) <= u64::MAX,
    ensures
        inspected(d, index, Some(c)) is Some,
        ({
            let m = inspected(d, index, Some(c))->0;
            let gguf = any_of(d.files@, Weights::Gguf);
            let tensors = any_of(d.files@, Weights::Safetensors);
            &&& m.format == Format::Gguf <==> gguf && !tensors
            &&& m.format == Format::Hf <==> !gguf || tensors
            &&& m.size_bytes == bytes_of(d.files@, Weights::Any)
            &&& m.name == name && m.path == d.path@ && m.modified == d.modified
            &&& m.arch == c.arch() && m.is_moe == c.declares_moe() && m.num_experts == c.experts()
            &&& m.num_layers == c.layers() && m.max_position == c.context()
            &&& m.quant == c.quantization() && m.model_type == opt_text(c.model_type)
            &&& m.template_status == d.template_status && m.sampling_status == d.sampling_status
            &&& m.repo is None && m.variant is None && m.converted_to is None
        }),
{
}

/// A config that cannot be read, or that has no weights beside it, is no checkpoint; GGUF
/// without any config is one.
pub proof fn law_what_else_is_a_checkpoint(
    d: Found,
    index: Option<JsonView>,
    config: Option<HfConfig>,
    name: Seq<char>,
)
    requires
        !d.has_index,
        !any_of(d.files@, Weights::Ftw),
        file_name_of(d.path@) == Some(name),
        bytes_of(d.files@, Weights::Gguf) <= u64::MAX,
    ensures
        d.has_config && config is None ==> inspected(d, index, config) is None,
        d.has_config && !any_of(d.files@, Weights::Any) ==> inspected(d, index, config) is None,
        !d.has_config && any_of(d.files@, Weights::Gguf) ==> ({
            let m = inspected(d, index, config);
            m is Some && m->0.format == Format::Gguf && m->0.size_bytes == bytes_of(
                d.files@,
                Weights::Gguf,
            ) && m->0.name == name
        }),
        !d.has_config && !any_of(d.files@, Weights::Gguf) ==> inspected(d, index, config) is None,
{
}

/// A model is served under its repo where it has one and under its name otherwise, with its
/// build behind a colon.
pub proof fn law_a_model_is_served_under_its_repo(m: ModelView)
    ensures
        m.repo is Some && m.variant is None ==> m.served_name() == m.repo->0,
        m.repo is Some && m.variant is Some ==> m.served_name() == m.repo->0 + ":"@ + m.variant->0,
        m.repo is None && m.variant is None ==> m.served_name() == m.name,
        m.repo is None && m.variant is Some ==> m.served_name() == m.name + ":"@ + m.variant->0,
{
}

/// The snapshot taken is the one written last; of several written at once, the last.
pub proof fn law_the_newest_snapshot_is_taken(s: Seq<(u64, String)>)
    ensures
        newest(s) is Some <==> s.len() > 0,
        s.len() > 0 ==> exists|k: int|
            0 <= k < s.len() && newest(s) == Some((#[trigger] s[k]).1) && (forall|i: int|
                0 <= i < s.len() ==> (#[trigger] s[i]).0 <= s[k].0) && (forall|i: int|
                k < i < s.len() ==> (#[trigger] s[i]).0 < s[k].0),
    decreases s.len(),
{
    if s.len() > 0 {
        let n = s.len() - 1;
        if forall|i: int| 0 <= i < s.len() ==> (#[trigger] s[i]).0 <= s.last().0 {
            assert(s[n] == s.last());
        } else {
            let head = s.drop_last();
            let w = choose|i: int| 0 <= i < s.len() && (#[trigger] s[i]).0 > s.last().0;
            assert(w < n);
            assert(head[w] == s[w]);
            law_the_newest_snapshot_is_taken(head);
            let k = choose|k: int|
                0 <= k < head.len() && newest(head) == Some((#[trigger] head[k]).1) && (forall|
                    i: int,
                |
                    0 <= i < head.len() ==> (#[trigger] head[i]).0 <= head[k].0) && (forall|i: int|
                    k < i < head.len() ==> (#[trigger] head[i]).0 < head[k].0);
            assert(s[k] == head[k]);
            assert(s[k].0 > s[n].0);
            assert forall|i: int| 0 <= i < s.len() implies (#[trigger] s[i]).0 <= s[k].0 by {
                if i < n {
                    assert(head[i] == s[i]);
                }
            }
            assert forall|i: int| k < i < s.len() implies (#[trigger] s[i]).0 < s[k].0 by {
                if i < n {
                    assert(head[i] == s[i]);
                }
            }
        }
    }
}

// ---------------------------------------------------------------- conversions

/// A build is called after its repo, with two dashes for the slash, or else after its
/// directory; the quantization stands behind two dashes, and `-ftw` at the end.
pub proof fn law_a_build_is_called_after_its_source(
    source: Seq<char>,
    repo: Seq<char>,
    variant: Seq<char>,
    name: Seq<char>,
    dir: Seq<char>,
    home: Option<Seq<char>>,
)
    requires
        file_name_of(source) == Some(name),
    ensures
        build_dir(source, Some(repo), None, dir, home) == joined_path(
            expanded(dir, home),
            replaced(repo, '/', "--"@) + "-ftw"@,
        ),
        build_dir(source, Some(repo), Some(variant), dir, home) == joined_path(
            expanded(dir, home),
            replaced(repo, '/', "--"@) + "--"@ + variant + "-ftw"@,
        ),
        build_dir(source, None, None, dir, home) == joined_path(
            expanded(dir, home),
            name + "-ftw"@,
        ),
        build_dir(source, None, Some(variant), dir, home) == joined_path(
            expanded(dir, home),
            name + "--"@ + variant + "-ftw"@,
        ),
        parent_of(source) is Some ==> legacy_build(source) == Some(
            joined_path(parent_of(source)->0, name + "-ftw"@),
        ),
{
}

/// A finished conversion stands at `path`.
pub open spec fn is_build(m: Model, path: Seq<char>) -> bool {
    m.format == Format::Ftw && same_place(m.path@, path)
}

proof fn lemma_build_at(models: Seq<Model>, path: Seq<char>)
    ensures
        build_at(models, path) is Some <==> exists|i: int|
            0 <= i < models.len() && is_build(#[trigger] models[i], path),
        build_at(models, path) is Some ==> exists|i: int|
            0 <= i < models.len() && is_build(#[trigger] models[i], path) && build_at(models, path)
                == Some(models[i].path),
    decreases models.len(),
{
    if models.len() > 0 {
        let tail = models.drop_first();
        lemma_build_at(tail, path);
        if is_build(models[0], path) {
            assert(build_at(models, path) == Some(models[0].path));
        } else {
            if exists|i: int| 0 <= i < models.len() && is_build(#[trigger] models[i], path) {
                let i = choose|i: int| 0 <= i < models.len() && is_build(#[trigger] models[i], path);
                assert(tail[i - 1] == models[i]);
            }
            if build_at(tail, path) is Some {
                let i = choose|i: int|
                    0 <= i < tail.len() && is_build(#[trigger] tail[i], path) && build_at(tail, path)
                        == Some(tail[i].path);
                assert(models[i + 1] == tail[i]);
            }
        }
    }
}

/// A checkpoint is paired with its conversion wherever one stands where it belongs, or, where
/// none does, beside the checkpoint; with none, it is left as it is, and so is everything
/// that is no checkpoint to convert. Nothing else of it changes.
pub proof fn law_a_checkpoint_is_paired_with_its_conversion(
    models: Seq<Model>,
    m: Model,
    ftw_dir: Seq<char>,
    home: Option<Seq<char>>,
)
    ensures
        ({
            let r = linked(models, m, ftw_dir, home);
            let place = build_dir(m.path@, opt_text(m.repo), opt_text(m.variant), ftw_dir, home);
            let here = exists|i: int| 0 <= i < models.len() && is_build(#[trigger] models[i], place);
            let beside = legacy_build(m.path@) is Some && exists|i: int|
                0 <= i < models.len() && is_build(#[trigger] models[i], legacy_build(m.path@)->0);
            &&& r == (Model { converted_to: r.converted_to, ..m })
            &&& m.format != Format::Hf ==> r == m
            &&& m.format == Format::Hf && here ==> exists|i: int|
                0 <= i < models.len() && is_build(#[trigger] models[i], place) && r.converted_to
                    == Some(models[i].path)
            &&& m.format == Format::Hf && !here && beside ==> exists|i: int|
                0 <= i < models.len() && is_build(
                    #[trigger] models[i],
                    legacy_build(m.path@)->0,
                ) && r.converted_to == Some(models[i].path)
            &&& !here && !beside ==> r == m
        }),
{
    let place = build_dir(m.path@, opt_text(m.repo), opt_text(m.variant), ftw_dir, home);
    lemma_build_at(models, place);
    if legacy_build(m.path@) is Some {
        lemma_build_at(models, legacy_build(m.path@)->0);
    }
}

// ---------------------------------------------------------------- the library

/// Of a directory count the builds of a cache entry, or else the model that it is, or else
/// those one level deeper; and every directory counts.
pub proof fn law_what_counts_of_a_directory(dirs: Seq<Scanned>, d: Scanned)
    ensures
        d.cached@.len() > 0 ==> counted(d) == d.cached@,
        d.cached@.len() == 0 && d.own is Some ==> counted(d) == seq![d.own->0],
        d.cached@.len() == 0 && d.own is None ==> counted(d) == d.children@,
        all_counted(dirs.push(d)) == all_counted(dirs) + counted(d),
        all_counted(Seq::empty()).len() == 0,
{
    assert(dirs.push(d).drop_last() =~= dirs);
}

proof fn lemma_deduplicated_from(found: Seq<Model>)
    ensures
        forall|x: (Seq<char>, Model)| #[trigger]
            deduplicated(found).contains(x) ==> found.contains(x.1) && x.0 == model_key(x.1),
        forall|i: int, j: int|
            0 <= i < j < deduplicated(found).len() ==> lt(
                (#[trigger] deduplicated(found)[i]).0,
                (#[trigger] deduplicated(found)[j]).0,
            ),
    decreases found.len(),
{
    if found.len() > 0 {
        let head = found.drop_last();
        let last = found.last();
        let d = deduplicated(head);
        lemma_deduplicated_from(head);
        lemma_with_key_from(d, model_key(last), last);
        let r = deduplicated(found);
        assert forall|x: (Seq<char>, Model)| #[trigger] r.contains(x) implies found.contains(x.1)
            && x.0 == model_key(x.1) by {
            if d.contains(x) {
                let k = head.index_of(x.1);
                assert(found[k] == x.1);
            } else {
                assert(found[found.len() - 1] == last);
            }
        }
    }
}

proof fn lemma_with_key_from(s: Seq<(Seq<char>, Model)>, key: Seq<char>, v: Model)
    requires
        forall|i: int, j: int|
            0 <= i < j < s.len() ==> lt((#[trigger] s[i]).0, (#[trigger] s[j]).0),
    ensures
        forall|x: (Seq<char>, Model)| #[trigger]
            with_key(s, key, v).contains(x) ==> s.contains(x) || x == (key, v),
        forall|i: int, j: int|
            0 <= i < j < with_key(s, key, v).len() ==> lt(
                (#[trigger] with_key(s, key, v)[i]).0,
                (#[trigger] with_key(s, key, v)[j]).0,
            ),
        with_key(s, key, v).len() > 0,
        with_key(s, key, v)[0].0 == key || (s.len() > 0 && with_key(s, key, v)[0].0 == s[0].0 && lt(
            s[0].0,
            key,
        )),
    decreases s.len(),
{
    let r = with_key(s, key, v);
    if s.len() == 0 || lt(key, s[0].0) {
        assert forall|x: (Seq<char>, Model)| #[trigger] r.contains(x) implies s.contains(x) || x == (
            key,
            v,
        ) by {
            let k = r.index_of(x);
            assert(r[k] == x);
            if k > 0 {
                assert(s[k - 1] == x);
            }
        }
        assert forall|i: int, j: int| 0 <= i < j < r.len() implies lt(
            (#[trigger] r[i]).0,
            (#[trigger] r[j]).0,
        ) by {
            if i == 0 {
                assert(r[j] == s[j - 1]);
                if j > 1 {
                    crate::text::lemma_lt_transitive(key, s[0].0, s[j - 1].0);
                }
            } else {
                assert(r[i] == s[i - 1] && r[j] == s[j - 1]);
            }
        }
    } else if s[0].0 == key {
        let t = s.drop_first();
        assert forall|x: (Seq<char>, Model)| #[trigger] r.contains(x) implies s.contains(x) || x == (
            key,
            v,
        ) by {
            let k = r.index_of(x);
            assert(r[k] == x);
            if k > 0 {
                assert(s[k] == x);
            }
        }
        assert forall|i: int, j: int| 0 <= i < j < r.len() implies lt(
            (#[trigger] r[i]).0,
            (#[trigger] r[j]).0,
        ) by {
            assert(r[j] == s[j]);
            if i > 0 {
                assert(r[i] == s[i]);
            } else {
                assert(lt(s[0].0, s[j].0));
            }
        }
    } else {
        let t = s.drop_first();
        assert forall|i: int, j: int| 0 <= i < j < t.len() implies lt(
            (#[trigger] t[i]).0,
            (#[trigger] t[j]).0,
        ) by {
            assert(t[i] == s[i + 1] && t[j] == s[j + 1]);
        }
        lemma_with_key_from(t, key, v);
        crate::text::lemma_lt_total(key, s[0].0);
        let w = with_key(t, key, v);
        assert(r =~= seq![s[0]] + w);
        assert forall|x: (Seq<char>, Model)| #[trigger] r.contains(x) implies s.contains(x) || x == (
            key,
            v,
        ) by {
            let k = r.index_of(x);
            assert(r[k] == x);
            if k == 0 {
                assert(s[0] == x);
            } else {
                assert(w[k - 1] == x);
                assert(w.contains(x));
                if t.contains(x) {
                    let n = t.index_of(x);
                    assert(s[n + 1] == x);
                }
            }
        }
        assert(lt(s[0].0, w[0].0)) by {
            if w[0].0 != key {
                assert(t[0] == s[1]);
            }
        }
        assert forall|i: int, j: int| 0 <= i < j < r.len() implies lt(
            (#[trigger] r[i]).0,
            (#[trigger] r[j]).0,
        ) by {
            assert(r[j] == w[j - 1]);
            if i > 0 {
                assert(r[i] == w[i - 1]);
            } else if j > 1 {
                crate::text::lemma_lt_transitive(s[0].0, w[0].0, w[j - 1].0);
            }
        }
    }
}

/// The model is one that was found, but for the conversion it is paired with.
pub open spec fn was_found(found: Seq<Model>, m: Model) -> bool {
    exists|i: int|
        0 <= i < found.len() && m == (Model {
            converted_to: m.converted_to,
            ..#[trigger] found[i]
        })
}

/// The library lists nothing that was not found, no checkpoint twice, and stands in the order
/// of the names in lower case.
pub proof fn law_the_library_lists_what_was_found(
    found: Seq<Model>,
    ftw_dir: Seq<char>,
    home: Option<Seq<char>>,
)
    ensures
        ({
            let r = library_of(found, ftw_dir, home);
            &&& forall|k: int| 0 <= k < r.len() ==> was_found(found, #[trigger] r[k])
            &&& forall|i: int, j: int|
                0 <= i < j < r.len() ==> !lt(
                    lowercase((#[trigger] r[j]).name@),
                    lowercase((#[trigger] r[i]).name@),
                )
            &&& r.len() == deduplicated(found).len()
        }),
        forall|i: int, j: int|
            0 <= i < j < deduplicated(found).len() ==> model_key(
                (#[trigger] deduplicated(found)[i]).1,
            ) != model_key((#[trigger] deduplicated(found)[j]).1),
{
    broadcast use vstd::seq_lib::group_to_multiset_ensures;

    lemma_deduplicated_from(found);
    let d = deduplicated(found);
    let models = values(d);
    let listed = all_linked(models, ftw_dir, home);
    let rows = by_listing(listed);
    let sorted = ordered(rows);
    let r = library_of(found, ftw_dir, home);
    lemma_ordered(rows);
    assert forall|k: int| 0 <= k < r.len() implies was_found(found, #[trigger] r[k]) by {
        assert(sorted.contains(sorted[k]));
        assert(sorted.to_multiset().count(sorted[k]) > 0);
        assert(rows.contains(sorted[k]));
        let i = rows.index_of(sorted[k]);
        assert(rows[i] == sorted[k]);
        assert(listed[i] == r[k]);
        let m = models[i];
        assert(d.contains(d[i]));
        assert(found.contains(m));
        assert(r[k] == linked(models, m, ftw_dir, home));
        let n = found.index_of(m);
        assert(found[n] == m);
    }
    assert forall|k: int| 0 <= k < r.len() implies sorted[k].0 == lowercase((#[trigger] r[k]).name@)
        by {
        assert(sorted.contains(sorted[k]));
        assert(sorted.to_multiset().count(sorted[k]) > 0);
        assert(rows.contains(sorted[k]));
        let i = rows.index_of(sorted[k]);
        assert(rows[i] == sorted[k]);
    }
    assert forall|i: int, j: int| 0 <= i < j < r.len() implies !lt(
        lowercase((#[trigger] r[j]).name@),
        lowercase((#[trigger] r[i]).name@),
    ) by {
        assert(in_order(sorted));
        assert(!lt(sorted[j].0, sorted[i].0));
    }
    assert forall|i: int, j: int| 0 <= i < j < d.len() implies model_key((#[trigger] d[i]).1)
        != model_key((#[trigger] d[j]).1) by {
        assert(d.contains(d[i]) && d.contains(d[j]));
        assert(lt(d[i].0, d[j].0));
        crate::text::lemma_lt_irreflexive(d[i].0);
    }
}

/// A model is described by its architecture, its experts, its quantization and its context,
/// each where it is known.
pub proof fn law_a_model_is_described_by_what_is_known(m: ModelView, quant: Option<Seq<char>>)
    ensures
        m.arch is Some ==> m.parts(quant)[0] == m.arch->0,
        m.max_position is Some ==> m.parts(quant).last() == dec((m.max_position->0 / 1024) as nat)
            + "k ctx"@,
        m.is_moe && m.num_experts is Some ==> m.parts(quant)[(if m.arch is Some {
            1int
        } else {
            0
        })] == "MoE x"@ + dec(m.num_experts->0 as nat),
        m.parts(quant).len() == (if m.arch is Some {
            1int
        } else {
            0
        }) + (if m.is_moe {
            1int
        } else {
            0
        }) + (if quant is Some {
            1int
        } else {
            0
        }) + (if m.max_position is Some {
            1int
        } else {
            0
        }),
        quant is Some ==> m.parts(quant).contains(quant->0),
{
    if quant is Some {
        let at: int = (if m.arch is Some {
            1int
        } else {
            0
        }) + (if m.is_moe {
            1int
        } else {
            0
        });
        assert(m.parts(quant)[at] == quant->0);
    }
}

proof fn lemma_component_keys(c: Seq<Seq<char>>)
    ensures
        c.len() > 0 ==> component_keys(c).len() > 0 && (component_keys(c)[0] == '\u{3}'
            || component_keys(c)[0] == '\u{4}'),
        c.len() == 0 ==> component_keys(c).len() == 0,
    decreases c.len(),
{
    reveal_strlit("");
    reveal_strlit("\u{3}\0");
    reveal_strlit("\u{4}");
    reveal_strlit("\0");
    if c.len() > 0 {
        let head = c.drop_last();
        lemma_component_keys(head);
        let tail = if c.last() == ".."@ {
            "\u{3}\0"@
        } else {
            "\u{4}"@ + c.last() + "\0"@
        };
        assert(tail.len() > 0 && (tail[0] == '\u{3}' || tail[0] == '\u{4}'));
        if head.len() > 0 {
            assert((component_keys(head) + tail)[0] == component_keys(head)[0]);
        } else {
            assert((component_keys(head) + tail)[0] == tail[0]);
        }
    }
}

/// Two names of one place have one key, and a path from the root never has that of one from
/// here.
pub proof fn law_one_place_has_one_key(a: Seq<char>, b: Seq<char>)
    ensures
        same_place(a, b) ==> path_key(a) == path_key(b),
        path_key(a) == path_key(b) ==> rooted(a) == rooted(b) && dotted(a) == dotted(b),
{
    reveal_strlit("\u{1}\0");
    reveal_strlit("\u{2}\0");
    reveal_strlit("");
    lemma_component_keys(components_of(a));
    lemma_component_keys(components_of(b));
    lemma_first_of_key(a);
    lemma_first_of_key(b);
}

proof fn lemma_first_of_key(p: Seq<char>)
    ensures
        rooted(p) ==> path_key(p).len() > 0 && path_key(p)[0] == '\u{1}',
        dotted(p) ==> path_key(p).len() > 0 && path_key(p)[0] == '\u{2}',
        !rooted(p) && !dotted(p) ==> path_key(p).len() == 0 || path_key(p)[0] == '\u{3}'
            || path_key(p)[0] == '\u{4}',
{
    reveal_strlit("\u{1}\0");
    reveal_strlit("\u{2}\0");
    reveal_strlit("");
    lemma_component_keys(components_of(p));
    let k = component_keys(components_of(p));
    if rooted(p) {
        assert(("\u{1}\0"@ + k)[0] == '\u{1}');
    } else if dotted(p) {
        assert(("\u{2}\0"@ + k)[0] == '\u{2}');
    } else {
        assert(""@ + k =~= k);
    }
}

} // verus!
