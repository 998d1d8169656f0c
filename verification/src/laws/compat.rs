//! What a report on a `config.json` owes to what the config and the hardware say.

use vstd::prelude::*;
use crate::compat::{
    arch_notes, arch_of, arr_strs, budget_of, by_severity, deepseek_notes, disk_notes, either_of,
    expert_notes, experts_finding, experts_note, experts_of, floor_of, geometry_of, kv_part,
    law_notes_stand_most_severe_first, layer_kind, layers_of, named_moe, note_of, of_level,
    offload_notes, quant_of, ram_notes, report_of, resolves_experts, row_fits, row_of, some_note,
    split_of, str_of, weight_notes, window_of, Hardware, KvGeometry, KvRow, LayerKind, Level,
    FLAT_TYPES, WINDOWED_TYPES,
};
use crate::json::JsonView;
use crate::text::{lowercase, occurs};
use crate::util::nine_tenths_of;

verus! {

// ---------------------------------------------------------------- what a config says

/// Nothing, or a null, stands under `key`.
pub open spec fn empty_under(v: JsonView, key: Seq<char>) -> bool {
    v.get(key) is None || v.get(key) == Some(JsonView::Null)
}

/// The config says `v` of `key`: at its top level or, where nothing stands there, in the
/// language model that it wraps.
pub open spec fn says(config: JsonView, key: Seq<char>, v: JsonView) -> bool {
    ||| config.get(key) == Some(v)
    ||| empty_under(config, key) && config.get("text_config"@) is Some && config.get(
        "text_config"@,
    )->0.get(key) == Some(v)
}

/// The config says nothing of `key`, neither at its top level nor in what it wraps.
pub open spec fn silent(config: JsonView, key: Seq<char>) -> bool {
    empty_under(config, key) && (config.get("text_config"@) is Some ==> empty_under(
        config.get("text_config"@)->0,
        key,
    ))
}

/// One of the three names under which configs count their routed experts.
pub open spec fn counts_experts(key: Seq<char>) -> bool {
    key == "num_experts"@ || key == "num_local_experts"@ || key == "n_routed_experts"@
}

proof fn lemma_expert_keys()
    ensures
        "num_experts"@ != "num_local_experts"@,
        "num_experts"@ != "n_routed_experts"@,
        "num_local_experts"@ != "n_routed_experts"@,
{
    reveal_strlit("num_experts");
    reveal_strlit("num_local_experts");
    reveal_strlit("n_routed_experts");
    assert("num_experts"@.len() == 11 && "num_local_experts"@.len() == 17
        && "n_routed_experts"@.len() == 16);
}

/// A config that counts its experts under any one of the three names, at its top level or in
/// what it wraps, is a mixture of experts of that many, whatever its architecture is called.
pub proof fn law_experts_count_under_each_name(
    config: JsonView,
    key: Seq<char>,
    n: u64,
    download: u64,
    known: Option<Seq<Seq<char>>>,
    hw: Hardware,
    wanted: Option<u64>,
)
    requires
        counts_experts(key),
        says(config, key, JsonView::Unsigned(n)),
        n > 0,
        forall|other: Seq<char>| counts_experts(other) && other != key ==> silent(config, other),
    ensures
        report_of(config, download, known, hw, wanted).num_experts == Some(n),
        report_of(config, download, known, hw, wanted).is_moe,
{
    lemma_expert_keys();
    assert(counts_experts("num_experts"@) && counts_experts("num_local_experts"@)
        && counts_experts("n_routed_experts"@));
    assert(key != "num_experts"@ ==> silent(config, "num_experts"@));
    assert(key != "num_local_experts"@ ==> silent(config, "num_local_experts"@));
    assert(key != "n_routed_experts"@ ==> silent(config, "n_routed_experts"@));
}

/// Where several of the names count experts, the first of them holds.
pub proof fn law_the_first_expert_count_holds(config: JsonView, n: u64)
    requires
        n > 0,
    ensures
        says(config, "num_experts"@, JsonView::Unsigned(n)) ==> experts_of(config) == Some(n),
        says(config, "num_local_experts"@, JsonView::Unsigned(n)) && silent(
            config,
            "num_experts"@,
        ) ==> experts_of(config) == Some(n),
{
}

/// A config that counts no experts, and whose architecture is not called a mixture of them in
/// any case, is dense.
pub proof fn law_without_experts_a_model_is_dense(
    config: JsonView,
    download: u64,
    known: Option<Seq<Seq<char>>>,
    hw: Hardware,
    wanted: Option<u64>,
)
    requires
        forall|key: Seq<char>, n: u64| counts_experts(key) && n > 0 ==> !#[trigger] says(
            config,
            key,
            JsonView::Unsigned(n),
        ),
    ensures
        report_of(config, download, known, hw, wanted).num_experts is None,
        report_of(config, download, known, hw, wanted).is_moe == ({
            let arch = report_of(config, download, known, hw, wanted).arch;
            arch is Some && occurs(lowercase(arch->0), "moe"@)
        }),
{
    match experts_of(config) {
        Some(n) => {
            assert(!says(config, "num_experts"@, JsonView::Unsigned(n)));
            assert(!says(config, "num_local_experts"@, JsonView::Unsigned(n)));
            assert(!says(config, "n_routed_experts"@, JsonView::Unsigned(n)));
        },
        None => {},
    }
}

/// The plain fields of a report are what the config says of them.
pub proof fn law_a_report_repeats_the_config(
    config: JsonView,
    n: u64,
    s: Seq<char>,
    download: u64,
    known: Option<Seq<Seq<char>>>,
    hw: Hardware,
    wanted: Option<u64>,
)
    ensures
        ({
            let r = report_of(config, download, known, hw, wanted);
            let number = JsonView::Unsigned(n);
            let text = JsonView::Text(s);
            &&& says(config, "num_hidden_layers"@, number) ==> r.num_layers == Some(n)
            &&& silent(config, "num_hidden_layers"@) ==> r.num_layers is None
            &&& says(config, "max_position_embeddings"@, number) ==> r.context == Some(n)
            &&& silent(config, "max_position_embeddings"@) ==> r.context is None
            &&& says(config, "model_type"@, text) ==> r.model_type == Some(s)
            &&& silent(config, "model_type"@) ==> r.model_type is None
        }),
{
}

/// The architecture is the first that the config lists, or else the first that the language
/// model inside it lists.
pub proof fn law_the_first_architecture_counts(config: JsonView, list: Seq<JsonView>, a: Seq<char>)
    requires
        list.len() > 0,
        list[0] == JsonView::Text(a),
    ensures
        config.get("architectures"@) == Some(JsonView::List(list)) ==> arch_of(config) == Some(a),
        config.get("architectures"@) is None && config.get("text_config"@) is Some && config.get(
            "text_config"@,
        )->0.get("architectures"@) == Some(JsonView::List(list)) ==> arch_of(config) == Some(a),
        config.get("architectures"@) is None && config.get("text_config"@) is None ==> arch_of(
            config,
        ) is None,
{
}

/// The quantization is named by the `format` of its block, or else by its `quant_algo`, or
/// else by its `quant_method`.
pub proof fn law_a_quantization_is_named_by_its_block(
    config: JsonView,
    block: JsonView,
    q: Seq<char>,
)
    requires
        config.get("quantization_config"@) == Some(block) || (config.get("quantization_config"@)
            is None && config.get("text_config"@) is Some && config.get("text_config"@)->0.get(
            "quantization_config"@,
        ) == Some(block)),
    ensures
        block.get("format"@) == Some(JsonView::Text(q)) ==> quant_of(config) == Some(q),
        block.get("format"@) is None && block.get("quant_algo"@) == Some(JsonView::Text(q))
            ==> quant_of(config) == Some(q),
        block.get("format"@) is None && block.get("quant_algo"@) is None && block.get(
            "quant_method"@,
        ) == Some(JsonView::Text(q)) ==> quant_of(config) == Some(q),
        block.get("format"@) is None && block.get("quant_algo"@) is None && block.get(
            "quant_method"@,
        ) is None ==> quant_of(config) is None,
{
}

// ---------------------------------------------------------------- what blocks

/// The notes of a report before they are sorted.
spec fn unsorted(
    config: JsonView,
    download: u64,
    known: Option<Seq<Seq<char>>>,
    hw: Hardware,
    wanted: Option<u64>,
) -> Seq<(Level, Seq<char>)> {
    let arch = arch_of(config);
    let is_moe = experts_of(config) is Some || named_moe(config);
    let rest = arch_notes(arch, known) + expert_notes(
        is_moe,
        experts_note(either_of(config, "quantization_config"@)),
    ) + disk_notes(download, hw) + weight_notes(is_moe, download, hw) + deepseek_notes(
        str_of(config, "model_type"@),
        arch,
    );
    match kv_part(config, download, hw, wanted) {
        Some((n, _)) => rest.push(n),
        None => rest,
    }
}

proof fn lemma_concat_has(a: Seq<(Level, Seq<char>)>, b: Seq<(Level, Seq<char>)>, level: Level)
    ensures
        some_note(a + b, level) == (some_note(a, level) || some_note(b, level)),
{
    let s = a + b;
    if some_note(s, level) {
        let i = choose|i: int| 0 <= i < s.len() && (#[trigger] s[i]).0 == level;
        if i < a.len() {
            assert(a[i].0 == level);
        } else {
            assert(b[i - a.len()].0 == level);
        }
    }
    if some_note(a, level) {
        let i = choose|i: int| 0 <= i < a.len() && (#[trigger] a[i]).0 == level;
        assert(s[i].0 == level);
    }
    if some_note(b, level) {
        let i = choose|i: int| 0 <= i < b.len() && (#[trigger] b[i]).0 == level;
        assert(s[a.len() + i].0 == level);
    }
}

proof fn lemma_one_has(n: (Level, Seq<char>), level: Level)
    ensures
        some_note(seq![n], level) == (n.0 == level),
        !some_note(Seq::empty(), level),
{
    if n.0 == level {
        assert(seq![n][0].0 == level);
    }
}

proof fn lemma_report_has(
    config: JsonView,
    download: u64,
    known: Option<Seq<Seq<char>>>,
    hw: Hardware,
    wanted: Option<u64>,
    level: Level,
)
    ensures
        ({
            let r = report_of(config, download, known, hw, wanted);
            let arch = arch_of(config);
            let finding = experts_note(either_of(config, "quantization_config"@));
            let part = kv_part(config, download, hw, wanted);
            some_note(r.notes, level) == (some_note(arch_notes(arch, known), level) || some_note(
                expert_notes(r.is_moe, finding),
                level,
            ) || some_note(disk_notes(download, hw), level) || some_note(
                weight_notes(r.is_moe, download, hw),
                level,
            ) || some_note(deepseek_notes(str_of(config, "model_type"@), arch), level) || (
            part matches Some((n, _)) && n.0 == level))
        }),
{
    let arch = arch_of(config);
    let is_moe = experts_of(config) is Some || named_moe(config);
    let a = arch_notes(arch, known);
    let b = expert_notes(is_moe, experts_note(either_of(config, "quantization_config"@)));
    let c = disk_notes(download, hw);
    let d = weight_notes(is_moe, download, hw);
    let e = deepseek_notes(str_of(config, "model_type"@), arch);
    let all = unsorted(config, download, known, hw, wanted);
    lemma_concat_has(a, b, level);
    lemma_concat_has(a + b, c, level);
    lemma_concat_has(a + b + c, d, level);
    lemma_concat_has(a + b + c + d, e, level);
    match kv_part(config, download, hw, wanted) {
        Some((n, _)) => {
            lemma_concat_has(a + b + c + d + e, seq![n], level);
            lemma_one_has(n, level);
            assert((a + b + c + d + e).push(n) =~= a + b + c + d + e + seq![n]);
        },
        None => {},
    }
    law_notes_stand_most_severe_first(all);
    let notes = report_of(config, download, known, hw, wanted).notes;
    assert(notes == by_severity(all));
    if some_note(notes, level) {
        let i = choose|i: int| 0 <= i < notes.len() && (#[trigger] notes[i]).0 == level;
        assert(notes.contains(notes[i]));
        assert(all.contains(notes[i]));
        let k = all.index_of(notes[i]);
        assert(all[k].0 == level);
    }
    if some_note(all, level) {
        let i = choose|i: int| 0 <= i < all.len() && (#[trigger] all[i]).0 == level;
        assert(all.contains(all[i]));
        assert(notes.contains(all[i]));
        let k = notes.index_of(all[i]);
        assert(notes[k].0 == level);
    }
}

/// The least context that is worth having: what was asked for, or else 8192.
pub open spec fn least_context(wanted: Option<u64>) -> u64 {
    if wanted is Some && wanted->0 > 0 {
        wanted->0
    } else {
        8192
    }
}

/// What blocks a checkpoint is one of four things and nothing else: an architecture that is
/// missing or that the registry does not list, a disk that cannot take the download, a dense
/// model that is larger than the card, and a context that falls short of the least worth
/// having. A mixture of experts is never blocked by its size.
pub proof fn law_what_blocks(
    config: JsonView,
    download: u64,
    known: Option<Seq<Seq<char>>>,
    hw: Hardware,
    wanted: Option<u64>,
)
    ensures
        ({
            let r = report_of(config, download, known, hw, wanted);
            some_note(r.notes, Level::Blocker) <==> {
                ||| r.arch is None
                ||| known is Some && !known->0.contains(r.arch->0)
                ||| download > hw.free_disk_bytes > 0
                ||| !r.is_moe && download > hw.vram_bytes > 0
                ||| r.max_servable_context is Some && r.max_servable_context->0 < least_context(
                    wanted,
                )
            }
        }),
{
    let level = Level::Blocker;
    let r = report_of(config, download, known, hw, wanted);
    lemma_report_has(config, download, known, hw, wanted, level);
    let arch = arch_of(config);
    let finding = experts_note(either_of(config, "quantization_config"@));
    assert(Seq::<(Level, Seq<char>)>::empty() + Seq::<(Level, Seq<char>)>::empty() =~= Seq::<
        (Level, Seq<char>),
    >::empty());
    let parts: Seq<Seq<(Level, Seq<char>)>> = seq![
        arch_notes(arch, known),
        expert_notes(r.is_moe, finding),
        disk_notes(download, hw),
        deepseek_notes(str_of(config, "model_type"@), arch),
        crate::compat::ram_notes(download, hw),
        crate::compat::offload_notes(download, hw),
        crate::compat::resident_notes(download, hw),
    ];
    assert forall|k: int| 0 <= k < 7 implies some_note(#[trigger] parts[k], level) == (
    parts[k].len() > 0 && parts[k][0].0 == level) by {
        let p = parts[k];
        if p.len() > 0 {
            lemma_one_has(p[0], level);
            assert(p =~= seq![p[0]]);
        } else {
            lemma_one_has((level, Seq::empty()), level);
            assert(p =~= Seq::empty());
        }
    }
    assert(some_note(parts[0], level) == (arch is None || (known is Some && !known->0.contains(
        arch->0,
    ))));
    assert(!some_note(parts[1], level));
    assert(some_note(parts[2], level) == (download > hw.free_disk_bytes > 0));
    assert(!some_note(parts[3], level));
    lemma_concat_has(parts[4], parts[5], level);
    assert(!some_note(parts[4], level) && !some_note(parts[5], level));
    assert(some_note(parts[6], level) == (download > hw.vram_bytes > 0));
    lemma_one_has((level, Seq::empty()), level);
    assert(some_note(weight_notes(r.is_moe, download, hw), level) == (!r.is_moe && download
        > hw.vram_bytes > 0));
}

/// Where nothing blocks and the registry could be consulted, what is left to be careful of is
/// one of these and nothing else: experts whose quantization cannot be told, a disk without
/// room for a conversion, a mixture of experts larger than host RAM, a DeepSeek checkpoint,
/// and a context below a quarter of what is advertised.
pub proof fn law_what_needs_care(
    config: JsonView,
    download: u64,
    known: Option<Seq<Seq<char>>>,
    hw: Hardware,
    wanted: Option<u64>,
)
    requires
        known is Some,
        ({
            let part = kv_part(config, download, hw, wanted);
            part matches Some((n, _)) ==> n.0 != Level::Caution
        }),
    ensures
        ({
            let r = report_of(config, download, known, hw, wanted);
            some_note(r.notes, Level::Caution) <==> {
                ||| r.is_moe && experts_note(either_of(config, "quantization_config"@)) is Some
                ||| download <= hw.free_disk_bytes < 2 * download
                ||| r.is_moe && download > hw.host_ram_bytes > 0
                ||| r.model_type is Some && occurs(r.model_type->0, "deepseek"@)
                ||| r.arch is Some && "DeepseekV4"@.is_prefix_of(r.arch->0)
            }
        }),
{
    let level = Level::Caution;
    let r = report_of(config, download, known, hw, wanted);
    lemma_report_has(config, download, known, hw, wanted, level);
    let arch = arch_of(config);
    let finding = experts_note(either_of(config, "quantization_config"@));
    let parts: Seq<Seq<(Level, Seq<char>)>> = seq![
        arch_notes(arch, known),
        expert_notes(r.is_moe, finding),
        disk_notes(download, hw),
        deepseek_notes(str_of(config, "model_type"@), arch),
        crate::compat::ram_notes(download, hw),
        crate::compat::offload_notes(download, hw),
        crate::compat::resident_notes(download, hw),
    ];
    assert forall|k: int| 0 <= k < 7 implies some_note(#[trigger] parts[k], level) == (
    parts[k].len() > 0 && parts[k][0].0 == level) by {
        let p = parts[k];
        if p.len() > 0 {
            lemma_one_has(p[0], level);
            assert(p =~= seq![p[0]]);
        } else {
            lemma_one_has((level, Seq::empty()), level);
            assert(p =~= Seq::empty());
        }
    }
    assert(!some_note(parts[0], level));
    assert(some_note(parts[1], level) == (r.is_moe && finding is Some));
    assert(some_note(parts[2], level) == (download <= hw.free_disk_bytes < 2 * download));
    assert(some_note(parts[3], level) == crate::compat::is_deepseek(
        str_of(config, "model_type"@),
        arch,
    ));
    lemma_concat_has(parts[4], parts[5], level);
    assert(some_note(parts[4], level) == (download > hw.host_ram_bytes > 0));
    assert(!some_note(parts[5], level));
    assert(!some_note(parts[6], level));
    lemma_one_has((level, Seq::empty()), level);
    assert(some_note(weight_notes(r.is_moe, download, hw), level) == (r.is_moe && download
        > hw.host_ram_bytes > 0));
}

/// Routed experts are flagged exactly when the checkpoint is a mixed-precision export whose
/// per-layer map leaves them out.
pub proof fn law_only_a_mixed_export_is_flagged(algo: Seq<char>, blocked: bool, covered: bool)
    ensures
        experts_finding(algo, blocked, covered) is Some <==> occurs(algo, "mixed"@) && !covered
            && !occurs(algo, "fp4"@),
        experts_finding(algo, blocked, covered) matches Some((level, _)) ==> level
            == Level::Caution,
{
    reveal_strlit("fp8");
    reveal_strlit("mixed");
    assert("fp8"@.len() == 3 && "mixed"@.len() == 5);
    if algo == "fp8"@ && occurs(algo, "mixed"@) {
        let i = choose|i: int| #[trigger] crate::text::stands_at(algo, "mixed"@, i);
        assert(i + 5 <= 3);
    }
}

/// A module covers routed experts when it is one of theirs and its algorithm is a four-bit or
/// an eight-bit float.
pub proof fn law_a_quantized_expert_module_resolves(prefix: Seq<char>, rest: Seq<char>, algo: Seq<char>)
    requires
        occurs(algo, "fp4"@) || occurs(algo, "fp8"@),
    ensures
        resolves_experts(prefix + ".mlp.experts"@, algo),
        resolves_experts(prefix + ".mlp.experts."@ + rest, algo),
{
    let a = prefix + ".mlp.experts"@;
    assert(a.skip(prefix.len() as int) =~= ".mlp.experts"@);
    assert(".mlp.experts"@.is_suffix_of(a));
    let b = prefix + ".mlp.experts."@ + rest;
    assert(b.subrange(prefix.len() as int, (prefix.len() + ".mlp.experts."@.len()) as int)
        =~= ".mlp.experts."@);
    assert(crate::text::stands_at(b, ".mlp.experts."@, prefix.len() as int));
}

// ---------------------------------------------------------------- the cache

/// One more token costs a row in every growing layer, and one in every sliding layer whose
/// window is not full yet. Nothing costs nothing.
pub proof fn law_each_token_costs_its_rows(kv: KvGeometry, n: nat)
    ensures
        kv.cost(0) == 0,
        kv.cost(n + 1) - kv.cost(n) == kv.bytes_per_token + (if kv.window is Some && n
            >= kv.window->0 {
            0
        } else {
            kv.windowed_layers * kv.row_bytes
        }),
{
    let w = kv.windowed_layers as nat * kv.row_bytes as nat;
    let b = kv.bytes_per_token as nat;
    assert(b * 0 == 0 && w * 0 == 0) by (nonlinear_arith);
    assert(b * (n + 1) == b * n + b) by (nonlinear_arith);
    assert(w * (n + 1) == w * n + w) by (nonlinear_arith);
}

/// The cost of a token is the row of one layer times the layers that grow, where that fits a
/// word: two bytes for each of the latent's numbers, or for each number of a key and of a
/// value for every KV head.
pub proof fn law_a_row_holds_a_key_and_a_value(config: JsonView)
    requires
        row_fits(config),
        geometry_of(config) is Some,
        geometry_of(config)->0.growing_layers * geometry_of(config)->0.row_bytes <= u64::MAX,
        forall|list: Seq<JsonView>| #[trigger]
            says(config, "layer_types"@, JsonView::List(list)) ==> list.len() <= u64::MAX,
    ensures
        ({
            let kv = geometry_of(config)->0;
            &&& kv.bytes_per_token == kv.growing_layers * kv.row_bytes
            &&& match kv.row {
                KvRow::Grouped { kv_heads, head_dim } => kv.row_bytes == 2 * 2 * (kv_heads
                    * head_dim),
                KvRow::Latent { width } => kv.row_bytes == 2 * width,
            }
        }),
{
    match crate::compat::field_of(config, "layer_types"@) {
        Some(JsonView::List(list)) => {
            assert(says(config, "layer_types"@, JsonView::List(list)));
            crate::compat::law_every_layer_is_accounted_for(list, window_of(config) is Some);
        },
        _ => {},
    }
}

/// Ordinary attention: the KV heads are those that are declared, or else the attention
/// heads; the width of one is what is declared, or else its share of the hidden size.
pub proof fn law_heads_are_read(config: JsonView, heads: u64, kv_heads: u64, dim: u64, hidden: u64)
    requires
        silent(config, "kv_lora_rank"@),
        says(config, "num_attention_heads"@, JsonView::Unsigned(heads)),
        heads > 0,
        kv_heads > 0,
        dim > 0,
    ensures
        says(config, "num_key_value_heads"@, JsonView::Unsigned(kv_heads)) && says(
            config,
            "head_dim"@,
            JsonView::Unsigned(dim),
        ) ==> row_of(config) == Some(KvRow::Grouped { kv_heads, head_dim: dim }),
        silent(config, "num_key_value_heads"@) && says(config, "head_dim"@, JsonView::Unsigned(dim))
            ==> row_of(config) == Some(KvRow::Grouped { kv_heads: heads, head_dim: dim }),
        says(config, "num_key_value_heads"@, JsonView::Unsigned(kv_heads)) && silent(
            config,
            "head_dim"@,
        ) && says(config, "hidden_size"@, JsonView::Unsigned(hidden)) && hidden as int / heads as int
            > 0 ==> row_of(config) == Some(
            KvRow::Grouped { kv_heads, head_dim: (hidden as int / heads as int) as u64 },
        ),
        silent(config, "head_dim"@) && silent(config, "hidden_size"@) ==> row_of(config) is None,
{
}

/// A compressed latent counts before any heads, and its rotary part stands beside it.
pub proof fn law_a_latent_is_read(config: JsonView, rank: u64, rope: u64)
    requires
        says(config, "kv_lora_rank"@, JsonView::Unsigned(rank)),
        rank > 0,
        rank + rope <= u64::MAX,
    ensures
        says(config, "qk_rope_head_dim"@, JsonView::Unsigned(rope)) ==> row_of(config) == Some(
            KvRow::Latent { width: (rank + rope) as u64 },
        ),
        silent(config, "qk_rope_head_dim"@) ==> row_of(config) == Some(
            KvRow::Latent { width: rank },
        ),
{
}

/// A config prices a cache exactly when it declares its layers and the shape of a row.
pub proof fn law_a_cache_needs_layers_and_a_row(config: JsonView, layers: u64)
    requires
        layers > 0,
    ensures
        says(config, "num_hidden_layers"@, JsonView::Unsigned(layers)) && row_of(config) is Some
            ==> geometry_of(config) is Some && geometry_of(config)->0.layers == layers
            && geometry_of(config)->0.row == row_of(config)->0,
        silent(config, "num_hidden_layers"@) ==> geometry_of(config) is None,
        row_of(config) is None ==> geometry_of(config) is None,
{
}

/// A window slides unless the config says that it is not used; `attention_chunk_size` stands
/// in for one that is missing.
pub proof fn law_a_window_is_read(config: JsonView, w: u64)
    requires
        w > 0,
    ensures
        ({
            let off = says(config, "use_sliding_window"@, JsonView::Bool(false));
            &&& off ==> window_of(config) is None
            &&& (says(config, "use_sliding_window"@, JsonView::Bool(true)) || silent(
                config,
                "use_sliding_window"@,
            )) && says(config, "sliding_window"@, JsonView::Unsigned(w)) ==> window_of(config)
                == Some(w)
            &&& silent(config, "use_sliding_window"@) && silent(config, "sliding_window"@) && says(
                config,
                "attention_chunk_size"@,
                JsonView::Unsigned(w),
            ) ==> window_of(config) == Some(w)
            &&& silent(config, "sliding_window"@) && silent(config, "attention_chunk_size"@)
                ==> window_of(config) is None
        }),
{
}

proof fn lemma_names<const N: usize>(a: [&'static str; N], name: Seq<char>)
    ensures
        arr_strs(a@).contains(name) <==> exists|i: int| 0 <= i < N && #[trigger] a@[i]@ == name,
{
    let s = arr_strs(a@);
    if s.contains(name) {
        let k = s.index_of(name);
        assert(s[k] == name);
        assert(a@[k]@ == name);
    }
    if exists|i: int| 0 <= i < N && #[trigger] a@[i]@ == name {
        let i = choose|i: int| 0 <= i < N && #[trigger] a@[i]@ == name;
        assert(s[i] == name);
    }
}

/// How a layer caches: a linear or recurrent one keeps a state, a sliding or chunked one
/// keeps a window where there is one, and every other keeps a row for each token.
pub proof fn law_each_layer_kind_caches_its_way(name: Seq<char>, has_window: bool)
    ensures
        ({
            let kind = layer_kind(JsonView::Text(name), has_window);
            let flat = name == "linear_attention"@ || name == "kda"@ || name == "mamba"@ || name
                == "mamba2"@ || name == "gated_deltanet"@ || name == "recurrent"@;
            let sliding = name == "sliding_attention"@ || name == "chunked_attention"@;
            &&& kind == LayerKind::Flat <==> flat
            &&& kind == LayerKind::Windowed <==> sliding && !flat && has_window
            &&& kind == LayerKind::Growing <==> !flat && !(sliding && has_window)
        }),
{
    lemma_names(FLAT_TYPES, name);
    lemma_names(WINDOWED_TYPES, name);
    assert(FLAT_TYPES@[0]@ == "linear_attention"@ && FLAT_TYPES@[1]@ == "kda"@ && FLAT_TYPES@[2]@
        == "mamba"@ && FLAT_TYPES@[3]@ == "mamba2"@ && FLAT_TYPES@[4]@ == "gated_deltanet"@
        && FLAT_TYPES@[5]@ == "recurrent"@);
    assert(WINDOWED_TYPES@[0]@ == "sliding_attention"@ && WINDOWED_TYPES@[1]@
        == "chunked_attention"@);
}

/// Without a list of kinds every layer grows, but for the lowest `max_window_layers` of a
/// config with a window, or all of them where it sets no such number.
pub proof fn law_unlisted_layers_slide_from_below(layers: u64, w: u64, most: u64)
    ensures
        split_of(None, layers, None, Some(most)) == (layers as nat, 0nat, 0nat),
        split_of(None, layers, Some(w), None) == (0nat, layers as nat, 0nat),
        most <= layers ==> split_of(None, layers, Some(w), Some(most)) == (
            (layers - most) as nat,
            most as nat,
            0nat,
        ),
        most > layers ==> split_of(None, layers, Some(w), Some(most)) == (
            0nat,
            layers as nat,
            0nat,
        ),
{
}

/// A list of kinds is believed: one more layer of a kind is one more in its count, and the
/// other counts stay.
pub proof fn law_listed_layers_are_counted(
    list: Seq<JsonView>,
    more: JsonView,
    has_window: bool,
    kind: LayerKind,
    layers: u64,
    w: u64,
    most: Option<u64>,
)
    requires
        list.len() > 0,
    ensures
        layers_of(list.push(more), has_window, kind) == layers_of(list, has_window, kind) + (
        if layer_kind(more, has_window) == kind {
            1nat
        } else {
            0
        }),
        layers_of(Seq::empty(), has_window, kind) == 0,
        split_of(Some(JsonView::List(list)), layers, Some(w), most) == (
            layers_of(list, true, LayerKind::Growing),
            layers_of(list, true, LayerKind::Windowed),
            layers_of(list, true, LayerKind::Flat),
        ),
        split_of(Some(JsonView::List(list)), layers, None, most) == (
            layers_of(list, false, LayerKind::Growing),
            layers_of(list, false, LayerKind::Windowed),
            layers_of(list, false, LayerKind::Flat),
        ),
{
    assert(list.push(more).drop_last() =~= list);
}

// ---------------------------------------------------------------- the card

/// Weights that fit the usable part of the card leave the rest of it for the cache; weights
/// that do not, or whose size is not known, are left out, and what is said of the context is
/// an upper bound then. So it is for layers that keep a state.
pub proof fn law_resident_weights_come_off_the_budget(
    kv: KvGeometry,
    ceiling: Option<u64>,
    download: u64,
    vram: u64,
)
    requires
        nine_tenths_of(vram as nat) <= u64::MAX,
    ensures
        ({
            let usable = nine_tenths_of(vram as nat);
            let b = budget_of(kv, ceiling, download, vram);
            &&& 0 < download <= usable ==> b.budget + download == usable && !b.unpriced.weights
            &&& download == 0 || download > usable ==> b.budget == usable && b.unpriced.weights
            &&& b.unpriced.state_pool <==> kv.flat_layers > 0
            &&& b.unpriced.something() <==> b.unpriced.weights || b.unpriced.state_pool
        }),
{
}

/// The context that a card is said to hold fits the budget, and one token more does not,
/// unless the checkpoint itself ends there.
pub proof fn law_the_servable_context_is_the_longest(
    kv: KvGeometry,
    ceiling: Option<u64>,
    download: u64,
    vram: u64,
)
    requires
        crate::compat::measurable(kv),
        nine_tenths_of(vram as nat) <= u64::MAX,
        budget_of(kv, ceiling, download, vram).servable is Some,
    ensures
        ({
            let b = budget_of(kv, ceiling, download, vram);
            let n = b.servable->0 as nat;
            &&& kv.cost(n) <= b.budget
            &&& kv.cost(n + 1) > b.budget || ceiling == Some(n as u64)
            &&& ceiling is Some ==> n <= ceiling->0
        }),
{
    let b = budget_of(kv, ceiling, download, vram);
    let most = kv.affords(b.budget as nat)->0;
    crate::compat::law_the_context_afforded_inverts_the_cost(kv, b.budget as nat);
    let per = kv.bytes_per_token as nat;
    assert(most <= u64::MAX) by {
        let w = kv.windowed_layers as nat * kv.row_bytes as nat;
        let rows = kv.window_rows(most);
        assert(w * rows >= 0) by (nonlinear_arith);
        assert(most <= per * most) by (nonlinear_arith)
            requires
                per >= 1,
        ;
    }
    if ceiling is Some && (ceiling->0 as nat) < most {
        crate::compat::law_cost_grows_with_context(kv, ceiling->0 as nat, most);
    }
}

/// The report's context is the budget's: a note of the cache blocks exactly when it falls
/// short of the least worth having, and the claim is an upper bound when something was not
/// priced.
pub proof fn law_a_report_claims_what_the_card_holds(
    config: JsonView,
    download: u64,
    known: Option<Seq<Seq<char>>>,
    hw: Hardware,
    wanted: Option<u64>,
    ceiling: u64,
)
    requires
        geometry_of(config) is Some,
        hw.vram_bytes > 0,
        ceiling > 0,
        says(config, "max_position_embeddings"@, JsonView::Unsigned(ceiling)),
    ensures
        ({
            let r = report_of(config, download, known, hw, wanted);
            let b = budget_of(geometry_of(config)->0, Some(ceiling), download, hw.vram_bytes);
            &&& r.kv == geometry_of(config)
            &&& r.max_servable_context == b.servable
            &&& r.context_is_upper_bound <==> b.unpriced.weights || b.unpriced.state_pool
        }),
{
}

/// A context that is held in full is no gap; one below a quarter of what is advertised is
/// worth care, and one of at least a quarter is not. The two are compared as doubles, which
/// are exact below 2^53.
pub proof fn law_a_large_gap_needs_care(
    kv: KvGeometry,
    ceiling: u64,
    wanted: Option<u64>,
    b: crate::compat::KvBudget,
    n: u64,
)
    requires
        b.servable == Some(n),
        n < 0x20_0000_0000_0000,
        ceiling < 0x20_0000_0000_0000,
    ensures
        ({
            let level = note_of(kv, Some(ceiling), floor_of(wanted), b).0;
            &&& n < least_context(wanted) ==> level == Level::Blocker
            &&& n >= least_context(wanted) && n >= ceiling ==> level == Level::Info
            &&& n >= least_context(wanted) && n < ceiling ==> (level == Level::Caution <==> 4 * n
                < ceiling)
            &&& n >= least_context(wanted) && n < ceiling ==> (level == Level::Info <==> 4 * n
                >= ceiling)
        }),
{
    crate::util::law_small_numbers_are_doubles(n as nat);
    crate::util::law_small_numbers_are_doubles(ceiling as nat);
}

/// Weights beyond what a card holds call for offloading, and beyond what the host holds for
/// care; neither is said where the size is not known.
pub proof fn law_weights_beyond_memory_are_noted(download: u64, hw: Hardware)
    ensures
        ram_notes(download, hw).len() == (if hw.host_ram_bytes > 0 && download > hw.host_ram_bytes {
            1nat
        } else {
            0
        }),
        ram_notes(download, hw).len() == 1 ==> ram_notes(download, hw)[0].0 == Level::Caution,
        offload_notes(download, hw).len() == (if hw.vram_bytes > 0 && download > hw.vram_bytes {
            1nat
        } else {
            0
        }),
        offload_notes(download, hw).len() == 1 ==> offload_notes(download, hw)[0].0 == Level::Info,
{
}

/// The notes of one level are those of that level, in order.
pub proof fn law_notes_are_picked_by_level(
    notes: Seq<(Level, Seq<char>)>,
    more: (Level, Seq<char>),
    level: Level,
)
    ensures
        of_level(notes.push(more), level) == (if more.0 == level {
            of_level(notes, level).push(more)
        } else {
            of_level(notes, level)
        }),
        of_level(Seq::empty(), level).len() == 0,
{
    assert(notes.push(more).drop_last() =~= notes);
}

/// A download that the disk does not hold blocks, and one that leaves no room for a copy of
/// it wants care; nothing is said where either size is not known.
pub proof fn law_a_download_has_to_fit_the_disk(download: u64, hw: Hardware)
    ensures
        ({
            let known = download > 0 && hw.free_disk_bytes > 0;
            let notes = disk_notes(download, hw);
            &&& notes.len() <= 1
            &&& notes.len() == 1 && notes[0].0 == Level::Blocker <==> known && download
                > hw.free_disk_bytes
            &&& notes.len() == 1 && notes[0].0 == Level::Caution <==> known && download
                <= hw.free_disk_bytes && 2 * download > hw.free_disk_bytes
            &&& notes.len() == 0 <==> !known || 2 * download <= hw.free_disk_bytes
        }),
{
}

} // verus!
