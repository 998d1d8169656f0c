//! What the command line and the validation of a configuration owe to the knobs that are set.

use vstd::prelude::*;
use crate::knobs::{
    add_new, args_of, args_upto, config_error, entries_error, entry_error, excluded_by, find_knob,
    first_error, flag_of, image_budget, is_knob, is_row, kernel_error, kernels, kernels_upto,
    kind_of, knob_args, knob_row, layer_and_kind, migrated, pair_lt, selection_error, stored_error,
    value_error, value_of, Excludes, Kind, KindTag, Knob, KNOB_COUNT, KNOB_ROWS, QUANT_ROWS,
};
use crate::numeral::{lies_between, real_of};
use crate::text::{cut, dec, dec_int, is_space, lt, signed_of, trimmed, words_of};

verus! {

/// A key in the spelling of a command line: two dashes, and a dash for each underscore.
pub open spec fn spelled(key: Seq<char>) -> Seq<char> {
    Seq::new(
        key.len() + 2,
        |i: int|
            if i < 2 || key[i - 2] == '_' {
                '-'
            } else {
                key[i - 2]
            },
    )
}

proof fn lemma_flags_from_0()
    ensures
        KNOB_ROWS@[0].1@ == spelled(KNOB_ROWS@[0].0@),
        KNOB_ROWS@[1].1@ == spelled(KNOB_ROWS@[1].0@),
        KNOB_ROWS@[2].1@ == spelled(KNOB_ROWS@[2].0@),
        KNOB_ROWS@[3].1@ == spelled(KNOB_ROWS@[3].0@),
        KNOB_ROWS@[4].1@ == spelled(KNOB_ROWS@[4].0@),
        KNOB_ROWS@[5].1@ == spelled(KNOB_ROWS@[5].0@),
        KNOB_ROWS@[6].1@ == spelled(KNOB_ROWS@[6].0@),
        KNOB_ROWS@[7].1@ == spelled(KNOB_ROWS@[7].0@),
        KNOB_ROWS@[8].1@ == spelled(KNOB_ROWS@[8].0@),
{
    assert(KNOB_ROWS@[0].1@ == spelled(KNOB_ROWS@[0].0@)) by {
        reveal_strlit("model");
        reveal_strlit("--model");
        assert("--model"@ =~= spelled("model"@));
    }
    assert(KNOB_ROWS@[1].1@ == spelled(KNOB_ROWS@[1].0@)) by {
        reveal_strlit("served_model_name");
        reveal_strlit("--served-model-name");
        assert("--served-model-name"@ =~= spelled("served_model_name"@));
    }
    assert(KNOB_ROWS@[2].1@ == spelled(KNOB_ROWS@[2].0@)) by {
        reveal_strlit("dtype");
        reveal_strlit("--dtype");
        assert("--dtype"@ =~= spelled("dtype"@));
    }
    assert(KNOB_ROWS@[3].1@ == spelled(KNOB_ROWS@[3].0@)) by {
        reveal_strlit("model_source");
        reveal_strlit("--model-source");
        assert("--model-source"@ =~= spelled("model_source"@));
    }
    assert(KNOB_ROWS@[4].1@ == spelled(KNOB_ROWS@[4].0@)) by {
        reveal_strlit("host");
        reveal_strlit("--host");
        assert("--host"@ =~= spelled("host"@));
    }
    assert(KNOB_ROWS@[5].1@ == spelled(KNOB_ROWS@[5].0@)) by {
        reveal_strlit("port");
        reveal_strlit("--port");
        assert("--port"@ =~= spelled("port"@));
    }
    assert(KNOB_ROWS@[6].1@ == spelled(KNOB_ROWS@[6].0@)) by {
        reveal_strlit("gpu");
        reveal_strlit("--gpu");
        assert("--gpu"@ =~= spelled("gpu"@));
    }
    assert(KNOB_ROWS@[7].1@ == spelled(KNOB_ROWS@[7].0@)) by {
        reveal_strlit("cors_origins");
        reveal_strlit("--cors-origins");
        assert("--cors-origins"@ =~= spelled("cors_origins"@));
    }
    assert(KNOB_ROWS@[8].1@ == spelled(KNOB_ROWS@[8].0@)) by {
        reveal_strlit("max_running_requests");
        reveal_strlit("--max-running-requests");
        assert("--max-running-requests"@ =~= spelled("max_running_requests"@));
    }
}

proof fn lemma_flags_from_9()
    ensures
        KNOB_ROWS@[9].1@ == spelled(KNOB_ROWS@[9].0@),
        KNOB_ROWS@[10].1@ == spelled(KNOB_ROWS@[10].0@),
        KNOB_ROWS@[11].1@ == spelled(KNOB_ROWS@[11].0@),
        KNOB_ROWS@[12].1@ == spelled(KNOB_ROWS@[12].0@),
        KNOB_ROWS@[13].1@ == spelled(KNOB_ROWS@[13].0@),
        KNOB_ROWS@[14].1@ == spelled(KNOB_ROWS@[14].0@),
        KNOB_ROWS@[15].1@ == spelled(KNOB_ROWS@[15].0@),
        KNOB_ROWS@[16].1@ == spelled(KNOB_ROWS@[16].0@),
        KNOB_ROWS@[17].1@ == spelled(KNOB_ROWS@[17].0@),
{
    assert(KNOB_ROWS@[9].1@ == spelled(KNOB_ROWS@[9].0@)) by {
        reveal_strlit("max_output_tokens");
        reveal_strlit("--max-output-tokens");
        assert("--max-output-tokens"@ =~= spelled("max_output_tokens"@));
    }
    assert(KNOB_ROWS@[10].1@ == spelled(KNOB_ROWS@[10].0@)) by {
        reveal_strlit("max_seq_len_override");
        reveal_strlit("--max-seq-len-override");
        assert("--max-seq-len-override"@ =~= spelled("max_seq_len_override"@));
    }
    assert(KNOB_ROWS@[11].1@ == spelled(KNOB_ROWS@[11].0@)) by {
        reveal_strlit("max_prefill_length");
        reveal_strlit("--max-prefill-length");
        assert("--max-prefill-length"@ =~= spelled("max_prefill_length"@));
    }
    assert(KNOB_ROWS@[12].1@ == spelled(KNOB_ROWS@[12].0@)) by {
        reveal_strlit("cuda_graph_max_bs");
        reveal_strlit("--cuda-graph-max-bs");
        assert("--cuda-graph-max-bs"@ =~= spelled("cuda_graph_max_bs"@));
    }
    assert(KNOB_ROWS@[13].1@ == spelled(KNOB_ROWS@[13].0@)) by {
        reveal_strlit("decode_log_interval");
        reveal_strlit("--decode-log-interval");
        assert("--decode-log-interval"@ =~= spelled("decode_log_interval"@));
    }
    assert(KNOB_ROWS@[14].1@ == spelled(KNOB_ROWS@[14].0@)) by {
        reveal_strlit("num_tokenizer");
        reveal_strlit("--num-tokenizer");
        assert("--num-tokenizer"@ =~= spelled("num_tokenizer"@));
    }
    assert(KNOB_ROWS@[15].1@ == spelled(KNOB_ROWS@[15].0@)) by {
        reveal_strlit("tensor_parallel_size");
        reveal_strlit("--tensor-parallel-size");
        assert("--tensor-parallel-size"@ =~= spelled("tensor_parallel_size"@));
    }
    assert(KNOB_ROWS@[16].1@ == spelled(KNOB_ROWS@[16].0@)) by {
        reveal_strlit("disable_pynccl");
        reveal_strlit("--disable-pynccl");
        assert("--disable-pynccl"@ =~= spelled("disable_pynccl"@));
    }
    assert(KNOB_ROWS@[17].1@ == spelled(KNOB_ROWS@[17].0@)) by {
        reveal_strlit("enable_special_token_ckpt");
        reveal_strlit("--enable-special-token-ckpt");
        assert("--enable-special-token-ckpt"@ =~= spelled("enable_special_token_ckpt"@));
    }
}

proof fn lemma_flags_from_18()
    ensures
        KNOB_ROWS@[18].1@ == spelled(KNOB_ROWS@[18].0@),
        KNOB_ROWS@[19].1@ == spelled(KNOB_ROWS@[19].0@),
        KNOB_ROWS@[20].1@ == spelled(KNOB_ROWS@[20].0@),
        KNOB_ROWS@[21].1@ == spelled(KNOB_ROWS@[21].0@),
        KNOB_ROWS@[22].1@ == spelled(KNOB_ROWS@[22].0@),
        KNOB_ROWS@[23].1@ == spelled(KNOB_ROWS@[23].0@),
        KNOB_ROWS@[24].1@ == spelled(KNOB_ROWS@[24].0@),
        KNOB_ROWS@[25].1@ == spelled(KNOB_ROWS@[25].0@),
        KNOB_ROWS@[26].1@ == spelled(KNOB_ROWS@[26].0@),
{
    assert(KNOB_ROWS@[18].1@ == spelled(KNOB_ROWS@[18].0@)) by {
        reveal_strlit("memory_ratio");
        reveal_strlit("--memory-ratio");
        assert("--memory-ratio"@ =~= spelled("memory_ratio"@));
    }
    assert(KNOB_ROWS@[19].1@ == spelled(KNOB_ROWS@[19].0@)) by {
        reveal_strlit("num_pages");
        reveal_strlit("--num-pages");
        assert("--num-pages"@ =~= spelled("num_pages"@));
    }
    assert(KNOB_ROWS@[20].1@ == spelled(KNOB_ROWS@[20].0@)) by {
        reveal_strlit("num_tokens");
        reveal_strlit("--num-tokens");
        assert("--num-tokens"@ =~= spelled("num_tokens"@));
    }
    assert(KNOB_ROWS@[21].1@ == spelled(KNOB_ROWS@[21].0@)) by {
        reveal_strlit("page_size");
        reveal_strlit("--page-size");
        assert("--page-size"@ =~= spelled("page_size"@));
    }
    assert(KNOB_ROWS@[22].1@ == spelled(KNOB_ROWS@[22].0@)) by {
        reveal_strlit("cache_type");
        reveal_strlit("--cache-type");
        assert("--cache-type"@ =~= spelled("cache_type"@));
    }
    assert(KNOB_ROWS@[23].1@ == spelled(KNOB_ROWS@[23].0@)) by {
        reveal_strlit("attention_backend");
        reveal_strlit("--attention-backend");
        assert("--attention-backend"@ =~= spelled("attention_backend"@));
    }
    assert(KNOB_ROWS@[24].1@ == spelled(KNOB_ROWS@[24].0@)) by {
        reveal_strlit("kv_reserve_tokens");
        reveal_strlit("--kv-reserve-tokens");
        assert("--kv-reserve-tokens"@ =~= spelled("kv_reserve_tokens"@));
    }
    assert(KNOB_ROWS@[25].1@ == spelled(KNOB_ROWS@[25].0@)) by {
        reveal_strlit("moe_strategy");
        reveal_strlit("--moe-strategy");
        assert("--moe-strategy"@ =~= spelled("moe_strategy"@));
    }
    assert(KNOB_ROWS@[26].1@ == spelled(KNOB_ROWS@[26].0@)) by {
        reveal_strlit("moe_cache_size");
        reveal_strlit("--moe-cache-size");
        assert("--moe-cache-size"@ =~= spelled("moe_cache_size"@));
    }
}

proof fn lemma_flags_from_27()
    ensures
        KNOB_ROWS@[27].1@ == spelled(KNOB_ROWS@[27].0@),
        KNOB_ROWS@[28].1@ == spelled(KNOB_ROWS@[28].0@),
        KNOB_ROWS@[29].1@ == spelled(KNOB_ROWS@[29].0@),
        KNOB_ROWS@[30].1@ == spelled(KNOB_ROWS@[30].0@),
        KNOB_ROWS@[31].1@ == spelled(KNOB_ROWS@[31].0@),
        KNOB_ROWS@[32].1@ == spelled(KNOB_ROWS@[32].0@),
        KNOB_ROWS@[33].1@ == spelled(KNOB_ROWS@[33].0@),
        KNOB_ROWS@[34].1@ == spelled(KNOB_ROWS@[34].0@),
        KNOB_ROWS@[35].1@ == spelled(KNOB_ROWS@[35].0@),
{
    assert(KNOB_ROWS@[27].1@ == spelled(KNOB_ROWS@[27].0@)) by {
        reveal_strlit("moe_cache_rate");
        reveal_strlit("--moe-cache-rate");
        assert("--moe-cache-rate"@ =~= spelled("moe_cache_rate"@));
    }
    assert(KNOB_ROWS@[28].1@ == spelled(KNOB_ROWS@[28].0@)) by {
        reveal_strlit("moe_cache_auto");
        reveal_strlit("--moe-cache-auto");
        assert("--moe-cache-auto"@ =~= spelled("moe_cache_auto"@));
    }
    assert(KNOB_ROWS@[29].1@ == spelled(KNOB_ROWS@[29].0@)) by {
        reveal_strlit("moe_cache_policy");
        reveal_strlit("--moe-cache-policy");
        assert("--moe-cache-policy"@ =~= spelled("moe_cache_policy"@));
    }
    assert(KNOB_ROWS@[30].1@ == spelled(KNOB_ROWS@[30].0@)) by {
        reveal_strlit("moe_cpu_threads");
        reveal_strlit("--moe-cpu-threads");
        assert("--moe-cpu-threads"@ =~= spelled("moe_cpu_threads"@));
    }
    assert(KNOB_ROWS@[31].1@ == spelled(KNOB_ROWS@[31].0@)) by {
        reveal_strlit("moe_cpu_layers");
        reveal_strlit("--moe-cpu-layers");
        assert("--moe-cpu-layers"@ =~= spelled("moe_cpu_layers"@));
    }
    assert(KNOB_ROWS@[32].1@ == spelled(KNOB_ROWS@[32].0@)) by {
        reveal_strlit("moe_hybrid_max_fetch");
        reveal_strlit("--moe-hybrid-max-fetch");
        assert("--moe-hybrid-max-fetch"@ =~= spelled("moe_hybrid_max_fetch"@));
    }
    assert(KNOB_ROWS@[33].1@ == spelled(KNOB_ROWS@[33].0@)) by {
        reveal_strlit("quant_backend");
        reveal_strlit("--quant-backend");
        assert("--quant-backend"@ =~= spelled("quant_backend"@));
    }
    assert(KNOB_ROWS@[34].1@ == spelled(KNOB_ROWS@[34].0@)) by {
        reveal_strlit("expert_load");
        reveal_strlit("--expert-load");
        assert("--expert-load"@ =~= spelled("expert_load"@));
    }
    assert(KNOB_ROWS@[35].1@ == spelled(KNOB_ROWS@[35].0@)) by {
        reveal_strlit("ple_backend");
        reveal_strlit("--ple-backend");
        assert("--ple-backend"@ =~= spelled("ple_backend"@));
    }
}

proof fn lemma_flags_from_36()
    ensures
        KNOB_ROWS@[36].1@ == spelled(KNOB_ROWS@[36].0@),
        KNOB_ROWS@[37].1@ == spelled(KNOB_ROWS@[37].0@),
        KNOB_ROWS@[38].1@ == spelled(KNOB_ROWS@[38].0@),
        KNOB_ROWS@[39].1@ == spelled(KNOB_ROWS@[39].0@),
        KNOB_ROWS@[40].1@ == spelled(KNOB_ROWS@[40].0@),
        KNOB_ROWS@[41].1@ == spelled(KNOB_ROWS@[41].0@),
        KNOB_ROWS@[42].1@ == spelled(KNOB_ROWS@[42].0@),
        KNOB_ROWS@[43].1@ == spelled(KNOB_ROWS@[43].0@),
        KNOB_ROWS@[44].1@ == spelled(KNOB_ROWS@[44].0@),
{
    assert(KNOB_ROWS@[36].1@ == spelled(KNOB_ROWS@[36].0@)) by {
        reveal_strlit("moe_prefill_hit_d2d");
        reveal_strlit("--moe-prefill-hit-d2d");
        assert("--moe-prefill-hit-d2d"@ =~= spelled("moe_prefill_hit_d2d"@));
    }
    assert(KNOB_ROWS@[37].1@ == spelled(KNOB_ROWS@[37].0@)) by {
        reveal_strlit("disable_moe_prefill_overlap");
        reveal_strlit("--disable-moe-prefill-overlap");
        assert("--disable-moe-prefill-overlap"@ =~= spelled("disable_moe_prefill_overlap"@));
    }
    assert(KNOB_ROWS@[38].1@ == spelled(KNOB_ROWS@[38].0@)) by {
        reveal_strlit("tool_call_parser");
        reveal_strlit("--tool-call-parser");
        assert("--tool-call-parser"@ =~= spelled("tool_call_parser"@));
    }
    assert(KNOB_ROWS@[39].1@ == spelled(KNOB_ROWS@[39].0@)) by {
        reveal_strlit("reasoning_parser");
        reveal_strlit("--reasoning-parser");
        assert("--reasoning-parser"@ =~= spelled("reasoning_parser"@));
    }
    assert(KNOB_ROWS@[40].1@ == spelled(KNOB_ROWS@[40].0@)) by {
        reveal_strlit("text_model_only");
        reveal_strlit("--text-model-only");
        assert("--text-model-only"@ =~= spelled("text_model_only"@));
    }
    assert(KNOB_ROWS@[41].1@ == spelled(KNOB_ROWS@[41].0@)) by {
        reveal_strlit("mm_disable");
        reveal_strlit("--mm-disable");
        assert("--mm-disable"@ =~= spelled("mm_disable"@));
    }
    assert(KNOB_ROWS@[42].1@ == spelled(KNOB_ROWS@[42].0@)) by {
        reveal_strlit("mm_encoder_weights");
        reveal_strlit("--mm-encoder-weights");
        assert("--mm-encoder-weights"@ =~= spelled("mm_encoder_weights"@));
    }
    assert(KNOB_ROWS@[43].1@ == spelled(KNOB_ROWS@[43].0@)) by {
        reveal_strlit("image_min_tokens");
        reveal_strlit("--image-min-tokens");
        assert("--image-min-tokens"@ =~= spelled("image_min_tokens"@));
    }
    assert(KNOB_ROWS@[44].1@ == spelled(KNOB_ROWS@[44].0@)) by {
        reveal_strlit("image_max_tokens");
        reveal_strlit("--image-max-tokens");
        assert("--image-max-tokens"@ =~= spelled("image_max_tokens"@));
    }
}

proof fn lemma_flags_from_45()
    ensures
        KNOB_ROWS@[45].1@ == spelled(KNOB_ROWS@[45].0@),
        KNOB_ROWS@[46].1@ == spelled(KNOB_ROWS@[46].0@),
        KNOB_ROWS@[47].1@ == spelled(KNOB_ROWS@[47].0@),
        KNOB_ROWS@[48].1@ == spelled(KNOB_ROWS@[48].0@),
        KNOB_ROWS@[49].1@ == spelled(KNOB_ROWS@[49].0@),
        KNOB_ROWS@[50].1@ == spelled(KNOB_ROWS@[50].0@),
{
    assert(KNOB_ROWS@[45].1@ == spelled(KNOB_ROWS@[45].0@)) by {
        reveal_strlit("mm_processor_kwargs");
        reveal_strlit("--mm-processor-kwargs");
        assert("--mm-processor-kwargs"@ =~= spelled("mm_processor_kwargs"@));
    }
    assert(KNOB_ROWS@[46].1@ == spelled(KNOB_ROWS@[46].0@)) by {
        reveal_strlit("mm_embed_cache_device");
        reveal_strlit("--mm-embed-cache-device");
        assert("--mm-embed-cache-device"@ =~= spelled("mm_embed_cache_device"@));
    }
    assert(KNOB_ROWS@[47].1@ == spelled(KNOB_ROWS@[47].0@)) by {
        reveal_strlit("allowed_media_domains");
        reveal_strlit("--allowed-media-domains");
        assert("--allowed-media-domains"@ =~= spelled("allowed_media_domains"@));
    }
    assert(KNOB_ROWS@[48].1@ == spelled(KNOB_ROWS@[48].0@)) by {
        reveal_strlit("allowed_local_media_path");
        reveal_strlit("--allowed-local-media-path");
        assert("--allowed-local-media-path"@ =~= spelled("allowed_local_media_path"@));
    }
    assert(KNOB_ROWS@[49].1@ == spelled(KNOB_ROWS@[49].0@)) by {
        reveal_strlit("sampling_defaults");
        reveal_strlit("--sampling-defaults");
        assert("--sampling-defaults"@ =~= spelled("sampling_defaults"@));
    }
    assert(KNOB_ROWS@[50].1@ == spelled(KNOB_ROWS@[50].0@)) by {
        reveal_strlit("enable_cache_report");
        reveal_strlit("--enable-cache-report");
        assert("--enable-cache-report"@ =~= spelled("enable_cache_report"@));
    }
}

/// Every knob is passed as its own name in the spelling of a command line.
pub proof fn law_a_flag_is_the_name_of_its_knob(i: int)
    requires
        0 <= i < KNOB_COUNT,
    ensures
        knob_row(i).flag@ == spelled(knob_row(i).key@),
{
    lemma_flags_from_0();
    lemma_flags_from_9();
    lemma_flags_from_18();
    lemma_flags_from_27();
    lemma_flags_from_36();
    lemma_flags_from_45();
}

// ---------------------------------------------------------------- the command line

/// What a knob puts on the command line: a switch that is on its flag, a selection its flag
/// and each chosen word, and any other that is set its flag and its value.
pub open spec fn words_for(m: Map<Seq<char>, Seq<char>>, k: Knob) -> Seq<Seq<char>> {
    if !m.dom().contains(k.key@) {
        Seq::empty()
    } else if k.kind is Flag {
        if m[k.key@] == "true"@ {
            seq![k.flag@]
        } else {
            Seq::empty()
        }
    } else if k.kind is Multi {
        if words_of(m[k.key@]).len() > 0 {
            seq![k.flag@] + words_of(m[k.key@])
        } else {
            Seq::empty()
        }
    } else if m[k.key@].len() > 0 {
        seq![k.flag@, m[k.key@]]
    } else {
        Seq::empty()
    }
}

proof fn lemma_args_step(m: Map<Seq<char>, Seq<char>>, n: nat)
    requires
        0 < n <= KNOB_COUNT,
    ensures
        args_upto(m, n) == args_upto(m, (n - 1) as nat) + words_for(m, knob_row(n - 1)),
{
    let head = args_upto(m, (n - 1) as nat);
    let k = knob_row(n - 1);
    assert(head + Seq::<Seq<char>>::empty() =~= head);
    match value_of(m, k.key@) {
        Some(v) => {
            assert(knob_args(k, v) =~= words_for(m, k));
        },
        None => {},
    }
}

/// The arguments of the rows from `n` on.
proof fn lemma_args_rest(m: Map<Seq<char>, Seq<char>>, n: nat, to: nat) -> (rest: Seq<Seq<char>>)
    requires
        n <= to <= KNOB_COUNT,
    ensures
        args_upto(m, to) == args_upto(m, n) + rest,
    decreases to - n,
{
    if n == to {
        assert(args_upto(m, n) + Seq::<Seq<char>>::empty() =~= args_upto(m, n));
        Seq::empty()
    } else {
        let r = lemma_args_rest(m, n, (to - 1) as nat);
        lemma_args_step(m, to);
        let rest = r + words_for(m, knob_row(to - 1));
        assert(args_upto(m, n) + r + words_for(m, knob_row(to - 1)) =~= args_upto(m, n) + rest);
        rest
    }
}

proof fn lemma_args_without(m: Map<Seq<char>, Seq<char>>, i: int, n: nat)
    requires
        0 <= i < KNOB_COUNT,
        n <= KNOB_COUNT,
    ensures
        n <= i ==> args_upto(m.remove(knob_row(i).key@), n) == args_upto(m, n),
        n > i ==> exists|rest: Seq<Seq<char>>|
            #![trigger args_upto(m, i as nat) + rest]
            args_upto(m, n) == args_upto(m, i as nat) + words_for(m, knob_row(i)) + rest
                && args_upto(m.remove(knob_row(i).key@), n) == args_upto(m, i as nat) + rest,
    decreases n,
{
    let key = knob_row(i).key@;
    let without = m.remove(key);
    if n > 0 {
        let p = (n - 1) as nat;
        lemma_args_without(m, i, p);
        lemma_args_step(m, n);
        lemma_args_step(without, n);
        let head = args_upto(m, i as nat);
        if p == i {
            assert(args_upto(without, p) == head);
            assert(words_for(without, knob_row(i)) =~= Seq::<Seq<char>>::empty());
            let rest = Seq::<Seq<char>>::empty();
            assert(args_upto(m, n) =~= head + words_for(m, knob_row(i)) + rest);
            assert(args_upto(without, n) =~= head + rest);
        } else {
            if knob_row(p as int).key@ == key {
                crate::knobs::law_keys_are_unique(p as int, i);
            }
            let piece = words_for(m, knob_row(p as int));
            assert(words_for(without, knob_row(p as int)) == piece);
            if p > i {
                let r = choose|rest: Seq<Seq<char>>|
                    #![trigger args_upto(m, i as nat) + rest]
                    args_upto(m, p) == args_upto(m, i as nat) + words_for(m, knob_row(i)) + rest
                        && args_upto(without, p) == args_upto(m, i as nat) + rest;
                let rest = r + piece;
                assert(args_upto(m, n) =~= head + words_for(m, knob_row(i)) + rest);
                assert(args_upto(without, n) =~= head + rest);
            }
        }
    }
}

/// Every knob that is set reaches the command line, and nothing else comes with it: the
/// arguments are those without the knob, with its own words put in at one place.
pub proof fn law_a_set_knob_reaches_the_command_line(m: Map<Seq<char>, Seq<char>>, i: int) -> (r: (
    Seq<Seq<char>>,
    Seq<Seq<char>>,
))
    requires
        0 <= i < KNOB_COUNT,
    ensures
        args_of(m) == r.0 + words_for(m, knob_row(i)) + r.1,
        args_of(m.remove(knob_row(i).key@)) == r.0 + r.1,
{
    lemma_args_without(m, i, KNOB_COUNT as nat);
    let without = m.remove(knob_row(i).key@);
    let rest = choose|rest: Seq<Seq<char>>|
        #![trigger args_upto(m, i as nat) + rest]
        args_upto(m, KNOB_COUNT as nat) == args_upto(m, i as nat) + words_for(m, knob_row(i)) + rest
            && args_upto(without, KNOB_COUNT as nat) == args_upto(m, i as nat) + rest;
    (args_upto(m, i as nat), rest)
}

/// A knob that is neither a switch nor a selection and is set to something stands on the
/// command line as its flag with its value right behind it; a switch that is on stands there
/// as its flag; a selection as its flag with each chosen word behind it, in their order.
pub proof fn law_a_value_follows_its_flag(m: Map<Seq<char>, Seq<char>>, i: int) -> (at: int)
    requires
        0 <= i < KNOB_COUNT,
        m.dom().contains(knob_row(i).key@),
    ensures
        ({
            let k = knob_row(i);
            let v = m[k.key@];
            let args = args_of(m);
            &&& !(k.kind is Flag) && !(k.kind is Multi) && v.len() > 0 ==> 0 <= at < args.len() - 1
                && args[at] == spelled(k.key@) && args[at + 1] == v
            &&& k.kind is Flag && v == "true"@ ==> 0 <= at < args.len() && args[at] == spelled(
                k.key@,
            )
            &&& k.kind is Multi && words_of(v).len() > 0 ==> 0 <= at && at + words_of(v).len()
                < args.len() && args[at] == spelled(k.key@) && args.subrange(
                at + 1,
                at + 1 + words_of(v).len(),
            ) == words_of(v)
        }),
{
    let (head, rest) = law_a_set_knob_reaches_the_command_line(m, i);
    law_a_flag_is_the_name_of_its_knob(i);
    let k = knob_row(i);
    let v = m[k.key@];
    let mine = words_for(m, k);
    let args = args_of(m);
    let at = head.len() as int;
    assert forall|j: int| 0 <= j < mine.len() implies args[at + j] == #[trigger] mine[j] by {}
    if mine.len() > 0 {
        assert(args[at + 0] == mine[0]);
        if k.kind is Multi {
            let n = words_of(v).len() as int;
            assert(args.subrange(at + 1, at + 1 + n) =~= words_of(v)) by {
                assert forall|j: int| 0 <= j < n implies args[at + 1 + j] == words_of(v)[j] by {
                    assert(args[at + (1 + j)] == mine[1 + j]);
                }
            }
        } else if !(k.kind is Flag) {
            assert(args[at + 1] == mine[1]);
        }
    }
    at
}

/// The arguments of two knobs stand in the order of the table.
pub proof fn law_arguments_stand_in_table_order(
    m: Map<Seq<char>, Seq<char>>,
    i: int,
    j: int,
) -> (r: (Seq<Seq<char>>, Seq<Seq<char>>, Seq<Seq<char>>))
    requires
        0 <= i < j < KNOB_COUNT,
    ensures
        args_of(m) == r.0 + words_for(m, knob_row(i)) + r.1 + words_for(m, knob_row(j)) + r.2,
{
    let a = args_upto(m, i as nat);
    lemma_args_step(m, (i + 1) as nat);
    let b = lemma_args_rest(m, (i + 1) as nat, j as nat);
    lemma_args_step(m, (j + 1) as nat);
    let c = lemma_args_rest(m, (j + 1) as nat, KNOB_COUNT as nat);
    (a, b, c)
}

/// What is not a knob never reaches the command line.
pub proof fn law_an_unknown_name_reaches_nothing(
    m: Map<Seq<char>, Seq<char>>,
    key: Seq<char>,
    value: Seq<char>,
    n: nat,
)
    requires
        !is_knob(key),
        n <= KNOB_COUNT,
    ensures
        args_upto(m.insert(key, value), n) == args_upto(m, n),
    decreases n,
{
    if n > 0 {
        law_an_unknown_name_reaches_nothing(m, key, value, (n - 1) as nat);
        if knob_row(n - 1).key@ == key {
            assert(is_row(n - 1, key));
        }
    }
}

// ---------------------------------------------------------------- validation

/// Spaces around a value do not count, and a value of nothing else is an unset knob.
pub proof fn law_a_blank_value_is_fine(k: Knob, value: Seq<char>)
    requires
        trimmed(value).len() == 0,
    ensures
        value_error(k, value) is None,
{
}

/// A value is judged by its kind: any text; `true` or `false`; a whole number of 64 bits
/// within its bounds; a number within its range; or one of the choices.
pub proof fn law_a_value_is_judged_by_its_kind(k: Knob, value: Seq<char>)
    requires
        trimmed(value).len() > 0,
        k.key@ != "quant_backend"@,
        k.key@ != "mm_processor_kwargs"@,
    ensures
        ({
            let v = trimmed(value);
            let fine = value_error(k, value) is None;
            match k.kind {
                Kind::Text => fine,
                Kind::Flag => fine <==> v == "true"@ || v == "false"@,
                Kind::Int { min, max } => fine <==> {
                    &&& signed_of(v) is Some
                    &&& i64::MIN <= signed_of(v)->0 <= i64::MAX
                    &&& min is Some ==> min->0 <= signed_of(v)->0
                    &&& max is Some ==> signed_of(v)->0 <= max->0
                },
                Kind::Float { from } => fine <==> real_of(v) is Some && lies_between(
                    real_of(v)->0,
                    from,
                ),
                Kind::Choice(options) => fine <==> words_of(options@).contains(v),
                Kind::Multi(options) => fine <==> {
                    &&& forall|i: int|
                        0 <= i < words_of(v).len() ==> words_of(options@).contains(
                            #[trigger] words_of(v)[i],
                        )
                    &&& forall|i: int, j: int|
                        0 <= i < j < words_of(v).len() ==> #[trigger] words_of(v)[i]
                            != #[trigger] words_of(v)[j]
                },
            }
        }),
{
    match k.kind {
        Kind::Multi(options) => {
            lemma_selection(words_of(trimmed(value)), words_of(options@), 0);
        },
        _ => {},
    }
}

proof fn lemma_selection(chosen: Seq<Seq<char>>, options: Seq<Seq<char>>, at: int)
    requires
        0 <= at <= chosen.len(),
    ensures
        selection_error(chosen, options, at) is None <==> {
            &&& forall|i: int| at <= i < chosen.len() ==> options.contains(#[trigger] chosen[i])
            &&& forall|i: int, j: int|
                0 <= i < j < chosen.len() && at <= j ==> #[trigger] chosen[i] != #[trigger] chosen[j]
        },
    decreases chosen.len() - at,
{
    if at < chosen.len() {
        lemma_selection(chosen, options, at + 1);
        assert(chosen.take(at).contains(chosen[at]) <==> exists|i: int|
            0 <= i < at && #[trigger] chosen[i] == chosen[at]) by {
            if chosen.take(at).contains(chosen[at]) {
                let i = chosen.take(at).index_of(chosen[at]);
                assert(chosen.take(at)[i] == chosen[at]);
                assert(chosen[i] == chosen[at]);
            }
            if exists|i: int| 0 <= i < at && #[trigger] chosen[i] == chosen[at] {
                let i = choose|i: int| 0 <= i < at && #[trigger] chosen[i] == chosen[at];
                assert(chosen.take(at)[i] == chosen[at]);
            }
        }
    }
}

/// A configuration is fine exactly when it names a model, knows every knob that it sets,
/// sets each to a value of its kind, sets no two that exclude each other, and asks for no
/// more image tokens at least than at most.
pub proof fn law_a_fine_configuration(m: Map<Seq<char>, Seq<char>>)
    ensures
        (forall|key: Seq<char>, msg: Seq<char>| !#[trigger] config_error(m, key, msg)) <==> {
            &&& m.dom().contains("model"@) && trimmed(m["model"@]).len() > 0
            &&& forall|key: Seq<char>| #[trigger]
                m.dom().contains(key) ==> find_knob(key) is Some && value_error(
                    find_knob(key)->0,
                    m[key],
                ) is None
            &&& forall|a: Seq<char>, b: Seq<char>|
                m.dom().contains(a) && m.dom().contains(b) ==> !#[trigger] excluded_by(a).contains(b)
            &&& image_budget(m) matches Some((lo, hi)) ==> lo <= hi
        },
{
    let fine = {
        &&& m.dom().contains("model"@) && trimmed(m["model"@]).len() > 0
        &&& forall|key: Seq<char>| #[trigger]
            m.dom().contains(key) ==> find_knob(key) is Some && value_error(find_knob(key)->0, m[key])
                is None
        &&& forall|a: Seq<char>, b: Seq<char>|
            m.dom().contains(a) && m.dom().contains(b) ==> !#[trigger] excluded_by(a).contains(b)
        &&& image_budget(m) matches Some((lo, hi)) ==> lo <= hi
    };
    if forall|key: Seq<char>, msg: Seq<char>| !#[trigger] config_error(m, key, msg) {
        assert(!config_error(m, "model"@, "a model path or repo id is required"@));
        assert forall|key: Seq<char>| #[trigger] m.dom().contains(key) implies find_knob(key)
            is Some && value_error(find_knob(key)->0, m[key]) is None by {
            assert(!config_error(m, key, "unknown knob"@));
            if find_knob(key) is Some && value_error(find_knob(key)->0, m[key]) is Some {
                let msg = value_error(find_knob(key)->0, m[key])->0;
                assert(stored_error(m, key, msg));
                assert(!config_error(m, key, msg));
            }
        }
        assert forall|a: Seq<char>, b: Seq<char>|
            m.dom().contains(a) && m.dom().contains(b) implies !#[trigger] excluded_by(a).contains(
            b,
        ) by {
            if excluded_by(a).contains(b) {
                let msg = "cannot be combined with "@ + crate::knobs::flag_of(b);
                assert(crate::knobs::clashes(m, a, b));
                assert(find_knob(a) is Some);
                assert(stored_error(m, a, msg));
                assert(!config_error(m, a, msg));
            }
        }
        match image_budget(m) {
            Some((lo, hi)) => {
                assert(!config_error(
                    m,
                    "image_min_tokens"@,
                    crate::text::dec_int(lo) + " is more than --image-max-tokens "@
                        + crate::text::dec_int(hi),
                ));
            },
            None => {},
        }
        assert(fine);
    }
    if fine {
        assert forall|key: Seq<char>, msg: Seq<char>| !#[trigger] config_error(m, key, msg) by {
            if config_error(m, key, msg) && m.dom().contains(key) && stored_error(m, key, msg) {
                let other = choose|other: Seq<char>| #[trigger]
                    crate::knobs::clashes(m, key, other) && msg == "cannot be combined with "@
                        + crate::knobs::flag_of(other);
                assert(excluded_by(key).contains(other));
            }
        }
    }
}

/// Both ways of sizing the KV cache exclude each other, and so do the three ways of sizing
/// the expert cache.
pub proof fn law_two_sizes_of_one_cache_exclude_each_other(a: Seq<char>, b: Seq<char>)
    requires
        a != b,
        Excludes::KvCapacity.keys().contains(a) && Excludes::KvCapacity.keys().contains(b)
            || Excludes::MoeCache.keys().contains(a) && Excludes::MoeCache.keys().contains(b),
    ensures
        excluded_by(a).contains(b),
        Excludes::KvCapacity.keys() == seq!["num_pages"@, "num_tokens"@],
        Excludes::MoeCache.keys() == seq!["moe_cache_size"@, "moe_cache_rate"@, "moe_cache_auto"@],
{
    if Excludes::KvCapacity.keys().contains(a) && Excludes::KvCapacity.keys().contains(b) {
        crate::knobs::law_exclusions_name_real_knobs(Excludes::KvCapacity, a);
    } else {
        crate::knobs::law_exclusions_name_real_knobs(Excludes::MoeCache, a);
    }
}

// ---------------------------------------------------------------- kernels

proof fn lemma_add_new(acc: Seq<Seq<char>>, more: Seq<Seq<char>>, w: Seq<char>)
    ensures
        add_new(acc, more).contains(w) <==> acc.contains(w) || more.contains(w),
    decreases more.len(),
{
    if more.len() > 0 {
        let init = more.drop_last();
        let last = more.last();
        lemma_add_new(acc, init, w);
        lemma_add_new(acc, init, last);
        let a = add_new(acc, init);
        assert(more.contains(w) <==> init.contains(w) || w == last) by {
            if more.contains(w) {
                let k = more.index_of(w);
                assert(more[k] == w);
                if k < init.len() {
                    assert(init[k] == w);
                }
            }
            if init.contains(w) {
                let k = init.index_of(w);
                assert(more[k] == w);
            }
            assert(more[more.len() - 1] == last);
        }
        if !a.contains(last) {
            assert(a.push(last).contains(w) <==> a.contains(w) || w == last) by {
                if a.push(last).contains(w) {
                    let k = a.push(last).index_of(w);
                    assert(a.push(last)[k] == w);
                    if k < a.len() {
                        assert(a[k] == w);
                    }
                }
                if a.contains(w) {
                    let k = a.index_of(w);
                    assert(a.push(last)[k] == w);
                }
                assert(a.push(last)[a.len() as int] == last);
            }
        }
    }
}

/// Row `i` of the kernel tables lists `w` for the layer, and for the kind if one is asked for.
pub open spec fn lists_kernel(i: int, layer: Seq<char>, kind: Option<Seq<char>>, w: Seq<char>) -> bool {
    &&& 0 <= i < 9
    &&& QUANT_ROWS@[i].0@ == layer
    &&& kind is Some ==> QUANT_ROWS@[i].1@ == kind->0
    &&& words_of(QUANT_ROWS@[i].2@).contains(w)
}

proof fn lemma_kernels(layer: Seq<char>, kind: Option<Seq<char>>, n: nat, w: Seq<char>)
    requires
        n <= 9,
    ensures
        kernels_upto(layer, kind, n).contains(w) <==> exists|i: int|
            i < n && #[trigger] lists_kernel(i, layer, kind, w),
    decreases n,
{
    if n > 0 {
        let p = (n - 1) as nat;
        lemma_kernels(layer, kind, p, w);
        lemma_add_new(kernels_upto(layer, kind, p), words_of(QUANT_ROWS@[p as int].2@), w);
        if exists|i: int| i < n && #[trigger] lists_kernel(i, layer, kind, w) {
            let i = choose|i: int| i < n && #[trigger] lists_kernel(i, layer, kind, w);
            if i < p {
                assert(i < p && lists_kernel(i, layer, kind, w));
            }
        }
        if kernels_upto(layer, kind, n).contains(w) && !kernels_upto(layer, kind, p).contains(w) {
            assert(lists_kernel(p as int, layer, kind, w));
        }
    }
}

/// A kernel is accepted exactly when a table of its layer lists it, of the kind that is named
/// or of any kind where none is.
pub proof fn law_a_listed_kernel_is_accepted(
    key: Seq<char>,
    wanted: Seq<char>,
    shown_layer: Seq<char>,
    shown_kernel: Seq<char>,
)
    ensures
        ({
            let (layer, kind) = layer_and_kind(key);
            kernel_error(key, wanted, shown_layer, shown_kernel) is None <==> (layer == "linear"@
                || layer == "moe"@) && exists|i: int| #[trigger]
                lists_kernel(i, layer, kind, wanted)
        }),
{
    let (layer, kind) = layer_and_kind(key);
    lemma_kernels(layer, kind, 9, wanted);
    if exists|i: int| #[trigger] lists_kernel(i, layer, kind, wanted) {
        let i = choose|i: int| #[trigger] lists_kernel(i, layer, kind, wanted);
        assert(i < 9 && lists_kernel(i, layer, kind, wanted));
        assert(kernels(layer, kind).contains(wanted));
        assert(kernels(layer, kind).len() > 0);
    }
}

/// The key of an entry names a layer and, behind a dot, a kind; spaces do not count.
pub proof fn law_an_entry_names_a_layer_and_a_kind(layer: Seq<char>, kind: Seq<char>)
    requires
        !layer.contains('.'),
        trimmed(layer + seq!['.'] + kind) == layer + seq!['.'] + kind,
        trimmed(layer) == layer,
        trimmed(kind) == kind,
    ensures
        layer_and_kind(layer + seq!['.'] + kind) == (layer, Some(kind)),
        layer_and_kind(layer) == (layer, None::<Seq<char>>),
{
    lemma_cut(layer, kind, '.');
}

proof fn lemma_position(a: Seq<char>, b: Seq<char>, sep: char)
    requires
        !a.contains(sep),
    ensures
        crate::text::position(a + seq![sep] + b, sep) == a.len(),
        crate::text::position(a, sep) == a.len(),
    decreases a.len(),
{
    let s = a + seq![sep] + b;
    if a.len() > 0 {
        let tail = a.drop_first();
        assert(a.contains(a[0]));
        assert forall|i: int| 0 <= i < tail.len() implies tail[i] != sep by {
            assert(a.contains(a[i + 1]));
        }
        lemma_position(tail, b, sep);
        assert(s.drop_first() =~= tail + seq![sep] + b);
    } else {
        assert(s[0] == sep);
    }
}

proof fn lemma_cut(a: Seq<char>, b: Seq<char>, sep: char)
    requires
        !a.contains(sep),
    ensures
        cut(a + seq![sep] + b, sep) == Some((a, b)),
        cut(a, sep) is None,
{
    let s = a + seq![sep] + b;
    lemma_position(a, b, sep);
    assert(s.take(a.len() as int) =~= a);
    assert(s.skip((a.len() + 1) as int) =~= b);
}

/// A list of entries is fine exactly when each of them is.
pub proof fn law_every_entry_is_judged(entries: Seq<Seq<char>>)
    ensures
        entries_error(entries) is None <==> forall|i: int|
            0 <= i < entries.len() ==> entry_error(#[trigger] entries[i]) is None,
    decreases entries.len(),
{
    if entries.len() > 0 {
        let tail = entries.drop_first();
        law_every_entry_is_judged(tail);
        if entry_error(entries[0]) is None && forall|i: int|
            0 <= i < tail.len() ==> entry_error(#[trigger] tail[i]) is None {
            assert forall|i: int| 0 <= i < entries.len() implies entry_error(#[trigger] entries[i])
                is None by {
                if i > 0 {
                    assert(tail[i - 1] == entries[i]);
                }
            }
        }
        if forall|i: int| 0 <= i < entries.len() ==> entry_error(#[trigger] entries[i]) is None {
            assert forall|i: int| 0 <= i < tail.len() implies entry_error(#[trigger] tail[i])
                is None by {
                assert(tail[i] == entries[i + 1]);
            }
        }
    }
}

// ---------------------------------------------------------------- older profiles

/// What was saved under a retired name is carried over under its new one, unless that is
/// set: the strategy as it was, and the kernel under the name that it has today.
pub proof fn law_migration_carries_settings_over(m: Map<Seq<char>, Seq<char>>, v: Seq<char>)
    ensures
        value_of(m, "moe_backend"@) == Some(v) && !m.dom().contains("moe_strategy"@) ==> value_of(
            migrated(m),
            "moe_strategy"@,
        ) == Some(v),
        !m.dom().contains("moe_backend"@) && !m.dom().contains("moe_strategy"@) ==> !migrated(
            m,
        ).dom().contains("moe_strategy"@),
        value_of(m, "nvfp4_backend"@) == Some("flashinfer"@) && !m.dom().contains(
            "quant_backend"@,
        ) ==> value_of(migrated(m), "quant_backend"@) == Some("moe.nvfp4="@ + "b12x"@),
        value_of(m, "nvfp4_backend"@) == Some("auto"@) && !m.dom().contains("quant_backend"@)
            ==> !migrated(m).dom().contains("quant_backend"@),
        value_of(m, "nvfp4_backend"@) == Some(v) && v != "flashinfer"@ && v != "auto"@ && v.len()
            > 0 && !m.dom().contains("quant_backend"@) ==> value_of(migrated(m), "quant_backend"@)
            == Some("moe.nvfp4="@ + v),
{
    reveal_strlit("moe_backend");
    reveal_strlit("nvfp4_backend");
    reveal_strlit("moe_strategy");
    reveal_strlit("quant_backend");
    reveal_strlit("flashinfer");
    reveal_strlit("auto");
    reveal_strlit("b12x");
    reveal_strlit("");
    assert("moe_backend"@.len() == 11 && "nvfp4_backend"@.len() == 13 && "moe_strategy"@.len()
        == 12 && "quant_backend"@.len() == 13);
    assert("nvfp4_backend"@[0] != "quant_backend"@[0]);
    assert("flashinfer"@.len() == 10 && "auto"@.len() == 4 && "b12x"@.len() == 4);
}

/// An entry without an equals sign is wrong; a blank one is passed over.
pub proof fn law_an_entry_needs_its_equals_sign(entry: Seq<char>)
    ensures
        trimmed(entry).len() == 0 ==> entry_error(entry) is None,
        trimmed(entry).len() > 0 && !trimmed(entry).contains('=') ==> entry_error(entry) is Some,
{
    let item = trimmed(entry);
    if !item.contains('=') {
        crate::text::lemma_position(item, '=');
    }
}

/// A whole number is fine for its knob exactly when it lies within the bounds of its row.
pub proof fn law_a_number_is_fine_within_its_row(
    k: Knob,
    options: &'static str,
    lo: i64,
    hi: i64,
    n: i64,
)
    requires
        k.kind == kind_of(KindTag::Int, options, lo, hi),
        k.key@ != "quant_backend"@,
        k.key@ != "mm_processor_kwargs"@,
    ensures
        value_error(k, dec_int(n as int)) is None <==> lo <= n <= hi,
{
    let w = dec_int(n as int);
    let m: nat = if n < 0 {
        (-n) as nat
    } else {
        n as nat
    };
    crate::laws::text::law_a_numeral_is_one_word(m);
    assert forall|i: int| 0 <= i < w.len() implies !is_space(#[trigger] w[i]) by {
        if n < 0 && i > 0 {
            assert(w[i] == dec(m)[i - 1]);
        }
    }
    crate::laws::text::law_trimming_leaves_the_core(Seq::empty(), w, Seq::empty());
    crate::laws::text::law_a_signed_numeral_reads_back(n as int);
    law_a_value_is_judged_by_its_kind(k, dec_int(n as int));
}

/// A configuration that is fine has no first complaint. The first complaint of any other is
/// one of its complaints, and every other stands behind it, by its key and then by what it
/// says.
pub proof fn law_the_first_complaint_is_one(
    m: Map<Seq<char>, Seq<char>>,
    key: Seq<char>,
    msg: Seq<char>,
)
    ensures
        (forall|k: Seq<char>, w: Seq<char>| !#[trigger] config_error(m, k, w)) ==> first_error(m)
            is None,
        first_error(m) is Some ==> config_error(m, (first_error(m)->0).0, (first_error(m)->0).1),
        first_error(m) is Some && config_error(m, key, msg) ==> {
            let p = first_error(m)->0;
            (key, msg) == p || lt(p.0, key) || p.0 == key && lt(p.1, msg)
        },
{
}

proof fn lemma_least(s: Set<(Seq<char>, Seq<char>)>) -> (p: (Seq<char>, Seq<char>))
    requires
        s.finite(),
        s.len() > 0,
    ensures
        s.contains(p),
        forall|q: (Seq<char>, Seq<char>)| #[trigger] s.contains(q) ==> q == p || pair_lt(p, q),
    decreases s.len(),
{
    let x = s.choose();
    let rest = s.remove(x);
    if rest.len() == 0 {
        assert forall|q: (Seq<char>, Seq<char>)| #[trigger] s.contains(q) implies q == x || pair_lt(
            x,
            q,
        ) by {
            if q != x {
                assert(rest.contains(q));
                assert(rest.remove(q).len() == rest.len() - 1);
            }
        }
        x
    } else {
        let y = lemma_least(rest);
        crate::text::lemma_lt_total(x.0, y.0);
        crate::text::lemma_lt_total(x.1, y.1);
        if pair_lt(x, y) {
            assert forall|q: (Seq<char>, Seq<char>)| #[trigger] s.contains(q) implies q == x
                || pair_lt(x, q) by {
                if q != x {
                    assert(rest.contains(q));
                    if q != y {
                        lemma_pairs_chain(x, y, q);
                    }
                }
            }
            x
        } else {
            assert(x == y || pair_lt(y, x));
            assert forall|q: (Seq<char>, Seq<char>)| #[trigger] s.contains(q) implies q == y
                || pair_lt(y, q) by {
                if q != x {
                    assert(rest.contains(q));
                }
            }
            y
        }
    }
}

proof fn lemma_pairs_chain(
    a: (Seq<char>, Seq<char>),
    b: (Seq<char>, Seq<char>),
    c: (Seq<char>, Seq<char>),
)
    requires
        pair_lt(a, b),
        pair_lt(b, c),
    ensures
        pair_lt(a, c),
{
    if lt(a.0, b.0) && lt(b.0, c.0) {
        crate::text::lemma_lt_transitive(a.0, b.0, c.0);
    } else if a.0 == b.0 && b.0 == c.0 {
        crate::text::lemma_lt_transitive(a.1, b.1, c.1);
    }
}

/// What a key that excludes another is told.
spec fn told(m: Map<Seq<char>, Seq<char>>, other: Seq<char>) -> Set<(Seq<char>, Seq<char>)> {
    m.dom().map(|k: Seq<char>| (k, "cannot be combined with "@ + flag_of(other)))
}

/// Everything that could be said of a configuration.
spec fn sayable(m: Map<Seq<char>, Seq<char>>) -> Set<(Seq<char>, Seq<char>)> {
    let budget = image_budget(m)->0;
    Set::empty().insert(("model"@, "a model path or repo id is required"@)).insert(
        (
            "image_min_tokens"@,
            dec_int(budget.0) + " is more than --image-max-tokens "@ + dec_int(budget.1),
        ),
    ).union(m.dom().map(|k: Seq<char>| (k, "unknown knob"@))).union(
        m.dom().map(|k: Seq<char>| (k, value_error(find_knob(k)->0, m[k])->0)),
    ).union(told(m, "num_pages"@)).union(told(m, "num_tokens"@)).union(
        told(m, "moe_cache_size"@),
    ).union(told(m, "moe_cache_rate"@)).union(told(m, "moe_cache_auto"@))
}

/// A configuration with anything to complain about has a first complaint.
pub proof fn law_a_faulty_configuration_has_a_first_complaint(
    m: Map<Seq<char>, Seq<char>>,
    key: Seq<char>,
    msg: Seq<char>,
)
    requires
        m.dom().finite(),
        config_error(m, key, msg),
    ensures
        first_error(m) is Some,
{
    let all = sayable(m);
    let errors = Set::new(|p: (Seq<char>, Seq<char>)| config_error(m, p.0, p.1));
    let d = m.dom();
    d.lemma_map_finite(|k: Seq<char>| (k, "unknown knob"@));
    d.lemma_map_finite(|k: Seq<char>| (k, value_error(find_knob(k)->0, m[k])->0));
    lemma_told(m, "num_pages"@);
    lemma_told(m, "num_tokens"@);
    lemma_told(m, "moe_cache_size"@);
    lemma_told(m, "moe_cache_rate"@);
    lemma_told(m, "moe_cache_auto"@);
    assert(all.finite());
    assert forall|p: (Seq<char>, Seq<char>)| errors.contains(p) implies all.contains(p) by {
        lemma_sayable(m, p.0, p.1);
    }
    vstd::set_lib::lemma_set_subset_finite(all, errors);
    assert(errors.contains((key, msg)));
    assert(errors.len() > 0) by {
        assert(errors.remove((key, msg)).len() < errors.len());
    }
    let p = lemma_least(errors);
    assert forall|k: Seq<char>, w: Seq<char>| #[trigger] config_error(m, k, w) implies (k, w) == p
        || pair_lt(p, (k, w)) by {
        assert(errors.contains((k, w)));
    }
    assert(crate::knobs::is_first_error(m, p));
}

proof fn lemma_told(m: Map<Seq<char>, Seq<char>>, other: Seq<char>)
    requires
        m.dom().finite(),
    ensures
        told(m, other).finite(),
        forall|k: Seq<char>| #[trigger]
            m.dom().contains(k) ==> told(m, other).contains(
                (k, "cannot be combined with "@ + flag_of(other)),
            ),
{
    m.dom().lemma_map_finite(|k: Seq<char>| (k, "cannot be combined with "@ + flag_of(other)));
}

proof fn lemma_sayable(m: Map<Seq<char>, Seq<char>>, key: Seq<char>, msg: Seq<char>)
    requires
        m.dom().finite(),
        config_error(m, key, msg),
    ensures
        sayable(m).contains((key, msg)),
{
    lemma_told(m, "num_pages"@);
    lemma_told(m, "num_tokens"@);
    lemma_told(m, "moe_cache_size"@);
    lemma_told(m, "moe_cache_rate"@);
    lemma_told(m, "moe_cache_auto"@);
    if m.dom().contains(key) && stored_error(m, key, msg) {
        if find_knob(key) is None {
            assert(m.dom().map(|k: Seq<char>| (k, "unknown knob"@)).contains((key, msg)));
        } else if value_error(find_knob(key)->0, m[key]) == Some(msg) {
            assert(m.dom().map(
                |k: Seq<char>| (k, value_error(find_knob(k)->0, m[k])->0),
            ).contains((key, msg)));
        } else {
            let other = choose|other: Seq<char>| #[trigger]
                crate::knobs::clashes(m, key, other) && msg == "cannot be combined with "@
                    + flag_of(other);
            let keys = find_knob(key)->0.exclusive_with.keys();
            assert(keys.to_set().contains(other));
            let i = keys.index_of(other);
            assert(keys[i] == other);
        }
    }
}

} // verus!
