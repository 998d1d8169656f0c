//! The options of the knobs that are a choice, as the table spells them: each option once.

use vstd::prelude::*;
use vstd::string::*;
use crate::knobs::KNOB_ROWS;
use crate::text::{is_space, lemma_word_at, words_of, words_so_far};

verus! {

/// One more option, different from those before it, behind a space or at the start.
proof fn lemma_option(s: Seq<char>, done: Seq<Seq<char>>, from: int, to: int)
    requires
        0 <= from < to <= s.len(),
        words_so_far(s.take(from)) == (done, Seq::<char>::empty()),
        forall|i: int| from <= i < to ==> !is_space(#[trigger] s[i]),
        to < s.len() ==> is_space(s[to]),
        done.no_duplicates(),
        forall|i: int| 0 <= i < done.len() ==> #[trigger] done[i] != s.subrange(from, to),
    ensures
        done.push(s.subrange(from, to)).no_duplicates(),
        to < s.len() ==> words_so_far(s.take(to + 1)) == (
            done.push(s.subrange(from, to)),
            Seq::<char>::empty(),
        ),
        to == s.len() ==> words_of(s) == done.push(s.subrange(from, to)),
{
    lemma_word_at(s, done, from, to);
}

pub(crate) proof fn lemma_options_of_dtype()
    ensures
        words_of(KNOB_ROWS@[2].5@).no_duplicates(),
        words_of(KNOB_ROWS@[2].5@).len() == 4,
{
    let s = "auto bfloat16 float16 float32"@;
    reveal_strlit("auto bfloat16 float16 float32");
    assert(s.take(0) =~= Seq::<char>::empty());
    let d0 = Seq::<Seq<char>>::empty();
    let w0 = s.subrange(0, 4);
    assert forall|i: int| 0 <= i < 4 implies !is_space(#[trigger] s[i]) by {
        assert(i == 0 || i == 1 || i == 2 || i == 3);
    }
    lemma_option(s, d0, 0, 4);
    let d1 = d0.push(w0);
    let w1 = s.subrange(5, 13);
    assert forall|i: int| 5 <= i < 13 implies !is_space(#[trigger] s[i]) by {
        assert(i == 5 || i == 6 || i == 7 || i == 8 || i == 9 || i == 10 || i == 11 || i == 12);
    }
    assert(w0.len() != w1.len());
    assert forall|i: int| 0 <= i < 1 implies #[trigger] d1[i] != w1 by {
        assert((i == 0 && d1[0] == w0));
    }
    lemma_option(s, d1, 5, 13);
    let d2 = d1.push(w1);
    let w2 = s.subrange(14, 21);
    assert forall|i: int| 14 <= i < 21 implies !is_space(#[trigger] s[i]) by {
        assert(i == 14 || i == 15 || i == 16 || i == 17 || i == 18 || i == 19 || i == 20);
    }
    assert(w0.len() != w2.len());
    assert(w1.len() != w2.len());
    assert forall|i: int| 0 <= i < 2 implies #[trigger] d2[i] != w2 by {
        assert((i == 0 && d2[0] == w0) || (i == 1 && d2[1] == w1));
    }
    lemma_option(s, d2, 14, 21);
    let d3 = d2.push(w2);
    let w3 = s.subrange(22, 29);
    assert forall|i: int| 22 <= i < 29 implies !is_space(#[trigger] s[i]) by {
        assert(i == 22 || i == 23 || i == 24 || i == 25 || i == 26 || i == 27 || i == 28);
    }
    assert(w0.len() != w3.len());
    assert(w1.len() != w3.len());
    assert(w2[5] != w3[5]);
    assert forall|i: int| 0 <= i < 3 implies #[trigger] d3[i] != w3 by {
        assert((i == 0 && d3[0] == w0) || (i == 1 && d3[1] == w1) || (i == 2 && d3[2] == w2));
    }
    lemma_option(s, d3, 22, 29);
}

pub(crate) proof fn lemma_options_of_model_source()
    ensures
        words_of(KNOB_ROWS@[3].5@).no_duplicates(),
        words_of(KNOB_ROWS@[3].5@).len() == 2,
{
    let s = "huggingface modelscope"@;
    reveal_strlit("huggingface modelscope");
    assert(s.take(0) =~= Seq::<char>::empty());
    let d0 = Seq::<Seq<char>>::empty();
    let w0 = s.subrange(0, 11);
    assert forall|i: int| 0 <= i < 11 implies !is_space(#[trigger] s[i]) by {
        assert(i == 0 || i == 1 || i == 2 || i == 3 || i == 4 || i == 5 || i == 6 || i == 7 || i == 8 || i == 9 || i == 10);
    }
    lemma_option(s, d0, 0, 11);
    let d1 = d0.push(w0);
    let w1 = s.subrange(12, 22);
    assert forall|i: int| 12 <= i < 22 implies !is_space(#[trigger] s[i]) by {
        assert(i == 12 || i == 13 || i == 14 || i == 15 || i == 16 || i == 17 || i == 18 || i == 19 || i == 20 || i == 21);
    }
    assert(w0.len() != w1.len());
    assert forall|i: int| 0 <= i < 1 implies #[trigger] d1[i] != w1 by {
        assert((i == 0 && d1[0] == w0));
    }
    lemma_option(s, d1, 12, 22);
}

pub(crate) proof fn lemma_options_of_cache_type()
    ensures
        words_of(KNOB_ROWS@[22].5@).no_duplicates(),
        words_of(KNOB_ROWS@[22].5@).len() == 2,
{
    let s = "radix naive"@;
    reveal_strlit("radix naive");
    assert(s.take(0) =~= Seq::<char>::empty());
    let d0 = Seq::<Seq<char>>::empty();
    let w0 = s.subrange(0, 5);
    assert forall|i: int| 0 <= i < 5 implies !is_space(#[trigger] s[i]) by {
        assert(i == 0 || i == 1 || i == 2 || i == 3 || i == 4);
    }
    lemma_option(s, d0, 0, 5);
    let d1 = d0.push(w0);
    let w1 = s.subrange(6, 11);
    assert forall|i: int| 6 <= i < 11 implies !is_space(#[trigger] s[i]) by {
        assert(i == 6 || i == 7 || i == 8 || i == 9 || i == 10);
    }
    assert(w0[0] != w1[0]);
    assert forall|i: int| 0 <= i < 1 implies #[trigger] d1[i] != w1 by {
        assert((i == 0 && d1[0] == w0));
    }
    lemma_option(s, d1, 6, 11);
}

pub(crate) proof fn lemma_options_of_attention_backend()
    ensures
        words_of(KNOB_ROWS@[23].5@).no_duplicates(),
        words_of(KNOB_ROWS@[23].5@).len() == 9,
{
    let s = "auto trtllm fi fa triton dsv4_sparse dsa m3_sparse qsa_sparse"@;
    reveal_strlit("auto trtllm fi fa triton dsv4_sparse dsa m3_sparse qsa_sparse");
    assert(s.take(0) =~= Seq::<char>::empty());
    let d0 = Seq::<Seq<char>>::empty();
    let w0 = s.subrange(0, 4);
    assert forall|i: int| 0 <= i < 4 implies !is_space(#[trigger] s[i]) by {
        assert(i == 0 || i == 1 || i == 2 || i == 3);
    }
    lemma_option(s, d0, 0, 4);
    let d1 = d0.push(w0);
    let w1 = s.subrange(5, 11);
    assert forall|i: int| 5 <= i < 11 implies !is_space(#[trigger] s[i]) by {
        assert(i == 5 || i == 6 || i == 7 || i == 8 || i == 9 || i == 10);
    }
    assert(w0.len() != w1.len());
    assert forall|i: int| 0 <= i < 1 implies #[trigger] d1[i] != w1 by {
        assert((i == 0 && d1[0] == w0));
    }
    lemma_option(s, d1, 5, 11);
    let d2 = d1.push(w1);
    let w2 = s.subrange(12, 14);
    assert forall|i: int| 12 <= i < 14 implies !is_space(#[trigger] s[i]) by {
        assert(i == 12 || i == 13);
    }
    assert(w0.len() != w2.len());
    assert(w1.len() != w2.len());
    assert forall|i: int| 0 <= i < 2 implies #[trigger] d2[i] != w2 by {
        assert((i == 0 && d2[0] == w0) || (i == 1 && d2[1] == w1));
    }
    lemma_option(s, d2, 12, 14);
    let d3 = d2.push(w2);
    let w3 = s.subrange(15, 17);
    assert forall|i: int| 15 <= i < 17 implies !is_space(#[trigger] s[i]) by {
        assert(i == 15 || i == 16);
    }
    assert(w0.len() != w3.len());
    assert(w1.len() != w3.len());
    assert(w2[1] != w3[1]);
    assert forall|i: int| 0 <= i < 3 implies #[trigger] d3[i] != w3 by {
        assert((i == 0 && d3[0] == w0) || (i == 1 && d3[1] == w1) || (i == 2 && d3[2] == w2));
    }
    lemma_option(s, d3, 15, 17);
    let d4 = d3.push(w3);
    let w4 = s.subrange(18, 24);
    assert forall|i: int| 18 <= i < 24 implies !is_space(#[trigger] s[i]) by {
        assert(i == 18 || i == 19 || i == 20 || i == 21 || i == 22 || i == 23);
    }
    assert(w0.len() != w4.len());
    assert(w1[2] != w4[2]);
    assert(w2.len() != w4.len());
    assert(w3.len() != w4.len());
    assert forall|i: int| 0 <= i < 4 implies #[trigger] d4[i] != w4 by {
        assert((i == 0 && d4[0] == w0) || (i == 1 && d4[1] == w1) || (i == 2 && d4[2] == w2) || (i == 3 && d4[3] == w3));
    }
    lemma_option(s, d4, 18, 24);
    let d5 = d4.push(w4);
    let w5 = s.subrange(25, 36);
    assert forall|i: int| 25 <= i < 36 implies !is_space(#[trigger] s[i]) by {
        assert(i == 25 || i == 26 || i == 27 || i == 28 || i == 29 || i == 30 || i == 31 || i == 32 || i == 33 || i == 34 || i == 35);
    }
    assert(w0.len() != w5.len());
    assert(w1.len() != w5.len());
    assert(w2.len() != w5.len());
    assert(w3.len() != w5.len());
    assert(w4.len() != w5.len());
    assert forall|i: int| 0 <= i < 5 implies #[trigger] d5[i] != w5 by {
        assert((i == 0 && d5[0] == w0) || (i == 1 && d5[1] == w1) || (i == 2 && d5[2] == w2) || (i == 3 && d5[3] == w3) || (i == 4 && d5[4] == w4));
    }
    lemma_option(s, d5, 25, 36);
    let d6 = d5.push(w5);
    let w6 = s.subrange(37, 40);
    assert forall|i: int| 37 <= i < 40 implies !is_space(#[trigger] s[i]) by {
        assert(i == 37 || i == 38 || i == 39);
    }
    assert(w0.len() != w6.len());
    assert(w1.len() != w6.len());
    assert(w2.len() != w6.len());
    assert(w3.len() != w6.len());
    assert(w4.len() != w6.len());
    assert(w5.len() != w6.len());
    assert forall|i: int| 0 <= i < 6 implies #[trigger] d6[i] != w6 by {
        assert((i == 0 && d6[0] == w0) || (i == 1 && d6[1] == w1) || (i == 2 && d6[2] == w2) || (i == 3 && d6[3] == w3) || (i == 4 && d6[4] == w4) || (i == 5 && d6[5] == w5));
    }
    lemma_option(s, d6, 37, 40);
    let d7 = d6.push(w6);
    let w7 = s.subrange(41, 50);
    assert forall|i: int| 41 <= i < 50 implies !is_space(#[trigger] s[i]) by {
        assert(i == 41 || i == 42 || i == 43 || i == 44 || i == 45 || i == 46 || i == 47 || i == 48 || i == 49);
    }
    assert(w0.len() != w7.len());
    assert(w1.len() != w7.len());
    assert(w2.len() != w7.len());
    assert(w3.len() != w7.len());
    assert(w4.len() != w7.len());
    assert(w5.len() != w7.len());
    assert(w6.len() != w7.len());
    assert forall|i: int| 0 <= i < 7 implies #[trigger] d7[i] != w7 by {
        assert((i == 0 && d7[0] == w0) || (i == 1 && d7[1] == w1) || (i == 2 && d7[2] == w2) || (i == 3 && d7[3] == w3) || (i == 4 && d7[4] == w4) || (i == 5 && d7[5] == w5) || (i == 6 && d7[6] == w6));
    }
    lemma_option(s, d7, 41, 50);
    let d8 = d7.push(w7);
    let w8 = s.subrange(51, 61);
    assert forall|i: int| 51 <= i < 61 implies !is_space(#[trigger] s[i]) by {
        assert(i == 51 || i == 52 || i == 53 || i == 54 || i == 55 || i == 56 || i == 57 || i == 58 || i == 59 || i == 60);
    }
    assert(w0.len() != w8.len());
    assert(w1.len() != w8.len());
    assert(w2.len() != w8.len());
    assert(w3.len() != w8.len());
    assert(w4.len() != w8.len());
    assert(w5.len() != w8.len());
    assert(w6.len() != w8.len());
    assert(w7.len() != w8.len());
    assert forall|i: int| 0 <= i < 8 implies #[trigger] d8[i] != w8 by {
        assert((i == 0 && d8[0] == w0) || (i == 1 && d8[1] == w1) || (i == 2 && d8[2] == w2) || (i == 3 && d8[3] == w3) || (i == 4 && d8[4] == w4) || (i == 5 && d8[5] == w5) || (i == 6 && d8[6] == w6) || (i == 7 && d8[7] == w7));
    }
    lemma_option(s, d8, 51, 61);
}

pub(crate) proof fn lemma_options_of_moe_strategy()
    ensures
        words_of(KNOB_ROWS@[25].5@).no_duplicates(),
        words_of(KNOB_ROWS@[25].5@).len() == 5,
{
    let s = "auto offload hybrid cpu fused"@;
    reveal_strlit("auto offload hybrid cpu fused");
    assert(s.take(0) =~= Seq::<char>::empty());
    let d0 = Seq::<Seq<char>>::empty();
    let w0 = s.subrange(0, 4);
    assert forall|i: int| 0 <= i < 4 implies !is_space(#[trigger] s[i]) by {
        assert(i == 0 || i == 1 || i == 2 || i == 3);
    }
    lemma_option(s, d0, 0, 4);
    let d1 = d0.push(w0);
    let w1 = s.subrange(5, 12);
    assert forall|i: int| 5 <= i < 12 implies !is_space(#[trigger] s[i]) by {
        assert(i == 5 || i == 6 || i == 7 || i == 8 || i == 9 || i == 10 || i == 11);
    }
    assert(w0.len() != w1.len());
    assert forall|i: int| 0 <= i < 1 implies #[trigger] d1[i] != w1 by {
        assert((i == 0 && d1[0] == w0));
    }
    lemma_option(s, d1, 5, 12);
    let d2 = d1.push(w1);
    let w2 = s.subrange(13, 19);
    assert forall|i: int| 13 <= i < 19 implies !is_space(#[trigger] s[i]) by {
        assert(i == 13 || i == 14 || i == 15 || i == 16 || i == 17 || i == 18);
    }
    assert(w0.len() != w2.len());
    assert(w1.len() != w2.len());
    assert forall|i: int| 0 <= i < 2 implies #[trigger] d2[i] != w2 by {
        assert((i == 0 && d2[0] == w0) || (i == 1 && d2[1] == w1));
    }
    lemma_option(s, d2, 13, 19);
    let d3 = d2.push(w2);
    let w3 = s.subrange(20, 23);
    assert forall|i: int| 20 <= i < 23 implies !is_space(#[trigger] s[i]) by {
        assert(i == 20 || i == 21 || i == 22);
    }
    assert(w0.len() != w3.len());
    assert(w1.len() != w3.len());
    assert(w2.len() != w3.len());
    assert forall|i: int| 0 <= i < 3 implies #[trigger] d3[i] != w3 by {
        assert((i == 0 && d3[0] == w0) || (i == 1 && d3[1] == w1) || (i == 2 && d3[2] == w2));
    }
    lemma_option(s, d3, 20, 23);
    let d4 = d3.push(w3);
    let w4 = s.subrange(24, 29);
    assert forall|i: int| 24 <= i < 29 implies !is_space(#[trigger] s[i]) by {
        assert(i == 24 || i == 25 || i == 26 || i == 27 || i == 28);
    }
    assert(w0.len() != w4.len());
    assert(w1.len() != w4.len());
    assert(w2.len() != w4.len());
    assert(w3.len() != w4.len());
    assert forall|i: int| 0 <= i < 4 implies #[trigger] d4[i] != w4 by {
        assert((i == 0 && d4[0] == w0) || (i == 1 && d4[1] == w1) || (i == 2 && d4[2] == w2) || (i == 3 && d4[3] == w3));
    }
    lemma_option(s, d4, 24, 29);
}

pub(crate) proof fn lemma_options_of_moe_cache_policy()
    ensures
        words_of(KNOB_ROWS@[29].5@).no_duplicates(),
        words_of(KNOB_ROWS@[29].5@).len() == 1,
{
    let s = "lru"@;
    reveal_strlit("lru");
    assert(s.take(0) =~= Seq::<char>::empty());
    let d0 = Seq::<Seq<char>>::empty();
    let w0 = s.subrange(0, 3);
    assert forall|i: int| 0 <= i < 3 implies !is_space(#[trigger] s[i]) by {
        assert(i == 0 || i == 1 || i == 2);
    }
    lemma_option(s, d0, 0, 3);
}

pub(crate) proof fn lemma_options_of_expert_load()
    ensures
        words_of(KNOB_ROWS@[34].5@).no_duplicates(),
        words_of(KNOB_ROWS@[34].5@).len() == 3,
{
    let s = "auto parallel serial"@;
    reveal_strlit("auto parallel serial");
    assert(s.take(0) =~= Seq::<char>::empty());
    let d0 = Seq::<Seq<char>>::empty();
    let w0 = s.subrange(0, 4);
    assert forall|i: int| 0 <= i < 4 implies !is_space(#[trigger] s[i]) by {
        assert(i == 0 || i == 1 || i == 2 || i == 3);
    }
    lemma_option(s, d0, 0, 4);
    let d1 = d0.push(w0);
    let w1 = s.subrange(5, 13);
    assert forall|i: int| 5 <= i < 13 implies !is_space(#[trigger] s[i]) by {
        assert(i == 5 || i == 6 || i == 7 || i == 8 || i == 9 || i == 10 || i == 11 || i == 12);
    }
    assert(w0.len() != w1.len());
    assert forall|i: int| 0 <= i < 1 implies #[trigger] d1[i] != w1 by {
        assert((i == 0 && d1[0] == w0));
    }
    lemma_option(s, d1, 5, 13);
    let d2 = d1.push(w1);
    let w2 = s.subrange(14, 20);
    assert forall|i: int| 14 <= i < 20 implies !is_space(#[trigger] s[i]) by {
        assert(i == 14 || i == 15 || i == 16 || i == 17 || i == 18 || i == 19);
    }
    assert(w0.len() != w2.len());
    assert(w1.len() != w2.len());
    assert forall|i: int| 0 <= i < 2 implies #[trigger] d2[i] != w2 by {
        assert((i == 0 && d2[0] == w0) || (i == 1 && d2[1] == w1));
    }
    lemma_option(s, d2, 14, 20);
}

pub(crate) proof fn lemma_options_of_ple_backend()
    ensures
        words_of(KNOB_ROWS@[35].5@).no_duplicates(),
        words_of(KNOB_ROWS@[35].5@).len() == 2,
{
    let s = "disk pinned"@;
    reveal_strlit("disk pinned");
    assert(s.take(0) =~= Seq::<char>::empty());
    let d0 = Seq::<Seq<char>>::empty();
    let w0 = s.subrange(0, 4);
    assert forall|i: int| 0 <= i < 4 implies !is_space(#[trigger] s[i]) by {
        assert(i == 0 || i == 1 || i == 2 || i == 3);
    }
    lemma_option(s, d0, 0, 4);
    let d1 = d0.push(w0);
    let w1 = s.subrange(5, 11);
    assert forall|i: int| 5 <= i < 11 implies !is_space(#[trigger] s[i]) by {
        assert(i == 5 || i == 6 || i == 7 || i == 8 || i == 9 || i == 10);
    }
    assert(w0.len() != w1.len());
    assert forall|i: int| 0 <= i < 1 implies #[trigger] d1[i] != w1 by {
        assert((i == 0 && d1[0] == w0));
    }
    lemma_option(s, d1, 5, 11);
}

pub(crate) proof fn lemma_options_of_tool_call_parser()
    ensures
        words_of(KNOB_ROWS@[38].5@).no_duplicates(),
        words_of(KNOB_ROWS@[38].5@).len() == 13,
{
    let s = "auto llama3 qwen qwen25 qwen3_coder mistral deepseekv32 gemma4 glm47 minimax minimax_m3 muse_glimmer gpt_oss"@;
    reveal_strlit("auto llama3 qwen qwen25 qwen3_coder mistral deepseekv32 gemma4 glm47 minimax minimax_m3 muse_glimmer gpt_oss");
    assert(s.take(0) =~= Seq::<char>::empty());
    let d0 = Seq::<Seq<char>>::empty();
    let w0 = s.subrange(0, 4);
    assert forall|i: int| 0 <= i < 4 implies !is_space(#[trigger] s[i]) by {
        assert(i == 0 || i == 1 || i == 2 || i == 3);
    }
    lemma_option(s, d0, 0, 4);
    let d1 = d0.push(w0);
    let w1 = s.subrange(5, 11);
    assert forall|i: int| 5 <= i < 11 implies !is_space(#[trigger] s[i]) by {
        assert(i == 5 || i == 6 || i == 7 || i == 8 || i == 9 || i == 10);
    }
    assert(w0.len() != w1.len());
    assert forall|i: int| 0 <= i < 1 implies #[trigger] d1[i] != w1 by {
        assert((i == 0 && d1[0] == w0));
    }
    lemma_option(s, d1, 5, 11);
    let d2 = d1.push(w1);
    let w2 = s.subrange(12, 16);
    assert forall|i: int| 12 <= i < 16 implies !is_space(#[trigger] s[i]) by {
        assert(i == 12 || i == 13 || i == 14 || i == 15);
    }
    assert(w0[0] != w2[0]);
    assert(w1.len() != w2.len());
    assert forall|i: int| 0 <= i < 2 implies #[trigger] d2[i] != w2 by {
        assert((i == 0 && d2[0] == w0) || (i == 1 && d2[1] == w1));
    }
    lemma_option(s, d2, 12, 16);
    let d3 = d2.push(w2);
    let w3 = s.subrange(17, 23);
    assert forall|i: int| 17 <= i < 23 implies !is_space(#[trigger] s[i]) by {
        assert(i == 17 || i == 18 || i == 19 || i == 20 || i == 21 || i == 22);
    }
    assert(w0.len() != w3.len());
    assert(w1[0] != w3[0]);
    assert(w2.len() != w3.len());
    assert forall|i: int| 0 <= i < 3 implies #[trigger] d3[i] != w3 by {
        assert((i == 0 && d3[0] == w0) || (i == 1 && d3[1] == w1) || (i == 2 && d3[2] == w2));
    }
    lemma_option(s, d3, 17, 23);
    let d4 = d3.push(w3);
    let w4 = s.subrange(24, 35);
    assert forall|i: int| 24 <= i < 35 implies !is_space(#[trigger] s[i]) by {
        assert(i == 24 || i == 25 || i == 26 || i == 27 || i == 28 || i == 29 || i == 30 || i == 31 || i == 32 || i == 33 || i == 34);
    }
    assert(w0.len() != w4.len());
    assert(w1.len() != w4.len());
    assert(w2.len() != w4.len());
    assert(w3.len() != w4.len());
    assert forall|i: int| 0 <= i < 4 implies #[trigger] d4[i] != w4 by {
        assert((i == 0 && d4[0] == w0) || (i == 1 && d4[1] == w1) || (i == 2 && d4[2] == w2) || (i == 3 && d4[3] == w3));
    }
    lemma_option(s, d4, 24, 35);
    let d5 = d4.push(w4);
    let w5 = s.subrange(36, 43);
    assert forall|i: int| 36 <= i < 43 implies !is_space(#[trigger] s[i]) by {
        assert(i == 36 || i == 37 || i == 38 || i == 39 || i == 40 || i == 41 || i == 42);
    }
    assert(w0.len() != w5.len());
    assert(w1.len() != w5.len());
    assert(w2.len() != w5.len());
    assert(w3.len() != w5.len());
    assert(w4.len() != w5.len());
    assert forall|i: int| 0 <= i < 5 implies #[trigger] d5[i] != w5 by {
        assert((i == 0 && d5[0] == w0) || (i == 1 && d5[1] == w1) || (i == 2 && d5[2] == w2) || (i == 3 && d5[3] == w3) || (i == 4 && d5[4] == w4));
    }
    lemma_option(s, d5, 36, 43);
    let d6 = d5.push(w5);
    let w6 = s.subrange(44, 55);
    assert forall|i: int| 44 <= i < 55 implies !is_space(#[trigger] s[i]) by {
        assert(i == 44 || i == 45 || i == 46 || i == 47 || i == 48 || i == 49 || i == 50 || i == 51 || i == 52 || i == 53 || i == 54);
    }
    assert(w0.len() != w6.len());
    assert(w1.len() != w6.len());
    assert(w2.len() != w6.len());
    assert(w3.len() != w6.len());
    assert(w4[0] != w6[0]);
    assert(w5.len() != w6.len());
    assert forall|i: int| 0 <= i < 6 implies #[trigger] d6[i] != w6 by {
        assert((i == 0 && d6[0] == w0) || (i == 1 && d6[1] == w1) || (i == 2 && d6[2] == w2) || (i == 3 && d6[3] == w3) || (i == 4 && d6[4] == w4) || (i == 5 && d6[5] == w5));
    }
    lemma_option(s, d6, 44, 55);
    let d7 = d6.push(w6);
    let w7 = s.subrange(56, 62);
    assert forall|i: int| 56 <= i < 62 implies !is_space(#[trigger] s[i]) by {
        assert(i == 56 || i == 57 || i == 58 || i == 59 || i == 60 || i == 61);
    }
    assert(w0.len() != w7.len());
    assert(w1[0] != w7[0]);
    assert(w2.len() != w7.len());
    assert(w3[0] != w7[0]);
    assert(w4.len() != w7.len());
    assert(w5.len() != w7.len());
    assert(w6.len() != w7.len());
    assert forall|i: int| 0 <= i < 7 implies #[trigger] d7[i] != w7 by {
        assert((i == 0 && d7[0] == w0) || (i == 1 && d7[1] == w1) || (i == 2 && d7[2] == w2) || (i == 3 && d7[3] == w3) || (i == 4 && d7[4] == w4) || (i == 5 && d7[5] == w5) || (i == 6 && d7[6] == w6));
    }
    lemma_option(s, d7, 56, 62);
    let d8 = d7.push(w7);
    let w8 = s.subrange(63, 68);
    assert forall|i: int| 63 <= i < 68 implies !is_space(#[trigger] s[i]) by {
        assert(i == 63 || i == 64 || i == 65 || i == 66 || i == 67);
    }
    assert(w0.len() != w8.len());
    assert(w1.len() != w8.len());
    assert(w2.len() != w8.len());
    assert(w3.len() != w8.len());
    assert(w4.len() != w8.len());
    assert(w5.len() != w8.len());
    assert(w6.len() != w8.len());
    assert(w7.len() != w8.len());
    assert forall|i: int| 0 <= i < 8 implies #[trigger] d8[i] != w8 by {
        assert((i == 0 && d8[0] == w0) || (i == 1 && d8[1] == w1) || (i == 2 && d8[2] == w2) || (i == 3 && d8[3] == w3) || (i == 4 && d8[4] == w4) || (i == 5 && d8[5] == w5) || (i == 6 && d8[6] == w6) || (i == 7 && d8[7] == w7));
    }
    lemma_option(s, d8, 63, 68);
    let d9 = d8.push(w8);
    let w9 = s.subrange(69, 76);
    assert forall|i: int| 69 <= i < 76 implies !is_space(#[trigger] s[i]) by {
        assert(i == 69 || i == 70 || i == 71 || i == 72 || i == 73 || i == 74 || i == 75);
    }
    assert(w0.len() != w9.len());
    assert(w1.len() != w9.len());
    assert(w2.len() != w9.len());
    assert(w3.len() != w9.len());
    assert(w4.len() != w9.len());
    assert(w5[2] != w9[2]);
    assert(w6.len() != w9.len());
    assert(w7.len() != w9.len());
    assert(w8.len() != w9.len());
    assert forall|i: int| 0 <= i < 9 implies #[trigger] d9[i] != w9 by {
        assert((i == 0 && d9[0] == w0) || (i == 1 && d9[1] == w1) || (i == 2 && d9[2] == w2) || (i == 3 && d9[3] == w3) || (i == 4 && d9[4] == w4) || (i == 5 && d9[5] == w5) || (i == 6 && d9[6] == w6) || (i == 7 && d9[7] == w7) || (i == 8 && d9[8] == w8));
    }
    lemma_option(s, d9, 69, 76);
    let d10 = d9.push(w9);
    let w10 = s.subrange(77, 87);
    assert forall|i: int| 77 <= i < 87 implies !is_space(#[trigger] s[i]) by {
        assert(i == 77 || i == 78 || i == 79 || i == 80 || i == 81 || i == 82 || i == 83 || i == 84 || i == 85 || i == 86);
    }
    assert(w0.len() != w10.len());
    assert(w1.len() != w10.len());
    assert(w2.len() != w10.len());
    assert(w3.len() != w10.len());
    assert(w4.len() != w10.len());
    assert(w5.len() != w10.len());
    assert(w6.len() != w10.len());
    assert(w7.len() != w10.len());
    assert(w8.len() != w10.len());
    assert(w9.len() != w10.len());
    assert forall|i: int| 0 <= i < 10 implies #[trigger] d10[i] != w10 by {
        assert((i == 0 && d10[0] == w0) || (i == 1 && d10[1] == w1) || (i == 2 && d10[2] == w2) || (i == 3 && d10[3] == w3) || (i == 4 && d10[4] == w4) || (i == 5 && d10[5] == w5) || (i == 6 && d10[6] == w6) || (i == 7 && d10[7] == w7) || (i == 8 && d10[8] == w8) || (i == 9 && d10[9] == w9));
    }
    lemma_option(s, d10, 77, 87);
    let d11 = d10.push(w10);
    let w11 = s.subrange(88, 100);
    assert forall|i: int| 88 <= i < 100 implies !is_space(#[trigger] s[i]) by {
        assert(i == 88 || i == 89 || i == 90 || i == 91 || i == 92 || i == 93 || i == 94 || i == 95 || i == 96 || i == 97 || i == 98 || i == 99);
    }
    assert(w0.len() != w11.len());
    assert(w1.len() != w11.len());
    assert(w2.len() != w11.len());
    assert(w3.len() != w11.len());
    assert(w4.len() != w11.len());
    assert(w5.len() != w11.len());
    assert(w6.len() != w11.len());
    assert(w7.len() != w11.len());
    assert(w8.len() != w11.len());
    assert(w9.len() != w11.len());
    assert(w10.len() != w11.len());
    assert forall|i: int| 0 <= i < 11 implies #[trigger] d11[i] != w11 by {
        assert((i == 0 && d11[0] == w0) || (i == 1 && d11[1] == w1) || (i == 2 && d11[2] == w2) || (i == 3 && d11[3] == w3) || (i == 4 && d11[4] == w4) || (i == 5 && d11[5] == w5) || (i == 6 && d11[6] == w6) || (i == 7 && d11[7] == w7) || (i == 8 && d11[8] == w8) || (i == 9 && d11[9] == w9) || (i == 10 && d11[10] == w10));
    }
    lemma_option(s, d11, 88, 100);
    let d12 = d11.push(w11);
    let w12 = s.subrange(101, 108);
    assert forall|i: int| 101 <= i < 108 implies !is_space(#[trigger] s[i]) by {
        assert(i == 101 || i == 102 || i == 103 || i == 104 || i == 105 || i == 106 || i == 107);
    }
    assert(w0.len() != w12.len());
    assert(w1.len() != w12.len());
    assert(w2.len() != w12.len());
    assert(w3.len() != w12.len());
    assert(w4.len() != w12.len());
    assert(w5[0] != w12[0]);
    assert(w6.len() != w12.len());
    assert(w7.len() != w12.len());
    assert(w8.len() != w12.len());
    assert(w9[0] != w12[0]);
    assert(w10.len() != w12.len());
    assert(w11.len() != w12.len());
    assert forall|i: int| 0 <= i < 12 implies #[trigger] d12[i] != w12 by {
        assert((i == 0 && d12[0] == w0) || (i == 1 && d12[1] == w1) || (i == 2 && d12[2] == w2) || (i == 3 && d12[3] == w3) || (i == 4 && d12[4] == w4) || (i == 5 && d12[5] == w5) || (i == 6 && d12[6] == w6) || (i == 7 && d12[7] == w7) || (i == 8 && d12[8] == w8) || (i == 9 && d12[9] == w9) || (i == 10 && d12[10] == w10) || (i == 11 && d12[11] == w11));
    }
    lemma_option(s, d12, 101, 108);
}

pub(crate) proof fn lemma_options_of_reasoning_parser()
    ensures
        words_of(KNOB_ROWS@[39].5@).no_duplicates(),
        words_of(KNOB_ROWS@[39].5@).len() == 10,
{
    let s = "auto off qwen3 glm deepseekv32 gpt_oss minimax minimax_m3 muse_glimmer gemma4"@;
    reveal_strlit("auto off qwen3 glm deepseekv32 gpt_oss minimax minimax_m3 muse_glimmer gemma4");
    assert(s.take(0) =~= Seq::<char>::empty());
    let d0 = Seq::<Seq<char>>::empty();
    let w0 = s.subrange(0, 4);
    assert forall|i: int| 0 <= i < 4 implies !is_space(#[trigger] s[i]) by {
        assert(i == 0 || i == 1 || i == 2 || i == 3);
    }
    lemma_option(s, d0, 0, 4);
    let d1 = d0.push(w0);
    let w1 = s.subrange(5, 8);
    assert forall|i: int| 5 <= i < 8 implies !is_space(#[trigger] s[i]) by {
        assert(i == 5 || i == 6 || i == 7);
    }
    assert(w0.len() != w1.len());
    assert forall|i: int| 0 <= i < 1 implies #[trigger] d1[i] != w1 by {
        assert((i == 0 && d1[0] == w0));
    }
    lemma_option(s, d1, 5, 8);
    let d2 = d1.push(w1);
    let w2 = s.subrange(9, 14);
    assert forall|i: int| 9 <= i < 14 implies !is_space(#[trigger] s[i]) by {
        assert(i == 9 || i == 10 || i == 11 || i == 12 || i == 13);
    }
    assert(w0.len() != w2.len());
    assert(w1.len() != w2.len());
    assert forall|i: int| 0 <= i < 2 implies #[trigger] d2[i] != w2 by {
        assert((i == 0 && d2[0] == w0) || (i == 1 && d2[1] == w1));
    }
    lemma_option(s, d2, 9, 14);
    let d3 = d2.push(w2);
    let w3 = s.subrange(15, 18);
    assert forall|i: int| 15 <= i < 18 implies !is_space(#[trigger] s[i]) by {
        assert(i == 15 || i == 16 || i == 17);
    }
    assert(w0.len() != w3.len());
    assert(w1[0] != w3[0]);
    assert(w2.len() != w3.len());
    assert forall|i: int| 0 <= i < 3 implies #[trigger] d3[i] != w3 by {
        assert((i == 0 && d3[0] == w0) || (i == 1 && d3[1] == w1) || (i == 2 && d3[2] == w2));
    }
    lemma_option(s, d3, 15, 18);
    let d4 = d3.push(w3);
    let w4 = s.subrange(19, 30);
    assert forall|i: int| 19 <= i < 30 implies !is_space(#[trigger] s[i]) by {
        assert(i == 19 || i == 20 || i == 21 || i == 22 || i == 23 || i == 24 || i == 25 || i == 26 || i == 27 || i == 28 || i == 29);
    }
    assert(w0.len() != w4.len());
    assert(w1.len() != w4.len());
    assert(w2.len() != w4.len());
    assert(w3.len() != w4.len());
    assert forall|i: int| 0 <= i < 4 implies #[trigger] d4[i] != w4 by {
        assert((i == 0 && d4[0] == w0) || (i == 1 && d4[1] == w1) || (i == 2 && d4[2] == w2) || (i == 3 && d4[3] == w3));
    }
    lemma_option(s, d4, 19, 30);
    let d5 = d4.push(w4);
    let w5 = s.subrange(31, 38);
    assert forall|i: int| 31 <= i < 38 implies !is_space(#[trigger] s[i]) by {
        assert(i == 31 || i == 32 || i == 33 || i == 34 || i == 35 || i == 36 || i == 37);
    }
    assert(w0.len() != w5.len());
    assert(w1.len() != w5.len());
    assert(w2.len() != w5.len());
    assert(w3.len() != w5.len());
    assert(w4.len() != w5.len());
    assert forall|i: int| 0 <= i < 5 implies #[trigger] d5[i] != w5 by {
        assert((i == 0 && d5[0] == w0) || (i == 1 && d5[1] == w1) || (i == 2 && d5[2] == w2) || (i == 3 && d5[3] == w3) || (i == 4 && d5[4] == w4));
    }
    lemma_option(s, d5, 31, 38);
    let d6 = d5.push(w5);
    let w6 = s.subrange(39, 46);
    assert forall|i: int| 39 <= i < 46 implies !is_space(#[trigger] s[i]) by {
        assert(i == 39 || i == 40 || i == 41 || i == 42 || i == 43 || i == 44 || i == 45);
    }
    assert(w0.len() != w6.len());
    assert(w1.len() != w6.len());
    assert(w2.len() != w6.len());
    assert(w3.len() != w6.len());
    assert(w4.len() != w6.len());
    assert(w5[0] != w6[0]);
    assert forall|i: int| 0 <= i < 6 implies #[trigger] d6[i] != w6 by {
        assert((i == 0 && d6[0] == w0) || (i == 1 && d6[1] == w1) || (i == 2 && d6[2] == w2) || (i == 3 && d6[3] == w3) || (i == 4 && d6[4] == w4) || (i == 5 && d6[5] == w5));
    }
    lemma_option(s, d6, 39, 46);
    let d7 = d6.push(w6);
    let w7 = s.subrange(47, 57);
    assert forall|i: int| 47 <= i < 57 implies !is_space(#[trigger] s[i]) by {
        assert(i == 47 || i == 48 || i == 49 || i == 50 || i == 51 || i == 52 || i == 53 || i == 54 || i == 55 || i == 56);
    }
    assert(w0.len() != w7.len());
    assert(w1.len() != w7.len());
    assert(w2.len() != w7.len());
    assert(w3.len() != w7.len());
    assert(w4.len() != w7.len());
    assert(w5.len() != w7.len());
    assert(w6.len() != w7.len());
    assert forall|i: int| 0 <= i < 7 implies #[trigger] d7[i] != w7 by {
        assert((i == 0 && d7[0] == w0) || (i == 1 && d7[1] == w1) || (i == 2 && d7[2] == w2) || (i == 3 && d7[3] == w3) || (i == 4 && d7[4] == w4) || (i == 5 && d7[5] == w5) || (i == 6 && d7[6] == w6));
    }
    lemma_option(s, d7, 47, 57);
    let d8 = d7.push(w7);
    let w8 = s.subrange(58, 70);
    assert forall|i: int| 58 <= i < 70 implies !is_space(#[trigger] s[i]) by {
        assert(i == 58 || i == 59 || i == 60 || i == 61 || i == 62 || i == 63 || i == 64 || i == 65 || i == 66 || i == 67 || i == 68 || i == 69);
    }
    assert(w0.len() != w8.len());
    assert(w1.len() != w8.len());
    assert(w2.len() != w8.len());
    assert(w3.len() != w8.len());
    assert(w4.len() != w8.len());
    assert(w5.len() != w8.len());
    assert(w6.len() != w8.len());
    assert(w7.len() != w8.len());
    assert forall|i: int| 0 <= i < 8 implies #[trigger] d8[i] != w8 by {
        assert((i == 0 && d8[0] == w0) || (i == 1 && d8[1] == w1) || (i == 2 && d8[2] == w2) || (i == 3 && d8[3] == w3) || (i == 4 && d8[4] == w4) || (i == 5 && d8[5] == w5) || (i == 6 && d8[6] == w6) || (i == 7 && d8[7] == w7));
    }
    lemma_option(s, d8, 58, 70);
    let d9 = d8.push(w8);
    let w9 = s.subrange(71, 77);
    assert forall|i: int| 71 <= i < 77 implies !is_space(#[trigger] s[i]) by {
        assert(i == 71 || i == 72 || i == 73 || i == 74 || i == 75 || i == 76);
    }
    assert(w0.len() != w9.len());
    assert(w1.len() != w9.len());
    assert(w2.len() != w9.len());
    assert(w3.len() != w9.len());
    assert(w4.len() != w9.len());
    assert(w5.len() != w9.len());
    assert(w6.len() != w9.len());
    assert(w7.len() != w9.len());
    assert(w8.len() != w9.len());
    assert forall|i: int| 0 <= i < 9 implies #[trigger] d9[i] != w9 by {
        assert((i == 0 && d9[0] == w0) || (i == 1 && d9[1] == w1) || (i == 2 && d9[2] == w2) || (i == 3 && d9[3] == w3) || (i == 4 && d9[4] == w4) || (i == 5 && d9[5] == w5) || (i == 6 && d9[6] == w6) || (i == 7 && d9[7] == w7) || (i == 8 && d9[8] == w8));
    }
    lemma_option(s, d9, 71, 77);
}

pub(crate) proof fn lemma_options_of_mm_disable()
    ensures
        words_of(KNOB_ROWS@[41].5@).no_duplicates(),
        words_of(KNOB_ROWS@[41].5@).len() == 2,
{
    let s = "vision audio"@;
    reveal_strlit("vision audio");
    assert(s.take(0) =~= Seq::<char>::empty());
    let d0 = Seq::<Seq<char>>::empty();
    let w0 = s.subrange(0, 6);
    assert forall|i: int| 0 <= i < 6 implies !is_space(#[trigger] s[i]) by {
        assert(i == 0 || i == 1 || i == 2 || i == 3 || i == 4 || i == 5);
    }
    lemma_option(s, d0, 0, 6);
    let d1 = d0.push(w0);
    let w1 = s.subrange(7, 12);
    assert forall|i: int| 7 <= i < 12 implies !is_space(#[trigger] s[i]) by {
        assert(i == 7 || i == 8 || i == 9 || i == 10 || i == 11);
    }
    assert(w0.len() != w1.len());
    assert forall|i: int| 0 <= i < 1 implies #[trigger] d1[i] != w1 by {
        assert((i == 0 && d1[0] == w0));
    }
    lemma_option(s, d1, 7, 12);
}

pub(crate) proof fn lemma_options_of_mm_encoder_weights()
    ensures
        words_of(KNOB_ROWS@[42].5@).no_duplicates(),
        words_of(KNOB_ROWS@[42].5@).len() == 2,
{
    let s = "host gpu"@;
    reveal_strlit("host gpu");
    assert(s.take(0) =~= Seq::<char>::empty());
    let d0 = Seq::<Seq<char>>::empty();
    let w0 = s.subrange(0, 4);
    assert forall|i: int| 0 <= i < 4 implies !is_space(#[trigger] s[i]) by {
        assert(i == 0 || i == 1 || i == 2 || i == 3);
    }
    lemma_option(s, d0, 0, 4);
    let d1 = d0.push(w0);
    let w1 = s.subrange(5, 8);
    assert forall|i: int| 5 <= i < 8 implies !is_space(#[trigger] s[i]) by {
        assert(i == 5 || i == 6 || i == 7);
    }
    assert(w0.len() != w1.len());
    assert forall|i: int| 0 <= i < 1 implies #[trigger] d1[i] != w1 by {
        assert((i == 0 && d1[0] == w0));
    }
    lemma_option(s, d1, 5, 8);
}

pub(crate) proof fn lemma_options_of_mm_embed_cache_device()
    ensures
        words_of(KNOB_ROWS@[46].5@).no_duplicates(),
        words_of(KNOB_ROWS@[46].5@).len() == 2,
{
    let s = "cpu cuda"@;
    reveal_strlit("cpu cuda");
    assert(s.take(0) =~= Seq::<char>::empty());
    let d0 = Seq::<Seq<char>>::empty();
    let w0 = s.subrange(0, 3);
    assert forall|i: int| 0 <= i < 3 implies !is_space(#[trigger] s[i]) by {
        assert(i == 0 || i == 1 || i == 2);
    }
    lemma_option(s, d0, 0, 3);
    let d1 = d0.push(w0);
    let w1 = s.subrange(4, 8);
    assert forall|i: int| 4 <= i < 8 implies !is_space(#[trigger] s[i]) by {
        assert(i == 4 || i == 5 || i == 6 || i == 7);
    }
    assert(w0.len() != w1.len());
    assert forall|i: int| 0 <= i < 1 implies #[trigger] d1[i] != w1 by {
        assert((i == 0 && d1[0] == w0));
    }
    lemma_option(s, d1, 4, 8);
}

pub(crate) proof fn lemma_options_of_sampling_defaults()
    ensures
        words_of(KNOB_ROWS@[49].5@).no_duplicates(),
        words_of(KNOB_ROWS@[49].5@).len() == 2,
{
    let s = "model none"@;
    reveal_strlit("model none");
    assert(s.take(0) =~= Seq::<char>::empty());
    let d0 = Seq::<Seq<char>>::empty();
    let w0 = s.subrange(0, 5);
    assert forall|i: int| 0 <= i < 5 implies !is_space(#[trigger] s[i]) by {
        assert(i == 0 || i == 1 || i == 2 || i == 3 || i == 4);
    }
    lemma_option(s, d0, 0, 5);
    let d1 = d0.push(w0);
    let w1 = s.subrange(6, 10);
    assert forall|i: int| 6 <= i < 10 implies !is_space(#[trigger] s[i]) by {
        assert(i == 6 || i == 7 || i == 8 || i == 9);
    }
    assert(w0.len() != w1.len());
    assert forall|i: int| 0 <= i < 1 implies #[trigger] d1[i] != w1 by {
        assert((i == 0 && d1[0] == w0));
    }
    lemma_option(s, d1, 6, 10);
}

} // verus!
