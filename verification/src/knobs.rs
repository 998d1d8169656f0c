//! The `ft serve` knob schema and the editable configuration built on top of it.
//!
//! Every flag FreeToken's server accepts is described once, here, with its type, domain,
//! default and help text. Validation reads the table, and `ServeConfig::to_args` turns an
//! edited set back into an argv. Mutual exclusions (`--num-pages` with `--num-tokens`, the
//! three MoE cache sizing flags) are declared alongside the knobs.

use vstd::prelude::*;
use vstd::string::*;
use crate::json::{json_of, parse_json, Json, JsonView};
use crate::knob_options::{
    lemma_options_of_dtype,
    lemma_options_of_model_source,
    lemma_options_of_cache_type,
    lemma_options_of_attention_backend,
    lemma_options_of_moe_strategy,
    lemma_options_of_moe_cache_policy,
    lemma_options_of_expert_load,
    lemma_options_of_ple_backend,
    lemma_options_of_tool_call_parser,
    lemma_options_of_reasoning_parser,
    lemma_options_of_mm_disable,
    lemma_options_of_mm_encoder_weights,
    lemma_options_of_mm_embed_cache_device,
    lemma_options_of_sampling_defaults,
};
use crate::numeral::{lies_between, read_between, real_of, Bound};
use crate::shell::{law_quoted_words_split_back, shell_quote, shell_word, shell_words_of};
use crate::text::{
    before, cat2, cat3, cat4, cat6, cut, dec_int, debug_text, decimal_int, join, joined,
    lemma_lt_irreflexive, lemma_lt_total, lemma_lt_transitive, lemma_words_are_words,
    no_space,
    lemma_texts_push, listed, lowercase, lt, opt_str, opt_text, parse_i64, pieces, quoted, same,
    signed_of, split, split_once, strs, texts, to_lowercase, trim, trimmed, words, words_of,
};
use crate::text_map::TextMap;

verus! {

#[derive(Debug, Clone, Copy, PartialEq, Eq, PartialOrd, Ord, Structural)]
pub enum Group {
    Model,
    Server,
    Runtime,
    Memory,
    Moe,
    Multimodal,
    Api,
}

impl Group {
    pub const ALL: [Group; 7] = [
        Group::Model,
        Group::Server,
        Group::Runtime,
        Group::Memory,
        Group::Moe,
        Group::Multimodal,
        Group::Api,
    ];

    pub fn title(self) -> (r: &'static str)
        ensures
            r@ == (match self {
                Group::Model => "Model"@,
                Group::Server => "Server"@,
                Group::Runtime => "Runtime & scheduling"@,
                Group::Memory => "KV cache & memory"@,
                Group::Moe => "MoE offload"@,
                Group::Multimodal => "Multimodal"@,
                Group::Api => "API behavior"@,
            }),
    {
        match self {
            Group::Model => "Model",
            Group::Server => "Server",
            Group::Runtime => "Runtime & scheduling",
            Group::Memory => "KV cache & memory",
            Group::Moe => "MoE offload",
            Group::Multimodal => "Multimodal",
            Group::Api => "API behavior",
        }
    }
}

#[derive(Debug, Clone, Copy)]
pub enum Kind {
    /// Free text (paths, host names, layer specs).
    Text,
    /// Whole number, optionally bounded.
    Int { min: Option<i64>, max: Option<i64> },
    /// Real number in the closed range that ends at 1.
    Float { from: Bound },
    /// A `store_true` switch; emitted as a bare flag when on.
    Flag,
    /// One of a fixed set, given space-separated. The first entry is the "leave it to
    /// FreeToken" choice where one exists (`auto`), and is what an unset knob resolves to.
    Choice(&'static str),
    /// Any subset of a fixed set, given space-separated; stored space-separated and emitted
    /// as one flag followed by each chosen value, the shape argparse's `nargs="+"` reads.
    Multi(&'static str),
}

/// A set of knobs of which at most one can be set.
#[derive(Debug, Clone, Copy, PartialEq, Eq, Structural)]
pub enum Excludes {
    Nothing,
    KvCapacity,
    MoeCache,
}

impl Excludes {
    pub open spec fn keys(self) -> Seq<Seq<char>> {
        match self {
            Excludes::Nothing => Seq::empty(),
            Excludes::KvCapacity => seq!["num_pages"@, "num_tokens"@],
            Excludes::MoeCache => seq!["moe_cache_size"@, "moe_cache_rate"@, "moe_cache_auto"@],
        }
    }

    /// The keys of the knobs in the set.
    pub fn members(self) -> (r: Vec<&'static str>)
        ensures
            strs(r@) == self.keys(),
    {
        let r: Vec<&'static str> = match self {
            Excludes::Nothing => Vec::new(),
            Excludes::KvCapacity => vec!["num_pages", "num_tokens"],
            Excludes::MoeCache => vec!["moe_cache_size", "moe_cache_rate", "moe_cache_auto"],
        };
        assert(strs(r@) =~= self.keys());
        r
    }
}

#[derive(Debug, Clone, Copy)]
pub struct Knob {
    /// Stable identifier used in profiles and on the wire to the UI.
    pub key: &'static str,
    /// The flag as `ft serve` spells it.
    pub flag: &'static str,
    pub label: &'static str,
    pub group: Group,
    pub kind: Kind,
    /// What FreeToken does when the flag is absent. Shown as the placeholder.
    pub default: &'static str,
    pub help: &'static str,
    /// The knobs that cannot be set at the same time as this one.
    pub exclusive_with: Excludes,
}

/// How a row of the table describes a kind.
#[derive(Debug, Clone, Copy, PartialEq, Eq, Structural)]
pub enum KindTag {
    Text,
    Int,
    FloatFromZero,
    FloatFromFiveHundredths,
    Flag,
    Choice,
    Multi,
}

/// How many knobs there are.
pub const KNOB_COUNT: usize = 51;

/// Every knob, in the order the Config view presents them within each group: key, flag,
/// label, group, kind, options of a choice, least and greatest value of a whole number,
/// default, help, and the knobs it excludes.
pub const KNOB_ROWS: [(
    &'static str,
    &'static str,
    &'static str,
    Group,
    KindTag,
    &'static str,
    i64,
    i64,
    &'static str,
    &'static str,
    Excludes,
); 51] = [
    // ---- Model
    (
        "model",
        "--model",
        "Model path or repo id",
        Group::Model,
        KindTag::Text,
        "",
        i64::MIN,
        i64::MAX,
        "(required)",
        "Local directory, Hugging Face repo id, or an FTW directory. FTW is auto-detected.",
        Excludes::Nothing,
    ),
    (
        "served_model_name",
        "--served-model-name",
        "Served model name",
        Group::Model,
        KindTag::Text,
        "",
        i64::MIN,
        i64::MAX,
        "basename of --model",
        "The id reported by /v1/models and expected in request bodies.",
        Excludes::Nothing,
    ),
    (
        "dtype",
        "--dtype",
        "Weight dtype",
        Group::Model,
        KindTag::Choice,
        "auto bfloat16 float16 float32",
        i64::MIN,
        i64::MAX,
        "auto",
        "Data type for weights and activations. 'auto' takes the checkpoint's own dtype.",
        Excludes::Nothing,
    ),
    (
        "model_source",
        "--model-source",
        "Download source",
        Group::Model,
        KindTag::Choice,
        "huggingface modelscope",
        i64::MIN,
        i64::MAX,
        "huggingface",
        "Where a bare repo id is fetched from when --model is not a local path.",
        Excludes::Nothing,
    ),
    // ---- Server
    (
        "host",
        "--host",
        "Bind address",
        Group::Server,
        KindTag::Text,
        "",
        i64::MIN,
        i64::MAX,
        "127.0.0.1",
        "Interface the API server binds. Use 0.0.0.0 to expose it beyond localhost.",
        Excludes::Nothing,
    ),
    (
        "port",
        "--port",
        "Bind port",
        Group::Server,
        KindTag::Int,
        "",
        1,
        65535,
        "1919",
        "TCP port for the OpenAI, Anthropic and Responses APIs.",
        Excludes::Nothing,
    ),
    (
        "gpu",
        "--gpu",
        "GPU",
        Group::Server,
        KindTag::Text,
        "",
        i64::MIN,
        i64::MAX,
        "GPU 0",
        "A GPU UUID (GPU-xxxx..., as nvidia-smi -L prints) or an nvidia-smi index. A unique UUID prefix is enough.",
        Excludes::Nothing,
    ),
    (
        "cors_origins",
        "--cors-origins",
        "CORS origins",
        Group::Server,
        KindTag::Text,
        "",
        i64::MIN,
        i64::MAX,
        "local Tauri/Vite origins",
        "Comma-separated allow-list for browser clients. Empty disables CORS headers; '*' allows any origin.",
        Excludes::Nothing,
    ),
    // ---- Runtime
    (
        "max_running_requests",
        "--max-running-requests",
        "Max running requests",
        Group::Runtime,
        KindTag::Int,
        "",
        1,
        i64::MAX,
        "4",
        "How many requests the scheduler runs concurrently. Raising it costs KV cache.",
        Excludes::Nothing,
    ),
    (
        "max_output_tokens",
        "--max-output-tokens",
        "Default max output tokens",
        Group::Runtime,
        KindTag::Int,
        "",
        1,
        i64::MAX,
        "32768",
        "Output budget applied to requests that do not specify one.",
        Excludes::Nothing,
    ),
    (
        "max_seq_len_override",
        "--max-seq-len-override",
        "Max sequence length",
        Group::Runtime,
        KindTag::Int,
        "",
        1,
        i64::MAX,
        "from checkpoint",
        "Override the context length taken from the checkpoint's rotary config.",
        Excludes::Nothing,
    ),
    (
        "max_prefill_length",
        "--max-prefill-length",
        "Prefill chunk size",
        Group::Runtime,
        KindTag::Int,
        "",
        1,
        i64::MAX,
        "8192",
        "Chunked-prefill chunk size in tokens. Larger chunks prefill faster but delay decode.",
        Excludes::Nothing,
    ),
    (
        "cuda_graph_max_bs",
        "--cuda-graph-max-bs",
        "CUDA graph max batch",
        Group::Runtime,
        KindTag::Int,
        "",
        1,
        i64::MAX,
        "= max running requests",
        "Largest batch size captured as a CUDA graph. Capture cost grows with the value.",
        Excludes::Nothing,
    ),
    (
        "decode_log_interval",
        "--decode-log-interval",
        "Decode log interval",
        Group::Runtime,
        KindTag::Int,
        "",
        1,
        i64::MAX,
        "40",
        "Emit one scheduler status line every N decode forwards.",
        Excludes::Nothing,
    ),
    (
        "num_tokenizer",
        "--num-tokenizer",
        "Tokenizer processes",
        Group::Runtime,
        KindTag::Int,
        "",
        0,
        i64::MAX,
        "0",
        "Dedicated tokenizer processes. 0 shares the tokenizer with the detokenizer.",
        Excludes::Nothing,
    ),
    (
        "tensor_parallel_size",
        "--tensor-parallel-size",
        "Tensor parallel size",
        Group::Runtime,
        KindTag::Int,
        "",
        1,
        i64::MAX,
        "1",
        "TP degree. Give one --gpu entry per rank; single-GPU serving leaves this at 1.",
        Excludes::Nothing,
    ),
    (
        "disable_pynccl",
        "--disable-pynccl",
        "Disable PyNCCL",
        Group::Runtime,
        KindTag::Flag,
        "",
        i64::MIN,
        i64::MAX,
        "off",
        "Turn off PyNCCL for tensor parallelism and fall back to the default collectives.",
        Excludes::Nothing,
    ),
    (
        "enable_special_token_ckpt",
        "--enable-special-token-ckpt",
        "Special-token checkpoints",
        Group::Runtime,
        KindTag::Flag,
        "",
        i64::MIN,
        i64::MAX,
        "off",
        "Preserve a decode reuse point just after a tool-call opener, so rewriting an echoed tool call only invalidates the call body.",
        Excludes::Nothing,
    ),
    // ---- KV cache and memory
    (
        "memory_ratio",
        "--memory-ratio",
        "Memory ratio",
        Group::Memory,
        KindTag::FloatFromZero,
        "",
        i64::MIN,
        i64::MAX,
        "0.9",
        "Fraction of free VRAM the engine may use for weights, MoE cache and KV combined.",
        Excludes::Nothing,
    ),
    (
        "num_pages",
        "--num-pages",
        "KV capacity (pages)",
        Group::Memory,
        KindTag::Int,
        "",
        1,
        i64::MAX,
        "auto",
        "Fix KV capacity in pages instead of sizing it from leftover VRAM.",
        Excludes::KvCapacity,
    ),
    (
        "num_tokens",
        "--num-tokens",
        "KV capacity (tokens)",
        Group::Memory,
        KindTag::Int,
        "",
        1,
        i64::MAX,
        "auto",
        "Fix KV capacity in tokens. Must be a multiple of the resolved page size.",
        Excludes::KvCapacity,
    ),
    (
        "page_size",
        "--page-size",
        "KV page size",
        Group::Memory,
        KindTag::Int,
        "",
        1,
        i64::MAX,
        "1",
        "KV page granularity. DSV4 forces 128, the TRTLLM backend needs 16/32/64, SWA models require 1.",
        Excludes::Nothing,
    ),
    (
        "cache_type",
        "--cache-type",
        "KV cache strategy",
        Group::Memory,
        KindTag::Choice,
        "radix naive",
        i64::MIN,
        i64::MAX,
        "radix",
        "'radix' reuses shared prefixes across requests (SWA- and GDN-aware variants are picked automatically); 'naive' opts out.",
        Excludes::Nothing,
    ),
    (
        "attention_backend",
        "--attention-backend",
        "Attention backend",
        Group::Memory,
        KindTag::Choice,
        "auto trtllm fi fa triton dsv4_sparse dsa m3_sparse qsa_sparse",
        i64::MIN,
        i64::MAX,
        "auto",
        "Attention kernel. Each backend serves one attention type, so 'auto' is almost always right: m3_sparse is MiniMax-M3's block-sparse kernel, qsa_sparse Qwen3.8-Flash-Next's, dsa and dsv4_sparse DeepSeek's.",
        Excludes::Nothing,
    ),
    (
        "kv_reserve_tokens",
        "--kv-reserve-tokens",
        "KV reserve tokens",
        Group::Memory,
        KindTag::Int,
        "",
        0,
        i64::MAX,
        "8192",
        "KV token floor held back before --moe-cache-auto spends the rest of VRAM on experts.",
        Excludes::Nothing,
    ),
    // ---- MoE
    (
        "moe_strategy",
        "--moe-strategy",
        "MoE strategy",
        Group::Moe,
        KindTag::Choice,
        "auto offload hybrid cpu fused",
        i64::MIN,
        i64::MAX,
        "auto",
        "fused keeps experts resident on GPU; offload streams misses over PCIe; cpu computes them on the host; hybrid splits the two. auto never picks fused.",
        Excludes::Nothing,
    ),
    (
        "moe_cache_size",
        "--moe-cache-size",
        "MoE cache size (slots)",
        Group::Moe,
        KindTag::Int,
        "",
        0,
        i64::MAX,
        "auto",
        "Absolute number of GPU expert slots.",
        Excludes::MoeCache,
    ),
    (
        "moe_cache_rate",
        "--moe-cache-rate",
        "MoE cache rate",
        Group::Moe,
        KindTag::FloatFromZero,
        "",
        i64::MIN,
        i64::MAX,
        "auto",
        "Fraction of all experts to keep cached on GPU.",
        Excludes::MoeCache,
    ),
    (
        "moe_cache_auto",
        "--moe-cache-auto",
        "MoE cache auto-size",
        Group::Moe,
        KindTag::Flag,
        "",
        i64::MIN,
        i64::MAX,
        "on for offload-family backends",
        "Size the expert cache from free VRAM, giving MoE priority over KV down to the reserve floor.",
        Excludes::MoeCache,
    ),
    (
        "moe_cache_policy",
        "--moe-cache-policy",
        "MoE eviction policy",
        Group::Moe,
        KindTag::Choice,
        "lru",
        i64::MIN,
        i64::MAX,
        "lru",
        "Eviction policy for the unified expert slot cache.",
        Excludes::Nothing,
    ),
    (
        "moe_cpu_threads",
        "--moe-cpu-threads",
        "MoE CPU threads",
        Group::Moe,
        KindTag::Int,
        "",
        0,
        i64::MAX,
        "physical cores",
        "Worker threads for the cpu and hybrid executors. 0 means one per physical core.",
        Excludes::Nothing,
    ),
    (
        "moe_cpu_layers",
        "--moe-cpu-layers",
        "MoE CPU layers",
        Group::Moe,
        KindTag::Text,
        "",
        i64::MIN,
        i64::MAX,
        "every layer on GPU",
        "With offload or hybrid: which MoE layers decode on the CPU. An id list ('3,7,11'), a count ('8'), a fraction ('0.5'), or 'auto'. 'auto' is for Windows/WSL, where CUDA pinned memory is capped, and needs an expert format the CPU executor serves (bf16, nvfp4, mxfp4) -- not fp8.",
        Excludes::Nothing,
    ),
    (
        "moe_hybrid_max_fetch",
        "--moe-hybrid-max-fetch",
        "Hybrid max fetch",
        Group::Moe,
        KindTag::Int,
        "",
        -1,
        i64::MAX,
        "-1 (auto)",
        "With hybrid: experts fetched over PCIe per layer per step; the rest go to the CPU. -1 reads the bandwidth profile, 0 never fetches.",
        Excludes::Nothing,
    ),
    (
        "quant_backend",
        "--quant-backend",
        "Quant kernels",
        Group::Moe,
        KindTag::Text,
        "",
        i64::MIN,
        i64::MAX,
        "automatic per table",
        "Which kernel serves each quantized layer type: comma-separated layer[.kind]=name entries, e.g. 'moe.nvfp4=marlin' or 'linear=triton'. A bare layer applies to every one of its kinds whose table lists that kernel; unlisted tables stay automatic. Forcing a kernel fails loudly if it cannot run here.",
        Excludes::Nothing,
    ),
    (
        "expert_load",
        "--expert-load",
        "Expert bank load",
        Group::Moe,
        KindTag::Choice,
        "auto parallel serial",
        i64::MIN,
        i64::MAX,
        "auto",
        "How expert banks are read into host RAM. 'serial' is the low-memory path; 'parallel' is faster but needs room for a whole-shard buffer.",
        Excludes::Nothing,
    ),
    (
        "ple_backend",
        "--ple-backend",
        "PLE table backend",
        Group::Moe,
        KindTag::Choice,
        "disk pinned",
        i64::MIN,
        i64::MAX,
        "disk",
        "Where a PLE n-gram table lives. 'pinned' preloads it into page-locked host RAM, which is fast but costs tens of GiB.",
        Excludes::Nothing,
    ),
    (
        "moe_prefill_hit_d2d",
        "--moe-prefill-hit-d2d",
        "Prefill hit D2D copy",
        Group::Moe,
        KindTag::Flag,
        "",
        i64::MIN,
        i64::MAX,
        "off",
        "During prefill, copy cache-resident experts device-side and stream only misses. Needs CUDA 13 and a cache larger than 2x the per-layer expert count.",
        Excludes::Nothing,
    ),
    (
        "disable_moe_prefill_overlap",
        "--disable-moe-prefill-overlap",
        "Disable prefill overlap",
        Group::Moe,
        KindTag::Flag,
        "",
        i64::MIN,
        i64::MAX,
        "overlap on",
        "Turn off the two-buffer overlap for prefill expert copies.",
        Excludes::Nothing,
    ),
    // ---- API behavior
    (
        "tool_call_parser",
        "--tool-call-parser",
        "Tool-call parser",
        Group::Api,
        KindTag::Choice,
        "auto llama3 qwen qwen25 qwen3_coder mistral deepseekv32 gemma4 glm47 minimax minimax_m3 muse_glimmer gpt_oss",
        i64::MIN,
        i64::MAX,
        "auto",
        "Grammar used to parse tool calls out of the model's output. 'auto' infers it from the model family.",
        Excludes::Nothing,
    ),
    (
        "reasoning_parser",
        "--reasoning-parser",
        "Reasoning parser",
        Group::Api,
        KindTag::Choice,
        "auto off qwen3 glm deepseekv32 gpt_oss minimax minimax_m3 muse_glimmer gemma4",
        i64::MIN,
        i64::MAX,
        "auto",
        "Splits chain-of-thought into reasoning_content. 'off' leaves it inline in the message.",
        Excludes::Nothing,
    ),
    // ---- Multimodal
    (
        "text_model_only",
        "--text-model-only",
        "Text only",
        Group::Multimodal,
        KindTag::Flag,
        "",
        i64::MIN,
        i64::MAX,
        "off",
        "Serve a multimodal checkpoint without its encoder towers: none are built, the VRAM they would hold goes to the KV and expert pools instead, and every image request is rejected. The lever to reach for when a vision-capable checkpoint is being served for text.",
        Excludes::Nothing,
    ),
    (
        "mm_disable",
        "--mm-disable",
        "Disable encoders",
        Group::Multimodal,
        KindTag::Multi,
        "vision audio",
        i64::MIN,
        i64::MAX,
        "none",
        "Encoder towers to leave unbuilt, chosen one kind at a time; every input they would serve is rejected. Naming every kind is exactly what --text-model-only does.",
        Excludes::Nothing,
    ),
    (
        "mm_encoder_weights",
        "--mm-encoder-weights",
        "Encoder weights",
        Group::Multimodal,
        KindTag::Choice,
        "host gpu",
        i64::MIN,
        i64::MAX,
        "host",
        "Where the encoder tower's block weights live. 'host' streams them from pinned host banks two blocks at a time behind the compute, so the GPU holds two blocks instead of the whole tower: small images pay the copy time, large ones hide it. 'gpu' keeps them resident. An encoder with no block stack stays resident either way.",
        Excludes::Nothing,
    ),
    (
        "image_min_tokens",
        "--image-min-tokens",
        "Image min tokens",
        Group::Multimodal,
        KindTag::Int,
        "",
        1,
        i64::MAX,
        "the processor's own limit",
        "Fewest tokens one image may take; smaller images are scaled up to it. Each family reads this in its own units — a dynamic-resolution family as a pixel area, and a family with fixed budgets not at all, since it has nothing between its budgets to choose.",
        Excludes::Nothing,
    ),
    (
        "image_max_tokens",
        "--image-max-tokens",
        "Image max tokens",
        Group::Multimodal,
        KindTag::Int,
        "",
        1,
        i64::MAX,
        "the processor's own limit",
        "Most tokens one image may take, and so the cap on what one image costs in prefill. A family with fixed budgets picks the largest budget within it and refuses at start-up a maximum below its smallest — the one value here that can stop a serve from starting.",
        Excludes::Nothing,
    ),
    (
        "mm_processor_kwargs",
        "--mm-processor-kwargs",
        "Processor kwargs",
        Group::Multimodal,
        KindTag::Text,
        "",
        i64::MIN,
        i64::MAX,
        "none",
        "JSON object of extra keyword arguments for the checkpoint's image processor, for knobs the token budget does not cover — {\"size\": {\"longest_edge\": 1048576}} for a dynamic-resolution family, {\"max_soft_tokens\": 1120} for a fixed-budget one. Applied after the budget, so an explicit key wins.",
        Excludes::Nothing,
    ),
    (
        "mm_embed_cache_device",
        "--mm-embed-cache-device",
        "Embedding cache",
        Group::Multimodal,
        KindTag::Choice,
        "cpu cuda",
        i64::MIN,
        i64::MAX,
        "cpu",
        "Where encoded image embeddings wait between prefill chunks. 'cpu' keeps them out of the VRAM budget; 'cuda' skips the copy back.",
        Excludes::Nothing,
    ),
    (
        "allowed_media_domains",
        "--allowed-media-domains",
        "Allowed media domains",
        Group::Multimodal,
        KindTag::Text,
        "",
        i64::MIN,
        i64::MAX,
        "any",
        "Comma-separated hostname allowlist for the image URLs a client may send; anything else is refused with a 400. Empty admits any domain, which means the server will fetch whatever a request names.",
        Excludes::Nothing,
    ),
    (
        "allowed_local_media_path",
        "--allowed-local-media-path",
        "Local media path",
        Group::Multimodal,
        KindTag::Text,
        "",
        i64::MIN,
        i64::MAX,
        "off",
        "Directory that file:// image references may be read from. Unset rejects local files outright; FreeToken checks the directory exists and refuses to start if it does not.",
        Excludes::Nothing,
    ),
    // ---- API behavior
    (
        "sampling_defaults",
        "--sampling-defaults",
        "Sampling defaults",
        Group::Api,
        KindTag::Choice,
        "model none",
        i64::MIN,
        i64::MAX,
        "model",
        "'model' fills unspecified temperature/top_k/top_p from the checkpoint's generation_config.json, which reasoning models generally need.",
        Excludes::Nothing,
    ),
    (
        "enable_cache_report",
        "--enable-cache-report",
        "Report cache hits",
        Group::Api,
        KindTag::Flag,
        "",
        i64::MIN,
        i64::MAX,
        "off",
        "Report prefix-cache hits in each response's usage block. On /v1/messages this also makes input_tokens exclude the cached prefix.",
        Excludes::Nothing,
    ),
];

pub open spec fn kind_of(tag: KindTag, options: &'static str, lo: i64, hi: i64) -> Kind {
    match tag {
        KindTag::Text => Kind::Text,
        KindTag::Int => Kind::Int {
            min: if lo == i64::MIN {
                None
            } else {
                Some(lo)
            },
            max: if hi == i64::MAX {
                None
            } else {
                Some(hi)
            },
        },
        KindTag::FloatFromZero => Kind::Float { from: Bound::Zero },
        KindTag::FloatFromFiveHundredths => Kind::Float { from: Bound::FiveHundredths },
        KindTag::Flag => Kind::Flag,
        KindTag::Choice => Kind::Choice(options),
        KindTag::Multi => Kind::Multi(options),
    }
}

/// The knob that the table describes at row `i`.
pub open spec fn knob_row(i: int) -> Knob {
    let r = KNOB_ROWS@[i];
    Knob {
        key: r.0,
        flag: r.1,
        label: r.2,
        group: r.3,
        kind: kind_of(r.4, r.5, r.6, r.7),
        default: r.8,
        help: r.9,
        exclusive_with: r.10,
    }
}

pub fn knob_at(i: usize) -> (r: Knob)
    requires
        i < KNOB_COUNT,
    ensures
        r == knob_row(i as int),
{
    let row = KNOB_ROWS[i];
    let kind = match row.4 {
        KindTag::Text => Kind::Text,
        KindTag::Int => Kind::Int {
            min: if row.6 == i64::MIN {
                None
            } else {
                Some(row.6)
            },
            max: if row.7 == i64::MAX {
                None
            } else {
                Some(row.7)
            },
        },
        KindTag::FloatFromZero => Kind::Float { from: Bound::Zero },
        KindTag::FloatFromFiveHundredths => Kind::Float { from: Bound::FiveHundredths },
        KindTag::Flag => Kind::Flag,
        KindTag::Choice => Kind::Choice(row.5),
        KindTag::Multi => Kind::Multi(row.5),
    };
    Knob {
        key: row.0,
        flag: row.1,
        label: row.2,
        group: row.3,
        kind,
        default: row.8,
        help: row.9,
        exclusive_with: row.10,
    }
}

// ---------------------------------------------------------------- lookup

/// `key` is the key of row `i`.
pub open spec fn is_row(i: int, key: Seq<char>) -> bool {
    0 <= i < KNOB_COUNT && knob_row(i).key@ == key
}

/// `key` names a knob.
pub open spec fn is_knob(key: Seq<char>) -> bool {
    exists|i: int| #[trigger] is_row(i, key)
}

/// The knob that `key` names, when it names one.
pub open spec fn find_knob(key: Seq<char>) -> Option<Knob> {
    if is_knob(key) {
        Some(knob_row(choose|i: int| #[trigger] is_row(i, key)))
    } else {
        None
    }
}

/// A number that tells the keys of the table apart: their length and three characters.
spec fn code(s: Seq<char>) -> int {
    let n = s.len() as int;
    ((n * 128 + s[n - 1] as int) * 128 + s[n / 2] as int) * 128 + s[n - 2] as int
}

/// The row whose key has the code of `s`.
spec fn rank(s: Seq<char>) -> int {
    let c = code(s);
    if c == 12268133 {
        0
    } else if c == 37320685 {
        1
    } else if c == 12156144 {
        2
    } else if c == 26835427 {
        3
    } else if c == 10303987 {
        4
    } else if c == 10303858 {
        5
    } else if c == 8222832 {
        6
    } else if c == 27064686 {
        7
    } else if c == 43840500 {
        8
    } else if c == 37550830 {
        9
    } else if c == 43612004 {
        10
    } else if c == 39466612 {
        11
    } else if c == 37550178 {
        12
    } else if c == 41628641 {
        13
    } else if c == 29144549 {
        14
    } else if c == 43610362 {
        15
    } else if c == 31141859 {
        16
    } else if c == 54341872 {
        17
    } else if c == 26996713 {
        18
    } else if c == 20772965 {
        19
    } else if c == 22869998 {
        20
    } else if c == 20541434 {
        21
    } else if c == 22638576 {
        22
    } else if c == 37304174 {
        23
    } else if c == 37550958 {
        24
    } else if c == 27162983 {
        25
    } else if c == 31028346 {
        26
    } else if c == 31028340 {
        27
    } else if c == 31192180 {
        28
    } else if c == 35549923 {
        29
    } else if c == 33353700 {
        30
    } else if c == 31256562 {
        31
    } else if c == 43659235 {
        32
    } else if c == 28914030 {
        33
    } else if c == 24722017 {
        34
    } else if c == 24719598 {
        35
    } else if c == 41498162 {
        36
    } else if c == 58472801 {
        37
    } else if c == 35436133 {
        38
    } else if c == 35435493 {
        39
    } else if c == 33452652 {
        40
    } else if c == 22641132 {
        41
    } else if c == 39647604 {
        42
    } else if c == 35452782 {
        43
    } else if c == 35454062 {
        44
    } else if c == 41744871 {
        45
    } else if c == 45707491 {
        46
    } else if c == 45937262 {
        47
    } else if c == 52049524 {
        48
    } else if c == 37548020 {
        49
    } else if c == 41759218 {
        50
    } else {
        -1
    }
}

proof fn lemma_ranks_from_0()
    ensures
        rank(KNOB_ROWS@[0].0@) == 0,
        rank(KNOB_ROWS@[1].0@) == 1,
        rank(KNOB_ROWS@[2].0@) == 2,
        rank(KNOB_ROWS@[3].0@) == 3,
        rank(KNOB_ROWS@[4].0@) == 4,
        rank(KNOB_ROWS@[5].0@) == 5,
        rank(KNOB_ROWS@[6].0@) == 6,
        rank(KNOB_ROWS@[7].0@) == 7,
        rank(KNOB_ROWS@[8].0@) == 8,
{
    assert(rank(KNOB_ROWS@[0].0@) == 0) by {
        reveal_strlit("model");
        let s = "model"@;
        assert(s[4] == 'l' && s[2] == 'd' && s[3] == 'e');
    }
    assert(rank(KNOB_ROWS@[1].0@) == 1) by {
        reveal_strlit("served_model_name");
        let s = "served_model_name"@;
        assert(s[16] == 'e' && s[8] == 'o' && s[15] == 'm');
    }
    assert(rank(KNOB_ROWS@[2].0@) == 2) by {
        reveal_strlit("dtype");
        let s = "dtype"@;
        assert(s[4] == 'e' && s[2] == 'y' && s[3] == 'p');
    }
    assert(rank(KNOB_ROWS@[3].0@) == 3) by {
        reveal_strlit("model_source");
        let s = "model_source"@;
        assert(s[11] == 'e' && s[6] == 's' && s[10] == 'c');
    }
    assert(rank(KNOB_ROWS@[4].0@) == 4) by {
        reveal_strlit("host");
        let s = "host"@;
        assert(s[3] == 't' && s[2] == 's' && s[2] == 's');
    }
    assert(rank(KNOB_ROWS@[5].0@) == 5) by {
        reveal_strlit("port");
        let s = "port"@;
        assert(s[3] == 't' && s[2] == 'r' && s[2] == 'r');
    }
    assert(rank(KNOB_ROWS@[6].0@) == 6) by {
        reveal_strlit("gpu");
        let s = "gpu"@;
        assert(s[2] == 'u' && s[1] == 'p' && s[1] == 'p');
    }
    assert(rank(KNOB_ROWS@[7].0@) == 7) by {
        reveal_strlit("cors_origins");
        let s = "cors_origins"@;
        assert(s[11] == 's' && s[6] == 'r' && s[10] == 'n');
    }
    assert(rank(KNOB_ROWS@[8].0@) == 8) by {
        reveal_strlit("max_running_requests");
        let s = "max_running_requests"@;
        assert(s[19] == 's' && s[10] == 'g' && s[18] == 't');
    }
}

proof fn lemma_ranks_from_9()
    ensures
        rank(KNOB_ROWS@[9].0@) == 9,
        rank(KNOB_ROWS@[10].0@) == 10,
        rank(KNOB_ROWS@[11].0@) == 11,
        rank(KNOB_ROWS@[12].0@) == 12,
        rank(KNOB_ROWS@[13].0@) == 13,
        rank(KNOB_ROWS@[14].0@) == 14,
        rank(KNOB_ROWS@[15].0@) == 15,
        rank(KNOB_ROWS@[16].0@) == 16,
        rank(KNOB_ROWS@[17].0@) == 17,
{
    assert(rank(KNOB_ROWS@[9].0@) == 9) by {
        reveal_strlit("max_output_tokens");
        let s = "max_output_tokens"@;
        assert(s[16] == 's' && s[8] == 'u' && s[15] == 'n');
    }
    assert(rank(KNOB_ROWS@[10].0@) == 10) by {
        reveal_strlit("max_seq_len_override");
        let s = "max_seq_len_override"@;
        assert(s[19] == 'e' && s[10] == 'n' && s[18] == 'd');
    }
    assert(rank(KNOB_ROWS@[11].0@) == 11) by {
        reveal_strlit("max_prefill_length");
        let s = "max_prefill_length"@;
        assert(s[17] == 'h' && s[9] == 'l' && s[16] == 't');
    }
    assert(rank(KNOB_ROWS@[12].0@) == 12) by {
        reveal_strlit("cuda_graph_max_bs");
        let s = "cuda_graph_max_bs"@;
        assert(s[16] == 's' && s[8] == 'p' && s[15] == 'b');
    }
    assert(rank(KNOB_ROWS@[13].0@) == 13) by {
        reveal_strlit("decode_log_interval");
        let s = "decode_log_interval"@;
        assert(s[18] == 'l' && s[9] == 'g' && s[17] == 'a');
    }
    assert(rank(KNOB_ROWS@[14].0@) == 14) by {
        reveal_strlit("num_tokenizer");
        let s = "num_tokenizer"@;
        assert(s[12] == 'r' && s[6] == 'k' && s[11] == 'e');
    }
    assert(rank(KNOB_ROWS@[15].0@) == 15) by {
        reveal_strlit("tensor_parallel_size");
        let s = "tensor_parallel_size"@;
        assert(s[19] == 'e' && s[10] == 'a' && s[18] == 'z');
    }
    assert(rank(KNOB_ROWS@[16].0@) == 16) by {
        reveal_strlit("disable_pynccl");
        let s = "disable_pynccl"@;
        assert(s[13] == 'l' && s[7] == '_' && s[12] == 'c');
    }
    assert(rank(KNOB_ROWS@[17].0@) == 17) by {
        reveal_strlit("enable_special_token_ckpt");
        let s = "enable_special_token_ckpt"@;
        assert(s[24] == 't' && s[12] == 'a' && s[23] == 'p');
    }
}

proof fn lemma_ranks_from_18()
    ensures
        rank(KNOB_ROWS@[18].0@) == 18,
        rank(KNOB_ROWS@[19].0@) == 19,
        rank(KNOB_ROWS@[20].0@) == 20,
        rank(KNOB_ROWS@[21].0@) == 21,
        rank(KNOB_ROWS@[22].0@) == 22,
        rank(KNOB_ROWS@[23].0@) == 23,
        rank(KNOB_ROWS@[24].0@) == 24,
        rank(KNOB_ROWS@[25].0@) == 25,
        rank(KNOB_ROWS@[26].0@) == 26,
{
    assert(rank(KNOB_ROWS@[18].0@) == 18) by {
        reveal_strlit("memory_ratio");
        let s = "memory_ratio"@;
        assert(s[11] == 'o' && s[6] == '_' && s[10] == 'i');
    }
    assert(rank(KNOB_ROWS@[19].0@) == 19) by {
        reveal_strlit("num_pages");
        let s = "num_pages"@;
        assert(s[8] == 's' && s[4] == 'p' && s[7] == 'e');
    }
    assert(rank(KNOB_ROWS@[20].0@) == 20) by {
        reveal_strlit("num_tokens");
        let s = "num_tokens"@;
        assert(s[9] == 's' && s[5] == 'o' && s[8] == 'n');
    }
    assert(rank(KNOB_ROWS@[21].0@) == 21) by {
        reveal_strlit("page_size");
        let s = "page_size"@;
        assert(s[8] == 'e' && s[4] == '_' && s[7] == 'z');
    }
    assert(rank(KNOB_ROWS@[22].0@) == 22) by {
        reveal_strlit("cache_type");
        let s = "cache_type"@;
        assert(s[9] == 'e' && s[5] == '_' && s[8] == 'p');
    }
    assert(rank(KNOB_ROWS@[23].0@) == 23) by {
        reveal_strlit("attention_backend");
        let s = "attention_backend"@;
        assert(s[16] == 'd' && s[8] == 'n' && s[15] == 'n');
    }
    assert(rank(KNOB_ROWS@[24].0@) == 24) by {
        reveal_strlit("kv_reserve_tokens");
        let s = "kv_reserve_tokens"@;
        assert(s[16] == 's' && s[8] == 'v' && s[15] == 'n');
    }
    assert(rank(KNOB_ROWS@[25].0@) == 25) by {
        reveal_strlit("moe_strategy");
        let s = "moe_strategy"@;
        assert(s[11] == 'y' && s[6] == 'r' && s[10] == 'g');
    }
    assert(rank(KNOB_ROWS@[26].0@) == 26) by {
        reveal_strlit("moe_cache_size");
        let s = "moe_cache_size"@;
        assert(s[13] == 'e' && s[7] == 'h' && s[12] == 'z');
    }
}

proof fn lemma_ranks_from_27()
    ensures
        rank(KNOB_ROWS@[27].0@) == 27,
        rank(KNOB_ROWS@[28].0@) == 28,
        rank(KNOB_ROWS@[29].0@) == 29,
        rank(KNOB_ROWS@[30].0@) == 30,
        rank(KNOB_ROWS@[31].0@) == 31,
        rank(KNOB_ROWS@[32].0@) == 32,
        rank(KNOB_ROWS@[33].0@) == 33,
        rank(KNOB_ROWS@[34].0@) == 34,
        rank(KNOB_ROWS@[35].0@) == 35,
{
    assert(rank(KNOB_ROWS@[27].0@) == 27) by {
        reveal_strlit("moe_cache_rate");
        let s = "moe_cache_rate"@;
        assert(s[13] == 'e' && s[7] == 'h' && s[12] == 't');
    }
    assert(rank(KNOB_ROWS@[28].0@) == 28) by {
        reveal_strlit("moe_cache_auto");
        let s = "moe_cache_auto"@;
        assert(s[13] == 'o' && s[7] == 'h' && s[12] == 't');
    }
    assert(rank(KNOB_ROWS@[29].0@) == 29) by {
        reveal_strlit("moe_cache_policy");
        let s = "moe_cache_policy"@;
        assert(s[15] == 'y' && s[8] == 'e' && s[14] == 'c');
    }
    assert(rank(KNOB_ROWS@[30].0@) == 30) by {
        reveal_strlit("moe_cpu_threads");
        let s = "moe_cpu_threads"@;
        assert(s[14] == 's' && s[7] == '_' && s[13] == 'd');
    }
    assert(rank(KNOB_ROWS@[31].0@) == 31) by {
        reveal_strlit("moe_cpu_layers");
        let s = "moe_cpu_layers"@;
        assert(s[13] == 's' && s[7] == '_' && s[12] == 'r');
    }
    assert(rank(KNOB_ROWS@[32].0@) == 32) by {
        reveal_strlit("moe_hybrid_max_fetch");
        let s = "moe_hybrid_max_fetch"@;
        assert(s[19] == 'h' && s[10] == '_' && s[18] == 'c');
    }
    assert(rank(KNOB_ROWS@[33].0@) == 33) by {
        reveal_strlit("quant_backend");
        let s = "quant_backend"@;
        assert(s[12] == 'd' && s[6] == 'b' && s[11] == 'n');
    }
    assert(rank(KNOB_ROWS@[34].0@) == 34) by {
        reveal_strlit("expert_load");
        let s = "expert_load"@;
        assert(s[10] == 'd' && s[5] == 't' && s[9] == 'a');
    }
    assert(rank(KNOB_ROWS@[35].0@) == 35) by {
        reveal_strlit("ple_backend");
        let s = "ple_backend"@;
        assert(s[10] == 'd' && s[5] == 'a' && s[9] == 'n');
    }
}

proof fn lemma_ranks_from_36()
    ensures
        rank(KNOB_ROWS@[36].0@) == 36,
        rank(KNOB_ROWS@[37].0@) == 37,
        rank(KNOB_ROWS@[38].0@) == 38,
        rank(KNOB_ROWS@[39].0@) == 39,
        rank(KNOB_ROWS@[40].0@) == 40,
        rank(KNOB_ROWS@[41].0@) == 41,
        rank(KNOB_ROWS@[42].0@) == 42,
        rank(KNOB_ROWS@[43].0@) == 43,
        rank(KNOB_ROWS@[44].0@) == 44,
{
    assert(rank(KNOB_ROWS@[36].0@) == 36) by {
        reveal_strlit("moe_prefill_hit_d2d");
        let s = "moe_prefill_hit_d2d"@;
        assert(s[18] == 'd' && s[9] == 'l' && s[17] == '2');
    }
    assert(rank(KNOB_ROWS@[37].0@) == 37) by {
        reveal_strlit("disable_moe_prefill_overlap");
        let s = "disable_moe_prefill_overlap"@;
        assert(s[26] == 'p' && s[13] == 'r' && s[25] == 'a');
    }
    assert(rank(KNOB_ROWS@[38].0@) == 38) by {
        reveal_strlit("tool_call_parser");
        let s = "tool_call_parser"@;
        assert(s[15] == 'r' && s[8] == 'l' && s[14] == 'e');
    }
    assert(rank(KNOB_ROWS@[39].0@) == 39) by {
        reveal_strlit("reasoning_parser");
        let s = "reasoning_parser"@;
        assert(s[15] == 'r' && s[8] == 'g' && s[14] == 'e');
    }
    assert(rank(KNOB_ROWS@[40].0@) == 40) by {
        reveal_strlit("text_model_only");
        let s = "text_model_only"@;
        assert(s[14] == 'y' && s[7] == 'd' && s[13] == 'l');
    }
    assert(rank(KNOB_ROWS@[41].0@) == 41) by {
        reveal_strlit("mm_disable");
        let s = "mm_disable"@;
        assert(s[9] == 'e' && s[5] == 's' && s[8] == 'l');
    }
    assert(rank(KNOB_ROWS@[42].0@) == 42) by {
        reveal_strlit("mm_encoder_weights");
        let s = "mm_encoder_weights"@;
        assert(s[17] == 's' && s[9] == 'r' && s[16] == 't');
    }
    assert(rank(KNOB_ROWS@[43].0@) == 43) by {
        reveal_strlit("image_min_tokens");
        let s = "image_min_tokens"@;
        assert(s[15] == 's' && s[8] == 'n' && s[14] == 'n');
    }
    assert(rank(KNOB_ROWS@[44].0@) == 44) by {
        reveal_strlit("image_max_tokens");
        let s = "image_max_tokens"@;
        assert(s[15] == 's' && s[8] == 'x' && s[14] == 'n');
    }
}

proof fn lemma_ranks_from_45()
    ensures
        rank(KNOB_ROWS@[45].0@) == 45,
        rank(KNOB_ROWS@[46].0@) == 46,
        rank(KNOB_ROWS@[47].0@) == 47,
        rank(KNOB_ROWS@[48].0@) == 48,
        rank(KNOB_ROWS@[49].0@) == 49,
        rank(KNOB_ROWS@[50].0@) == 50,
{
    assert(rank(KNOB_ROWS@[45].0@) == 45) by {
        reveal_strlit("mm_processor_kwargs");
        let s = "mm_processor_kwargs"@;
        assert(s[18] == 's' && s[9] == 's' && s[17] == 'g');
    }
    assert(rank(KNOB_ROWS@[46].0@) == 46) by {
        reveal_strlit("mm_embed_cache_device");
        let s = "mm_embed_cache_device"@;
        assert(s[20] == 'e' && s[10] == 'a' && s[19] == 'c');
    }
    assert(rank(KNOB_ROWS@[47].0@) == 47) by {
        reveal_strlit("allowed_media_domains");
        let s = "allowed_media_domains"@;
        assert(s[20] == 's' && s[10] == 'd' && s[19] == 'n');
    }
    assert(rank(KNOB_ROWS@[48].0@) == 48) by {
        reveal_strlit("allowed_local_media_path");
        let s = "allowed_local_media_path"@;
        assert(s[23] == 'h' && s[12] == 'l' && s[22] == 't');
    }
    assert(rank(KNOB_ROWS@[49].0@) == 49) by {
        reveal_strlit("sampling_defaults");
        let s = "sampling_defaults"@;
        assert(s[16] == 's' && s[8] == '_' && s[15] == 't');
    }
    assert(rank(KNOB_ROWS@[50].0@) == 50) by {
        reveal_strlit("enable_cache_report");
        let s = "enable_cache_report"@;
        assert(s[18] == 't' && s[9] == 'c' && s[17] == 'r');
    }
}

/// No two knobs have the same key.
pub proof fn law_keys_are_unique(i: int, j: int)
    requires
        0 <= i < KNOB_COUNT,
        0 <= j < KNOB_COUNT,
        knob_row(i).key@ == knob_row(j).key@,
    ensures
        i == j,
{
    lemma_rank(i);
    lemma_rank(j);
}

proof fn lemma_rank(i: int)
    requires
        0 <= i < KNOB_COUNT,
    ensures
        rank(KNOB_ROWS@[i].0@) == i,
{
    lemma_ranks_from_0();
    lemma_ranks_from_9();
    lemma_ranks_from_18();
    lemma_ranks_from_27();
    lemma_ranks_from_36();
    lemma_ranks_from_45();
}

/// The knob of row `i` is the one that its key names.
pub proof fn lemma_find_row(i: int)
    requires
        0 <= i < KNOB_COUNT,
    ensures
        find_knob(knob_row(i).key@) == Some(knob_row(i)),
{
    let key = knob_row(i).key@;
    assert(is_row(i, key));
    let j = choose|j: int| #[trigger] is_row(j, key);
    law_keys_are_unique(i, j);
}

/// Where a key stands in the schema; behind all of it when it names no knob.
pub open spec fn schema_place(key: Seq<char>) -> int {
    if is_knob(key) {
        choose|i: int| #[trigger] is_row(i, key)
    } else {
        KNOB_COUNT as int
    }
}

/// Where a key stands in the schema; behind all of it when it names no knob.
pub fn place_of(key: &str) -> (r: usize)
    ensures
        r == schema_place(key@),
{
    let mut i: usize = 0;
    while i < KNOB_COUNT
        invariant
            i <= KNOB_COUNT,
            forall|j: int| 0 <= j < i ==> !#[trigger] is_row(j, key@),
        decreases KNOB_COUNT - i,
    {
        if same(knob_at(i).key, key) {
            proof {
                assert(is_row(i as int, key@));
                law_keys_are_unique(i as int, schema_place(key@));
            }
            return i;
        }
        i = i + 1;
    }
    i
}

pub fn knob(key: &str) -> (r: Option<Knob>)
    ensures
        r == find_knob(key@),
{
    let mut i: usize = 0;
    while i < KNOB_COUNT
        invariant
            i <= KNOB_COUNT,
            forall|j: int| 0 <= j < i ==> !#[trigger] is_row(j, key@),
        decreases KNOB_COUNT - i,
    {
        let k = knob_at(i);
        if same(k.key, key) {
            proof {
                lemma_find_row(i as int);
            }
            return Some(k);
        }
        i = i + 1;
    }
    None
}

/// The rows of `group` among the first `n`, in table order.
pub open spec fn rows_in(group: Group, n: nat) -> Seq<Knob>
    decreases n,
{
    if n == 0 {
        Seq::empty()
    } else if knob_row(n - 1).group == group {
        rows_in(group, (n - 1) as nat).push(knob_row(n - 1))
    } else {
        rows_in(group, (n - 1) as nat)
    }
}

pub fn knobs_in(group: Group) -> (r: Vec<Knob>)
    ensures
        r@ == rows_in(group, KNOB_COUNT as nat),
{
    let mut out: Vec<Knob> = Vec::new();
    let mut i: usize = 0;
    while i < KNOB_COUNT
        invariant
            i <= KNOB_COUNT,
            out@ == rows_in(group, i as nat),
        decreases KNOB_COUNT - i,
    {
        let k = knob_at(i);
        if k.group == group {
            out.push(k);
        }
        i = i + 1;
    }
    out
}

// ---------------------------------------------------------------- quantization kernels

/// The kernel tables `--quant-backend` can name: layer, kind and its kernels,
/// space-separated, as FreeToken's `layers/quantization/{linear,moe}/*.py` list them. The
/// order is FreeToken's own, which is also its auto-selection order: the first kernel that
/// can run here and is worth it wins, so naming one only ever overrides that search.
///
/// `moe.mxfp8` is deliberately absent: its method registers an empty candidate table, so
/// FreeToken accepts no kernel name for it either.
pub const QUANT_ROWS: [(&'static str, &'static str, &'static str); 9] = [
    ("linear", "none", "torch"),
    ("linear", "fp8_tensor", "torch triton emulation"),
    ("linear", "fp8_block", "dsv4 triton"),
    ("linear", "mxfp8", "triton emulation"),
    ("linear", "nvfp4", "triton marlin emulation"),
    ("moe", "none", "fused"),
    ("moe", "fp8_block", "triton"),
    ("moe", "mxfp4", "triton triton_gptoss"),
    ("moe", "nvfp4", "triton marlin b12x"),
];

/// `acc`, and behind it those of `more` that are not yet there.
pub open spec fn add_new(acc: Seq<Seq<char>>, more: Seq<Seq<char>>) -> Seq<Seq<char>>
    decreases more.len(),
{
    if more.len() == 0 {
        acc
    } else {
        let a = add_new(acc, more.drop_last());
        if a.contains(more.last()) {
            a
        } else {
            a.push(more.last())
        }
    }
}

/// Every kernel name that `layer[.kind]` accepts among the first `n` tables: a bare layer
/// takes the union of its kinds, in the order of the tables, each kernel once.
pub open spec fn kernels_upto(layer: Seq<char>, kind: Option<Seq<char>>, n: nat) -> Seq<Seq<char>>
    decreases n,
{
    if n == 0 {
        Seq::empty()
    } else {
        let acc = kernels_upto(layer, kind, (n - 1) as nat);
        let row = QUANT_ROWS@[n - 1];
        if row.0@ == layer && (kind is None || row.1@ == kind->0) {
            add_new(acc, words_of(row.2@))
        } else {
            acc
        }
    }
}

pub open spec fn kernels(layer: Seq<char>, kind: Option<Seq<char>>) -> Seq<Seq<char>> {
    kernels_upto(layer, kind, 9)
}

/// Every kernel name a `layer[.kind]` key accepts.
pub fn quant_kernels(layer: &str, kind: Option<&str>) -> (r: Vec<String>)
    ensures
        texts(r@) == kernels(layer@, opt_str(kind)),
{
    let mut names: Vec<String> = Vec::new();
    let mut i: usize = 0;
    assert(texts(names@) =~= Seq::<Seq<char>>::empty());
    while i < 9
        invariant
            i <= 9,
            texts(names@) == kernels_upto(layer@, opt_str(kind), i as nat),
        decreases 9 - i,
    {
        let row = QUANT_ROWS[i];
        let fits = same(row.0, layer) && match kind {
            Some(want) => same(row.1, want),
            None => true,
        };
        if fits {
            let more = words(row.2);
            let ghost acc = texts(names@);
            let mut j: usize = 0;
            assert(texts(more@).take(0) =~= Seq::<Seq<char>>::empty());
            while j < more.len()
                invariant
                    j <= more.len(),
                    texts(names@) == add_new(acc, texts(more@).take(j as int)),
                decreases more.len() - j,
            {
                proof {
                    let t = texts(more@).take(j + 1);
                    assert(t.drop_last() =~= texts(more@).take(j as int));
                    assert(t.last() == more@[j as int]@);
                    lemma_texts_push(names@, more@[j as int]);
                }
                if !listed(more[j].as_str(), &names) {
                    names.push(more[j].clone());
                }
                j = j + 1;
            }
            assert(texts(more@).take(more.len() as int) =~= texts(more@));
        }
        i = i + 1;
    }
    names
}

/// The layer and the kind that the key of an entry names.
pub open spec fn layer_and_kind(key: Seq<char>) -> (Seq<char>, Option<Seq<char>>) {
    match cut(trimmed(key), '.') {
        Some((l, k)) => (trimmed(l), Some(trimmed(k))),
        None => (trimmed(key), None),
    }
}

/// What is wrong with asking for the kernel `wanted`, in lower case, under `key`. The last
/// two are the layer and the kernel as they are shown.
pub open spec fn kernel_error(
    key: Seq<char>,
    wanted: Seq<char>,
    shown_layer: Seq<char>,
    shown_kernel: Seq<char>,
) -> Option<Seq<char>> {
    let (layer, kind) = layer_and_kind(key);
    let known = kernels(layer, kind);
    if layer != "linear"@ && layer != "moe"@ {
        Some("no layer "@ + shown_layer + "; expected linear or moe"@)
    } else if known.len() == 0 {
        Some(
            layer + " has no "@ + (match kind {
                Some(k) => k,
                None => ""@,
            }) + " table"@,
        )
    } else if !known.contains(wanted) {
        Some(
            "no "@ + key + " kernel "@ + shown_kernel + "; known: "@ + joined(known, ", "@),
        )
    } else {
        None
    }
}

/// What is wrong with one `layer[.kind]=name` entry.
pub open spec fn entry_error(entry: Seq<char>) -> Option<Seq<char>> {
    let item = trimmed(entry);
    if item.len() == 0 {
        None
    } else {
        match cut(item, '=') {
            None => Some(quoted(item) + " is not layer[.kind]=name"@),
            Some((key, name)) => {
                let wanted = lowercase(trimmed(name));
                kernel_error(key, wanted, quoted(layer_and_kind(key).0), quoted(wanted))
            },
        }
    }
}

/// What is wrong with the first bad entry.
pub open spec fn entries_error(entries: Seq<Seq<char>>) -> Option<Seq<char>>
    decreases entries.len(),
{
    if entries.len() == 0 {
        None
    } else {
        match entry_error(entries[0]) {
            Some(e) => Some(e),
            None => entries_error(entries.drop_first()),
        }
    }
}

fn read_layer(key: &str) -> (r: (String, Option<String>))
    ensures
        (r.0@, opt_text(r.1)) == layer_and_kind(key@),
{
    let whole = trim(key);
    match split_once(whole.as_str(), '.') {
        Some((l, k)) => (trim(l.as_str()), Some(trim(k.as_str()))),
        None => (whole, None),
    }
}

/// What is wrong with asking for the kernel `wanted`, in lower case, under `key`; the last
/// two are the layer and the kernel as the message shows them.
pub fn check_kernel(key: &str, wanted: &str, shown_layer: &str, shown_kernel: &str) -> (r: Option<
    String,
>)
    ensures
        opt_text(r) == kernel_error(key@, wanted@, shown_layer@, shown_kernel@),
{
    let (layer, kind) = read_layer(key);
    if !same(layer.as_str(), "linear") && !same(layer.as_str(), "moe") {
        return Some(cat3("no layer ", shown_layer, "; expected linear or moe"));
    }
    let kind_ref: Option<&str> = match &kind {
        Some(k) => Some(k.as_str()),
        None => None,
    };
    assert(opt_str(kind_ref) == opt_text(kind));
    let known = quant_kernels(layer.as_str(), kind_ref);
    assert(texts(known@).len() == known.len());
    if known.len() == 0 {
        let shown: &str = match &kind {
            Some(k) => k.as_str(),
            None => "",
        };
        return Some(cat4(layer.as_str(), " has no ", shown, " table"));
    }
    if !listed(wanted, &known) {
        return Some(
            cat6("no ", key, " kernel ", shown_kernel, "; known: ", join(&known, ", ").as_str()),
        );
    }
    None
}

fn check_entry(entry: &str) -> (r: Option<String>)
    ensures
        opt_text(r) == entry_error(entry@),
{
    let item = trim(entry);
    if item.as_str().is_empty() {
        return None;
    }
    let (key, name) = match split_once(item.as_str(), '=') {
        Some(p) => p,
        None => {
            return Some(cat2(debug_text(item.as_str()).as_str(), " is not layer[.kind]=name"));
        },
    };
    let wanted = to_lowercase(trim(name.as_str()).as_str());
    let (layer, _) = read_layer(key.as_str());
    let shown_layer = debug_text(layer.as_str());
    let shown_kernel = debug_text(wanted.as_str());
    check_kernel(key.as_str(), wanted.as_str(), shown_layer.as_str(), shown_kernel.as_str())
}

/// Check one `--quant-backend` value as `QuantBackend.parse` does. FreeToken rejects a bad
/// entry with a usage error before it does any work, so catching it here turns a failed
/// launch into a red field.
pub fn validate_quant_backend(value: &str) -> (r: Option<String>)
    ensures
        opt_text(r) == entries_error(pieces(value@, ',')),
{
    let items = split(value, ',');
    let ghost all = pieces(value@, ',');
    let mut i: usize = 0;
    assert(all.skip(0) =~= all);
    while i < items.len()
        invariant
            i <= items.len(),
            all == pieces(value@, ','),
            texts(items@) == all,
            entries_error(all) == entries_error(all.skip(i as int)),
        decreases items.len() - i,
    {
        assert(all.skip(i as int)[0] == items@[i as int]@);
        assert(all.skip(i as int).drop_first() =~= all.skip(i + 1));
        let e = check_entry(items[i].as_str());
        if e.is_some() {
            return e;
        }
        i = i + 1;
    }
    assert(all.skip(i as int) =~= Seq::<Seq<char>>::empty());
    None
}

// ---------------------------------------------------------------- one value

/// What is wrong with a selection from `options`: the first word that is not an option, or
/// that was already chosen.
pub open spec fn selection_error(
    chosen: Seq<Seq<char>>,
    options: Seq<Seq<char>>,
    i: int,
) -> Option<Seq<char>>
    decreases chosen.len() - i,
{
    if i < 0 || i >= chosen.len() {
        None
    } else if !options.contains(chosen[i]) {
        Some("must be one or more of: "@ + joined(options, ", "@))
    } else if chosen.take(i).contains(chosen[i]) {
        Some(chosen[i] + " is named twice"@)
    } else {
        selection_error(chosen, options, i + 1)
    }
}

/// What is wrong with a whole number.
pub open spec fn integer_error(
    v: Seq<char>,
    min: Option<i64>,
    max: Option<i64>,
) -> Option<Seq<char>> {
    match signed_of(v) {
        Some(n) if i64::MIN <= n <= i64::MAX => if min is Some && n < min->0 {
            Some("must be at least "@ + dec_int(min->0 as int))
        } else if max is Some && n > max->0 {
            Some("must be at most "@ + dec_int(max->0 as int))
        } else {
            None
        },
        _ => Some("must be a whole number"@),
    }
}

/// What is wrong with the value of a knob; `None` means it is fine. An empty value is an
/// unset knob, and spaces around a value do not count.
pub open spec fn value_error(k: Knob, value: Seq<char>) -> Option<Seq<char>> {
    let v = trimmed(value);
    if v.len() == 0 {
        None
    } else if k.key@ == "quant_backend"@ {
        entries_error(pieces(v, ','))
    } else if k.key@ == "mm_processor_kwargs"@ {
        object_error(json_of(v))
    } else {
        kind_error(k.kind, v)
    }
}

/// What is wrong with the reading of a text that has to hold a JSON object.
pub open spec fn object_error(read: Result<JsonView, Seq<char>>) -> Option<Seq<char>> {
    match read {
        Ok(JsonView::Object(_)) => None,
        Ok(_) => Some("must be a JSON object"@),
        Err(e) => Some("not valid JSON: "@ + e),
    }
}

/// What is wrong with a value, going by the kind of its knob.
pub open spec fn kind_error(kind: Kind, v: Seq<char>) -> Option<Seq<char>> {
    match kind {
        Kind::Text => None,
        Kind::Flag => if v == "true"@ || v == "false"@ {
            None
        } else {
            Some("must be true or false"@)
        },
        Kind::Int { min, max } => integer_error(v, min, max),
        Kind::Float { from } => match real_of(v) {
            None => Some("must be a number"@),
            Some(x) => if lies_between(x, from) {
                None
            } else {
                Some("must be between "@ + bound_text(from) + " and 1"@)
            },
        },
        Kind::Choice(options) => if words_of(options@).contains(v) {
            None
        } else {
            Some("must be one of: "@ + joined(words_of(options@), ", "@))
        },
        Kind::Multi(options) => selection_error(words_of(v), words_of(options@), 0),
    }
}

pub open spec fn bound_text(b: Bound) -> Seq<char> {
    match b {
        Bound::Zero => "0"@,
        Bound::FiveHundredths => "0.05"@,
        Bound::One => "1"@,
    }
}

fn check_selection(v: &str, options: &str) -> (r: Option<String>)
    ensures
        opt_text(r) == selection_error(words_of(v@), words_of(options@), 0),
{
    let chosen = words(v);
    let known = words(options);
    let ghost c = words_of(v@);
    let ghost o = words_of(options@);
    let mut seen: Vec<String> = Vec::new();
    let mut i: usize = 0;
    assert(texts(seen@) =~= c.take(0));
    while i < chosen.len()
        invariant
            i <= chosen.len(),
            c == words_of(v@),
            o == words_of(options@),
            texts(chosen@) == c,
            texts(known@) == o,
            texts(seen@) == c.take(i as int),
            selection_error(c, o, 0) == selection_error(c, o, i as int),
        decreases chosen.len() - i,
    {
        assert(c[i as int] == chosen@[i as int]@);
        if !listed(chosen[i].as_str(), &known) {
            return Some(cat2("must be one or more of: ", join(&known, ", ").as_str()));
        }
        if listed(chosen[i].as_str(), &seen) {
            return Some(cat2(chosen[i].as_str(), " is named twice"));
        }
        proof {
            lemma_texts_push(seen@, chosen@[i as int]);
            assert(c.take(i + 1) =~= c.take(i as int).push(c[i as int]));
        }
        seen.push(chosen[i].clone());
        i = i + 1;
    }
    None
}

/// What is wrong with what was read of a text that has to hold a JSON object.
pub fn check_object(read: &Result<Json, String>) -> (r: Option<String>)
    ensures
        opt_text(r) == object_error(
            match *read {
                Ok(j) => Ok(j@),
                Err(e) => Err(e@),
            },
        ),
{
    match read {
        Ok(Json::Object(_)) => None,
        Ok(_) => Some("must be a JSON object".to_owned()),
        Err(e) => Some(cat2("not valid JSON: ", e.as_str())),
    }
}

fn check_kind(kind: Kind, v: &str) -> (r: Option<String>)
    ensures
        opt_text(r) == kind_error(kind, v@),
{
    match kind {
        Kind::Text => None,
        Kind::Flag => if same(v, "true") || same(v, "false") {
            None
        } else {
            Some("must be true or false".to_owned())
        },
        Kind::Int { min, max } => {
            let n: i64 = match parse_i64(v) {
                Some(n) => n,
                None => {
                    return Some("must be a whole number".to_owned());
                },
            };
            if let Some(lo) = min {
                if n < lo {
                    return Some(cat2("must be at least ", decimal_int(lo).as_str()));
                }
            }
            if let Some(hi) = max {
                if n > hi {
                    return Some(cat2("must be at most ", decimal_int(hi).as_str()));
                }
            }
            None
        },
        Kind::Float { from } => match read_between(v, from) {
            None => Some("must be a number".to_owned()),
            Some(true) => None,
            Some(false) => Some(cat3("must be between ", from.shown(), " and 1")),
        },
        Kind::Choice(options) => {
            let known = words(options);
            if listed(v, &known) {
                None
            } else {
                Some(cat2("must be one of: ", join(&known, ", ").as_str()))
            }
        },
        Kind::Multi(options) => check_selection(v, options),
    }
}

/// Check one value against a knob's declared domain. `None` means it is fine.
pub fn validate_value(k: &Knob, value: &str) -> (r: Option<String>)
    ensures
        opt_text(r) == value_error(*k, value@),
{
    let t = trim(value);
    let v = t.as_str();
    if v.is_empty() {
        return None;
    }
    if same(k.key, "quant_backend") {
        return validate_quant_backend(v);
    }
    // FreeToken parses this one with json.loads and refuses to start on anything that is
    // not an object, so it is worth catching here rather than in a failed launch.
    if same(k.key, "mm_processor_kwargs") {
        let read = parse_json(v);
        return check_object(&read);
    }
    check_kind(k.kind, v)
}

// ---------------------------------------------------------------- values

/// An edited set of knob values. Only knobs the user actually set are stored, so a
/// profile records intent ("leave the MoE backend on auto") rather than a snapshot of
/// today's defaults.
pub struct ServeConfig {
    values: TextMap<String>,
}

/// The contents of a map of strings.
pub open spec fn text_values(m: Map<Seq<char>, String>) -> Map<Seq<char>, Seq<char>> {
    m.map_values(|s: String| s@)
}

pub open spec fn value_of(m: Map<Seq<char>, Seq<char>>, key: Seq<char>) -> Option<Seq<char>> {
    if m.dom().contains(key) {
        Some(m[key])
    } else {
        None
    }
}

/// The keys that cannot be set together with `key`.
pub open spec fn excluded_by(key: Seq<char>) -> Set<Seq<char>> {
    match find_knob(key) {
        Some(k) => k.exclusive_with.keys().to_set().remove(key),
        None => Set::empty(),
    }
}

/// A value that clears the knob rather than setting it.
pub open spec fn clears(key: Seq<char>, value: Seq<char>) -> bool {
    value.len() == 0 || (value == "false"@ && find_knob(key) is Some && find_knob(key)->0.kind
        is Flag)
}

/// A configuration after `key` was set to `value`: what excludes it is cleared.
pub open spec fn after_set(
    m: Map<Seq<char>, Seq<char>>,
    key: Seq<char>,
    value: Seq<char>,
) -> Map<Seq<char>, Seq<char>> {
    if clears(key, value) {
        m.remove(key)
    } else {
        m.remove_keys(excluded_by(key)).insert(key, value)
    }
}

/// A flag knob that is on.
pub open spec fn is_on(m: Map<Seq<char>, Seq<char>>, key: Seq<char>) -> bool {
    value_of(m, key) == Some("true"@)
}

/// The arguments that one knob contributes to the command line.
pub open spec fn knob_args(k: Knob, value: Seq<char>) -> Seq<Seq<char>> {
    match k.kind {
        Kind::Flag => if value == "true"@ {
            seq![k.flag@]
        } else {
            Seq::empty()
        },
        Kind::Multi(_) => if words_of(value).len() == 0 {
            Seq::empty()
        } else {
            seq![k.flag@] + words_of(value)
        },
        _ => if value.len() == 0 {
            Seq::empty()
        } else {
            seq![k.flag@, value]
        },
    }
}

/// The arguments that the first `n` knobs of the table contribute, in table order.
pub open spec fn args_upto(m: Map<Seq<char>, Seq<char>>, n: nat) -> Seq<Seq<char>>
    decreases n,
{
    if n == 0 {
        Seq::empty()
    } else {
        let k = knob_row(n - 1);
        let head = args_upto(m, (n - 1) as nat);
        match value_of(m, k.key@) {
            Some(v) => head + knob_args(k, v),
            None => head,
        }
    }
}

pub open spec fn args_of(m: Map<Seq<char>, Seq<char>>) -> Seq<Seq<char>> {
    args_upto(m, KNOB_COUNT as nat)
}

/// The full command line, each word quoted where a shell would read it as something else.
pub open spec fn preview_of(program: Seq<char>, m: Map<Seq<char>, Seq<char>>) -> Seq<char> {
    joined(
        (seq![program, "serve"@] + args_of(m)).map_values(|w: Seq<char>| shell_word(w)),
        " "@,
    )
}

// ---------------------------------------------------------------- errors in order

pub open spec fn pairs(v: Seq<(String, String)>) -> Seq<(Seq<char>, Seq<char>)> {
    Seq::new(v.len(), |i: int| (v[i].0@, v[i].1@))
}

/// The order of pairs: by the first text, and by the second where the first is the same.
pub open spec fn pair_lt(a: (Seq<char>, Seq<char>), b: (Seq<char>, Seq<char>)) -> bool {
    lt(a.0, b.0) || (a.0 == b.0 && lt(a.1, b.1))
}

/// In ascending order, and nothing twice.
pub open spec fn in_order(p: Seq<(Seq<char>, Seq<char>)>) -> bool {
    forall|i: int, j: int| 0 <= i < j < p.len() ==> pair_lt(#[trigger] p[i], #[trigger] p[j])
}

proof fn lemma_pair_transitive(
    a: (Seq<char>, Seq<char>),
    b: (Seq<char>, Seq<char>),
    c: (Seq<char>, Seq<char>),
)
    requires
        pair_lt(a, b),
        pair_lt(b, c),
    ensures
        pair_lt(a, c),
{
    if lt(a.0, b.0) && lt(b.0, c.0) {
        lemma_lt_transitive(a.0, b.0, c.0);
    } else if a.0 == b.0 && b.0 == c.0 && !lt(a.0, c.0) {
        lemma_lt_irreflexive(a.0);
        lemma_lt_transitive(a.1, b.1, c.1);
    }
}

/// Puts a pair where it belongs, unless it is there already.
fn note_error(errors: &mut Vec<(String, String)>, key: &str, msg: &str)
    requires
        in_order(pairs(old(errors)@)),
    ensures
        in_order(pairs(final(errors)@)),
        forall|p: (Seq<char>, Seq<char>)| #[trigger]
            pairs(final(errors)@).contains(p) <==> (p == (key@, msg@) || pairs(
                old(errors)@,
            ).contains(p)),
{
    let ghost old_pairs = pairs(errors@);
    let ghost new = (key@, msg@);
    let mut i: usize = 0;
    while i < errors.len() && (before(errors[i].0.as_str(), key) || (same(
        errors[i].0.as_str(),
        key,
    ) && before(errors[i].1.as_str(), msg)))
        invariant
            i <= errors.len(),
            pairs(errors@) == old_pairs,
            new == (key@, msg@),
            forall|j: int| 0 <= j < i ==> pair_lt(#[trigger] old_pairs[j], new),
        decreases errors.len() - i,
    {
        assert(old_pairs[i as int] == (errors@[i as int].0@, errors@[i as int].1@));
        i = i + 1;
    }
    if i < errors.len() && same(errors[i].0.as_str(), key) && same(errors[i].1.as_str(), msg) {
        assert(old_pairs[i as int] == new);
        return;
    }
    proof {
        if i < old_pairs.len() {
            assert(old_pairs[i as int] == (errors@[i as int].0@, errors@[i as int].1@));
            lemma_lt_total(key@, old_pairs[i as int].0);
            lemma_lt_total(msg@, old_pairs[i as int].1);
            assert(pair_lt(new, old_pairs[i as int]));
        }
        assert forall|j: int| i <= j < old_pairs.len() implies pair_lt(
            new,
            #[trigger] old_pairs[j],
        ) by {
            if i < j {
                lemma_pair_transitive(new, old_pairs[i as int], old_pairs[j]);
            }
        }
    }
    errors.insert(i, (key.to_owned(), msg.to_owned()));
    proof {
        let np = pairs(errors@);
        assert(np =~= old_pairs.insert(i as int, new));
        assert forall|a: int, b: int| 0 <= a < b < np.len() implies pair_lt(
            #[trigger] np[a],
            #[trigger] np[b],
        ) by {
            if a < i && b < i {
                assert(pair_lt(old_pairs[a], old_pairs[b]));
            } else if a < i && b == i {
                assert(pair_lt(old_pairs[a], new));
            } else if a < i {
                assert(pair_lt(old_pairs[a], old_pairs[b - 1]));
            } else if a == i {
                assert(pair_lt(new, old_pairs[b - 1]));
            } else {
                assert(pair_lt(old_pairs[a - 1], old_pairs[b - 1]));
            }
        }
        assert forall|p: (Seq<char>, Seq<char>)| #[trigger] np.contains(p) <==> (p == new
            || old_pairs.contains(p)) by {
            if np.contains(p) {
                let k = np.index_of(p);
                assert(np[k] == p);
                if k < i {
                    assert(old_pairs[k] == p);
                } else if k > i {
                    assert(old_pairs[k - 1] == p);
                }
            }
            if old_pairs.contains(p) {
                let k = old_pairs.index_of(p);
                assert(old_pairs[k] == p);
                if k < i {
                    assert(np[k] == p);
                } else {
                    assert(np[k + 1] == p);
                }
            }
            assert(np[i as int] == new);
        }
    }
}

/// The flag of the knob that `key` names; the key itself when it names none.
pub open spec fn flag_of(key: Seq<char>) -> Seq<char> {
    match find_knob(key) {
        Some(k) => k.flag@,
        None => key,
    }
}

/// `other` is set although `key` excludes it.
pub open spec fn clashes(m: Map<Seq<char>, Seq<char>>, key: Seq<char>, other: Seq<char>) -> bool {
    excluded_by(key).contains(other) && m.dom().contains(other)
}

/// `msg` is an error of the value stored under `key`.
pub open spec fn stored_error(
    m: Map<Seq<char>, Seq<char>>,
    key: Seq<char>,
    msg: Seq<char>,
) -> bool {
    match find_knob(key) {
        None => msg == "unknown knob"@,
        Some(k) => {
            ||| value_error(k, m[key]) == Some(msg)
            ||| exists|other: Seq<char>| #[trigger]
                clashes(m, key, other) && msg == "cannot be combined with "@ + flag_of(other)
        },
    }
}

/// The image token budget of a configuration, when both ends are whole numbers.
pub open spec fn image_budget(m: Map<Seq<char>, Seq<char>>) -> Option<(int, int)> {
    match (value_of(m, "image_min_tokens"@), value_of(m, "image_max_tokens"@)) {
        (Some(lo), Some(hi)) => match (signed_of(trimmed(lo)), signed_of(trimmed(hi))) {
            (Some(a), Some(b)) if i64::MIN <= a <= i64::MAX && i64::MIN <= b <= i64::MAX => Some(
                (a, b),
            ),
            _ => None,
        },
        _ => None,
    }
}

/// A configuration without a model.
pub open spec fn model_missing(m: Map<Seq<char>, Seq<char>>) -> bool {
    match value_of(m, "model"@) {
        Some(v) => trimmed(v).len() == 0,
        None => true,
    }
}

/// `msg` is an error to report against `key`.
pub open spec fn config_error(
    m: Map<Seq<char>, Seq<char>>,
    key: Seq<char>,
    msg: Seq<char>,
) -> bool {
    ||| model_missing(m) && key == "model"@ && msg == "a model path or repo id is required"@
    ||| m.dom().contains(key) && stored_error(m, key, msg)
    ||| match image_budget(m) {
        Some((lo, hi)) => lo > hi && key == "image_min_tokens"@ && msg == dec_int(lo)
            + " is more than --image-max-tokens "@ + dec_int(hi),
        None => false,
    }
}

// ---------------------------------------------------------------- older profiles

/// The complaint that comes first in the order of keys and messages.
pub open spec fn is_first_error(
    m: Map<Seq<char>, Seq<char>>,
    p: (Seq<char>, Seq<char>),
) -> bool {
    &&& config_error(m, p.0, p.1)
    &&& forall|key: Seq<char>, msg: Seq<char>| #[trigger]
        config_error(m, key, msg) ==> (key, msg) == p || pair_lt(p, (key, msg))
}

/// The first complaint about a configuration; `None` when there is none.
pub open spec fn first_error(m: Map<Seq<char>, Seq<char>>) -> Option<(Seq<char>, Seq<char>)> {
    if exists|p: (Seq<char>, Seq<char>)| is_first_error(m, p) {
        Some(choose|p: (Seq<char>, Seq<char>)| is_first_error(m, p))
    } else {
        None
    }
}

proof fn lemma_first_error(m: Map<Seq<char>, Seq<char>>, p: (Seq<char>, Seq<char>))
    requires
        is_first_error(m, p),
    ensures
        first_error(m) == Some(p),
{
    let q = choose|q: (Seq<char>, Seq<char>)| is_first_error(m, q);
    assert(is_first_error(m, q));
    assert(config_error(m, q.0, q.1) && config_error(m, p.0, p.1));
    if q != p {
        assert(pair_lt(p, (q.0, q.1)) && pair_lt(q, (p.0, p.1)));
        lemma_pair_transitive(p, q, p);
        lemma_lt_irreflexive(p.0);
        lemma_lt_irreflexive(p.1);
    }
}

/// The kernel that a `--nvfp4-backend` value names today; "auto" stood for no entry at all.
pub open spec fn nvfp4_kernel(v: Seq<char>) -> Seq<char> {
    if v == "auto"@ {
        ""@
    } else if v == "flashinfer"@ {
        "b12x"@
    } else {
        v
    }
}

/// `m` with `value` under `key`, unless something stands there already.
pub open spec fn or_insert(
    m: Map<Seq<char>, Seq<char>>,
    key: Seq<char>,
    value: Seq<char>,
) -> Map<Seq<char>, Seq<char>> {
    if m.dom().contains(key) {
        m
    } else {
        m.insert(key, value)
    }
}

/// --moe-backend became --moe-strategy, with the same values.
pub open spec fn moe_backend_renamed(m: Map<Seq<char>, Seq<char>>) -> Map<Seq<char>, Seq<char>> {
    match value_of(m, "moe_backend"@) {
        Some(v) => or_insert(m.remove("moe_backend"@), "moe_strategy"@, v),
        None => m,
    }
}

/// --nvfp4-backend became a single --quant-backend entry.
pub open spec fn nvfp4_backend_renamed(m: Map<Seq<char>, Seq<char>>) -> Map<Seq<char>, Seq<char>> {
    match value_of(m, "nvfp4_backend"@) {
        Some(v) => if nvfp4_kernel(v).len() == 0 {
            m.remove("nvfp4_backend"@)
        } else {
            or_insert(
                m.remove("nvfp4_backend"@),
                "quant_backend"@,
                "moe.nvfp4="@ + nvfp4_kernel(v),
            )
        },
        None => m,
    }
}

/// A saved configuration under the names that the flags have today.
pub open spec fn migrated(m: Map<Seq<char>, Seq<char>>) -> Map<Seq<char>, Seq<char>> {
    nvfp4_backend_renamed(moe_backend_renamed(m))
}

impl View for ServeConfig {
    type V = Map<Seq<char>, Seq<char>>;

    closed spec fn view(&self) -> Map<Seq<char>, Seq<char>> {
        text_values(self.values@)
    }
}

impl Clone for ServeConfig {
    fn clone(&self) -> (r: Self)
        ensures
            r@ == self@,
    {
        let r = ServeConfig { values: self.values.duplicate() };
        assert(r@ =~= self@);
        r
    }
}

impl Default for ServeConfig {
    fn default() -> (r: Self)
        ensures
            r@ == Map::<Seq<char>, Seq<char>>::empty(),
    {
        let r = ServeConfig { values: TextMap::new() };
        assert(r@ =~= Map::<Seq<char>, Seq<char>>::empty());
        r
    }
}

impl ServeConfig {
    pub fn new() -> (r: Self)
        ensures
            r@ == Map::<Seq<char>, Seq<char>>::empty(),
    {
        Self::default()
    }

    /// A saved set of values, carried forward onto the current flag names: a renamed flag
    /// has to be carried over on the way in, or loading an existing profile would quietly
    /// drop the setting as an unknown knob.
    pub fn from_saved(values: TextMap<String>) -> (r: Self)
        ensures
            r@ == migrated(text_values(values@)),
    {
        let mut r = ServeConfig { values };
        let ghost m0 = text_values(values@);
        let old = r.values.remove("moe_backend");
        assert(r@ =~= m0.remove("moe_backend"@));
        if let Some(v) = old {
            if !r.values.contains_key("moe_strategy") {
                r.values.insert("moe_strategy", v);
                assert(r@ =~= m0.remove("moe_backend"@).insert("moe_strategy"@, v@));
            }
        }
        assert(r@ =~= moe_backend_renamed(m0));
        let ghost m1 = moe_backend_renamed(m0);
        let old = r.values.remove("nvfp4_backend");
        assert(r@ =~= m1.remove("nvfp4_backend"@));
        if let Some(v) = old {
            let kernel: &str = if same(v.as_str(), "auto") {
                ""
            } else if same(v.as_str(), "flashinfer") {
                "b12x"
            } else {
                v.as_str()
            };
            if !kernel.is_empty() && !r.values.contains_key("quant_backend") {
                let entry = cat2("moe.nvfp4=", kernel);
                r.values.insert("quant_backend", entry);
                assert(r@ =~= m1.remove("nvfp4_backend"@).insert("quant_backend"@, entry@));
            }
        }
        assert(r@ =~= nvfp4_backend_renamed(m1));
        r
    }

    /// Every stored value, as it is saved.
    pub fn values(&self) -> (r: &TextMap<String>)
        ensures
            text_values(r@) == self@,
    {
        &self.values
    }

    pub fn get(&self, key: &str) -> (r: Option<&str>)
        ensures
            opt_str(r) == value_of(self@, key@),
    {
        match self.values.get(key) {
            Some(s) => Some(s.as_str()),
            None => None,
        }
    }

    pub fn is_set(&self, key: &str) -> (r: bool)
        ensures
            r == self@.dom().contains(key@),
    {
        self.values.contains_key(key)
    }

    /// True when a `Flag` knob is on.
    pub fn flag(&self, key: &str) -> (r: bool)
        ensures
            r == is_on(self@, key@),
    {
        match self.get(key) {
            Some(v) => same(v, "true"),
            None => false,
        }
    }

    /// Set a knob, clearing anything it is mutually exclusive with. An empty value
    /// unsets the knob instead, which is how the UI clears a field.
    pub fn set(&mut self, key: &str, value: &str)
        ensures
            final(self)@ == after_set(old(self)@, key@, value@),
    {
        let k = knob(key);
        let off = match k {
            Some(k) => matches!(k.kind, Kind::Flag),
            None => false,
        };
        let ghost m0 = self@;
        if value.is_empty() || (off && same(value, "false")) {
            self.values.remove(key);
            assert(self@ =~= m0.remove(key@));
            return;
        }
        assert(m0 =~= m0.remove_keys(Set::empty()));
        if let Some(k) = k {
            let others = k.exclusive_with.members();
            let ghost ks = k.exclusive_with.keys();
            let mut i: usize = 0;
            assert(m0 =~= m0.remove_keys(ks.take(0).to_set().remove(key@)));
            while i < others.len()
                invariant
                    i <= others.len(),
                    strs(others@) == ks,
                    self@ == m0.remove_keys(ks.take(i as int).to_set().remove(key@)),
                decreases others.len() - i,
            {
                let ghost before_set = ks.take(i as int).to_set().remove(key@);
                let ghost after = ks.take(i + 1).to_set().remove(key@);
                proof {
                    assert(ks[i as int] == others@[i as int]@);
                    assert(ks.take(i + 1) =~= ks.take(i as int).push(ks[i as int]));
                    assert forall|x: Seq<char>| ks.take(i + 1).contains(x) <==> (ks.take(
                        i as int,
                    ).contains(x) || x == ks[i as int]) by {
                        if ks.take(i as int).contains(x) {
                            let n = ks.take(i as int).index_of(x);
                            assert(ks.take(i + 1)[n] == x);
                        }
                        assert(ks.take(i + 1)[i as int] == ks[i as int]);
                    }
                }
                if !same(others[i], key) {
                    self.values.remove(others[i]);
                    assert forall|x: Seq<char>| after.contains(x) <==> before_set.insert(
                        ks[i as int],
                    ).contains(x) by {
                        assert(ks.take(i + 1).contains(x) <==> (ks.take(i as int).contains(x) || x
                            == ks[i as int]));
                    }
                    assert(after =~= before_set.insert(ks[i as int]));
                    assert(self@ =~= m0.remove_keys(before_set).remove(ks[i as int]));
                    assert(m0.remove_keys(before_set).remove(ks[i as int]) =~= m0.remove_keys(
                        after,
                    ));
                } else {
                    assert forall|x: Seq<char>| after.contains(x) <==> before_set.contains(x) by {
                        assert(ks.take(i + 1).contains(x) <==> (ks.take(i as int).contains(x) || x
                            == ks[i as int]));
                    }
                    assert(after =~= before_set);
                }
                i = i + 1;
            }
            assert(ks.take(i as int) =~= ks);
        }
        let ghost m1 = self@;
        self.values.insert(key, value.to_owned());
        assert(self@ =~= m1.insert(key@, value@));
    }

    pub fn unset(&mut self, key: &str)
        ensures
            final(self)@ == old(self)@.remove(key@),
    {
        let ghost m0 = self@;
        self.values.remove(key);
        assert(self@ =~= m0.remove(key@));
    }

    pub fn toggle_flag(&mut self, key: &str)
        ensures
            final(self)@ == (if is_on(old(self)@, key@) {
                old(self)@.remove(key@)
            } else {
                after_set(old(self)@, key@, "true"@)
            }),
    {
        if self.flag(key) {
            self.unset(key);
        } else {
            self.set(key, "true");
        }
    }

    /// Build the `ft serve` argument list. Knobs are emitted in schema order so the
    /// preview and the real invocation always read the same way.
    pub fn to_args(&self) -> (r: Vec<String>)
        ensures
            texts(r@) == args_of(self@),
    {
        let mut args: Vec<String> = Vec::new();
        let mut i: usize = 0;
        assert(texts(args@) =~= Seq::<Seq<char>>::empty());
        while i < KNOB_COUNT
            invariant
                i <= KNOB_COUNT,
                texts(args@) == args_upto(self@, i as nat),
            decreases KNOB_COUNT - i,
        {
            let k = knob_at(i);
            if let Some(value) = self.get(k.key) {
                let mut mine: Vec<String> = Vec::new();
                match k.kind {
                    Kind::Flag => {
                        if same(value, "true") {
                            mine.push(k.flag.to_owned());
                        }
                    },
                    Kind::Multi(_) => {
                        // `nargs="+"`: the flag once, then each value as its own element.
                        let mut chosen = words(value);
                        assert(texts(chosen@).len() == chosen.len());
                        if chosen.len() > 0 {
                            let ghost tail = chosen@;
                            mine.push(k.flag.to_owned());
                            mine.append(&mut chosen);
                            assert(texts(mine@) =~= seq![k.flag@] + texts(tail));
                        }
                    },
                    _ => {
                        if !value.is_empty() {
                            mine.push(k.flag.to_owned());
                            mine.push(value.to_owned());
                        }
                    },
                }
                assert(texts(mine@) =~= knob_args(k, value@));
                let ghost head = args@;
                let ghost tail = mine@;
                args.append(&mut mine);
                assert(texts(args@) =~= texts(head) + texts(tail));
            }
            i = i + 1;
        }
        args
    }

    /// A shell-quoted preview of the full command line.
    pub fn preview(&self, program: &str) -> (r: String)
        ensures
            r@ == preview_of(program@, self@),
    {
        let mut parts: Vec<String> = vec![program.to_owned(), "serve".to_owned()];
        let mut args = self.to_args();
        parts.append(&mut args);
        let ghost all = seq![program@, "serve"@] + args_of(self@);
        assert(texts(parts@) =~= all);
        let ghost f = |w: Seq<char>| shell_word(w);
        let mut out: Vec<String> = Vec::new();
        let mut i: usize = 0;
        assert(texts(out@) =~= all.map_values(f).take(0));
        while i < parts.len()
            invariant
                i <= parts.len(),
                texts(parts@) == all,
                f == (|w: Seq<char>| shell_word(w)),
                texts(out@) == all.map_values(f).take(i as int),
            decreases parts.len() - i,
        {
            let w = shell_quote(parts[i].as_str());
            proof {
                assert(all[i as int] == parts@[i as int]@);
                lemma_texts_push(out@, w);
                assert(all.map_values(f).take(i + 1) =~= all.map_values(f).take(i as int).push(w@));
            }
            out.push(w);
            i = i + 1;
        }
        assert(all.map_values(f).take(i as int) =~= all.map_values(f));
        join(&out, " ")
    }

    /// Validate every set value against its knob. Returns `(key, message)` pairs in order.
    pub fn validate(&self) -> (r: Vec<(String, String)>)
        ensures
            in_order(pairs(r@)),
            forall|key: Seq<char>, msg: Seq<char>|
                pairs(r@).contains((key, msg)) <==> #[trigger] config_error(self@, key, msg),
    {
        let ghost m = self@;
        let mut errors: Vec<(String, String)> = Vec::new();
        let missing = match self.get("model") {
            Some(v) => trim(v).as_str().is_empty(),
            None => true,
        };
        if missing {
            note_error(&mut errors, "model", "a model path or repo id is required");
        }
        let ghost first = |p: (Seq<char>, Seq<char>)|
            model_missing(m) && p == ("model"@, "a model path or repo id is required"@);
        let n = self.values.len();
        let ghost keys = self.values.keys();
        let mut i: usize = 0;
        while i < n
            invariant
                i <= n,
                n == keys.len(),
                keys == self.values.keys(),
                m == self@,
                in_order(pairs(errors@)),
                forall|p: (Seq<char>, Seq<char>)| #[trigger]
                    pairs(errors@).contains(p) <==> (first(p) || exists|j: int|
                        0 <= j < i && #[trigger] keys[j] == p.0 && stored_error(m, p.0, p.1)),
            decreases n - i,
        {
            let key = self.values.key_at(i);
            let value = self.values.value_at(i);
            assert(m[key@] == value@);
            let ghost before_errors = pairs(errors@);
            match knob(key.as_str()) {
                None => {
                    note_error(&mut errors, key.as_str(), "unknown knob");
                },
                Some(k) => {
                    let found = validate_value(&k, value.as_str());
                    if let Some(msg) = &found {
                        note_error(&mut errors, key.as_str(), msg.as_str());
                    }
                    let ghost ve = value_error(k, m[key@]);
                    let others = k.exclusive_with.members();
                    let ghost ks = k.exclusive_with.keys();
                    let mut j: usize = 0;
                    while j < others.len()
                        invariant
                            j <= others.len(),
                            m == self@,
                            strs(others@) == ks,
                            find_knob(key@) == Some(k),
                            ks == k.exclusive_with.keys(),
                            in_order(pairs(errors@)),
                            forall|p: (Seq<char>, Seq<char>)| #[trigger]
                                pairs(errors@).contains(p) <==> (before_errors.contains(p) || (p.0
                                    == key@ && ve == Some(p.1)) || exists|e: int|
                                    0 <= e < j && p.0 == key@ && clashes(m, key@, #[trigger] ks[e])
                                        && p.1 == "cannot be combined with "@ + flag_of(ks[e])),
                        decreases others.len() - j,
                    {
                        let other = others[j];
                        assert(ks[j as int] == other@);
                        assert(ks.contains(ks[j as int]));
                        if !same(other, key.as_str()) && self.is_set(other) {
                            let flag: &str = match knob(other) {
                                Some(o) => o.flag,
                                None => other,
                            };
                            let msg = cat2("cannot be combined with ", flag);
                            assert(clashes(m, key@, ks[j as int]));
                            note_error(&mut errors, key.as_str(), msg.as_str());
                        }
                        j = j + 1;
                    }
                    proof {
                        assert forall|msg: Seq<char>| stored_error(m, key@, msg) <==> (ve == Some(
                            msg,
                        ) || exists|e: int|
                            0 <= e < ks.len() && clashes(m, key@, #[trigger] ks[e]) && msg
                                == "cannot be combined with "@ + flag_of(ks[e])) by {
                            if stored_error(m, key@, msg) && ve != Some(msg) {
                                let other = choose|other: Seq<char>| #[trigger]
                                    clashes(m, key@, other) && msg
                                        == "cannot be combined with "@ + flag_of(other);
                                let e = ks.index_of(other);
                                assert(ks[e] == other);
                            }
                        }
                    }
                },
            }
            assert forall|p: (Seq<char>, Seq<char>)| #[trigger]
                pairs(errors@).contains(p) <==> (before_errors.contains(p) || (p.0 == key@
                    && stored_error(m, p.0, p.1))) by {}
            assert(keys[i as int] == key@);
            i = i + 1;
        }
        // FreeToken rejects this pair at startup; catching it here means the Serve tab says
        // so while it can still be fixed, rather than after a launch that dies.
        let ghost before_errors = pairs(errors@);
        let budget: Option<(i64, i64)> = match (
            self.get("image_min_tokens"),
            self.get("image_max_tokens"),
        ) {
            (Some(lo), Some(hi)) => match (
                parse_i64(trim(lo).as_str()),
                parse_i64(trim(hi).as_str()),
            ) {
                (Some(lo), Some(hi)) => Some((lo, hi)),
                _ => None,
            },
            _ => None,
        };
        if let Some((lo, hi)) = budget {
            if lo > hi {
                let msg = cat3(
                    decimal_int(lo).as_str(),
                    " is more than --image-max-tokens ",
                    decimal_int(hi).as_str(),
                );
                note_error(&mut errors, "image_min_tokens", msg.as_str());
            }
        }
        proof {
            assert forall|key: Seq<char>, msg: Seq<char>| pairs(errors@).contains(
                (key, msg),
            ) <==> #[trigger] config_error(m, key, msg) by {
                let p = (key, msg);
                assert(m.dom().contains(key) == self.values@.dom().contains(key));
                assert(self.values@.dom().contains(key) <==> keys.contains(key));
                if m.dom().contains(key) {
                    let j = keys.index_of(key);
                    assert(keys[j] == key);
                }
                if exists|j: int| 0 <= j < keys.len() && #[trigger] keys[j] == key {
                    assert(keys.contains(key));
                }
                assert(before_errors.contains(p) <==> (first(p) || (m.dom().contains(key)
                    && stored_error(m, key, msg))));
            }
        }
        errors
    }

    /// The first complaint about this configuration, in the order of keys and messages.
    pub fn first_error(&self) -> (r: Option<(String, String)>)
        ensures
            (match r {
                Some(p) => Some((p.0@, p.1@)),
                None => None,
            }) == first_error(self@),
    {
        let errors = self.validate();
        let ghost all = pairs(errors@);
        if errors.len() == 0 {
            proof {
                if exists|p: (Seq<char>, Seq<char>)| is_first_error(self@, p) {
                    let p = choose|p: (Seq<char>, Seq<char>)| is_first_error(self@, p);
                    assert(config_error(self@, p.0, p.1));
                    assert(all.contains((p.0, p.1)));
                }
            }
            return None;
        }
        let p = (errors[0].0.clone(), errors[0].1.clone());
        proof {
            let q = all[0];
            assert(q == (p.0@, p.1@));
            assert(all.contains((q.0, q.1)));
            assert forall|key: Seq<char>, msg: Seq<char>| #[trigger]
                config_error(self@, key, msg) implies (key, msg) == q || pair_lt(q, (key, msg)) by {
                assert(all.contains((key, msg)));
                let k = choose|k: int| 0 <= k < all.len() && all[k] == (key, msg);
                if k > 0 {
                    assert(pair_lt(all[0], all[k]));
                }
            }
            lemma_first_error(self@, q);
        }
        Some(p)
    }
}

// ---------------------------------------------------------------- laws

/// The knobs of an exclusion set exist, and each of them excludes that same set.
pub proof fn law_exclusions_name_real_knobs(group: Excludes, key: Seq<char>)
    requires
        group.keys().contains(key),
    ensures
        find_knob(key) is Some,
        find_knob(key)->0.exclusive_with == group,
{
    lemma_find_row(19);
    assert(knob_row(19).key@ == "num_pages"@);
    lemma_find_row(20);
    assert(knob_row(20).key@ == "num_tokens"@);
    lemma_find_row(26);
    assert(knob_row(26).key@ == "moe_cache_size"@);
    lemma_find_row(27);
    assert(knob_row(27).key@ == "moe_cache_rate"@);
    lemma_find_row(28);
    assert(knob_row(28).key@ == "moe_cache_auto"@);
    let i = group.keys().index_of(key);
    assert(group.keys()[i] == key);
}

/// A knob that excludes others is a member of the set it excludes.
pub proof fn law_a_knob_is_in_its_own_exclusion_set(i: int)
    requires
        0 <= i < KNOB_COUNT,
        knob_row(i).exclusive_with != Excludes::Nothing,
    ensures
        knob_row(i).exclusive_with.keys().contains(knob_row(i).key@),
{
    let keys = knob_row(i).exclusive_with.keys();
    match knob_row(i).exclusive_with {
        Excludes::KvCapacity => {
            assert(keys[0] == "num_pages"@ && keys[1] == "num_tokens"@);
        },
        Excludes::MoeCache => {
            assert(keys[0] == "moe_cache_size"@ && keys[1] == "moe_cache_rate"@ && keys[2]
                == "moe_cache_auto"@);
        },
        Excludes::Nothing => {},
    }
}

/// Exclusion is mutual.
pub proof fn law_exclusion_is_mutual(a: Seq<char>, b: Seq<char>)
    requires
        excluded_by(a).contains(b),
    ensures
        excluded_by(b).contains(a),
{
    let i = choose|i: int| #[trigger] is_row(i, a);
    assert(find_knob(a) == Some(knob_row(i)));
    let group = knob_row(i).exclusive_with;
    assert(group.keys().contains(b));
    law_exclusions_name_real_knobs(group, b);
    law_a_knob_is_in_its_own_exclusion_set(i);
}

/// No two knobs that exclude each other are set.
pub open spec fn exclusive(m: Map<Seq<char>, Seq<char>>) -> bool {
    forall|a: Seq<char>, b: Seq<char>| m.dom().contains(a) ==> !#[trigger] clashes(m, a, b)
}

/// Setting a knob never leaves two set that exclude each other, and neither does unsetting
/// or toggling one.
pub proof fn law_edits_keep_the_exclusions(
    m: Map<Seq<char>, Seq<char>>,
    key: Seq<char>,
    value: Seq<char>,
)
    requires
        exclusive(m),
    ensures
        exclusive(after_set(m, key, value)),
        exclusive(m.remove(key)),
{
    let r = m.remove(key);
    assert forall|a: Seq<char>, b: Seq<char>| r.dom().contains(a) implies !#[trigger] clashes(
        r,
        a,
        b,
    ) by {
        assert(!clashes(m, a, b));
    }
    let n = after_set(m, key, value);
    assert forall|a: Seq<char>, b: Seq<char>| n.dom().contains(a) implies !#[trigger] clashes(
        n,
        a,
        b,
    ) by {
        assert(m.dom().contains(a) ==> !clashes(m, a, b));
        if clashes(n, a, b) && b == key && a != key {
            law_exclusion_is_mutual(a, b);
        }
    }
}

/// One edit of a configuration.
pub enum Edit {
    Put(Seq<char>, Seq<char>),
    Unset(Seq<char>),
    Toggle(Seq<char>),
}

/// The configuration that a run of edits makes of an empty one.
pub open spec fn edited(edits: Seq<Edit>) -> Map<Seq<char>, Seq<char>>
    decreases edits.len(),
{
    if edits.len() == 0 {
        Map::empty()
    } else {
        let m = edited(edits.drop_last());
        match edits.last() {
            Edit::Put(key, value) => after_set(m, key, value),
            Edit::Unset(key) => m.remove(key),
            Edit::Toggle(key) => if is_on(m, key) {
                m.remove(key)
            } else {
                after_set(m, key, "true"@)
            },
        }
    }
}

/// The error of two knobs that exclude each other.
pub open spec fn is_clash(msg: Seq<char>) -> bool {
    "cannot be combined with "@.is_prefix_of(msg)
}

proof fn lemma_first_chars()
    ensures
        "cannot be combined with "@.len() == 24,
        "cannot be combined with "@.len() > 0 && "cannot be combined with "@[0] == 'c',
        "a model path or repo id is required"@.len() > 0 && "a model path or repo id is required"@[0] == 'a',
        "unknown knob"@.len() > 0 && "unknown knob"@[0] == 'u',
        "must be true or false"@.len() > 0 && "must be true or false"@[0] == 'm',
        "must be a number"@.len() > 0 && "must be a number"@[0] == 'm',
        "must be a whole number"@.len() > 0 && "must be a whole number"@[0] == 'm',
        "must be a JSON object"@.len() > 0 && "must be a JSON object"@[0] == 'm',
{
    reveal_strlit("cannot be combined with ");
    reveal_strlit("a model path or repo id is required");
    reveal_strlit("unknown knob");
    reveal_strlit("must be true or false");
    reveal_strlit("must be a number");
    reveal_strlit("must be a whole number");
    reveal_strlit("must be a JSON object");
}

/// A text that does not start with a `c` is no clash, and neither is what follows it.
proof fn lemma_no_clash(head: Seq<char>, tail: Seq<char>)
    requires
        head.len() > 0,
        head[0] != 'c',
    ensures
        !is_clash(head),
        !is_clash(head + tail),
{
    lemma_first_chars();
    let c = "cannot be combined with "@;
    if is_clash(head) {
        assert(head.subrange(0, c.len() as int)[0] == head[0]);
    }
    if is_clash(head + tail) {
        assert((head + tail).subrange(0, c.len() as int)[0] == (head + tail)[0]);
    }
}

proof fn lemma_selection_error_is_no_clash(
    chosen: Seq<Seq<char>>,
    options: Seq<Seq<char>>,
    i: int,
)
    requires
        forall|j: int| 0 <= j < chosen.len() ==> no_space(#[trigger] chosen[j]),
    ensures
        selection_error(chosen, options, i) matches Some(msg) ==> !is_clash(msg),
    decreases chosen.len() - i,
{
    if 0 <= i < chosen.len() {
        reveal_strlit("must be one or more of: ");
        lemma_no_clash("must be one or more of: "@, joined(options, ", "@));
        lemma_selection_error_is_no_clash(chosen, options, i + 1);
        let w = chosen[i];
        let c = "cannot be combined with "@;
        let t = " is named twice"@;
        reveal_strlit("cannot be combined with ");
        reveal_strlit(" is named twice");
        if is_clash(w + t) {
            // The first space of the one is the first space of the other.
            let p = (w + t).subrange(0, c.len() as int);
            assert(p[6] == ' ' && p[7] == 'b');
            assert(no_space(w));
            if w.len() > 6 {
                assert((w + t)[6] == w[6]);
            } else if w.len() == 6 {
                assert((w + t)[7] == t[1]);
            } else {
                assert((w + t)[w.len() as int] == t[0]);
                assert(p[w.len() as int] == ' ');
                assert(c[0] == 'c' && c[1] == 'a' && c[2] == 'n' && c[3] == 'n' && c[4] == 'o'
                    && c[5] == 't');
                assert(w.len() == 0 || w.len() == 1 || w.len() == 2 || w.len() == 3 || w.len() == 4
                    || w.len() == 5);
            }
        }
    }
}

proof fn lemma_kind_error_is_no_clash(kind: Kind, v: Seq<char>)
    ensures
        kind_error(kind, v) matches Some(msg) ==> !is_clash(msg),
{
    lemma_first_chars();
    reveal_strlit("must be at least ");
    reveal_strlit("must be at most ");
    reveal_strlit("must be between ");
    reveal_strlit("must be one of: ");
    match kind {
        Kind::Text => {},
        Kind::Flag => {
            lemma_no_clash("must be true or false"@, Seq::empty());
        },
        Kind::Int { min, max } => {
            lemma_no_clash("must be a whole number"@, Seq::empty());
            if min is Some {
                lemma_no_clash("must be at least "@, dec_int(min->0 as int));
            }
            if max is Some {
                lemma_no_clash("must be at most "@, dec_int(max->0 as int));
            }
        },
        Kind::Float { from } => {
            lemma_no_clash("must be a number"@, Seq::empty());
            lemma_no_clash("must be between "@, bound_text(from) + " and 1"@);
            assert("must be between "@ + bound_text(from) + " and 1"@ =~= "must be between "@ + (
            bound_text(from) + " and 1"@));
        },
        Kind::Choice(options) => {
            lemma_no_clash("must be one of: "@, joined(words_of(options@), ", "@));
        },
        Kind::Multi(options) => {
            lemma_words_are_words(v);
            lemma_selection_error_is_no_clash(words_of(v), words_of(options@), 0);
        },
    }
}

proof fn lemma_entries_error_is_no_clash(entries: Seq<Seq<char>>)
    ensures
        entries_error(entries) matches Some(msg) ==> !is_clash(msg),
    decreases entries.len(),
{
    if entries.len() > 0 {
        lemma_entries_error_is_no_clash(entries.drop_first());
        let item = trimmed(entries[0]);
        if item.len() > 0 {
            let q = quoted(item);
            assert(q[0] == '"');
            lemma_no_clash(q, " is not layer[.kind]=name"@);
            match cut(item, '=') {
                None => {},
                Some((key, name)) => {
                    let wanted = lowercase(trimmed(name));
                    let (layer, kind) = layer_and_kind(key);
                    let known = kernels(layer, kind);
                    reveal_strlit("no layer ");
                    reveal_strlit("no ");
                    reveal_strlit("linear");
                    reveal_strlit("moe");
                    let t1 = quoted(layer) + "; expected linear or moe"@;
                    lemma_no_clash("no layer "@, t1);
                    assert("no layer "@ + quoted(layer) + "; expected linear or moe"@
                        =~= "no layer "@ + t1);
                    let table = match kind {
                        Some(k) => k,
                        None => ""@,
                    };
                    let t2 = " has no "@ + table + " table"@;
                    if layer == "linear"@ || layer == "moe"@ {
                        lemma_no_clash(layer, t2);
                        assert(layer + " has no "@ + table + " table"@ =~= layer + t2);
                    }
                    let t3 = key + " kernel "@ + quoted(wanted) + "; known: "@ + joined(
                        known,
                        ", "@,
                    );
                    lemma_no_clash("no "@, t3);
                    assert("no "@ + key + " kernel "@ + quoted(wanted) + "; known: "@ + joined(
                        known,
                        ", "@,
                    ) =~= "no "@ + t3);
                },
            }
        }
    }
}

/// Where no two knobs that exclude each other are set, no error says that they are.
pub proof fn law_exclusive_configurations_do_not_clash(
    m: Map<Seq<char>, Seq<char>>,
    key: Seq<char>,
    msg: Seq<char>,
)
    requires
        exclusive(m),
        config_error(m, key, msg),
    ensures
        !is_clash(msg),
{
    lemma_first_chars();
    lemma_no_clash("a model path or repo id is required"@, Seq::empty());
    lemma_no_clash("unknown knob"@, Seq::empty());
    if m.dom().contains(key) && stored_error(m, key, msg) {
        match find_knob(key) {
            None => {},
            Some(k) => {
                let v = trimmed(m[key]);
                lemma_entries_error_is_no_clash(pieces(v, ','));
                lemma_kind_error_is_no_clash(k.kind, v);
                lemma_no_clash("must be a JSON object"@, Seq::empty());
                reveal_strlit("not valid JSON: ");
                if json_of(v) is Err {
                    lemma_no_clash("not valid JSON: "@, json_of(v)->Err_0);
                }
                assert forall|other: Seq<char>| #[trigger] clashes(m, key, other) implies false by {
                    assert(!clashes(m, key, other));
                }
            },
        }
    }
    match image_budget(m) {
        Some((lo, hi)) => {
            let shown = dec_int(lo);
            if lo < 0 {
                crate::text::lemma_dec_starts_with_a_digit((-lo) as nat);
            } else {
                crate::text::lemma_dec_starts_with_a_digit(lo as nat);
            }
            let tail = " is more than --image-max-tokens "@ + dec_int(hi);
            lemma_no_clash(shown, tail);
            assert(shown + " is more than --image-max-tokens "@ + dec_int(hi) =~= shown + tail);
        },
        None => {},
    }
}

/// However a configuration was edited, no two knobs that exclude each other are set in it,
/// and no error of it says that they are.
pub proof fn law_edited_configurations_never_clash(edits: Seq<Edit>)
    ensures
        exclusive(edited(edits)),
        forall|key: Seq<char>, msg: Seq<char>| #[trigger]
            config_error(edited(edits), key, msg) ==> !is_clash(msg),
    decreases edits.len(),
{
    let m = edited(edits);
    if edits.len() > 0 {
        let before = edited(edits.drop_last());
        law_edited_configurations_never_clash(edits.drop_last());
        match edits.last() {
            Edit::Put(key, value) => {
                law_edits_keep_the_exclusions(before, key, value);
            },
            Edit::Unset(key) => {
                law_edits_keep_the_exclusions(before, key, Seq::empty());
            },
            Edit::Toggle(key) => {
                law_edits_keep_the_exclusions(before, key, "true"@);
            },
        }
    }
    assert forall|key: Seq<char>, msg: Seq<char>| #[trigger]
        config_error(m, key, msg) implies !is_clash(msg) by {
        law_exclusive_configurations_do_not_clash(m, key, msg);
    }
}

/// A knob that was set reads back as it was set, what it excludes is cleared, and every
/// other knob is as it was.
pub proof fn law_set_then_get(
    m: Map<Seq<char>, Seq<char>>,
    key: Seq<char>,
    value: Seq<char>,
    other: Seq<char>,
)
    requires
        other != key,
    ensures
        value_of(after_set(m, key, value), key) == (if clears(key, value) {
            None
        } else {
            Some(value)
        }),
        value_of(after_set(m, key, value), other) == (if !clears(key, value) && excluded_by(
            key,
        ).contains(other) {
            None
        } else {
            value_of(m, other)
        }),
{
}

/// Setting the same value twice changes nothing more.
pub proof fn law_set_is_idempotent(
    m: Map<Seq<char>, Seq<char>>,
    key: Seq<char>,
    value: Seq<char>,
)
    ensures
        after_set(after_set(m, key, value), key, value) == after_set(m, key, value),
{
    assert(after_set(after_set(m, key, value), key, value) =~= after_set(m, key, value));
}

/// Toggling a switch turns it on when it was off, and off when it was on.
pub proof fn law_toggle_flips(m: Map<Seq<char>, Seq<char>>, key: Seq<char>)
    ensures
        !is_on(m, key) ==> is_on(after_set(m, key, "true"@), key),
        is_on(m, key) ==> !is_on(m.remove(key), key),
{
    reveal_strlit("true");
    reveal_strlit("false");
    assert("true"@.len() == 4 && "false"@.len() == 5);
}

/// A migrated configuration holds no retired key, and migrating it again changes nothing.
pub proof fn law_migration_is_complete(m: Map<Seq<char>, Seq<char>>)
    ensures
        !migrated(m).dom().contains("moe_backend"@),
        !migrated(m).dom().contains("nvfp4_backend"@),
        migrated(migrated(m)) == migrated(m),
{
    reveal_strlit("moe_backend");
    reveal_strlit("nvfp4_backend");
    reveal_strlit("moe_strategy");
    reveal_strlit("quant_backend");
    assert("moe_backend"@.len() == 11 && "nvfp4_backend"@.len() == 13 && "moe_strategy"@.len()
        == 12 && "quant_backend"@.len() == 13);
    assert("nvfp4_backend"@[0] != "quant_backend"@[0]);
}

/// Migration leaves alone every setting under a name that is still in use, unless it fills
/// in the successor of a retired one that was not set itself.
pub proof fn law_migration_keeps_current_settings(m: Map<Seq<char>, Seq<char>>, key: Seq<char>)
    requires
        m.dom().contains(key),
        key != "moe_backend"@,
        key != "nvfp4_backend"@,
    ensures
        value_of(migrated(m), key) == value_of(m, key),
{
}

/// The names that older profiles used no longer name a knob.
pub proof fn law_retired_names_are_not_knobs()
    ensures
        !is_knob("moe_backend"@),
        !is_knob("nvfp4_backend"@),
{
    reveal_strlit("moe_backend");
    reveal_strlit("nvfp4_backend");
    reveal_strlit("ple_backend");
    reveal_strlit("quant_backend");
    let a = "moe_backend"@;
    let b = "nvfp4_backend"@;
    let p = "ple_backend"@;
    let q = "quant_backend"@;
    assert(a[0] == 'm' && a[10] == 'd' && a[5] == 'a' && a[9] == 'n' && p[0] == 'p');
    assert(b[0] == 'n' && b[12] == 'd' && b[6] == 'b' && b[11] == 'n' && q[0] == 'q');
    assert(rank(a) == 35 && knob_row(35).key@ == p);
    assert(rank(b) == 33 && knob_row(33).key@ == q);
    if is_knob(a) {
        lemma_rank(choose|i: int| #[trigger] is_row(i, a));
    }
    if is_knob(b) {
        lemma_rank(choose|i: int| #[trigger] is_row(i, b));
    }
}

/// An empty configuration gives no arguments.
pub proof fn law_nothing_set_gives_no_arguments(n: nat)
    requires
        n <= KNOB_COUNT,
    ensures
        args_upto(Map::empty(), n) == Seq::<Seq<char>>::empty(),
    decreases n,
{
    if n > 0 {
        law_nothing_set_gives_no_arguments((n - 1) as nat);
    }
}

/// Every knob has a flag to emit.
proof fn lemma_flags_are_not_empty(i: int)
    requires
        0 <= i < KNOB_COUNT,
    ensures
        knob_row(i).flag@.len() > 0,
{
    assert(KNOB_ROWS@[0].1@.len() > 0) by {
        reveal_strlit("--model");
    }
    assert(KNOB_ROWS@[1].1@.len() > 0) by {
        reveal_strlit("--served-model-name");
    }
    assert(KNOB_ROWS@[2].1@.len() > 0) by {
        reveal_strlit("--dtype");
    }
    assert(KNOB_ROWS@[3].1@.len() > 0) by {
        reveal_strlit("--model-source");
    }
    assert(KNOB_ROWS@[4].1@.len() > 0) by {
        reveal_strlit("--host");
    }
    assert(KNOB_ROWS@[5].1@.len() > 0) by {
        reveal_strlit("--port");
    }
    assert(KNOB_ROWS@[6].1@.len() > 0) by {
        reveal_strlit("--gpu");
    }
    assert(KNOB_ROWS@[7].1@.len() > 0) by {
        reveal_strlit("--cors-origins");
    }
    assert(KNOB_ROWS@[8].1@.len() > 0) by {
        reveal_strlit("--max-running-requests");
    }
    assert(KNOB_ROWS@[9].1@.len() > 0) by {
        reveal_strlit("--max-output-tokens");
    }
    assert(KNOB_ROWS@[10].1@.len() > 0) by {
        reveal_strlit("--max-seq-len-override");
    }
    assert(KNOB_ROWS@[11].1@.len() > 0) by {
        reveal_strlit("--max-prefill-length");
    }
    assert(KNOB_ROWS@[12].1@.len() > 0) by {
        reveal_strlit("--cuda-graph-max-bs");
    }
    assert(KNOB_ROWS@[13].1@.len() > 0) by {
        reveal_strlit("--decode-log-interval");
    }
    assert(KNOB_ROWS@[14].1@.len() > 0) by {
        reveal_strlit("--num-tokenizer");
    }
    assert(KNOB_ROWS@[15].1@.len() > 0) by {
        reveal_strlit("--tensor-parallel-size");
    }
    assert(KNOB_ROWS@[16].1@.len() > 0) by {
        reveal_strlit("--disable-pynccl");
    }
    assert(KNOB_ROWS@[17].1@.len() > 0) by {
        reveal_strlit("--enable-special-token-ckpt");
    }
    assert(KNOB_ROWS@[18].1@.len() > 0) by {
        reveal_strlit("--memory-ratio");
    }
    assert(KNOB_ROWS@[19].1@.len() > 0) by {
        reveal_strlit("--num-pages");
    }
    assert(KNOB_ROWS@[20].1@.len() > 0) by {
        reveal_strlit("--num-tokens");
    }
    assert(KNOB_ROWS@[21].1@.len() > 0) by {
        reveal_strlit("--page-size");
    }
    assert(KNOB_ROWS@[22].1@.len() > 0) by {
        reveal_strlit("--cache-type");
    }
    assert(KNOB_ROWS@[23].1@.len() > 0) by {
        reveal_strlit("--attention-backend");
    }
    assert(KNOB_ROWS@[24].1@.len() > 0) by {
        reveal_strlit("--kv-reserve-tokens");
    }
    assert(KNOB_ROWS@[25].1@.len() > 0) by {
        reveal_strlit("--moe-strategy");
    }
    assert(KNOB_ROWS@[26].1@.len() > 0) by {
        reveal_strlit("--moe-cache-size");
    }
    assert(KNOB_ROWS@[27].1@.len() > 0) by {
        reveal_strlit("--moe-cache-rate");
    }
    assert(KNOB_ROWS@[28].1@.len() > 0) by {
        reveal_strlit("--moe-cache-auto");
    }
    assert(KNOB_ROWS@[29].1@.len() > 0) by {
        reveal_strlit("--moe-cache-policy");
    }
    assert(KNOB_ROWS@[30].1@.len() > 0) by {
        reveal_strlit("--moe-cpu-threads");
    }
    assert(KNOB_ROWS@[31].1@.len() > 0) by {
        reveal_strlit("--moe-cpu-layers");
    }
    assert(KNOB_ROWS@[32].1@.len() > 0) by {
        reveal_strlit("--moe-hybrid-max-fetch");
    }
    assert(KNOB_ROWS@[33].1@.len() > 0) by {
        reveal_strlit("--quant-backend");
    }
    assert(KNOB_ROWS@[34].1@.len() > 0) by {
        reveal_strlit("--expert-load");
    }
    assert(KNOB_ROWS@[35].1@.len() > 0) by {
        reveal_strlit("--ple-backend");
    }
    assert(KNOB_ROWS@[36].1@.len() > 0) by {
        reveal_strlit("--moe-prefill-hit-d2d");
    }
    assert(KNOB_ROWS@[37].1@.len() > 0) by {
        reveal_strlit("--disable-moe-prefill-overlap");
    }
    assert(KNOB_ROWS@[38].1@.len() > 0) by {
        reveal_strlit("--tool-call-parser");
    }
    assert(KNOB_ROWS@[39].1@.len() > 0) by {
        reveal_strlit("--reasoning-parser");
    }
    assert(KNOB_ROWS@[40].1@.len() > 0) by {
        reveal_strlit("--text-model-only");
    }
    assert(KNOB_ROWS@[41].1@.len() > 0) by {
        reveal_strlit("--mm-disable");
    }
    assert(KNOB_ROWS@[42].1@.len() > 0) by {
        reveal_strlit("--mm-encoder-weights");
    }
    assert(KNOB_ROWS@[43].1@.len() > 0) by {
        reveal_strlit("--image-min-tokens");
    }
    assert(KNOB_ROWS@[44].1@.len() > 0) by {
        reveal_strlit("--image-max-tokens");
    }
    assert(KNOB_ROWS@[45].1@.len() > 0) by {
        reveal_strlit("--mm-processor-kwargs");
    }
    assert(KNOB_ROWS@[46].1@.len() > 0) by {
        reveal_strlit("--mm-embed-cache-device");
    }
    assert(KNOB_ROWS@[47].1@.len() > 0) by {
        reveal_strlit("--allowed-media-domains");
    }
    assert(KNOB_ROWS@[48].1@.len() > 0) by {
        reveal_strlit("--allowed-local-media-path");
    }
    assert(KNOB_ROWS@[49].1@.len() > 0) by {
        reveal_strlit("--sampling-defaults");
    }
    assert(KNOB_ROWS@[50].1@.len() > 0) by {
        reveal_strlit("--enable-cache-report");
    }
}

/// The options of a knob are all different, and a knob that is a choice has some.
pub proof fn law_options_are_distinct(i: int)
    requires
        0 <= i < KNOB_COUNT,
    ensures
        words_of(KNOB_ROWS@[i].5@).no_duplicates(),
        knob_row(i).kind matches Kind::Choice(options) ==> words_of(options@).no_duplicates()
            && words_of(options@).len() > 0,
        knob_row(i).kind matches Kind::Multi(options) ==> words_of(options@).no_duplicates()
            && words_of(options@).len() > 0,
{
    lemma_options_of_dtype();
    lemma_options_of_model_source();
    lemma_options_of_cache_type();
    lemma_options_of_attention_backend();
    lemma_options_of_moe_strategy();
    lemma_options_of_moe_cache_policy();
    lemma_options_of_expert_load();
    lemma_options_of_ple_backend();
    lemma_options_of_tool_call_parser();
    lemma_options_of_reasoning_parser();
    lemma_options_of_mm_disable();
    lemma_options_of_mm_encoder_weights();
    lemma_options_of_mm_embed_cache_device();
    lemma_options_of_sampling_defaults();
    reveal_strlit("");
    assert(""@ =~= Seq::<char>::empty());
    assert(words_of(""@) =~= Seq::<Seq<char>>::empty());
}

proof fn lemma_args_are_not_empty(m: Map<Seq<char>, Seq<char>>, n: nat)
    requires
        n <= KNOB_COUNT,
    ensures
        forall|i: int| 0 <= i < args_upto(m, n).len() ==> (#[trigger] args_upto(m, n)[i]).len() > 0,
    decreases n,
{
    if n > 0 {
        let k = knob_row(n - 1);
        let head = args_upto(m, (n - 1) as nat);
        lemma_args_are_not_empty(m, (n - 1) as nat);
        lemma_flags_are_not_empty(n - 1);
        match value_of(m, k.key@) {
            Some(v) => {
                lemma_words_are_words(v);
                let own = knob_args(k, v);
                assert forall|i: int| 0 <= i < own.len() implies (#[trigger] own[i]).len() > 0 by {
                    match k.kind {
                        Kind::Multi(_) => {
                            if i > 0 {
                                assert(own[i] == words_of(v)[i - 1]);
                            }
                        },
                        _ => {},
                    }
                }
                let all = head + own;
                assert forall|i: int| 0 <= i < all.len() implies (#[trigger] all[i]).len() > 0 by {
                    if i < head.len() {
                        assert(all[i] == head[i]);
                    } else {
                        assert(all[i] == own[i - head.len()]);
                    }
                }
            },
            None => {},
        }
    }
}

/// The preview is the invocation: a shell reads out of it exactly the program, `serve` and
/// the arguments, whatever spaces, quotes or dollar signs the values hold.
pub proof fn law_the_preview_splits_back(program: Seq<char>, m: Map<Seq<char>, Seq<char>>)
    requires
        program.len() > 0,
    ensures
        shell_words_of(preview_of(program, m)) == Some(seq![program, "serve"@] + args_of(m)),
{
    let ws = seq![program, "serve"@] + args_of(m);
    reveal_strlit("serve");
    lemma_args_are_not_empty(m, KNOB_COUNT as nat);
    assert forall|i: int| 0 <= i < ws.len() implies (#[trigger] ws[i]).len() > 0 by {
        if i >= 2 {
            assert(ws[i] == args_of(m)[i - 2]);
        }
    }
    law_quoted_words_split_back(ws);
}

} // verus!
