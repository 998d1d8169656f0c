//! The local model library: what is on disk, what format it is in, and how big it is.
//!
//! FreeToken serves two shapes of checkpoint, a Hugging Face directory of safetensors
//! and its own FTW fast-load directory, and the whole convert workflow is about turning
//! the first into the second. So the scanner's job is to recognize both, pair them up
//! where a conversion already exists, and surface enough metadata (architecture, MoE-ness,
//! quantization, context length) to decide what to do next without opening a JSON file by
//! hand.
//!
//! Checkpoints are found in three layouts. A plain directory, the `org/model` layout that
//! `hf download --local-dir` and mirrors produce, and, the one that matters most on a
//! machine shared with other engines, the Hugging Face **hub cache**,
//! `models--org--name/snapshots/<sha>/`. The cache is where `from_pretrained`, `hf
//! download` and every library built on `huggingface_hub` already put weights, so reading
//! it is what lets paddock see a model Ollama or Unsloth downloaded, and vice versa.
//!
//! The cache is read, never written. Anything paddock derives, such as an FTW build, goes
//! elsewhere, because that tree belongs to `huggingface_hub`:
//! a directory it did not write is invisible to `hf cache scan` and at risk from `hf cache
//! delete`, and an FTW build has no repo id or revision for the cache to file it under.
//!
//! Walking the disk is left to the caller, which hands in what it found.

use vstd::prelude::*;
use vstd::string::*;
use crate::json::{json_of, opt_json, parse_json, Json, JsonView};
use crate::order::{keyed, ordered, put, sorted_values, values, with_key};
use crate::paths::{
    components, components_of, dotted, expand_tilde, expanded, file_name, file_name_of, join,
    joined_path, law_a_joined_name_reads_back, parent, parent_of, rooted, same_path, same_place,
};
use crate::sampling::{opt_sampling, Sampling, SamplingView};
use crate::templates::copy_opt;
use crate::text::{
    after_last, cat2, cat3, chars_of, contains, contains_char, dec, decimal, find, first_at,
    occurs, join as join_texts, joined, lowercase, opt_str, opt_text, replace, replaced, same,
    strip_prefix, tail_after, text_of, texts, to_lowercase, to_uppercase, trim, trimmed, uppercase,
};

verus! {

#[derive(Debug, Clone, Copy, PartialEq, Eq, Structural)]
pub enum Format {
    /// A Hugging Face directory: `config.json` plus safetensors shards.
    Hf,
    /// A converted FreeToken Weight directory.
    Ftw,
    /// A GGUF file or a directory containing one (Gemma-4 loads these natively).
    Gguf,
    /// Shard files but no index: a conversion that died partway. Useless to serve and
    /// potentially enormous, so it is listed rather than hidden: an unlisted directory
    /// is one nothing can delete.
    PartialFtw,
}

impl Format {
    pub fn label(self) -> (r: &'static str)
        ensures
            r@ == (match self {
                Format::Hf => "HF"@,
                Format::Ftw => "FTW"@,
                Format::Gguf => "GGUF"@,
                Format::PartialFtw => "PART"@,
            }),
    {
        match self {
            Format::Hf => "HF",
            Format::Ftw => "FTW",
            Format::Gguf => "GGUF",
            Format::PartialFtw => "PART",
        }
    }
}

#[derive(Debug, Clone)]
pub struct Model {
    pub name: String,
    /// The Hugging Face repo id (`org/name`) when this checkpoint came from the hub
    /// cache. `None` for a plain directory, which carries no repo identity, and the
    /// distinction matters, because `ft serve --model-path` accepts a repo id directly.
    pub repo: Option<String>,
    /// Which quantization of [`Self::repo`] this is, when the repo ships more than one.
    /// `UD-IQ3_XXS`, `Q8_0`. `None` for a repo with a single build.
    pub variant: Option<String>,
    pub path: String,
    pub format: Format,
    /// Total bytes of weight files under the directory.
    pub size_bytes: u64,
    pub arch: Option<String>,
    pub model_type: Option<String>,
    /// True when the config declares experts.
    pub is_moe: bool,
    pub num_experts: Option<u64>,
    pub num_layers: Option<u64>,
    /// Quantization as declared by `quantization_config.quant_method`, or FTW's
    /// `quant_format`.
    pub quant: Option<String>,
    /// `max_position_embeddings`, the ceiling on context length.
    pub max_position: Option<u64>,
    /// For an FTW directory: what it was converted from, if recorded.
    pub ftw_fingerprint: Option<String>,
    /// An FTW sibling built from this checkpoint, when the scan found one.
    pub converted_to: Option<String>,
    /// When the directory was last modified, in Unix milliseconds, shown so a freshly
    /// downloaded checkpoint is identifiable.
    pub modified: Option<i64>,
    /// The chat-template situation as of the scan, read there rather than per frame: a
    /// `stat` per model per frame against a network mount stalls every connected browser.
    pub template_status: crate::templates::Status,
    /// The sampling-override situation as of the scan, read there for the same reason.
    pub sampling_status: crate::sampling::Status,
    /// What this checkpoint will actually hand the engine, override or not.
    pub sampling_effective: Option<Sampling>,
    /// Whether `inference/config.json` is present: DeepSeek-V4 keeps its real arguments
    /// there, and the Models pane says so when it is missing.
    pub has_inference_config: bool,
}

pub struct ModelView {
    pub name: Seq<char>,
    pub repo: Option<Seq<char>>,
    pub variant: Option<Seq<char>>,
    pub path: Seq<char>,
    pub format: Format,
    pub size_bytes: u64,
    pub arch: Option<Seq<char>>,
    pub model_type: Option<Seq<char>>,
    pub is_moe: bool,
    pub num_experts: Option<u64>,
    pub num_layers: Option<u64>,
    pub quant: Option<Seq<char>>,
    pub max_position: Option<u64>,
    pub ftw_fingerprint: Option<Seq<char>>,
    pub converted_to: Option<Seq<char>>,
    pub modified: Option<i64>,
    pub template_status: crate::templates::Status,
    pub sampling_status: crate::sampling::Status,
    pub sampling_effective: Option<SamplingView>,
    pub has_inference_config: bool,
}

impl View for Model {
    type V = ModelView;

    open spec fn view(&self) -> ModelView {
        ModelView {
            name: self.name@,
            repo: opt_text(self.repo),
            variant: opt_text(self.variant),
            path: self.path@,
            format: self.format,
            size_bytes: self.size_bytes,
            arch: opt_text(self.arch),
            model_type: opt_text(self.model_type),
            is_moe: self.is_moe,
            num_experts: self.num_experts,
            num_layers: self.num_layers,
            quant: opt_text(self.quant),
            max_position: self.max_position,
            ftw_fingerprint: opt_text(self.ftw_fingerprint),
            converted_to: opt_text(self.converted_to),
            modified: self.modified,
            template_status: self.template_status,
            sampling_status: self.sampling_status,
            sampling_effective: opt_sampling(self.sampling_effective),
            has_inference_config: self.has_inference_config,
        }
    }
}

pub open spec fn opt_model(m: Option<Model>) -> Option<ModelView> {
    match m {
        Some(m) => Some(m@),
        None => None,
    }
}

impl ModelView {
    /// What a list row says of the model, part by part; a quantization is shown as `quant`.
    pub open spec fn parts(self, quant: Option<Seq<char>>) -> Seq<Seq<char>> {
        let a = match self.arch {
            Some(a) => seq![a],
            None => Seq::empty(),
        };
        let e = if self.is_moe {
            seq![
                match self.num_experts {
                    Some(n) => "MoE x"@ + dec(n as nat),
                    None => "MoE"@,
                },
            ]
        } else {
            Seq::empty()
        };
        let q = match quant {
            Some(q) => seq![q],
            None => Seq::empty(),
        };
        let c = match self.max_position {
            Some(n) => seq![dec((n / 1024) as nat) + "k ctx"@],
            None => Seq::empty(),
        };
        a + e + q + c
    }

    pub open spec fn summarized(self, quant: Option<Seq<char>>) -> Seq<char> {
        if self.format == Format::PartialFtw {
            "incomplete conversion — safe to delete"@
        } else {
            joined(self.parts(quant), " · "@)
        }
    }

    pub open spec fn served_name(self) -> Seq<char> {
        let base = match self.repo {
            Some(r) => r,
            None => self.name,
        };
        match self.variant {
            Some(v) => base + ":"@ + v,
            None => base,
        }
    }
}

impl Model {
    pub fn copy(&self) -> (r: Self)
        ensures
            r == *self,
    {
        Model {
            name: self.name.clone(),
            repo: copy_opt(&self.repo),
            variant: copy_opt(&self.variant),
            path: self.path.clone(),
            format: self.format,
            size_bytes: self.size_bytes,
            arch: copy_opt(&self.arch),
            model_type: copy_opt(&self.model_type),
            is_moe: self.is_moe,
            num_experts: self.num_experts,
            num_layers: self.num_layers,
            quant: copy_opt(&self.quant),
            max_position: self.max_position,
            ftw_fingerprint: copy_opt(&self.ftw_fingerprint),
            converted_to: copy_opt(&self.converted_to),
            modified: self.modified,
            template_status: self.template_status.copy(),
            sampling_status: self.sampling_status.copy(),
            sampling_effective: match &self.sampling_effective {
                Some(s) => Some(s.copy()),
                None => None,
            },
            has_inference_config: self.has_inference_config,
        }
    }

    /// Short one-line description, with the quantization as it is to be shown.
    pub fn summary_with(&self, quant: Option<String>) -> (r: String)
        ensures
            r@ == self@.summarized(opt_text(quant)),
    {
        if self.is_partial() {
            return "incomplete conversion — safe to delete".to_owned();
        }
        let mut parts: Vec<String> = Vec::new();
        if let Some(a) = &self.arch {
            parts.push(a.clone());
        }
        if self.is_moe {
            parts.push(
                match self.num_experts {
                    Some(n) => cat2("MoE x", decimal(n).as_str()),
                    None => "MoE".to_owned(),
                },
            );
        }
        let ghost shown = opt_text(quant);
        if let Some(q) = quant {
            parts.push(q);
        }
        if let Some(ctx) = self.max_position {
            parts.push(cat2(decimal(ctx / 1024).as_str(), "k ctx"));
        }
        assert(texts(parts@) =~= self@.parts(shown));
        join_texts(&parts, " · ")
    }

    /// Short one-line description used in list rows.
    pub fn summary(&self) -> (r: String)
        ensures
            r@ == self@.summarized(
                match self@.quant {
                    Some(q) => Some(uppercase(q)),
                    None => None,
                },
            ),
    {
        let quant = match &self.quant {
            Some(q) => Some(to_uppercase(q.as_str())),
            None => None,
        };
        self.summary_with(quant)
    }

    /// The name to serve this model under, and the key its measured cache costs are
    /// remembered by.
    ///
    /// Always passed explicitly, because FreeToken's own default is
    /// `os.path.basename(model_path)`, which for a Hugging Face snapshot is a 40-character
    /// commit sha, and for a quantization subdirectory is a bare `UD-IQ3_XXS` that says
    /// nothing about which model it is. Both are unusable as an API model id, and both
    /// would poison `costs.json`, which is keyed by this name.
    pub fn served_name(&self) -> (r: String)
        ensures
            r@ == self@.served_name(),
    {
        let base = match &self.repo {
            Some(r) => r.clone(),
            None => self.name.clone(),
        };
        match &self.variant {
            Some(v) => cat3(base.as_str(), ":", v.as_str()),
            None => base,
        }
    }

    /// Whether converting this checkpoint to FTW is a sensible next action.
    pub fn convertible(&self) -> (r: bool)
        ensures
            r == (self@.format == Format::Hf),
    {
        self.format == Format::Hf
    }

    /// True when this is the wreckage of a failed conversion.
    pub fn is_partial(&self) -> (r: bool)
        ensures
            r == (self@.format == Format::PartialFtw),
    {
        self.format == Format::PartialFtw
    }
}

/// Two builds of one repo are never served under one name.
pub proof fn law_builds_of_a_repo_have_different_names(a: ModelView, b: ModelView)
    requires
        a.repo == b.repo,
        a.repo is Some,
        a.variant is Some,
        b.variant is Some,
        a.variant != b.variant,
    ensures
        a.served_name() != b.served_name(),
{
    let base = a.repo->0;
    let (v, w) = (a.variant->0, b.variant->0);
    let (x, y) = (base + ":"@ + v, base + ":"@ + w);
    if x == y {
        let n = (base + ":"@).len() as int;
        assert(x.skip(n) =~= v);
        assert(y.skip(n) =~= w);
    }
}

// ---------------------------------------------------------------- config.json

/// The subset of a Hugging Face `config.json` worth reading. Multimodal checkpoints nest
/// the language model's fields under `text_config`, so every accessor checks both.
#[derive(Debug, Default)]
pub struct HfConfig {
    pub architectures: Option<Vec<String>>,
    pub model_type: Option<String>,
    pub num_hidden_layers: Option<u64>,
    pub max_position_embeddings: Option<u64>,
    pub num_experts: Option<u64>,
    pub num_local_experts: Option<u64>,
    pub n_routed_experts: Option<u64>,
    pub quantization_config: Option<QuantConfig>,
    pub text_config: Option<Box<HfConfig>>,
}

#[derive(Debug, Clone, Default)]
pub struct QuantConfig {
    pub quant_method: Option<String>,
    pub fmt: Option<String>,
}

/// The first that is there.
pub open spec fn either<T>(a: Option<T>, b: Option<T>) -> Option<T> {
    if a is Some {
        a
    } else {
        b
    }
}

impl QuantConfig {
    /// The name of the quantization.
    pub open spec fn method(self) -> Option<Seq<char>> {
        either(opt_text(self.quant_method), opt_text(self.fmt))
    }
}

impl HfConfig {
    /// The language model's own fields.
    pub open spec fn language(self) -> HfConfig {
        match self.text_config {
            Some(t) => *t,
            None => self,
        }
    }

    pub open spec fn arch(self) -> Option<Seq<char>> {
        match either(self.architectures, self.language().architectures) {
            Some(l) => if l@.len() > 0 {
                Some(l@[0]@)
            } else {
                None
            },
            None => None,
        }
    }

    /// The experts that these fields alone declare.
    pub open spec fn own_experts(self) -> Option<u64> {
        either(self.num_experts, either(self.num_local_experts, self.n_routed_experts))
    }

    pub open spec fn experts(self) -> Option<u64> {
        either(self.own_experts(), self.language().own_experts())
    }

    /// The config declares experts, or its architecture is called one of them in any case.
    pub open spec fn declares_moe(self) -> bool {
        (self.experts() is Some && self.experts()->0 > 0) || (self.arch() is Some && occurs(
            lowercase(self.arch()->0),
            "moe"@,
        ))
    }

    pub open spec fn layers(self) -> Option<u64> {
        either(self.num_hidden_layers, self.language().num_hidden_layers)
    }

    pub open spec fn context(self) -> Option<u64> {
        either(self.max_position_embeddings, self.language().max_position_embeddings)
    }

    pub open spec fn quantization(self) -> Option<Seq<char>> {
        match either(self.quantization_config, self.language().quantization_config) {
            Some(q) => q.method(),
            None => None,
        }
    }

    pub fn text(&self) -> (r: &HfConfig)
        ensures
            *r == self.language(),
    {
        match &self.text_config {
            Some(t) => t,
            None => self,
        }
    }

    pub fn first_arch(&self) -> (r: Option<String>)
        ensures
            opt_text(r) == self.arch(),
    {
        let list = match &self.architectures {
            Some(l) => l,
            None => match &self.text().architectures {
                Some(l) => l,
                None => {
                    return None;
                },
            },
        };
        if list.len() > 0 {
            Some(list[0].clone())
        } else {
            None
        }
    }

    fn pick_experts(&self) -> (r: Option<u64>)
        ensures
            r == self.own_experts(),
    {
        if self.num_experts.is_some() {
            self.num_experts
        } else if self.num_local_experts.is_some() {
            self.num_local_experts
        } else {
            self.n_routed_experts
        }
    }

    pub fn num_experts(&self) -> (r: Option<u64>)
        ensures
            r == self.experts(),
    {
        match self.pick_experts() {
            Some(n) => Some(n),
            None => self.text().pick_experts(),
        }
    }

    pub fn is_moe(&self) -> (r: bool)
        ensures
            r == self.declares_moe(),
    {
        if let Some(n) = self.num_experts() {
            if n > 0 {
                return true;
            }
        }
        match self.first_arch() {
            Some(a) => contains(to_lowercase(a.as_str()).as_str(), "moe"),
            None => false,
        }
    }

    pub fn num_layers(&self) -> (r: Option<u64>)
        ensures
            r == self.layers(),
    {
        match self.num_hidden_layers {
            Some(n) => Some(n),
            None => self.text().num_hidden_layers,
        }
    }

    pub fn max_position(&self) -> (r: Option<u64>)
        ensures
            r == self.context(),
    {
        match self.max_position_embeddings {
            Some(n) => Some(n),
            None => self.text().max_position_embeddings,
        }
    }

    pub fn quant_method(&self) -> (r: Option<String>)
        ensures
            opt_text(r) == self.quantization(),
    {
        let q = match &self.quantization_config {
            Some(q) => q,
            None => match &self.text().quantization_config {
                Some(q) => q,
                None => {
                    return None;
                },
            },
        };
        match &q.quant_method {
            Some(m) => Some(m.clone()),
            None => copy_opt(&q.fmt),
        }
    }
}

// ---------------------------------------------------------------- files

/// The extension of a file name: what follows its last dot, unless that dot is its first
/// character.
pub open spec fn extension_of(name: Seq<char>) -> Option<Seq<char>> {
    let e = after_last(name, '.');
    if !name.contains('.') || e.len() + 1 == name.len() || name == ".."@ {
        None
    } else {
        Some(e)
    }
}

pub fn extension(name: &str) -> (r: Option<String>)
    ensures
        opt_text(r) == extension_of(name@),
{
    if !contains_char(name, '.') || same(name, "..") {
        return None;
    }
    let e = tail_after(name, '.');
    let (n, m) = (chars_of(name).len(), chars_of(e.as_str()).len());
    if m < n && m == n - 1 {
        None
    } else {
        Some(e)
    }
}

/// A kind of weight file.
#[derive(Debug, Clone, Copy, PartialEq, Eq, Structural)]
pub enum Weights {
    Ftw,
    Gguf,
    Safetensors,
    /// Safetensors, GGUF or a pickled `.bin`.
    Any,
}

impl Weights {
    pub open spec fn covers(self, ext: Seq<char>) -> bool {
        match self {
            Weights::Ftw => ext == "ftw"@,
            Weights::Gguf => ext == "gguf"@,
            Weights::Safetensors => ext == "safetensors"@,
            Weights::Any => ext == "safetensors"@ || ext == "gguf"@ || ext == "bin"@,
        }
    }

    /// A file of this kind.
    pub open spec fn is_file(self, name: Seq<char>) -> bool {
        extension_of(name) is Some && self.covers(extension_of(name)->0)
    }

    pub fn includes(self, name: &str) -> (r: bool)
        ensures
            r == self.is_file(name@),
    {
        match extension(name) {
            None => false,
            Some(e) => match self {
                Weights::Ftw => same(e.as_str(), "ftw"),
                Weights::Gguf => same(e.as_str(), "gguf"),
                Weights::Safetensors => same(e.as_str(), "safetensors"),
                Weights::Any => same(e.as_str(), "safetensors") || same(e.as_str(), "gguf")
                    || same(e.as_str(), "bin"),
            },
        }
    }
}

/// What stands in a directory: a name, and the size of what it leads to where that can be
/// told. Sizes resolve symlinks, which is the whole point on a hub cache snapshot: every
/// weight file there is a link into `blobs/`, and the link itself would report an 80 GiB
/// model as a few hundred bytes.
#[derive(Debug, Clone)]
pub struct Entry {
    pub name: String,
    pub size: Option<u64>,
}

/// A file of the kind is there.
pub open spec fn any_of(files: Seq<Entry>, kind: Weights) -> bool {
    exists|i: int| 0 <= i < files.len() && kind.is_file((#[trigger] files[i]).name@)
}

/// Total bytes of the files of a kind.
pub open spec fn bytes_of(files: Seq<Entry>, kind: Weights) -> nat
    decreases files.len(),
{
    if files.len() == 0 {
        0
    } else {
        bytes_of(files.drop_last(), kind) + match files.last().size {
            Some(n) if kind.is_file(files.last().name@) => n as nat,
            _ => 0,
        }
    }
}

/// All sizes together stay below 2^64.
pub open spec fn sizes_in(files: Seq<Entry>) -> nat
    decreases files.len(),
{
    if files.len() == 0 {
        0
    } else {
        sizes_in(files.drop_last()) + match files.last().size {
            Some(n) => n as nat,
            None => 0,
        }
    }
}

proof fn lemma_bytes_at_most_sizes(files: Seq<Entry>, kind: Weights)
    ensures
        bytes_of(files, kind) <= sizes_in(files),
    decreases files.len(),
{
    if files.len() > 0 {
        lemma_bytes_at_most_sizes(files.drop_last(), kind);
    }
}

proof fn lemma_sizes_grow(files: Seq<Entry>, i: int)
    requires
        0 <= i <= files.len(),
    ensures
        sizes_in(files.take(i)) <= sizes_in(files),
    decreases files.len() - i,
{
    if i < files.len() {
        lemma_sizes_grow(files, i + 1);
        assert(files.take(i + 1).drop_last() =~= files.take(i));
    } else {
        assert(files.take(i) =~= files);
    }
}

/// Whether all sizes together stay below 2^64.
pub fn sizes_fit(files: &Vec<Entry>) -> (r: bool)
    ensures
        r == (sizes_in(files@) <= u64::MAX),
{
    let ghost all = files@;
    let mut total: u64 = 0;
    let mut i: usize = 0;
    assert(all.take(0) =~= Seq::<Entry>::empty());
    while i < files.len()
        invariant
            i <= files.len(),
            all == files@,
            total == sizes_in(all.take(i as int)),
        decreases files.len() - i,
    {
        assert(all.take(i + 1).drop_last() =~= all.take(i as int));
        assert(all.take(i + 1).last() == files@[i as int]);
        if let Some(n) = files[i].size {
            if n > u64::MAX - total {
                proof {
                    lemma_sizes_grow(all, i + 1);
                }
                return false;
            }
            total = total + n;
        }
        i = i + 1;
    }
    assert(all.take(i as int) =~= all);
    true
}

fn has_any(files: &Vec<Entry>, kind: Weights) -> (r: bool)
    ensures
        r == any_of(files@, kind),
{
    let mut i: usize = 0;
    while i < files.len()
        invariant
            i <= files.len(),
            forall|j: int| 0 <= j < i ==> !kind.is_file((#[trigger] files@[j]).name@),
        decreases files.len() - i,
    {
        if kind.includes(files[i].name.as_str()) {
            return true;
        }
        i = i + 1;
    }
    false
}

/// Total bytes of the weight files of a kind. Checkpoints are flat, so what stands directly
/// in the directory is all there is.
pub fn weight_bytes(files: &Vec<Entry>, kind: Weights) -> (r: u64)
    requires
        sizes_in(files@) <= u64::MAX,
    ensures
        r == bytes_of(files@, kind),
{
    let ghost all = files@;
    let mut total: u64 = 0;
    let mut i: usize = 0;
    assert(all.take(0) =~= Seq::<Entry>::empty());
    while i < files.len()
        invariant
            i <= files.len(),
            all == files@,
            sizes_in(all) <= u64::MAX,
            total == bytes_of(all.take(i as int), kind),
        decreases files.len() - i,
    {
        assert(all.take(i + 1).drop_last() =~= all.take(i as int));
        assert(all.take(i + 1).last() == files@[i as int]);
        proof {
            lemma_sizes_grow(all, i + 1);
            lemma_bytes_at_most_sizes(all.take(i + 1), kind);
        }
        if let Some(n) = files[i].size {
            if kind.includes(files[i].name.as_str()) {
                total = total + n;
            }
        }
        i = i + 1;
    }
    assert(all.take(i as int) =~= all);
    total
}

// ---------------------------------------------------------------- inspecting

/// What was found in a directory.
#[derive(Debug)]
pub struct Found {
    pub path: String,
    /// Unix milliseconds.
    pub modified: Option<i64>,
    pub files: Vec<Entry>,
    /// The FTW index is a file.
    pub has_index: bool,
    /// `config.json` is a file.
    pub has_config: bool,
    pub template_status: crate::templates::Status,
    pub sampling_status: crate::sampling::Status,
    pub sampling_effective: Option<Sampling>,
    /// `inference/config.json` is a file.
    pub has_inference_config: bool,
}

/// The value of a file that decoded.
pub open spec fn decoded(text: Option<Seq<char>>) -> Option<JsonView> {
    match text {
        Some(t) => match json_of(t) {
            Ok(v) => Some(v),
            Err(_) => None,
        },
        None => None,
    }
}

pub open spec fn text_under(v: Option<JsonView>, key: Seq<char>) -> Option<Seq<char>> {
    match v {
        Some(v) => match v.get(key) {
            Some(t) => t.as_str(),
            None => None,
        },
        None => None,
    }
}

/// A model as its config, where it has one, describes it.
pub open spec fn described(d: Found, name: Seq<char>, config: Option<HfConfig>) -> ModelView {
    ModelView {
        name,
        repo: None,
        variant: None,
        path: d.path@,
        format: Format::Hf,
        size_bytes: 0,
        arch: match config {
            Some(c) => c.arch(),
            None => None,
        },
        model_type: match config {
            Some(c) => opt_text(c.model_type),
            None => None,
        },
        is_moe: match config {
            Some(c) => c.declares_moe(),
            None => false,
        },
        num_experts: match config {
            Some(c) => c.experts(),
            None => None,
        },
        num_layers: match config {
            Some(c) => c.layers(),
            None => None,
        },
        quant: match config {
            Some(c) => c.quantization(),
            None => None,
        },
        max_position: match config {
            Some(c) => c.context(),
            None => None,
        },
        ftw_fingerprint: None,
        converted_to: None,
        modified: d.modified,
        template_status: d.template_status,
        sampling_status: d.sampling_status,
        sampling_effective: opt_sampling(d.sampling_effective),
        has_inference_config: d.has_inference_config,
    }
}

/// What a directory holds, given what its index and its config decoded to.
pub open spec fn inspected(
    d: Found,
    index: Option<JsonView>,
    config: Option<HfConfig>,
) -> Option<ModelView> {
    match file_name_of(d.path@) {
        None => None,
        Some(name) => if d.has_index {
            let m = described(d, name, config);
            Some(
                ModelView {
                    format: Format::Ftw,
                    size_bytes: bytes_of(d.files@, Weights::Ftw) as u64,
                    quant: match text_under(index, "quant_format"@) {
                        Some(q) => Some(q),
                        None => m.quant,
                    },
                    ftw_fingerprint: text_under(index, "fingerprint"@),
                    ..m
                },
            )
        } else if any_of(d.files@, Weights::Ftw) {
            // Shards with no index means `ft checkpoint` never reached its finalize step.
            Some(
                ModelView {
                    format: Format::PartialFtw,
                    size_bytes: bytes_of(d.files@, Weights::Ftw) as u64,
                    ..described(d, name, None)
                },
            )
        } else if d.has_config {
            if config is None || !any_of(d.files@, Weights::Any) {
                None
            } else {
                Some(
                    ModelView {
                        format: if any_of(d.files@, Weights::Gguf) && !any_of(
                            d.files@,
                            Weights::Safetensors,
                        ) {
                            Format::Gguf
                        } else {
                            Format::Hf
                        },
                        size_bytes: bytes_of(d.files@, Weights::Any) as u64,
                        ..described(d, name, config)
                    },
                )
            }
        } else if any_of(d.files@, Weights::Gguf) {
            // A bare GGUF drop with no config.json still serves (Gemma-4 reads its metadata
            // from the file), so none is required.
            Some(
                ModelView {
                    format: Format::Gguf,
                    size_bytes: bytes_of(d.files@, Weights::Gguf) as u64,
                    ..described(d, name, None)
                },
            )
        } else {
            None
        },
    }
}

pub open spec fn opt_config(c: Option<&HfConfig>) -> Option<HfConfig> {
    match c {
        Some(c) => Some(*c),
        None => None,
    }
}

fn describe(d: Found, name: String, config: Option<&HfConfig>) -> (r: Model)
    ensures
        r@ == described(d, name@, opt_config(config)),
{
    let (arch, model_type, is_moe, num_experts, num_layers, quant, max_position) = match config {
        Some(c) => (
            c.first_arch(),
            copy_opt(&c.model_type),
            c.is_moe(),
            c.num_experts(),
            c.num_layers(),
            c.quant_method(),
            c.max_position(),
        ),
        None => (None, None, false, None, None, None, None),
    };
    Model {
        name,
        repo: None,
        variant: None,
        path: d.path,
        format: Format::Hf,
        size_bytes: 0,
        arch,
        model_type,
        is_moe,
        num_experts,
        num_layers,
        quant,
        max_position,
        ftw_fingerprint: None,
        converted_to: None,
        modified: d.modified,
        template_status: d.template_status,
        sampling_status: d.sampling_status,
        sampling_effective: d.sampling_effective,
        has_inference_config: d.has_inference_config,
    }
}

fn find_text(v: Option<&Json>, key: &str) -> (r: Option<String>)
    ensures
        opt_text(r) == text_under(opt_json(v), key@),
{
    match v {
        Some(v) => match v.get(key) {
            Some(t) => match t.as_str() {
                Some(s) => Some(s.to_owned()),
                None => None,
            },
            None => None,
        },
        None => None,
    }
}

/// Identify a directory by what was found in it and what its index and its config decoded
/// to, returning `None` when it holds no recognizable model.
pub fn inspect_decoded(d: Found, index: Option<&Json>, config: Option<&HfConfig>) -> (r: Option<
    Model,
>)
    requires
        sizes_in(d.files@) <= u64::MAX,
    ensures
        opt_model(r) == inspected(d, opt_json(index), opt_config(config)),
{
    let name = match file_name(d.path.as_str()) {
        Some(n) => n,
        None => {
            return None;
        },
    };
    proof {
        lemma_bytes_at_most_sizes(d.files@, Weights::Ftw);
        lemma_bytes_at_most_sizes(d.files@, Weights::Any);
        lemma_bytes_at_most_sizes(d.files@, Weights::Gguf);
    }
    if d.has_index {
        let size_bytes = weight_bytes(&d.files, Weights::Ftw);
        let mut m = describe(d, name, config);
        m.format = Format::Ftw;
        m.size_bytes = size_bytes;
        if let Some(q) = find_text(index, "quant_format") {
            m.quant = Some(q);
        }
        m.ftw_fingerprint = find_text(index, "fingerprint");
        return Some(m);
    }
    if has_any(&d.files, Weights::Ftw) {
        let size_bytes = weight_bytes(&d.files, Weights::Ftw);
        let mut m = describe(d, name, None);
        m.format = Format::PartialFtw;
        m.size_bytes = size_bytes;
        return Some(m);
    }
    if d.has_config {
        if config.is_none() || !has_any(&d.files, Weights::Any) {
            return None;
        }
        let gguf = has_any(&d.files, Weights::Gguf) && !has_any(&d.files, Weights::Safetensors);
        let size_bytes = weight_bytes(&d.files, Weights::Any);
        let mut m = describe(d, name, config);
        m.format = if gguf {
            Format::Gguf
        } else {
            Format::Hf
        };
        m.size_bytes = size_bytes;
        return Some(m);
    }
    if has_any(&d.files, Weights::Gguf) {
        let size_bytes = weight_bytes(&d.files, Weights::Gguf);
        let mut m = describe(d, name, None);
        m.format = Format::Gguf;
        m.size_bytes = size_bytes;
        return Some(m);
    }
    None
}

fn decode(text: Option<&str>) -> (r: Option<Json>)
    ensures
        (match r {
            Some(v) => Some(v@),
            None => None,
        }) == decoded(opt_str(text)),
{
    match text {
        Some(t) => match parse_json(t) {
            Ok(v) => Some(v),
            Err(_) => None,
        },
        None => None,
    }
}

/// Identify a single directory, returning `None` when it holds no recognizable model.
/// `index` is the text of its FTW index, and `config` what its `config.json` decodes to, or,
/// where that cannot be read, its `inference/config.json`: DeepSeek-V4 keeps the
/// authoritative args there, but the top-level one is still the HF-shaped file.
pub fn inspect(d: Found, index: Option<&str>, config: Option<&HfConfig>) -> (r: Option<Model>)
    requires
        sizes_in(d.files@) <= u64::MAX,
    ensures
        opt_model(r) == inspected(d, decoded(opt_str(index)), opt_config(config)),
{
    let value = decode(index);
    let i: Option<&Json> = match &value {
        Some(v) => Some(v),
        None => None,
    };
    inspect_decoded(d, i, config)
}

/// An index decides: what has one is a finished conversion, whatever else is there, and
/// what has shards but none is never taken for one.
pub proof fn law_only_an_index_makes_a_conversion(
    d: Found,
    index: Option<JsonView>,
    config: Option<HfConfig>,
)
    ensures
        inspected(d, index, config) matches Some(m) ==> (m.format == Format::Ftw <==> d.has_index),
        inspected(d, index, config) matches Some(m) ==> (m.format == Format::PartialFtw
            <==> !d.has_index && any_of(d.files@, Weights::Ftw)),
{
}

/// A directory that holds no weight file and no index is not a model.
pub proof fn law_a_directory_without_weights_is_skipped(
    d: Found,
    index: Option<JsonView>,
    config: Option<HfConfig>,
)
    requires
        !d.has_index,
        !any_of(d.files@, Weights::Ftw),
        !any_of(d.files@, Weights::Any),
    ensures
        inspected(d, index, config) is None,
{
    if any_of(d.files@, Weights::Gguf) {
        let i = choose|i: int|
            0 <= i < d.files@.len() && Weights::Gguf.is_file((#[trigger] d.files@[i]).name@);
        assert(Weights::Any.is_file(d.files@[i].name@));
    }
}

// ---------------------------------------------------------------- the hub cache

/// The repo that a hub cache directory name stands for.
pub open spec fn repo_named(dir_name: Seq<char>) -> Option<Seq<char>> {
    let rest = dir_name.skip("models--"@.len() as int);
    if !"models--"@.is_prefix_of(dir_name) {
        None
    } else {
        match first_at(rest, "--"@) {
            None => None,
            Some(i) => {
                let org = rest.take(i as int);
                let name = rest.skip((i + "--"@.len()) as int);
                if org.len() > 0 && name.len() > 0 {
                    Some(org + "/"@ + name)
                } else {
                    None
                }
            },
        }
    }
}

/// Decode a hub cache directory name back into a repo id.
///
/// `huggingface_hub` builds these as `models--` followed by the repo id with `/` replaced
/// by `--`. An organization name cannot contain `--`, so the first separator splits it
/// from the model name; the model name may contain further ones and is taken whole.
pub fn repo_from_cache_dir(dir_name: &str) -> (r: Option<String>)
    ensures
        opt_text(r) == repo_named(dir_name@),
{
    let rest = match strip_prefix(dir_name, "models--") {
        Some(r) => r,
        None => {
            return None;
        },
    };
    match find(rest.as_str(), "--") {
        None => None,
        Some(i) => {
            proof {
                reveal_strlit("--");
                assert("--"@.len() == 2);
            }
            let v = chars_of(rest.as_str());
            let org = text_of(&v, 0, i);
            let name = text_of(&v, i + 2, v.len());
            assert(org@ =~= rest@.take(i as int));
            assert(name@ =~= rest@.skip(i + 2));
            if !org.as_str().is_empty() && !name.as_str().is_empty() {
                Some(cat3(org.as_str(), "/", name.as_str()))
            } else {
                None
            }
        },
    }
}

/// The name of the directory that a repo occupies in the hub cache.
pub open spec fn cache_dir_name(repo: Seq<char>) -> Seq<char> {
    "models--"@ + replaced(repo, '/', "--"@)
}

proof fn lemma_replaced_none(s: Seq<char>, c: char, to: Seq<char>)
    requires
        !s.contains(c),
    ensures
        replaced(s, c, to) == s,
    decreases s.len(),
{
    if s.len() > 0 {
        assert(s[s.len() - 1] == s.last());
        assert(!s.drop_last().contains(c)) by {
            if s.drop_last().contains(c) {
                let i = choose|i: int| 0 <= i < s.drop_last().len() && s.drop_last()[i] == c;
                assert(s[i] == c);
            }
        }
        lemma_replaced_none(s.drop_last(), c, to);
        assert(s.drop_last().push(s.last()) =~= s);
    }
}

proof fn lemma_replaced_add(a: Seq<char>, b: Seq<char>, c: char, to: Seq<char>)
    ensures
        replaced(a + b, c, to) == replaced(a, c, to) + replaced(b, c, to),
    decreases b.len(),
{
    if b.len() == 0 {
        assert(a + b =~= a);
        assert(replaced(a, c, to) + replaced(b, c, to) =~= replaced(a, c, to));
    } else {
        lemma_replaced_add(a, b.drop_last(), c, to);
        assert((a + b).drop_last() =~= a + b.drop_last());
        assert((a + b).last() == b.last());
        assert(replaced(a + b, c, to) =~= replaced(a, c, to) + replaced(b, c, to));
    }
}

proof fn lemma_first_dashes(org: Seq<char>, name: Seq<char>)
    requires
        org.len() > 0,
        !occurs(org, "--"@),
        org.last() != '-',
    ensures
        first_at(org + "--"@ + name, "--"@) == Some(org.len()),
    decreases org.len(),
{
    reveal_strlit("--");
    let s = org + "--"@ + name;
    let two = "--"@;
    assert(two =~= seq!['-', '-']);
    // The two dashes do not stand at the start of `s`.
    assert(!two.is_prefix_of(s)) by {
        if two.is_prefix_of(s) {
            assert(s.subrange(0, 2)[0] == '-' && s.subrange(0, 2)[1] == '-');
            assert(s[0] == '-' && s[1] == '-');
            if org.len() == 1 {
                assert(org.last() == s[0]);
            } else {
                assert(org[0] == '-' && org[1] == '-');
                assert(org.subrange(0, 2) =~= two);
                assert(crate::text::stands_at(org, two, 0));
            }
        }
    }
    let t = org.drop_first();
    assert(s.drop_first() =~= t + two + name);
    if t.len() == 0 {
        assert((t + two + name).subrange(0, 2) =~= two);
        assert(two.is_prefix_of(t + two + name));
        assert(first_at(t + two + name, two) == Some(0nat));
    } else {
        assert(!(occurs(t, two))) by {
            if occurs(t, two) {
                let i = choose|i: int| #[trigger] crate::text::stands_at(t, two, i);
                assert(org.subrange(i + 1, i + 3) =~= t.subrange(i, i + 2));
                assert(crate::text::stands_at(org, two, i + 1));
            }
        }
        assert(t.last() == org.last());
        lemma_first_dashes(t, name);
    }
}

/// A cache directory name decodes to the repo it was made for: an organization without two
/// dashes in a row and without one at its end, and any name.
pub proof fn law_a_cache_directory_decodes_to_its_repo(org: Seq<char>, name: Seq<char>)
    requires
        org.len() > 0,
        name.len() > 0,
        !occurs(org, "--"@),
        org.last() != '-',
        !org.contains('/'),
        !name.contains('/'),
    ensures
        repo_named(cache_dir_name(org + "/"@ + name)) == Some(org + "/"@ + name),
{
    reveal_strlit("/");
    reveal_strlit("--");
    let repo = org + "/"@ + name;
    lemma_replaced_none(org, '/', "--"@);
    lemma_replaced_none(name, '/', "--"@);
    lemma_replaced_add(org, "/"@, '/', "--"@);
    lemma_replaced_add(org + "/"@, name, '/', "--"@);
    assert(replaced("/"@, '/', "--"@) =~= "--"@) by {
        assert("/"@.len() == 1 && "/"@.last() == '/');
        assert("/"@.drop_last() =~= Seq::<char>::empty());
        assert(replaced(Seq::<char>::empty(), '/', "--"@) =~= Seq::<char>::empty());
        reveal_with_fuel(replaced, 2);
    }
    let body = org + "--"@ + name;
    assert(replaced(repo, '/', "--"@) == body);
    let dir = cache_dir_name(repo);
    let pre = "models--"@;
    assert(dir.subrange(0, pre.len() as int) =~= pre);
    assert(pre.is_prefix_of(dir));
    assert(dir.skip(pre.len() as int) =~= body);
    lemma_first_dashes(org, name);
    assert("--"@.len() == 2);
    let i = org.len() as int;
    assert(body.take(i) =~= org);
    assert(body.skip(i + 2) =~= name);
}

/// Two repos, of different organizations or names, occupy different cache directories.
pub proof fn law_two_repos_do_not_share_a_cache_directory(
    org: Seq<char>,
    name: Seq<char>,
    other_org: Seq<char>,
    other_name: Seq<char>,
)
    requires
        org.len() > 0 && name.len() > 0 && other_org.len() > 0 && other_name.len() > 0,
        !occurs(org, "--"@) && !occurs(other_org, "--"@),
        org.last() != '-' && other_org.last() != '-',
        !org.contains('/') && !other_org.contains('/'),
        !name.contains('/') && !other_name.contains('/'),
        org + "/"@ + name != other_org + "/"@ + other_name,
    ensures
        cache_dir_name(org + "/"@ + name) != cache_dir_name(other_org + "/"@ + other_name),
{
    law_a_cache_directory_decodes_to_its_repo(org, name);
    law_a_cache_directory_decodes_to_its_repo(other_org, other_name);
}

/// The newest of the snapshots; the last of equals.
pub open spec fn newest(s: Seq<(u64, String)>) -> Option<String>
    decreases s.len(),
{
    if s.len() == 0 {
        None
    } else if forall|i: int| 0 <= i < s.len() ==> (#[trigger] s[i]).0 <= s.last().0 {
        Some(s.last().1)
    } else {
        newest(s.drop_last())
    }
}

/// The snapshot that `refs/main` of a cache entry names.
pub fn pinned_snapshot(repo_dir: &str, main_ref: &str) -> (r: String)
    ensures
        r@ == joined_path(joined_path(repo_dir@, "snapshots"@), trimmed(main_ref@)),
{
    join(join(repo_dir, "snapshots").as_str(), trim(main_ref).as_str())
}

pub(crate) fn newest_snapshot(snapshots: &Vec<(u64, String)>) -> (r: Option<String>)
    ensures
        r == newest(snapshots@),
{
    let ghost all = snapshots@;
    let mut n: usize = snapshots.len();
    assert(all.take(n as int) =~= all);
    while n > 0
        invariant
            n <= snapshots.len(),
            all == snapshots@,
            newest(all) == newest(all.take(n as int)),
        decreases n,
    {
        let ghost s = all.take(n as int);
        assert(s.last() == snapshots@[n - 1]);
        let mut top = true;
        let mut i: usize = 0;
        while i < n
            invariant
                i <= n <= snapshots.len(),
                1 <= n,
                s == snapshots@.take(n as int),
                s.last() == snapshots@[n - 1],
                top == (forall|j: int| 0 <= j < i ==> (#[trigger] s[j]).0 <= s.last().0),
            decreases n - i,
        {
            assert(s[i as int] == snapshots@[i as int]);
            if snapshots[i].0 > snapshots[n - 1].0 {
                top = false;
            }
            i = i + 1;
        }
        assert(s.len() == n);
        if top {
            return Some(snapshots[n - 1].1.clone());
        }
        assert(s.drop_last() =~= all.take(n - 1));
        n = n - 1;
    }
    None
}

/// The snapshot directory a cache entry resolves to.
///
/// `refs/main` is what a bare repo id resolves to for every other tool, so it is the
/// revision to show. A repo pinned to a tag or a commit has no `main` ref; falling back to
/// the most recently written snapshot lists it rather than hiding it, and an unlisted
/// checkpoint is one nothing can act on.
///
/// `pinned` is what [`pinned_snapshot`] gives when that is a directory; `snapshots` are
/// all there are, with the time each was written.
pub fn cache_snapshot(pinned: Option<String>, snapshots: &Vec<(u64, String)>) -> (r: Option<String>)
    ensures
        r == (match pinned {
            Some(p) => Some(p),
            None => newest(snapshots@),
        }),
{
    match pinned {
        Some(p) => Some(p),
        None => newest_snapshot(snapshots),
    }
}

/// A group of a snapshot's files that is one build: where it stands below the snapshot, and
/// what it is called.
#[derive(Debug)]
pub struct Build {
    pub label: String,
    pub subdir: Option<String>,
    pub bytes: u64,
    /// The label names a real build. Only one quantization may be downloaded today and a
    /// second tomorrow, and the two have genuinely different cache costs, so a build is
    /// tagged whenever its label says something.
    pub tagged: bool,
}

/// Where a build stands. A quantization in its own directory is a separate checkpoint on
/// disk, and the engine has to be pointed at that directory: a snapshot root holding eleven
/// builds is not something `--model-path` can resolve.
pub fn build_path(snapshot: &str, build: &Build) -> (r: String)
    ensures
        r@ == (match build.subdir {
            Some(sub) => joined_path(snapshot@, sub@),
            None => snapshot@,
        }),
{
    match &build.subdir {
        Some(sub) => join(snapshot, sub.as_str()),
        None => snapshot.to_owned(),
    }
}

/// A model found in a cache entry, called after its repo and build: a directory is otherwise
/// named after itself, which here is a commit sha or a bare quantization label, and neither
/// identifies the model. The size is that of the build, so a quantization whose shards sit
/// beside ten other builds is not reported as the whole shelf.
pub fn of_repo(m: Model, repo: &str, build: &Build) -> (r: Model)
    ensures
        r@ == (ModelView {
            name: if build.tagged {
                repo@ + ":"@ + build.label@
            } else {
                repo@
            },
            repo: Some(repo@),
            variant: if build.tagged {
                Some(build.label@)
            } else {
                None
            },
            size_bytes: if build.bytes > 0 {
                build.bytes
            } else {
                m.size_bytes
            },
            ..m@
        }),
{
    let mut m = m;
    m.name = if build.tagged {
        cat3(repo, ":", build.label.as_str())
    } else {
        repo.to_owned()
    };
    m.repo = Some(repo.to_owned());
    m.variant = if build.tagged {
        Some(build.label.clone())
    } else {
        None
    };
    if build.bytes > 0 {
        m.size_bytes = build.bytes;
    }
    m
}

// ---------------------------------------------------------------- conversions

/// Where a checkpoint's build stood before builds had a directory of their own: beside the
/// source, `<name>-ftw`.
pub open spec fn legacy_build(source: Seq<char>) -> Option<Seq<char>> {
    match (file_name_of(source), parent_of(source)) {
        (Some(name), Some(dir)) => Some(joined_path(dir, name + "-ftw"@)),
        _ => None,
    }
}

pub fn legacy_ftw_path(source: &str) -> (r: Option<String>)
    ensures
        opt_text(r) == legacy_build(source@),
{
    match (file_name(source), parent(source)) {
        (Some(name), Some(dir)) => Some(join(dir.as_str(), cat2(name.as_str(), "-ftw").as_str())),
        _ => None,
    }
}

/// What a build is called, without its suffix.
pub open spec fn build_stem(
    source: Seq<char>,
    repo: Option<Seq<char>>,
    variant: Option<Seq<char>>,
) -> Seq<char> {
    let stem = match repo {
        Some(r) => replaced(r, '/', "--"@),
        None => match file_name_of(source) {
            Some(n) => n,
            None => "model"@,
        },
    };
    match variant {
        Some(v) => stem + "--"@ + v,
        None => stem,
    }
}

pub open spec fn build_dir(
    source: Seq<char>,
    repo: Option<Seq<char>>,
    variant: Option<Seq<char>>,
    ftw_dir: Seq<char>,
    home: Option<Seq<char>>,
) -> Seq<char> {
    joined_path(expanded(ftw_dir, home), build_stem(source, repo, variant) + "-ftw"@)
}

/// Where paddock puts the FTW build of a checkpoint: under `library.ftw_dir`, with a
/// `-ftw` suffix.
///
/// Deliberately not beside the source. A hub-cache checkpoint's sibling would be inside
/// `snapshots/`, a tree that belongs to `huggingface_hub`: a directory it did not write
/// is invisible to `hf cache scan` and at risk from `hf cache delete`. An FTW build is
/// also not a Hugging Face repo: it has no repo id and no revision, so the cache has
/// nowhere to file it even in principle.
///
/// The name is org-qualified whenever the origin is known, for the same reason the cache's
/// own names are: two organizations publishing the same model name is common, and a flat
/// name silently merges them into one directory.
pub fn ftw_output_path(
    source: &str,
    repo: Option<&str>,
    variant: Option<&str>,
    ftw_dir: &str,
    home: Option<&str>,
) -> (r: String)
    ensures
        r@ == build_dir(source@, opt_str(repo), opt_str(variant), ftw_dir@, opt_str(home)),
{
    let mut stem = match repo {
        Some(r) => replace(r, '/', "--"),
        None => match file_name(source) {
            Some(n) => n,
            None => "model".to_owned(),
        },
    };
    // Without this, converting two quantizations of one repo would write both builds to
    // the same directory, and the second would silently overwrite the first.
    if let Some(v) = variant {
        stem.append("--");
        stem.append(v);
    }
    join(expand_tilde(ftw_dir, home).as_str(), cat2(stem.as_str(), "-ftw").as_str())
}

proof fn lemma_joined_injective(base: Seq<char>, a: Seq<char>, b: Seq<char>)
    requires
        a.len() > 0 && a[0] != '/',
        b.len() > 0 && b[0] != '/',
        a != b,
    ensures
        joined_path(base, a) != joined_path(base, b),
{
    let (x, y) = (joined_path(base, a), joined_path(base, b));
    if x == y {
        if base.len() == 0 || base.last() == '/' {
            assert(x.skip(base.len() as int) =~= a);
            assert(y.skip(base.len() as int) =~= b);
        } else {
            let pre = base + "/"@;
            assert(x.skip(pre.len() as int) =~= a);
            assert(y.skip(pre.len() as int) =~= b);
        }
    }
}

proof fn lemma_replaced_first(s: Seq<char>)
    ensures
        replaced(s, '/', "--"@).len() > 0 ==> replaced(s, '/', "--"@)[0] != '/',
    decreases s.len(),
{
    reveal_strlit("--");
    if s.len() > 0 {
        lemma_replaced_first(s.drop_last());
    }
}

proof fn lemma_replaced_has_no_slash(s: Seq<char>)
    ensures
        !replaced(s, '/', "--"@).contains('/'),
    decreases s.len(),
{
    reveal_strlit("--");
    if s.len() > 0 {
        lemma_replaced_has_no_slash(s.drop_last());
        let head = replaced(s.drop_last(), '/', "--"@);
        assert forall|i: int| 0 <= i < replaced(s, '/', "--"@).len() implies replaced(
            s,
            '/',
            "--"@,
        )[i] != '/' by {
            if i < head.len() {
                assert(head.contains(head[i]));
            }
        }
    }
}

/// The build of a checkpoint of a repo stands directly in the directory for builds, whatever
/// the checkpoint's own path is: never beside a source that lies inside the cache.
pub proof fn law_a_build_stands_in_the_directory_for_builds(
    source: Seq<char>,
    repo: Seq<char>,
    variant: Option<Seq<char>>,
    ftw_dir: Seq<char>,
    home: Option<Seq<char>>,
)
    requires
        variant is Some ==> !variant->0.contains('/'),
    ensures
        expanded(ftw_dir, home).is_prefix_of(
            build_dir(source, Some(repo), variant, ftw_dir, home),
        ),
        file_name_of(build_dir(source, Some(repo), variant, ftw_dir, home)) == Some(
            build_stem(source, Some(repo), variant) + "-ftw"@,
        ),
{
    reveal_strlit("--");
    reveal_strlit("-ftw");
    reveal_strlit(".");
    reveal_strlit("..");
    lemma_replaced_has_no_slash(repo);
    let r = replaced(repo, '/', "--"@);
    let name = build_stem(source, Some(repo), variant) + "-ftw"@;
    assert forall|i: int| 0 <= i < name.len() implies name[i] != '/' by {
        if i < r.len() {
            assert(r.contains(r[i]));
        } else if variant is Some && r.len() + 2 <= i < r.len() + 2 + variant->0.len() {
            let v = variant->0;
            assert(v.contains(v[i - r.len() - 2]));
        }
    }
    assert(name.last() == 'w');
    law_a_joined_name_reads_back(expanded(ftw_dir, home), name);
}

/// Two quantizations of one repo never converge on one FTW directory.
pub proof fn law_builds_of_two_quantizations_do_not_collide(
    source: Seq<char>,
    other: Seq<char>,
    repo: Seq<char>,
    v: Seq<char>,
    w: Seq<char>,
    ftw_dir: Seq<char>,
    home: Option<Seq<char>>,
)
    requires
        v != w,
    ensures
        build_dir(source, Some(repo), Some(v), ftw_dir, home) != build_dir(
            other,
            Some(repo),
            Some(w),
            ftw_dir,
            home,
        ),
{
    reveal_strlit("--");
    let stem = replaced(repo, '/', "--"@);
    lemma_replaced_first(repo);
    let a = stem + "--"@ + v + "-ftw"@;
    let b = stem + "--"@ + w + "-ftw"@;
    let n = (stem + "--"@).len() as int;
    assert(a[0] != '/' && b[0] != '/') by {
        if stem.len() > 0 {
            assert(a[0] == stem[0] && b[0] == stem[0]);
        } else {
            assert(a[0] == "--"@[0] && b[0] == "--"@[0]);
        }
    }
    if a == b {
        assert(a.len() == b.len());
        assert(a.subrange(n, n + v.len()) =~= v);
        assert(b.subrange(n, n + w.len()) =~= w);
    }
    lemma_joined_injective(expanded(ftw_dir, home), a, b);
}

/// Builds of two repos whose cache directories differ never converge on one FTW directory.
pub proof fn law_builds_of_two_repos_do_not_collide(
    source: Seq<char>,
    other: Seq<char>,
    repo: Seq<char>,
    other_repo: Seq<char>,
    ftw_dir: Seq<char>,
    home: Option<Seq<char>>,
)
    requires
        repo.len() > 0,
        other_repo.len() > 0,
        cache_dir_name(repo) != cache_dir_name(other_repo),
    ensures
        build_dir(source, Some(repo), None, ftw_dir, home) != build_dir(
            other,
            Some(other_repo),
            None,
            ftw_dir,
            home,
        ),
{
    reveal_strlit("-ftw");
    let (p, q) = (replaced(repo, '/', "--"@), replaced(other_repo, '/', "--"@));
    lemma_replaced_first(repo);
    lemma_replaced_first(other_repo);
    let (a, b) = (p + "-ftw"@, q + "-ftw"@);
    assert(a[0] != '/' && b[0] != '/') by {
        if p.len() > 0 {
            assert(a[0] == p[0]);
        } else {
            assert(a[0] == "-ftw"@[0]);
        }
        if q.len() > 0 {
            assert(b[0] == q[0]);
        } else {
            assert(b[0] == "-ftw"@[0]);
        }
    }
    if a == b {
        assert(a.len() == b.len());
        assert(a.take(p.len() as int) =~= p);
        assert(b.take(q.len() as int) =~= q);
    }
    lemma_joined_injective(expanded(ftw_dir, home), a, b);
}

// ---------------------------------------------------------------- the library

/// Where the first FTW directory that leads to `path` stands among `models`.
pub open spec fn build_at(models: Seq<Model>, path: Seq<char>) -> Option<String>
    decreases models.len(),
{
    if models.len() == 0 {
        None
    } else if models[0].format == Format::Ftw && same_place(models[0].path@, path) {
        Some(models[0].path)
    } else {
        build_at(models.drop_first(), path)
    }
}

/// The FTW directory converted from a checkpoint, where one of `models` is it. The sibling
/// `<source>-ftw` is where builds went before `library.ftw_dir` existed; it is still accepted
/// as a fallback, because an existing build is tens of gigabytes, and quietly unlinking it
/// would offer to convert the model again.
pub open spec fn conversion_of(
    models: Seq<Model>,
    m: Model,
    ftw_dir: Seq<char>,
    home: Option<Seq<char>>,
) -> Option<String> {
    let expected = build_dir(m.path@, opt_text(m.repo), opt_text(m.variant), ftw_dir, home);
    if build_at(models, expected) is Some {
        build_at(models, expected)
    } else {
        match legacy_build(m.path@) {
            Some(p) => build_at(models, p),
            None => None,
        }
    }
}

/// A model with the conversion found for it.
pub open spec fn linked(
    models: Seq<Model>,
    m: Model,
    ftw_dir: Seq<char>,
    home: Option<Seq<char>>,
) -> Model {
    match conversion_of(models, m, ftw_dir, home) {
        Some(p) if m.format == Format::Hf => Model { converted_to: Some(p), ..m },
        _ => m,
    }
}

pub open spec fn all_linked(models: Seq<Model>, ftw_dir: Seq<char>, home: Option<Seq<char>>) -> Seq<
    Model,
> {
    Seq::new(models.len(), |i: int| linked(models, models[i], ftw_dir, home))
}

fn find_build(models: &Vec<Model>, path: &str) -> (r: Option<String>)
    ensures
        r == build_at(models@, path@),
{
    let mut i: usize = 0;
    assert(models@.skip(0) =~= models@);
    while i < models.len()
        invariant
            i <= models.len(),
            build_at(models@, path@) == build_at(models@.skip(i as int), path@),
        decreases models.len() - i,
    {
        assert(models@.skip(i as int)[0] == models@[i as int]);
        if models[i].format == Format::Ftw && same_path(models[i].path.as_str(), path) {
            return Some(models[i].path.clone());
        }
        assert(models@.skip(i as int).drop_first() =~= models@.skip(i + 1));
        i = i + 1;
    }
    None
}

pub fn as_text_opt(o: &Option<String>) -> (r: Option<&str>)
    ensures
        opt_str(r) == opt_text(*o),
{
    match o {
        Some(s) => Some(s.as_str()),
        None => None,
    }
}

fn find_conversion(models: &Vec<Model>, m: &Model, ftw_dir: &str, home: Option<&str>) -> (r: Option<
    String,
>)
    ensures
        r == conversion_of(models@, *m, ftw_dir@, opt_str(home)),
{
    let expected = ftw_output_path(
        m.path.as_str(),
        as_text_opt(&m.repo),
        as_text_opt(&m.variant),
        ftw_dir,
        home,
    );
    match find_build(models, expected.as_str()) {
        Some(p) => Some(p),
        None => match legacy_ftw_path(m.path.as_str()) {
            Some(p) => find_build(models, p.as_str()),
            None => None,
        },
    }
}

/// Pair each HF checkpoint with the FTW directory converted from it, by the naming
/// convention [`ftw_output_path`] applies.
pub fn link_conversions(models: &mut Vec<Model>, ftw_dir: &str, home: Option<&str>)
    ensures
        final(models)@ == all_linked(old(models)@, ftw_dir@, opt_str(home)),
{
    let ghost all = models@;
    let mut found: Vec<Option<String>> = Vec::new();
    let mut i: usize = 0;
    while i < models.len()
        invariant
            i <= models.len(),
            models@ == all,
            found@.len() == i,
            forall|j: int|
                0 <= j < i ==> #[trigger] found@[j] == conversion_of(
                    all,
                    all[j],
                    ftw_dir@,
                    opt_str(home),
                ),
        decreases models.len() - i,
    {
        found.push(find_conversion(models, &models[i], ftw_dir, home));
        i = i + 1;
    }
    let mut k: usize = 0;
    while k < models.len()
        invariant
            k <= models.len(),
            models@.len() == all.len(),
            found@.len() == all.len(),
            forall|j: int|
                0 <= j < all.len() ==> #[trigger] found@[j] == conversion_of(
                    all,
                    all[j],
                    ftw_dir@,
                    opt_str(home),
                ),
            forall|j: int|
                0 <= j < k ==> #[trigger] models@[j] == linked(all, all[j], ftw_dir@, opt_str(home)),
            forall|j: int| k <= j < all.len() ==> #[trigger] models@[j] == all[j],
        decreases models.len() - k,
    {
        assert(found@[k as int] == conversion_of(all, all[k as int], ftw_dir@, opt_str(home)));
        if models[k].format == Format::Hf {
            if let Some(p) = &found[k] {
                let mut m = models[k].copy();
                m.converted_to = Some(p.clone());
                models.set(k, m);
            }
        }
        k = k + 1;
    }
    assert(models@ =~= all_linked(all, ftw_dir@, opt_str(home)));
}

/// A path in a form whose order as a text is the order of its components: the root, the
/// directory itself, the one above it, and names, each told apart by a mark, and each closed.
pub open spec fn path_key(path: Seq<char>) -> Seq<char> {
    let start = if rooted(path) {
        "\u{1}\0"@
    } else if dotted(path) {
        "\u{2}\0"@
    } else {
        ""@
    };
    start + component_keys(components_of(path))
}

pub open spec fn component_keys(c: Seq<Seq<char>>) -> Seq<char>
    decreases c.len(),
{
    if c.len() == 0 {
        ""@
    } else {
        component_keys(c.drop_last()) + (if c.last() == ".."@ {
            "\u{3}\0"@
        } else {
            "\u{4}"@ + c.last() + "\0"@
        })
    }
}

/// What makes a checkpoint the same checkpoint when two roots both see it: where it is,
/// and which build of that directory it is. Not the path alone: a repo that ships one file
/// per quantization keeps every build in the snapshot root, so several models legitimately
/// share a path and differ only in which files they are.
pub open spec fn model_key(m: Model) -> Seq<char> {
    path_key(m.path@) + "\0"@ + (match m.variant {
        Some(v) => "\u{1}"@ + v@,
        None => ""@,
    })
}

fn key_of(m: &Model) -> (r: String)
    ensures
        r@ == model_key(*m),
{
    let v = chars_of(m.path.as_str());
    let mut s = if v.len() > 0 && v[0] == '/' {
        "\u{1}\0".to_owned()
    } else if v.len() > 0 && v[0] == '.' && (v.len() == 1 || v[1] == '/') {
        "\u{2}\0".to_owned()
    } else {
        "".to_owned()
    };
    let c = components(m.path.as_str());
    let ghost all = components_of(m.path@);
    let mut i: usize = 0;
    let mut k: String = "".to_owned();
    assert(all.take(0) =~= Seq::<Seq<char>>::empty());
    while i < c.len()
        invariant
            i <= c.len(),
            texts(c@) == all,
            k@ == component_keys(all.take(i as int)),
        decreases c.len() - i,
    {
        assert(all.take(i + 1).drop_last() =~= all.take(i as int));
        assert(all.take(i + 1).last() == c@[i as int]@);
        if same(c[i].as_str(), "..") {
            k.append("\u{3}\0");
        } else {
            let part = cat3("\u{4}", c[i].as_str(), "\0");
            k.append(part.as_str());
        }
        i = i + 1;
    }
    assert(all.take(i as int) =~= all);
    s.append(k.as_str());
    s.append("\0");
    match &m.variant {
        Some(v) => {
            let tail = cat2("\u{1}", v.as_str());
            s.append(tail.as_str());
        },
        None => {
            s.append("");
        },
    }
    s
}

/// `found` with one model for each key, the last one found, in the order of the keys.
pub open spec fn deduplicated(found: Seq<Model>) -> Seq<(Seq<char>, Model)>
    decreases found.len(),
{
    if found.len() == 0 {
        Seq::empty()
    } else {
        with_key(deduplicated(found.drop_last()), model_key(found.last()), found.last())
    }
}

/// The models under the names they are listed by.
pub open spec fn by_listing(models: Seq<Model>) -> Seq<(Seq<char>, Model)> {
    Seq::new(models.len(), |i: int| (lowercase(models[i].name@), models[i]))
}

/// The library that `found` makes: no checkpoint twice, conversions paired with what they
/// were converted from, sorted by name.
pub open spec fn library_of(found: Seq<Model>, ftw_dir: Seq<char>, home: Option<Seq<char>>) -> Seq<
    Model,
> {
    values(ordered(by_listing(all_linked(values(deduplicated(found)), ftw_dir, home))))
}

/// The library made of the models found in every root, in the order they were found.
pub fn library(found: Vec<Model>, ftw_dir: &str, home: Option<&str>) -> (r: Vec<Model>)
    ensures
        r@ == library_of(found@, ftw_dir@, opt_str(home)),
{
    let ghost all = found@;
    let mut map: Vec<(String, Model)> = Vec::new();
    let mut i: usize = 0;
    assert(all.take(0) =~= Seq::<Model>::empty());
    assert(keyed(map@) =~= Seq::<(Seq<char>, Model)>::empty());
    while i < found.len()
        invariant
            i <= found.len(),
            all == found@,
            keyed(map@) == deduplicated(all.take(i as int)),
        decreases found.len() - i,
    {
        assert(all.take(i + 1).drop_last() =~= all.take(i as int));
        assert(all.take(i + 1).last() == found@[i as int]);
        let key = key_of(&found[i]);
        put(&mut map, key, found[i].copy());
        i = i + 1;
    }
    assert(all.take(i as int) =~= all);
    let ghost pairs = keyed(map@);
    let mut models: Vec<Model> = Vec::new();
    let mut k: usize = 0;
    while k < map.len()
        invariant
            k <= map.len(),
            pairs == keyed(map@),
            models@.len() == k,
            forall|j: int| 0 <= j < k ==> #[trigger] models@[j] == pairs[j].1,
        decreases map.len() - k,
    {
        models.push(map[k].1.copy());
        k = k + 1;
    }
    assert(models@ =~= values(pairs));
    link_conversions(&mut models, ftw_dir, home);
    let ghost listed = models@;
    let mut rows: Vec<(String, Model)> = Vec::new();
    let mut n: usize = 0;
    while n < models.len()
        invariant
            n <= models.len(),
            listed == models@,
            rows@.len() == n,
            forall|j: int|
                0 <= j < n ==> (#[trigger] rows@[j]).0@ == lowercase(listed[j].name@) && rows@[j].1
                    == listed[j],
        decreases models.len() - n,
    {
        rows.push((to_lowercase(models[n].name.as_str()), models[n].copy()));
        n = n + 1;
    }
    assert(keyed(rows@) =~= by_listing(listed));
    sorted_values(rows)
}

/// What a directory below a root turned out to hold.
#[derive(Debug)]
pub struct Scanned {
    /// The builds of a hub cache entry, when it is one.
    pub cached: Vec<Model>,
    /// The model that it is itself, when it is one.
    pub own: Option<Model>,
    /// The models one level deeper: the `org/model` layout.
    pub children: Vec<Model>,
}

/// What counts of a directory: the builds of a cache entry, else the model it is, else those
/// one level deeper. Deeper recursion is deliberately avoided: a model directory can hold
/// thousands of files and a runaway walk would make the Models view feel broken.
pub open spec fn counted(s: Scanned) -> Seq<Model> {
    if s.cached@.len() > 0 {
        s.cached@
    } else {
        match s.own {
            Some(m) => seq![m],
            None => s.children@,
        }
    }
}

pub open spec fn all_counted(dirs: Seq<Scanned>) -> Seq<Model>
    decreases dirs.len(),
{
    if dirs.len() == 0 {
        Seq::empty()
    } else {
        all_counted(dirs.drop_last()) + counted(dirs.last())
    }
}

fn push_models(out: &mut Vec<Model>, more: &Vec<Model>)
    ensures
        final(out)@ == old(out)@ + more@,
{
    let ghost before = out@;
    let mut i: usize = 0;
    assert(before + more@.take(0) =~= before);
    while i < more.len()
        invariant
            i <= more.len(),
            out@ == before + more@.take(i as int),
        decreases more.len() - i,
    {
        out.push(more[i].copy());
        assert(more@.take(i + 1) =~= more@.take(i as int).push(more@[i as int]));
        i = i + 1;
    }
    assert(more@.take(i as int) =~= more@);
}

/// Return the library, sorted by name, from the directories below every configured root.
///
/// Three layouts are recognized. A hub cache entry (`models--org--name`) is
/// resolved through its ref to the snapshot it points at. Otherwise a root is searched
/// at depth 1 and 2: depth 1 catches `~/models/Qwen3.6-35B-A3B`, and depth 2 catches the
/// `org/model` layout that mirrors and `hf download --local-dir` produce.
pub fn scan(dirs: &Vec<Scanned>, ftw_dir: &str, home: Option<&str>) -> (r: Vec<Model>)
    ensures
        r@ == library_of(all_counted(dirs@), ftw_dir@, opt_str(home)),
{
    let ghost all = dirs@;
    let mut found: Vec<Model> = Vec::new();
    let mut i: usize = 0;
    assert(all.take(0) =~= Seq::<Scanned>::empty());
    while i < dirs.len()
        invariant
            i <= dirs.len(),
            all == dirs@,
            found@ == all_counted(all.take(i as int)),
        decreases dirs.len() - i,
    {
        assert(all.take(i + 1).drop_last() =~= all.take(i as int));
        assert(all.take(i + 1).last() == dirs@[i as int]);
        let ghost before = found@;
        let d = &dirs[i];
        if d.cached.len() > 0 {
            push_models(&mut found, &d.cached);
        } else {
            match &d.own {
                Some(m) => {
                    found.push(m.copy());
                    assert(found@ =~= before + seq![*m]);
                },
                None => {
                    push_models(&mut found, &d.children);
                },
            }
        }
        i = i + 1;
    }
    assert(all.take(i as int) =~= all);
    library(found, ftw_dir, home)
}

proof fn lemma_deduplicated_holds(found: Seq<Model>, i: int)
    requires
        0 <= i < found.len(),
        forall|j: int| i < j < found.len() ==> model_key(#[trigger] found[j]) != model_key(found[i]),
    ensures
        deduplicated(found).contains((model_key(found[i]), found[i])),
    decreases found.len(),
{
    let head = found.drop_last();
    let last = found.last();
    let key = model_key(found[i]);
    let d = deduplicated(head);
    if i == found.len() - 1 {
        crate::order::lemma_with_key(d, key, last, 0);
    } else {
        assert(found[i] == head[i]);
        assert forall|j: int| i < j < head.len() implies model_key(#[trigger] head[j]) != model_key(
            head[i],
        ) by {
            assert(head[j] == found[j]);
        }
        lemma_deduplicated_holds(head, i);
        let k = choose|k: int| 0 <= k < d.len() && d[k] == (key, found[i]);
        assert(found[found.len() - 1] == last);
        crate::order::lemma_with_key(d, model_key(last), last, k);
    }
}

/// Every checkpoint that was found is listed, unless a later one is the same checkpoint:
/// what differs in its path or its build never hides another.
pub proof fn law_every_checkpoint_found_is_listed(
    found: Seq<Model>,
    i: int,
    ftw_dir: Seq<char>,
    home: Option<Seq<char>>,
)
    requires
        0 <= i < found.len(),
        forall|j: int| i < j < found.len() ==> model_key(#[trigger] found[j]) != model_key(found[i]),
    ensures
        library_of(found, ftw_dir, home).contains(
            linked(values(deduplicated(found)), found[i], ftw_dir, home),
        ),
{
    broadcast use vstd::seq_lib::group_to_multiset_ensures;

    lemma_deduplicated_holds(found, i);
    let d = deduplicated(found);
    let k = choose|k: int| 0 <= k < d.len() && d[k] == (model_key(found[i]), found[i]);
    let models = values(d);
    assert(models[k] == found[i]);
    let listed = all_linked(models, ftw_dir, home);
    let m = linked(models, found[i], ftw_dir, home);
    assert(listed[k] == m);
    let rows = by_listing(listed);
    let row = (lowercase(m.name@), m);
    assert(rows[k] == row);
    crate::order::lemma_ordered(rows);
    assert(rows.contains(row));
    assert(ordered(rows).to_multiset().count(row) > 0);
    assert(ordered(rows).contains(row));
    let n = choose|n: int| 0 <= n < ordered(rows).len() && ordered(rows)[n] == row;
    assert(library_of(found, ftw_dir, home)[n] == m);
}

/// Two builds in one directory are two checkpoints.
pub proof fn law_two_builds_in_one_directory_are_two(a: Model, b: Model)
    requires
        a.path@ == b.path@,
        opt_text(a.variant) != opt_text(b.variant),
    ensures
        model_key(a) != model_key(b),
{
    reveal_strlit("");
    reveal_strlit("\u{1}");
    let pre = path_key(a.path@) + "\0"@;
    let (x, y) = (model_key(a), model_key(b));
    let tail = |m: Model| match m.variant {
        Some(v) => "\u{1}"@ + v@,
        None => ""@,
    };
    if x == y {
        assert(x.skip(pre.len() as int) =~= tail(a));
        assert(y.skip(pre.len() as int) =~= tail(b));
        match (a.variant, b.variant) {
            (Some(v), Some(w)) => {
                assert(("\u{1}"@ + v@).skip(1) =~= v@);
                assert(("\u{1}"@ + w@).skip(1) =~= w@);
            },
            _ => {},
        }
    }
}

} // verus!
