//! Cheap checks that run FreeToken's own code before committing to a long job.
//!
//! Both the checkpoint conversion and a chat template can fail in ways no amount of
//! inspecting files from the outside would predict: the authority on whether FreeToken
//! can read a checkpoint is FreeToken. Asking it costs one Python subprocess and a few
//! seconds, against a conversion that otherwise runs for minutes and writes tens of
//! gigabytes before raising.

use vstd::prelude::*;
use vstd::string::*;
use crate::ft::locate::{extend_texts, Freetoken, FreetokenView};
use crate::paths::{join as join_path, joined_path, parent, parent_of};
use crate::text::{
    cat2, lemma_texts_push, lines, lines_of, opt_text, same, starts_with, strip_prefix, texts,
    trim, trimmed,
};

verus! {

/// How a check turned out. Three outcomes rather than two, because "it works but not
/// completely" is a real and common answer that a boolean would have to round the wrong
/// way.
#[derive(Debug, Clone, PartialEq)]
pub enum Outcome {
    /// Nothing in the way.
    Clean(String),
    /// Usable, with a caveat worth reading before continuing.
    Warn(String),
    Fail(String),
}

pub enum OutcomeView {
    Clean(Seq<char>),
    Warn(Seq<char>),
    Fail(Seq<char>),
}

impl View for Outcome {
    type V = OutcomeView;

    open spec fn view(&self) -> OutcomeView {
        match self {
            Outcome::Clean(d) => OutcomeView::Clean(d@),
            Outcome::Warn(d) => OutcomeView::Warn(d@),
            Outcome::Fail(d) => OutcomeView::Fail(d@),
        }
    }
}

impl OutcomeView {
    pub open spec fn detail(self) -> Seq<char> {
        match self {
            OutcomeView::Clean(d) => d,
            OutcomeView::Warn(d) => d,
            OutcomeView::Fail(d) => d,
        }
    }
}

/// The verdict that a line of a check's output gives. Anything unrecognized is a failure,
/// never a silent pass.
pub open spec fn outcome_of(line: Seq<char>) -> OutcomeView {
    let l = trimmed(line);
    if "OK "@.is_prefix_of(l) {
        OutcomeView::Clean(l.skip("OK "@.len() as int))
    } else if "WARN "@.is_prefix_of(l) {
        OutcomeView::Warn(l.skip("WARN "@.len() as int))
    } else if "FAIL "@.is_prefix_of(l) {
        OutcomeView::Fail(l.skip("FAIL "@.len() as int))
    } else if l.len() == 0 {
        OutcomeView::Fail("the check produced no output"@)
    } else {
        OutcomeView::Fail(l)
    }
}

impl Outcome {
    pub fn detail(&self) -> (r: &str)
        ensures
            r@ == self@.detail(),
    {
        match self {
            Outcome::Clean(d) => d.as_str(),
            Outcome::Warn(d) => d.as_str(),
            Outcome::Fail(d) => d.as_str(),
        }
    }

    pub fn is_fail(&self) -> (r: bool)
        ensures
            r == (self@ is Fail),
    {
        matches!(self, Outcome::Fail(_))
    }

    pub fn is_clean(&self) -> (r: bool)
        ensures
            r == (self@ is Clean),
    {
        matches!(self, Outcome::Clean(_))
    }

    /// Parse a script's last output line.
    pub fn parse(line: &str) -> (r: Self)
        ensures
            r@ == outcome_of(line@),
    {
        let l = trim(line);
        if let Some(d) = strip_prefix(l.as_str(), "OK ") {
            Outcome::Clean(d)
        } else if let Some(d) = strip_prefix(l.as_str(), "WARN ") {
            Outcome::Warn(d)
        } else if let Some(d) = strip_prefix(l.as_str(), "FAIL ") {
            Outcome::Fail(d)
        } else if l.as_str().is_empty() {
            Outcome::Fail("the check produced no output".to_owned())
        } else {
            // Anything unrecognized is a failure, never a silent pass.
            Outcome::Fail(l)
        }
    }
}

// ---------------------------------------------------------------- commands

/// The CLI is an interpreter that runs the module.
pub open spec fn is_python_form(ft: FreetokenView) -> bool {
    ft.prefix.len() > 0 && ft.prefix[0] == "-m"@
}

/// The interpreter that stands beside a bare binary.
pub open spec fn beside(ft: FreetokenView) -> Option<Seq<char>> {
    match parent_of(ft.program) {
        Some(dir) => Some(joined_path(dir, "python"@)),
        None => None,
    }
}

/// The interpreter that can import `freetoken`.
pub open spec fn python_of(ft: FreetokenView, beside_is_executable: bool) -> Option<Seq<char>> {
    if is_python_form(ft) {
        Some(ft.program)
    } else if beside_is_executable {
        beside(ft)
    } else {
        None
    }
}

/// The interpreter to look for beside a bare binary; `None` when the CLI brings its own.
pub fn python_beside(ft: &Freetoken) -> (r: Option<String>)
    ensures
        opt_text(r) == (if is_python_form(ft@) {
            None
        } else {
            beside(ft@)
        }),
{
    if python_form(ft) {
        return None;
    }
    match parent(ft.program.as_str()) {
        Some(dir) => Some(join_path(dir.as_str(), "python")),
        None => None,
    }
}

fn python_form(ft: &Freetoken) -> (r: bool)
    ensures
        r == is_python_form(ft@),
{
    assert(texts(ft.prefix@).len() == ft.prefix.len());
    if ft.prefix.len() == 0 {
        return false;
    }
    assert(texts(ft.prefix@)[0] == ft.prefix@[0]@);
    same(ft.prefix[0].as_str(), "-m")
}

/// The Python interpreter that can import `freetoken`, given a resolved CLI and whether the
/// interpreter beside it is executable.
pub fn python_for(ft: &Freetoken, beside_is_executable: bool) -> (r: Option<String>)
    ensures
        opt_text(r) == python_of(ft@, beside_is_executable),
{
    if python_form(ft) {
        return Some(ft.program.clone());
    }
    if beside_is_executable {
        python_beside(ft)
    } else {
        None
    }
}

/// The argv of a check.
pub open spec fn command_of(
    python: Option<Seq<char>>,
    script: Seq<char>,
    args: Seq<Seq<char>>,
) -> Option<Seq<Seq<char>>> {
    match python {
        Some(p) => Some(seq![p, "-c"@, script] + args),
        None => None,
    }
}

pub open spec fn opt_texts(o: Option<Vec<String>>) -> Option<Seq<Seq<char>>> {
    match o {
        Some(v) => Some(texts(v@)),
        None => None,
    }
}

/// Build the argv for a check. `None` when there is no interpreter to run it with.
fn command(python: Option<String>, script: &str, args: &Vec<String>) -> (r: Option<Vec<String>>)
    ensures
        opt_texts(r) == command_of(opt_text(python), script@, texts(args@)),
{
    match python {
        None => None,
        Some(p) => {
            let mut argv: Vec<String> = vec![p, "-c".to_owned(), script.to_owned()];
            assert(texts(argv@) =~= seq![p@, "-c"@, script@]);
            extend_texts(&mut argv, args);
            Some(argv)
        },
    }
}

/// Ask FreeToken what it makes of a checkpoint, before converting it.
pub fn convert_command(
    ft: &Freetoken,
    beside_is_executable: bool,
    model_dir: &str,
    moe_strategy: &str,
) -> (r: Option<Vec<String>>)
    ensures
        opt_texts(r) == command_of(
            python_of(ft@, beside_is_executable),
            CONVERT_SCRIPT@,
            seq![model_dir@, moe_strategy@],
        ),
{
    let args: Vec<String> = vec![model_dir.to_owned(), moe_strategy.to_owned()];
    assert(texts(args@) =~= seq![model_dir@, moe_strategy@]);
    command(python_for(ft, beside_is_executable), CONVERT_SCRIPT, &args)
}

/// List the model architectures FreeToken can load. Needs no checkpoint at all: the
/// registry is a static map keyed by architecture name.
pub fn architectures_command(ft: &Freetoken, beside_is_executable: bool) -> (r: Option<
    Vec<String>,
>)
    ensures
        opt_texts(r) == command_of(
            python_of(ft@, beside_is_executable),
            ARCHITECTURES_SCRIPT@,
            Seq::empty(),
        ),
{
    let args: Vec<String> = Vec::new();
    assert(texts(args@) =~= Seq::<Seq<char>>::empty());
    command(python_for(ft, beside_is_executable), ARCHITECTURES_SCRIPT, &args)
}

/// Render a candidate chat template against a checkpoint's real tokenizer.
pub fn template_command(
    ft: &Freetoken,
    beside_is_executable: bool,
    model_dir: &str,
    jinja: &str,
) -> (r: Option<Vec<String>>)
    ensures
        opt_texts(r) == command_of(
            python_of(ft@, beside_is_executable),
            TEMPLATE_SCRIPT@,
            seq![model_dir@, jinja@],
        ),
{
    let args: Vec<String> = vec![model_dir.to_owned(), jinja.to_owned()];
    assert(texts(args@) =~= seq![model_dir@, jinja@]);
    command(python_for(ft, beside_is_executable), TEMPLATE_SCRIPT, &args)
}

// ---------------------------------------------------------------- verdicts

/// The last line that is not blank.
pub open spec fn last_said(l: Seq<Seq<char>>) -> Option<Seq<char>>
    decreases l.len(),
{
    if l.len() == 0 {
        None
    } else if trimmed(l.last()).len() > 0 {
        Some(l.last())
    } else {
        last_said(l.drop_last())
    }
}

pub fn last_line_said(text: &str) -> (r: Option<String>)
    ensures
        opt_text(r) == last_said(lines_of(text@)),
{
    let l = lines(text);
    let ghost all = lines_of(text@);
    let mut n: usize = l.len();
    assert(all.take(all.len() as int) =~= all);
    assert(texts(l@).len() == l.len());
    while n > 0
        invariant
            n <= l.len(),
            all == lines_of(text@),
            texts(l@) == all,
            last_said(all) == last_said(all.take(n as int)),
        decreases n,
    {
        assert(all.take(n as int).last() == l@[n - 1]@);
        assert(all.take(n as int).drop_last() =~= all.take(n - 1));
        if !trim(l[n - 1].as_str()).as_str().is_empty() {
            return Some(l[n - 1].clone());
        }
        n = n - 1;
    }
    None
}

/// The verdict on a check that ran: the last thing it printed, or, where it printed nothing
/// at all, the last thing on its error stream, because then the interpreter itself failed.
pub open spec fn verdict_of(stdout: Seq<char>, stderr: Seq<char>) -> OutcomeView {
    match last_said(lines_of(stdout)) {
        Some(line) => outcome_of(line),
        None => OutcomeView::Fail(
            trimmed(
                match last_said(lines_of(stderr)) {
                    Some(line) => line,
                    None => "the check produced no output"@,
                },
            ),
        ),
    }
}

/// Read the verdict of a check that ran.
pub fn verdict(stdout: &str, stderr: &str) -> (r: Outcome)
    ensures
        r@ == verdict_of(stdout@, stderr@),
{
    match last_line_said(stdout) {
        Some(line) => Outcome::parse(line.as_str()),
        None => match last_line_said(stderr) {
            Some(line) => Outcome::Fail(trim(line.as_str())),
            None => Outcome::Fail(trim("the check produced no output")),
        },
    }
}

/// The verdict on a check that could not be run.
pub fn not_run(why: &str) -> (r: Outcome)
    ensures
        r@ == OutcomeView::Fail("could not run the check: "@ + why@),
{
    Outcome::Fail(cat2("could not run the check: ", why))
}

/// The lines that say something, without the spaces around them.
pub open spec fn said(l: Seq<Seq<char>>) -> Seq<Seq<char>>
    decreases l.len(),
{
    if l.len() == 0 {
        Seq::empty()
    } else if trimmed(l.last()).len() > 0 {
        said(l.drop_last()).push(trimmed(l.last()))
    } else {
        said(l.drop_last())
    }
}

/// What a listing of architectures says: the verdict line comes first, then one name per
/// line.
pub open spec fn listing_of(stdout: Seq<char>) -> Result<Seq<Seq<char>>, Seq<char>> {
    let l = said(lines_of(stdout));
    let first = if l.len() > 0 {
        l[0]
    } else {
        ""@
    };
    if !"OK "@.is_prefix_of(first) {
        Err(outcome_of(first).detail())
    } else if l.len() == 1 {
        Err("the registry listing was empty"@)
    } else {
        Ok(l.drop_first())
    }
}

/// Parse the architecture listing. The verdict line comes first, then one name per line.
pub fn parse_architectures(stdout: &str) -> (r: Result<Vec<String>, String>)
    ensures
        (match r {
            Ok(v) => Ok(texts(v@)),
            Err(e) => Err(e@),
        }) == listing_of(stdout@),
{
    let raw = lines(stdout);
    let ghost all = lines_of(stdout@);
    let mut kept: Vec<String> = Vec::new();
    let mut i: usize = 0;
    assert(all.take(0) =~= Seq::<Seq<char>>::empty());
    assert(texts(kept@) =~= Seq::<Seq<char>>::empty());
    while i < raw.len()
        invariant
            i <= raw.len(),
            texts(raw@) == all,
            texts(kept@) == said(all.take(i as int)),
        decreases raw.len() - i,
    {
        assert(all.take(i + 1).drop_last() =~= all.take(i as int));
        assert(all.take(i + 1).last() == raw@[i as int]@);
        let t = trim(raw[i].as_str());
        if !t.as_str().is_empty() {
            proof {
                lemma_texts_push(kept@, t);
            }
            kept.push(t);
        }
        i = i + 1;
    }
    assert(all.take(i as int) =~= all);
    assert(texts(kept@).len() == kept.len());
    let first: &str = if kept.len() > 0 {
        assert(texts(kept@)[0] == kept@[0]@);
        kept[0].as_str()
    } else {
        ""
    };
    if !starts_with(first, "OK ") {
        return Err(Outcome::parse(first).detail().to_owned());
    }
    proof {
        reveal_strlit("OK ");
        reveal_strlit("");
        assert(kept.len() > 0);
    }
    if kept.len() == 1 {
        return Err("the registry listing was empty".to_owned());
    }
    let names = kept.split_off(1);
    assert(texts(names@) =~= said(all).drop_first());
    Ok(names)
}

// ---------------------------------------------------------------- scripts

/// Resolves the checkpoint through FreeToken's own `EngineConfig` and compares what it
/// concluded against what the checkpoint declares.
///
/// The mismatch worth catching: a checkpoint that declares a quantization which FreeToken
/// then resolves to `expert_quant=none`. What reaches it is a config wrong on its own terms,
/// such as a modelopt `MIXED_PRECISION` allow-list with no entry covering `.mlp.experts`.
/// Cheap to ask, and the alternative is finding out minutes into a conversion.
pub const CONVERT_SCRIPT: &'static str = r#"
import sys, json, os
model_dir = sys.argv[1]
moe_strategy = sys.argv[2] if len(sys.argv) > 2 else "offload"

def declared_quant(path):
    """What the checkpoint says about itself, wherever the key happens to live."""
    try:
        with open(os.path.join(path, "config.json"), encoding="utf-8") as f:
            raw = json.load(f)
    except Exception:
        return None
    for holder in (raw, raw.get("text_config") or {}):
        q = holder.get("quantization_config") or {}
        value = q.get("format") or q.get("quant_algo") or q.get("quant_method")
        if value:
            return str(value)
    return None

def run():
    import torch
    from freetoken.engine.config import EngineConfig
    from freetoken.distributed import DistributedInfo, set_tp_info, try_get_tp_info
    if try_get_tp_info() is None:
        set_tp_info(rank=0, size=1)
    cfg = EngineConfig(model_path=model_dir, tp_info=DistributedInfo(0, 1),
                       dtype=torch.bfloat16, moe_strategy=moe_strategy)
    mc = cfg.model_config
    is_moe = bool(getattr(mc, "is_moe", False))
    experts = int(getattr(mc, "num_experts", 0) or 0)
    layers = int(getattr(mc, "num_moe_layers", 0) or 0)
    quant = str(getattr(mc, "expert_quant", "none") or "none")
    arch = (getattr(mc, "architectures", None) or ["?"])[0]

    if is_moe:
        summary = "%s: MoE, %d experts x %d layers, expert_quant=%s" % (
            arch, experts, layers, quant)
    else:
        summary = "%s: dense" % arch

    declared = declared_quant(model_dir)
    if is_moe and quant == "none" and declared:
        return ("WARN the checkpoint declares %s but FreeToken resolved its experts as "
                "unquantized (expert_quant=none). If the expert tensors really are "
                "quantized, the loader rejects the checkpoint for disagreeing with its "
                "own quant config. %s" % (declared, summary))
    if is_moe and experts == 0:
        return "WARN %s -- no experts resolved; the expert pass has nothing to pack" % summary
    return "OK " + summary

try:
    line = run()
except Exception as exc:
    line = "FAIL %s: %s" % (type(exc).__name__, exc)
print(line)
sys.exit(1 if line.startswith("FAIL") else 0)
"#;

/// Prints FreeToken's registered architectures, one per line, after an `OK` count.
pub const ARCHITECTURES_SCRIPT: &'static str = r#"
import sys
try:
    from freetoken.models.register import _MODEL_REGISTRY as registry
    names = sorted(registry)
    if not names:
        raise RuntimeError("the model registry is empty")
    print("OK %d" % len(names))
    for name in names:
        print(name)
except Exception as exc:
    print("FAIL %s: %s" % (type(exc).__name__, exc))
    sys.exit(1)
"#;

/// Renders a conversation through a candidate template and prints its verdict.
///
/// The shapes are tried in order of coverage because templates disagree about tool
/// calls: some want `function.arguments` as a mapping and raise on a JSON string, others
/// want the string. Probing only one shape reports a perfectly good template as broken.
pub const TEMPLATE_SCRIPT: &'static str = r#"
import sys, json
model_dir, jinja_path = sys.argv[1], sys.argv[2]

def run():
    from transformers import AutoTokenizer
    tok = AutoTokenizer.from_pretrained(model_dir)
    with open(jinja_path, encoding="utf-8") as f:
        tok.chat_template = f.read()

    tools = [{"type": "function", "function": {
        "name": "get_weather", "description": "Current weather for a city",
        "parameters": {"type": "object", "properties": {"city": {"type": "string"}},
                       "required": ["city"]}}}]
    base = [
        {"role": "system", "content": "You are a helpful assistant."},
        {"role": "user", "content": "What is the weather in Paris?"},
    ]
    def with_call(args):
        return base + [
            {"role": "assistant", "content": "", "tool_calls": [
                {"type": "function",
                 "function": {"name": "get_weather", "arguments": args}}]},
            {"role": "tool", "name": "get_weather", "content": "18C, clear"},
            {"role": "assistant", "content": "It is 18C and clear in Paris."},
            {"role": "user", "content": "And tomorrow?"},
        ]

    attempts = [
        ("tool calls", with_call({"city": "Paris"}), {"tools": tools}),
        ("tool calls", with_call(json.dumps({"city": "Paris"})), {"tools": tools}),
        ("tools listed", base, {"tools": tools}),
        ("plain chat", base, {}),
    ]

    errors = []
    for label, messages, kwargs in attempts:
        try:
            text = tok.apply_chat_template(
                messages, tokenize=False, add_generation_prompt=True, **kwargs)
        except Exception as exc:
            errors.append("%s: %s: %s" % (label, type(exc).__name__, exc))
            continue
        if not text or not text.strip():
            errors.append("%s: rendered an empty prompt" % label)
            continue
        detail = "%d chars, %d tokens (%s)" % (
            len(text), len(tok(text)["input_ids"]), label)
        if label == "tool calls":
            return "OK " + detail
        return "WARN %s; the tool-call form did not render -- %s" % (
            detail, errors[0] if errors else "unknown")
    return "FAIL " + (errors[-1] if errors else "nothing rendered")

try:
    line = run()
except Exception as exc:
    line = "FAIL %s: %s" % (type(exc).__name__, exc)
print(line)
sys.exit(1 if line.startswith("FAIL") else 0)
"#;

// ---------------------------------------------------------------- laws

/// A check that prints nothing recognizable never passes.
pub proof fn law_only_an_ok_line_is_clean(stdout: Seq<char>, stderr: Seq<char>)
    ensures
        verdict_of(stdout, stderr) is Clean ==> last_said(lines_of(stdout)) is Some && "OK "@.is_prefix_of(
            trimmed(last_said(lines_of(stdout))->0),
        ),
{
}

} // verus!
