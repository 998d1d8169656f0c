//! The `--doctor` report: everything paddock resolved, so a misconfigured install can be
//! diagnosed without entering the UI.

use vstd::prelude::*;
use vstd::string::*;
use crate::actions::push_line;
use crate::config::{HubToken, ServerCfg};
use crate::ft::locate::Freetoken;
use crate::ft::proc::ServeState;
use crate::models::{Format, Model};
use crate::paths::{same_path, same_place};
use crate::probe::Gpu;
use crate::text::{cat2, cat3, cat4, chars_of, dec, decimal, texts};
use crate::util::{bytes, bytes_text};

verus! {

/// How many checkpoints the report names.
pub const SHOWN: usize = 20;

/// What the report is made of.
pub struct Facts {
    pub version: String,
    pub config_file: String,
    pub profiles: String,
    pub state: String,
    pub logs: String,
    pub ft: Result<Freetoken, String>,
    /// What the CLI says its version is.
    pub ft_version: Option<String>,
    pub server: ServerCfg,
    pub hf_cli: Result<String, String>,
    /// The directories scanned for checkpoints, and whether each is there.
    pub roots: Vec<(String, bool)>,
    /// The Hugging Face cache.
    pub cache: String,
    pub ftw_dir: String,
    pub models: Vec<Model>,
    pub endpoint: String,
    pub token: Option<HubToken>,
    pub token_path: String,
    pub gpu_source: String,
    pub nvml_error: Option<String>,
    pub gpus: Vec<Gpu>,
    /// The bandwidth profile that was found.
    pub bench: Option<String>,
    /// The recorded engine, and whether it still runs.
    pub serve: Option<(ServeState, bool)>,
}

// ---------------------------------------------------------------- columns

pub open spec fn blanks(n: nat) -> Seq<char> {
    Seq::new(n, |i: int| ' ')
}

/// `s` at the left of a column of `width` characters.
pub open spec fn at_left(s: Seq<char>, width: nat) -> Seq<char> {
    if s.len() < width {
        s + blanks((width - s.len()) as nat)
    } else {
        s
    }
}

/// `s` at the right of a column of `width` characters.
pub open spec fn at_right(s: Seq<char>, width: nat) -> Seq<char> {
    if s.len() < width {
        blanks((width - s.len()) as nat) + s
    } else {
        s
    }
}

fn spaces(n: usize) -> (r: String)
    ensures
        r@ == blanks(n as nat),
{
    let mut s = String::new();
    let mut i: usize = 0;
    assert(s@ =~= blanks(0));
    while i < n
        invariant
            i <= n,
            s@ == blanks(i as nat),
        decreases n - i,
    {
        s.push(' ');
        assert(s@ =~= blanks((i + 1) as nat));
        i = i + 1;
    }
    s
}

fn gap(s: &str, width: usize) -> (r: String)
    ensures
        r@ == blanks(
            if s@.len() < width {
                (width - s@.len()) as nat
            } else {
                0
            },
        ),
{
    let n: usize = chars_of(s).len();
    if n < width {
        spaces(width - n)
    } else {
        spaces(0)
    }
}

fn left(s: &str, width: usize) -> (r: String)
    ensures
        r@ == at_left(s@, width as nat),
{
    let r = cat2(s, gap(s, width).as_str());
    assert(r@ =~= at_left(s@, width as nat));
    r
}

fn right(s: &str, width: usize) -> (r: String)
    ensures
        r@ == at_right(s@, width as nat),
{
    let r = cat2(gap(s, width).as_str(), s);
    assert(r@ =~= at_right(s@, width as nat));
    r
}

// ---------------------------------------------------------------- sections

pub open spec fn files_section(f: Facts) -> Seq<Seq<char>> {
    seq![
        "paddock "@ + f.version@,
        ""@,
        "config file    "@ + f.config_file@,
        "profiles       "@ + f.profiles@,
        "state          "@ + f.state@,
        "logs           "@ + f.logs@,
        ""@,
    ]
}

pub open spec fn cli_section(f: Facts) -> Seq<Seq<char>> {
    match f.ft {
        Ok(found) => seq![
            "FreeToken CLI  "@ + found.program@,
            "  found via    "@ + found.origin@,
            match f.ft_version {
                Some(v) => "  version      "@ + v@,
                None => "  version      (could not run --version)"@,
            },
            ""@,
        ],
        Err(e) => seq!["FreeToken CLI  NOT FOUND"@, "  "@ + e@, ""@],
    }
}

pub open spec fn server_section(f: Facts) -> Seq<Seq<char>> {
    seq![
        "server         http://"@ + crate::config::reachable(f.server.host@) + ":"@ + dec(
            f.server.port as nat,
        ),
    ] + (match f.hf_cli {
        Ok(path) => seq!["hf CLI        "@ + path@],
        Err(e) => seq!["hf CLI        NOT FOUND"@, "  "@ + e@],
    }) + seq![""@, "model roots"@]
}

pub open spec fn root_line(root: (String, bool), cache: Seq<char>) -> Seq<char> {
    "  "@ + root.0@ + (if same_place(root.0@, cache) {
        // Worth naming: it is added implicitly, so a user who never configured it should
        // still be told this is where their `hf`-downloaded weights are being read from.
        "  (Hugging Face cache)"@
    } else {
        ""@
    }) + (if root.1 {
        ""@
    } else {
        "  (missing)"@
    })
}

pub open spec fn root_lines(roots: Seq<(String, bool)>, cache: Seq<char>) -> Seq<Seq<char>> {
    Seq::new(roots.len(), |i: int| root_line(roots[i], cache))
}

pub open spec fn format_label(f: Format) -> Seq<char> {
    match f {
        Format::Hf => "HF"@,
        Format::Ftw => "FTW"@,
        Format::Gguf => "GGUF"@,
        Format::PartialFtw => "PART"@,
    }
}

pub open spec fn model_line(m: Model) -> Seq<char> {
    "    "@ + at_left(format_label(m.format), 5) + " "@ + at_right(
        bytes_text(m.size_bytes as nat),
        10,
    ) + "  "@ + m.name@
}

/// How many of `n` checkpoints are named.
pub open spec fn named(n: nat) -> nat {
    if n <= SHOWN {
        n
    } else {
        SHOWN as nat
    }
}

pub open spec fn model_lines(models: Seq<Model>) -> Seq<Seq<char>> {
    Seq::new(named(models.len()), |i: int| model_line(models[i]))
}

pub open spec fn library_section(f: Facts) -> Seq<Seq<char>> {
    let n = f.models@.len();
    seq!["  FTW builds  "@ + f.ftw_dir@, "  "@ + dec(n) + " checkpoint(s) found"@] + model_lines(
        f.models@,
    ) + (if n > SHOWN {
        seq!["    … and "@ + dec((n - SHOWN) as nat) + " more"@]
    } else {
        Seq::empty()
    }) + seq![""@]
}

pub open spec fn hub_section(f: Facts) -> Seq<Seq<char>> {
    seq![
        "Hugging Face   "@ + f.endpoint@,
        match f.token {
            Some(t) => "  token        found via "@ + t.source@,
            None =>
                "  token        NOT FOUND (checked HF_TOKEN, HUGGING_FACE_HUB_TOKEN, hub.token in the config, and "@
                + f.token_path@ + ")"@,
        },
        "GPU source     "@ + f.gpu_source@,
    ] + (match f.nvml_error {
        Some(e) => seq!["  NVML         "@ + e@],
        None => Seq::empty(),
    })
}

pub open spec fn gpu_line(g: Gpu) -> Seq<char> {
    "  ["@ + dec(g.index as nat) + "] "@ + g.name@ + "  "@ + bytes_text(g.memory_used as nat)
        + " / "@ + bytes_text(g.memory_total as nat) + "  "@ + g.uuid@
}

pub open spec fn gpu_lines(gpus: Seq<Gpu>) -> Seq<Seq<char>> {
    Seq::new(gpus.len(), |i: int| gpu_line(gpus[i]))
}

/// Without a bandwidth profile `--moe-strategy auto` can only ever resolve to offload
/// and `--moe-hybrid-max-fetch auto` falls back to a fixed cap of 1: a speed ceiling
/// with no symptom, so it is worth naming rather than leaving to be discovered.
pub open spec fn bench_section(f: Facts) -> Seq<Seq<char>> {
    match f.bench {
        Some(path) => seq![""@, "bench profile  "@ + path@],
        None => seq![
            ""@,
            "bench profile  NOT FOUND"@,
            "  `ft bench bw --dtype all` measures CPU vs PCIe bandwidth for this card. Until it has run,"@,
            "  --moe-strategy auto cannot select hybrid and --moe-hybrid-max-fetch auto uses a fixed cap of 1."@,
        ],
    }
}

pub open spec fn serve_section(f: Facts) -> Seq<Seq<char>> {
    match f.serve {
        Some((s, alive)) => seq![
            ""@,
            "recorded serve pid "@ + dec(s.pid as nat) + " — "@ + (if alive {
                "running"@
            } else {
                "stale (will be cleared)"@
            }),
            "  model        "@ + s.model@,
            "  log          "@ + s.log_path@,
        ],
        None => Seq::empty(),
    }
}

/// The lines of the report.
pub open spec fn report_of(f: Facts) -> Seq<Seq<char>> {
    files_section(f) + cli_section(f) + server_section(f) + root_lines(f.roots@, f.cache@)
        + library_section(f) + hub_section(f) + gpu_lines(f.gpus@) + bench_section(f)
        + serve_section(f)
}

fn push_files(out: &mut Vec<String>, f: &Facts)
    ensures
        texts(final(out)@) == texts(old(out)@) + files_section(*f),
{
    let ghost before = texts(out@);
    push_line(out, cat2("paddock ", f.version.as_str()).as_str());
    push_line(out, "");
    push_line(out, cat2("config file    ", f.config_file.as_str()).as_str());
    push_line(out, cat2("profiles       ", f.profiles.as_str()).as_str());
    push_line(out, cat2("state          ", f.state.as_str()).as_str());
    push_line(out, cat2("logs           ", f.logs.as_str()).as_str());
    push_line(out, "");
    assert(texts(out@) =~= before + files_section(*f));
}

fn push_cli(out: &mut Vec<String>, f: &Facts)
    ensures
        texts(final(out)@) == texts(old(out)@) + cli_section(*f),
{
    let ghost before = texts(out@);
    match &f.ft {
        Ok(found) => {
            push_line(out, cat2("FreeToken CLI  ", found.program.as_str()).as_str());
            push_line(out, cat2("  found via    ", found.origin.as_str()).as_str());
            match &f.ft_version {
                Some(v) => {
                    push_line(out, cat2("  version      ", v.as_str()).as_str());
                },
                None => {
                    push_line(out, "  version      (could not run --version)");
                },
            }
        },
        Err(e) => {
            push_line(out, "FreeToken CLI  NOT FOUND");
            push_line(out, cat2("  ", e.as_str()).as_str());
        },
    }
    push_line(out, "");
    assert(texts(out@) =~= before + cli_section(*f));
}

fn push_server(out: &mut Vec<String>, f: &Facts)
    ensures
        texts(final(out)@) == texts(old(out)@) + server_section(*f),
{
    let ghost before = texts(out@);
    let line = {
        let mut s = "server         http://".to_owned();
        s.append(crate::config::poll_host(f.server.host.as_str()).as_str());
        s.append(":");
        s.append(decimal(f.server.port as u64).as_str());
        s
    };
    push_line(out, line.as_str());
    match &f.hf_cli {
        Ok(path) => {
            push_line(out, cat2("hf CLI        ", path.as_str()).as_str());
        },
        Err(e) => {
            push_line(out, "hf CLI        NOT FOUND");
            push_line(out, cat2("  ", e.as_str()).as_str());
        },
    }
    push_line(out, "");
    push_line(out, "model roots");
    assert(texts(out@) =~= before + server_section(*f));
}

fn push_roots(out: &mut Vec<String>, f: &Facts)
    ensures
        texts(final(out)@) == texts(old(out)@) + root_lines(f.roots@, f.cache@),
{
    let ghost before = texts(out@);
    let ghost all = root_lines(f.roots@, f.cache@);
    let mut i: usize = 0;
    assert(before + all.take(0) =~= before);
    while i < f.roots.len()
        invariant
            i <= f.roots.len(),
            all == root_lines(f.roots@, f.cache@),
            texts(out@) == before + all.take(i as int),
        decreases f.roots.len() - i,
    {
        let root = &f.roots[i];
        let note = if same_path(root.0.as_str(), f.cache.as_str()) {
            "  (Hugging Face cache)"
        } else {
            ""
        };
        let missing = if root.1 {
            ""
        } else {
            "  (missing)"
        };
        push_line(out, cat4("  ", root.0.as_str(), note, missing).as_str());
        assert(all.take(i + 1) =~= all.take(i as int).push(all[i as int]));
        assert(texts(out@) =~= before + all.take(i + 1));
        i = i + 1;
    }
    assert(all.take(i as int) =~= all);
}

fn line_of(m: &Model) -> (r: String)
    ensures
        r@ == model_line(*m),
{
    let mut s = "    ".to_owned();
    s.append(left(m.format.label(), 5).as_str());
    s.append(" ");
    s.append(right(bytes(m.size_bytes).as_str(), 10).as_str());
    s.append("  ");
    s.append(m.name.as_str());
    s
}

fn push_models(out: &mut Vec<String>, models: &Vec<Model>)
    ensures
        texts(final(out)@) == texts(old(out)@) + model_lines(models@),
{
    let ghost before = texts(out@);
    let ghost all = model_lines(models@);
    let n: usize = if models.len() <= SHOWN {
        models.len()
    } else {
        SHOWN
    };
    let mut i: usize = 0;
    assert(before + all.take(0) =~= before);
    while i < n
        invariant
            i <= n,
            n == named(models@.len()),
            n <= models@.len(),
            all == model_lines(models@),
            texts(out@) == before + all.take(i as int),
        decreases n - i,
    {
        push_line(out, line_of(&models[i]).as_str());
        assert(all.take(i + 1) =~= all.take(i as int).push(all[i as int]));
        assert(texts(out@) =~= before + all.take(i + 1));
        i = i + 1;
    }
    assert(all.take(i as int) =~= all);
}

fn push_library(out: &mut Vec<String>, f: &Facts)
    ensures
        texts(final(out)@) == texts(old(out)@) + library_section(*f),
{
    let ghost before = texts(out@);
    let n: usize = f.models.len();
    push_line(out, cat2("  FTW builds  ", f.ftw_dir.as_str()).as_str());
    push_line(out, cat3("  ", decimal(n as u64).as_str(), " checkpoint(s) found").as_str());
    let ghost head = seq![
        "  FTW builds  "@ + f.ftw_dir@,
        "  "@ + dec(n as nat) + " checkpoint(s) found"@,
    ];
    assert(texts(out@) =~= before + head);
    push_models(out, &f.models);
    if n > SHOWN {
        push_line(out, cat3("    … and ", decimal((n - SHOWN) as u64).as_str(), " more").as_str());
    }
    push_line(out, "");
    assert(texts(out@) =~= before + library_section(*f));
}

fn push_hub(out: &mut Vec<String>, f: &Facts)
    ensures
        texts(final(out)@) == texts(old(out)@) + hub_section(*f),
{
    let ghost before = texts(out@);
    push_line(out, cat2("Hugging Face   ", f.endpoint.as_str()).as_str());
    match &f.token {
        Some(t) => {
            push_line(out, cat2("  token        found via ", t.source).as_str());
        },
        None => {
            push_line(
                out,
                cat3(
                    "  token        NOT FOUND (checked HF_TOKEN, HUGGING_FACE_HUB_TOKEN, hub.token in the config, and ",
                    f.token_path.as_str(),
                    ")",
                ).as_str(),
            );
        },
    }
    push_line(out, cat2("GPU source     ", f.gpu_source.as_str()).as_str());
    if let Some(e) = &f.nvml_error {
        push_line(out, cat2("  NVML         ", e.as_str()).as_str());
    }
    assert(texts(out@) =~= before + hub_section(*f));
}

fn line_of_gpu(g: &Gpu) -> (r: String)
    ensures
        r@ == gpu_line(*g),
{
    let mut s = "  [".to_owned();
    s.append(decimal(g.index as u64).as_str());
    s.append("] ");
    s.append(g.name.as_str());
    s.append("  ");
    s.append(bytes(g.memory_used).as_str());
    s.append(" / ");
    s.append(bytes(g.memory_total).as_str());
    s.append("  ");
    s.append(g.uuid.as_str());
    s
}

fn push_gpus(out: &mut Vec<String>, gpus: &Vec<Gpu>)
    ensures
        texts(final(out)@) == texts(old(out)@) + gpu_lines(gpus@),
{
    let ghost before = texts(out@);
    let ghost all = gpu_lines(gpus@);
    let mut i: usize = 0;
    assert(before + all.take(0) =~= before);
    while i < gpus.len()
        invariant
            i <= gpus.len(),
            all == gpu_lines(gpus@),
            texts(out@) == before + all.take(i as int),
        decreases gpus.len() - i,
    {
        push_line(out, line_of_gpu(&gpus[i]).as_str());
        assert(all.take(i + 1) =~= all.take(i as int).push(all[i as int]));
        assert(texts(out@) =~= before + all.take(i + 1));
        i = i + 1;
    }
    assert(all.take(i as int) =~= all);
}

fn push_bench(out: &mut Vec<String>, f: &Facts)
    ensures
        texts(final(out)@) == texts(old(out)@) + bench_section(*f),
{
    let ghost before = texts(out@);
    push_line(out, "");
    match &f.bench {
        Some(path) => {
            push_line(out, cat2("bench profile  ", path.as_str()).as_str());
        },
        None => {
            push_line(out, "bench profile  NOT FOUND");
            push_line(
                out,
                "  `ft bench bw --dtype all` measures CPU vs PCIe bandwidth for this card. Until it has run,",
            );
            push_line(
                out,
                "  --moe-strategy auto cannot select hybrid and --moe-hybrid-max-fetch auto uses a fixed cap of 1.",
            );
        },
    }
    assert(texts(out@) =~= before + bench_section(*f));
}

fn push_serve(out: &mut Vec<String>, f: &Facts)
    ensures
        texts(final(out)@) == texts(old(out)@) + serve_section(*f),
{
    let ghost before = texts(out@);
    if let Some((s, alive)) = &f.serve {
        push_line(out, "");
        let state = if *alive {
            "running"
        } else {
            "stale (will be cleared)"
        };
        push_line(
            out,
            cat4("recorded serve pid ", decimal(s.pid as u64).as_str(), " — ", state).as_str(),
        );
        push_line(out, cat2("  model        ", s.model.as_str()).as_str());
        push_line(out, cat2("  log          ", s.log_path.as_str()).as_str());
    }
    assert(texts(out@) =~= before + serve_section(*f));
}

/// The lines that `--doctor` prints.
pub fn doctor(f: &Facts) -> (r: Vec<String>)
    ensures
        texts(r@) == report_of(*f),
{
    let mut out: Vec<String> = Vec::new();
    assert(texts(out@) =~= Seq::<Seq<char>>::empty());
    push_files(&mut out, f);
    assert(texts(out@) =~= files_section(*f));
    push_cli(&mut out, f);
    push_server(&mut out, f);
    push_roots(&mut out, f);
    push_library(&mut out, f);
    push_hub(&mut out, f);
    push_gpus(&mut out, &f.gpus);
    push_bench(&mut out, f);
    push_serve(&mut out, f);
    out
}

} // verus!
