//! Host and GPU telemetry, as far as it is read from text.
//!
//! The GPU numbers come from NVML when the driver library is loadable, and from
//! `nvidia-smi` otherwise: a source worth keeping, because NVML is unavailable in some
//! container setups where the CLI still works. Host memory matters here more than it
//! usually would: FreeToken's offload backends keep every expert in host RAM, so
//! "is there room for the banks?" is a question the Dashboard has to be able to answer.

use vstd::prelude::*;
use crate::text::{
    cat4, clip, clipped, lines, lines_of, opt_text, parse_upto, pieces, same, split, texts, trim,
    trimmed, unsigned_of,
};
use crate::util::{less, sat_sub};

verus! {

#[derive(Debug, Clone)]
pub struct Gpu {
    pub index: u32,
    pub name: String,
    pub uuid: String,
    pub memory_total: u64,
    pub memory_used: u64,
    /// Percent, 0-100.
    pub utilization: Option<u32>,
    /// Degrees Celsius.
    pub temperature: Option<u32>,
    /// Watts, as they were reported.
    pub power_draw: Option<String>,
    /// Watts, as they were reported.
    pub power_limit: Option<String>,
    /// Current PCIe link, e.g. `gen4 x16`.
    pub pcie_link: Option<String>,
}

pub struct GpuView {
    pub index: u32,
    pub name: Seq<char>,
    pub uuid: Seq<char>,
    pub memory_total: u64,
    pub memory_used: u64,
    pub utilization: Option<u32>,
    pub temperature: Option<u32>,
    pub power_draw: Option<Seq<char>>,
    pub power_limit: Option<Seq<char>>,
    pub pcie_link: Option<Seq<char>>,
}

impl View for Gpu {
    type V = GpuView;

    open spec fn view(&self) -> GpuView {
        GpuView {
            index: self.index,
            name: self.name@,
            uuid: self.uuid@,
            memory_total: self.memory_total,
            memory_used: self.memory_used,
            utilization: self.utilization,
            temperature: self.temperature,
            power_draw: opt_text(self.power_draw),
            power_limit: opt_text(self.power_limit),
            pcie_link: opt_text(self.pcie_link),
        }
    }
}

impl Gpu {
    pub fn memory_free(&self) -> (r: u64)
        ensures
            r == less(self.memory_total as int, self.memory_used as int),
    {
        sat_sub(self.memory_total, self.memory_used)
    }

    /// How much of the memory is in use, of how much.
    pub fn memory_share(&self) -> (r: (u64, u64))
        ensures
            r == (self.memory_used, self.memory_total),
    {
        (self.memory_used, self.memory_total)
    }

    /// A UUID prefix short enough for a table but still unique in practice.
    pub fn short_uuid(&self) -> (r: String)
        ensures
            r@ == clipped(self.uuid@, 16),
    {
        clip(self.uuid.as_str(), 16)
    }
}

/// The host's memory and what it calls itself.
#[derive(Debug, Clone)]
pub struct Host {
    pub cpu_cores: usize,
    pub memory_total: u64,
    pub memory_used: u64,
    pub swap_total: u64,
    pub swap_used: u64,
    pub hostname: String,
    pub kernel: String,
    pub uptime_s: u64,
}

impl Host {
    pub fn memory_free(&self) -> (r: u64)
        ensures
            r == less(self.memory_total as int, self.memory_used as int),
    {
        sat_sub(self.memory_total, self.memory_used)
    }

    /// How much of the memory is in use, of how much.
    pub fn memory_share(&self) -> (r: (u64, u64))
        ensures
            r == (self.memory_used, self.memory_total),
    {
        (self.memory_used, self.memory_total)
    }
}

/// How a PCIe link reads, by its generation and width.
pub open spec fn link_text(generation: Seq<char>, width: Seq<char>) -> Seq<char> {
    "gen"@ + generation + " x"@ + width
}

pub fn pcie_link(generation: &str, width: &str) -> (r: String)
    ensures
        r@ == link_text(generation@, width@),
{
    cat4("gen", generation, " x", width)
}

// ---------------------------------------------------------------- nvidia-smi

/// The fields that are asked of `nvidia-smi`, in the order of its answer.
pub const SMI_FIELDS: &'static str = "index,name,uuid,memory.total,memory.used,utilization.gpu,temperature.gpu,power.draw,power.limit,pcie.link.gen.current,pcie.link.width.current";

pub const MIB: u64 = 1048576;

/// The fields of a line: what stands between its commas, without the space around it.
pub open spec fn field_of(line: Seq<char>, i: int) -> Seq<char> {
    trimmed(pieces(line, ',')[i])
}

/// A number of mebibytes; one that cannot be read is none.
pub open spec fn mib_of(s: Seq<char>) -> nat {
    match unsigned_of(s) {
        Some(n) if n <= u64::MAX => n,
        _ => 0,
    }
}

pub open spec fn small_of(s: Seq<char>) -> Option<u32> {
    match unsigned_of(s) {
        Some(n) if n <= u32::MAX => Some(n as u32),
        _ => None,
    }
}

/// A field that holds something: it is there, not empty, and not marked as unavailable.
pub open spec fn known(line: Seq<char>, i: int) -> Option<Seq<char>> {
    if i < pieces(line, ',').len() && field_of(line, i).len() > 0 && field_of(line, i) != "[N/A]"@
        && field_of(line, i) != "N/A"@ {
        Some(field_of(line, i))
    } else {
        None
    }
}

/// The memory figures of a line stay below 2^64 bytes.
pub open spec fn smi_fits(line: Seq<char>) -> bool {
    pieces(line, ',').len() >= 5 ==> mib_of(field_of(line, 3)) * MIB <= u64::MAX && mib_of(
        field_of(line, 4),
    ) * MIB <= u64::MAX
}

pub open spec fn known_small(line: Seq<char>, i: int) -> Option<u32> {
    match known(line, i) {
        Some(v) => small_of(v),
        None => None,
    }
}

/// What a line of `nvidia-smi --query-gpu=... --format=csv,noheader,nounits` describes; a
/// truncated line describes nothing.
pub open spec fn smi_gpu(line: Seq<char>) -> Option<GpuView> {
    if pieces(line, ',').len() < 5 {
        None
    } else {
        Some(
            GpuView {
                index: match small_of(field_of(line, 0)) {
                    Some(n) => n,
                    None => 0,
                },
                name: field_of(line, 1),
                uuid: field_of(line, 2),
                memory_total: (mib_of(field_of(line, 3)) * MIB) as u64,
                memory_used: (mib_of(field_of(line, 4)) * MIB) as u64,
                utilization: known_small(line, 5),
                temperature: known_small(line, 6),
                power_draw: known(line, 7),
                power_limit: known(line, 8),
                pcie_link: match (known(line, 9), known(line, 10)) {
                    (Some(g), Some(w)) => Some(link_text(g, w)),
                    _ => None,
                },
            },
        )
    }
}

/// The trimmed fields of a line.
struct Fields {
    parts: Vec<String>,
}

impl Fields {
    spec fn of(self, line: Seq<char>) -> bool {
        &&& self.parts@.len() == pieces(line, ',').len()
        &&& forall|i: int|
            0 <= i < self.parts@.len() ==> (#[trigger] self.parts@[i])@ == field_of(line, i)
    }

    fn new(line: &str) -> (r: Self)
        ensures
            r.of(line@),
    {
        let raw = split(line, ',');
        let ghost all = pieces(line@, ',');
        assert(texts(raw@).len() == raw.len());
        let mut parts: Vec<String> = Vec::new();
        let mut i: usize = 0;
        while i < raw.len()
            invariant
                i <= raw.len(),
                parts@.len() == i,
                texts(raw@) == all,
                all == pieces(line@, ','),
                raw.len() == all.len(),
                forall|j: int| 0 <= j < i ==> (#[trigger] parts@[j])@ == field_of(line@, j),
            decreases raw.len() - i,
        {
            assert(texts(raw@)[i as int] == raw@[i as int]@);
            parts.push(trim(raw[i].as_str()));
            i = i + 1;
        }
        Fields { parts }
    }

    fn known(&self, i: usize, Ghost(line): Ghost<Seq<char>>) -> (r: Option<String>)
        requires
            self.of(line),
        ensures
            opt_text(r) == known(line, i as int),
    {
        if i < self.parts.len() {
            let v = self.parts[i].as_str();
            if !v.is_empty() && !same(v, "[N/A]") && !same(v, "N/A") {
                return Some(self.parts[i].clone());
            }
        }
        None
    }

    fn known_small(&self, i: usize, Ghost(line): Ghost<Seq<char>>) -> (r: Option<u32>)
        requires
            self.of(line),
        ensures
            r == known_small(line, i as int),
    {
        match self.known(i, Ghost(line)) {
            Some(v) => parse_small(v.as_str()),
            None => None,
        }
    }
}

fn parse_small(s: &str) -> (r: Option<u32>)
    ensures
        r == small_of(s@),
{
    match parse_upto(s, u32::MAX as u64) {
        Some(n) => Some(n as u32),
        None => None,
    }
}

fn parse_mib(s: &str) -> (r: u64)
    ensures
        r == mib_of(s@),
{
    match parse_upto(s, u64::MAX) {
        Some(n) => n,
        None => 0,
    }
}

/// Whether the memory figures of a line stay below 2^64 bytes.
pub fn smi_line_fits(line: &str) -> (r: bool)
    ensures
        r == smi_fits(line@),
{
    let f = Fields::new(line);
    if f.parts.len() < 5 {
        return true;
    }
    let most: u64 = u64::MAX / MIB;
    assert(most * MIB <= u64::MAX < (most + 1) * MIB);
    let (total, used) = (parse_mib(f.parts[3].as_str()), parse_mib(f.parts[4].as_str()));
    total <= most && used <= most
}

/// Parse a line of `nvidia-smi --query-gpu=... --format=csv,noheader,nounits`. Used when
/// NVML is not loadable.
pub fn parse_smi_line(line: &str) -> (r: Option<Gpu>)
    requires
        smi_fits(line@),
    ensures
        (match r {
            Some(g) => Some(g@),
            None => None,
        }) == smi_gpu(line@),
{
    let f = Fields::new(line);
    if f.parts.len() < 5 {
        return None;
    }
    let (total, used) = (parse_mib(f.parts[3].as_str()), parse_mib(f.parts[4].as_str()));
    Some(
        Gpu {
            index: match parse_small(f.parts[0].as_str()) {
                Some(n) => n,
                None => 0,
            },
            name: f.parts[1].clone(),
            uuid: f.parts[2].clone(),
            memory_total: total * MIB,
            memory_used: used * MIB,
            utilization: f.known_small(5, Ghost(line@)),
            temperature: f.known_small(6, Ghost(line@)),
            power_draw: f.known(7, Ghost(line@)),
            power_limit: f.known(8, Ghost(line@)),
            pcie_link: match (f.known(9, Ghost(line@)), f.known(10, Ghost(line@))) {
                (Some(g), Some(w)) => Some(pcie_link(g.as_str(), w.as_str())),
                _ => None,
            },
        },
    )
}

/// The GPUs that the lines of an answer describe, in order.
pub open spec fn gpus_on(lines: Seq<Seq<char>>) -> Seq<GpuView>
    decreases lines.len(),
{
    if lines.len() == 0 {
        Seq::empty()
    } else {
        let head = gpus_on(lines.drop_last());
        match smi_gpu(lines.last()) {
            Some(g) => head.push(g),
            None => head,
        }
    }
}

pub open spec fn gpu_views(v: Seq<Gpu>) -> Seq<GpuView> {
    Seq::new(v.len(), |i: int| v[i]@)
}

/// The GPUs in what `nvidia-smi` printed.
pub fn smi_gpus(printed: &str) -> (r: Vec<Gpu>)
    requires
        forall|i: int| 0 <= i < lines_of(printed@).len() ==> smi_fits(#[trigger] lines_of(printed@)[i]),
    ensures
        gpu_views(r@) == gpus_on(lines_of(printed@)),
{
    let l = lines(printed);
    let ghost all = lines_of(printed@);
    let mut out: Vec<Gpu> = Vec::new();
    let mut i: usize = 0;
    assert(texts(l@).len() == l.len());
    assert(all.take(0) =~= Seq::<Seq<char>>::empty());
    assert(gpu_views(out@) =~= Seq::<GpuView>::empty());
    while i < l.len()
        invariant
            i <= l.len(),
            all == texts(l@),
            l.len() == all.len(),
            forall|j: int| 0 <= j < all.len() ==> smi_fits(#[trigger] all[j]),
            gpu_views(out@) == gpus_on(all.take(i as int)),
        decreases l.len() - i,
    {
        assert(all.take(i + 1).drop_last() =~= all.take(i as int));
        assert(all.take(i + 1).last() == l@[i as int]@);
        assert(smi_fits(all[i as int]));
        let ghost before = out@;
        match parse_smi_line(l[i].as_str()) {
            Some(g) => {
                out.push(g);
                assert(gpu_views(out@) =~= gpu_views(before).push(g@));
            },
            None => {},
        }
        i = i + 1;
    }
    assert(all.take(i as int) =~= all);
    out
}

/// How often hardware is sampled, in milliseconds. Slower than the UI tick: NVML queries
/// are not free, and none of these numbers move meaningfully faster than this.
pub const SAMPLE_INTERVAL: u64 = 1000;

} // verus!
