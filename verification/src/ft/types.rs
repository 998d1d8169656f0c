//! The parts of FreeToken's control-plane documents that decisions are made on.

use vstd::prelude::*;
use crate::json::Json;
use crate::text::same;
use crate::text_map::TextMap;
use crate::util::wide_mul;

verus! {

// ---------------------------------------------------------------- /health

#[derive(Debug, Clone, Default)]
pub struct Health {
    /// `loading`, `ok`, or `error`.
    pub status: String,
    pub model: Option<String>,
    pub message: Option<String>,
    pub uptime_s: Option<u64>,
    /// `serving`, `loading`, or `rebuilding`.
    pub maintenance: Option<String>,
    /// Weight-loading phase, present only while `status == "loading"`.
    pub phase: Option<String>,
    pub progress: Option<LoadProgress>,
}

impl Health {
    pub fn is_ready(&self) -> (r: bool)
        ensures
            r == (self.status@ == "ok"@),
    {
        same(self.status.as_str(), "ok")
    }

    pub fn is_loading(&self) -> (r: bool)
        ensures
            r == (self.status@ == "loading"@),
    {
        same(self.status.as_str(), "loading")
    }

    pub fn is_error(&self) -> (r: bool)
        ensures
            r == (self.status@ == "error"@),
    {
        same(self.status.as_str(), "error")
    }

    /// Load completion, as a part of a whole that it never exceeds: the bytes loaded of the
    /// bytes to load. `None` when the total is not yet known.
    pub fn load_share(&self) -> (r: Option<(u64, u64)>)
        ensures
            match (self.progress, r) {
                (Some(p), Some((part, whole))) => p.total_bytes > 0 && whole == p.total_bytes
                    && part == (if p.done_bytes < p.total_bytes {
                    p.done_bytes
                } else {
                    p.total_bytes
                }),
                (Some(p), None) => p.total_bytes == 0,
                (None, None) => true,
                (None, Some(_)) => false,
            },
    {
        match &self.progress {
            Some(p) => if p.total_bytes > 0 {
                if p.done_bytes < p.total_bytes {
                    Some((p.done_bytes, p.total_bytes))
                } else {
                    Some((p.total_bytes, p.total_bytes))
                }
            } else {
                None
            },
            None => None,
        }
    }
}

#[derive(Debug, Clone, Copy, Default)]
pub struct LoadProgress {
    pub done_bytes: u64,
    pub total_bytes: u64,
}

// ---------------------------------------------------------------- /v1/stats

pub open spec fn at_least_one(n: u64) -> nat {
    if n == 0 {
        1
    } else {
        n as nat
    }
}

pub fn or_one(n: u64) -> (r: u64)
    ensures
        r == at_least_one(n),
{
    if n == 0 {
        1
    } else {
        n
    }
}

#[derive(Debug, Clone, Copy, Default)]
pub struct PagePool {
    pub used_pages: u64,
    pub total_pages: u64,
    pub page_size: u64,
}

impl PagePool {
    pub fn used_tokens(&self) -> (r: u64)
        requires
            self.used_pages * at_least_one(self.page_size) <= u64::MAX,
        ensures
            r == self.used_pages * at_least_one(self.page_size),
    {
        self.used_pages * or_one(self.page_size)
    }

    pub fn total_tokens(&self) -> (r: u64)
        requires
            self.total_pages * at_least_one(self.page_size) <= u64::MAX,
        ensures
            r == self.total_pages * at_least_one(self.page_size),
    {
        self.total_pages * or_one(self.page_size)
    }
}

#[derive(Debug, Clone, Copy, Default)]
pub struct SlotPool {
    pub used_slots: u64,
    pub total_slots: u64,
}

#[derive(Debug, Clone, Default)]
pub struct GpuCard {
    pub index: Option<u32>,
    pub name: Option<String>,
    pub uuid: Option<String>,
    pub total_bytes: u64,
}

#[derive(Debug, Clone, Copy, Default)]
pub struct RequestStats {
    pub active: u64,
    pub completed: u64,
    pub p95_ms: u64,
    pub ttft_mean_ms: u64,
    pub prompt_tokens_total: u64,
    pub completion_tokens_total: u64,
}

// ---------------------------------------------------------------- /v1/cache/status

#[derive(Debug, Default)]
pub struct CacheStatus {
    /// `serving`, `loading`, or `rebuilding`.
    pub state: String,
    pub geometry: CacheGeometry,
}

#[derive(Debug, Default)]
pub struct CacheGeometry {
    pub num_pages: u64,
    pub page_size: u64,
    pub moe_cache_size: u64,
    pub num_mamba_slots: u64,
    pub num_experts: u64,
    pub num_moe_layers: u64,
    pub moe_cache_policy: Option<String>,
    pub unit_bytes: UnitBytes,
    pub swa_page_size: u64,
    pub num_swa_pages: u64,
    pub cache_budget_bytes: u64,
    pub limits: Option<Json>,
    pub reasoning: Option<Reasoning>,
}

impl CacheGeometry {
    /// The expert slots of the whole model fit a machine word.
    pub open spec fn counted(&self) -> bool {
        self.num_experts * self.num_moe_layers <= u64::MAX
    }

    pub open spec fn experts(&self) -> nat {
        (self.num_experts * self.num_moe_layers) as nat
    }

    /// The sizes of the pools fit a machine word.
    pub open spec fn sized(&self) -> bool {
        &&& self.num_pages * at_least_one(self.page_size) <= u64::MAX
        &&& self.num_pages * at_least_one(self.page_size) * self.unit_bytes.kv_per_token
            <= u64::MAX
        &&& self.moe_cache_size * self.unit_bytes.moe_per_expert <= u64::MAX
        &&& self.num_mamba_slots * self.unit_bytes.mamba_per_slot <= u64::MAX
        &&& self.num_swa_pages * at_least_one(self.swa_page_size) <= u64::MAX
        &&& self.num_swa_pages * at_least_one(self.swa_page_size) * self.unit_bytes.swa_per_token
            <= u64::MAX
    }

    /// Whether the expert slots of the whole model fit a machine word.
    pub fn is_counted(&self) -> (r: bool)
        ensures
            r == self.counted(),
    {
        wide_mul(self.num_experts, self.num_moe_layers) <= u64::MAX as u128
    }

    /// Total expert slots the model has, which is the ceiling for the MoE cache.
    pub fn total_experts(&self) -> (r: u64)
        requires
            self.counted(),
        ensures
            r == self.experts(),
    {
        self.num_experts * self.num_moe_layers
    }

    /// VRAM the currently configured pools occupy, derived from the per-unit costs the
    /// engine reports. Zero when the engine has not published `unit_bytes` yet.
    pub fn pool_bytes(&self) -> (r: PoolBytes)
        requires
            self.sized(),
        ensures
            r.kv == self.num_pages * at_least_one(self.page_size) * self.unit_bytes.kv_per_token,
            r.moe == self.moe_cache_size * self.unit_bytes.moe_per_expert,
            r.mamba == self.num_mamba_slots * self.unit_bytes.mamba_per_slot,
            r.swa == self.num_swa_pages * at_least_one(self.swa_page_size)
                * self.unit_bytes.swa_per_token,
    {
        let u = &self.unit_bytes;
        PoolBytes {
            kv: self.num_pages * or_one(self.page_size) * u.kv_per_token,
            moe: self.moe_cache_size * u.moe_per_expert,
            mamba: self.num_mamba_slots * u.mamba_per_slot,
            swa: self.num_swa_pages * or_one(self.swa_page_size) * u.swa_per_token,
        }
    }

    /// The integer bound that the server's `limits` block gives for a pool.
    pub open spec fn bound(&self, pool: Seq<char>, bound: Seq<char>) -> Option<u64> {
        match self.limits {
            None => None,
            Some(l) => match l@.get(pool) {
                None => None,
                Some(p) => match p.get(bound) {
                    None => None,
                    Some(b) => b.as_u64(),
                },
            },
        }
    }

    /// Read an integer bound out of the server's `limits` block, when present.
    pub fn limit(&self, pool: &str, bound: &str) -> (r: Option<u64>)
        ensures
            r == self.bound(pool@, bound@),
    {
        match &self.limits {
            None => None,
            Some(l) => match l.get(pool) {
                None => None,
                Some(p) => match p.get(bound) {
                    None => None,
                    Some(b) => b.as_u64(),
                },
            },
        }
    }
}

#[derive(Debug, Clone, Copy, Default)]
pub struct PoolBytes {
    pub kv: u64,
    pub moe: u64,
    pub mamba: u64,
    pub swa: u64,
}

impl PoolBytes {
    pub fn total(&self) -> (r: u64)
        requires
            self.kv + self.moe + self.mamba + self.swa <= u64::MAX,
        ensures
            r == self.kv + self.moe + self.mamba + self.swa,
    {
        self.kv + self.moe + self.mamba + self.swa
    }
}

#[derive(Debug, Clone, Copy, Default)]
pub struct UnitBytes {
    pub kv_per_token: u64,
    pub moe_per_expert: u64,
    pub mamba_per_slot: u64,
    pub swa_per_token: u64,
}

/// The thinking gears the served checkpoint's chat template exposes.
#[derive(Debug, Clone, Default)]
pub struct Reasoning {
    pub gears: Vec<String>,
    pub default: Option<String>,
}

// ---------------------------------------------------------------- /v1/requests

#[derive(Debug, Clone, Default)]
pub struct RequestPage {
    pub entries: Vec<RequestRecord>,
    pub next_cursor: u64,
}

#[derive(Debug, Clone, Default)]
pub struct RequestRecord {
    pub ts: String,
    pub method: String,
    pub path: String,
    pub status: u16,
    pub model: Option<String>,
    pub duration_ms: u64,
    pub ttft_ms: Option<u64>,
    pub prompt_tokens: Option<u64>,
    pub completion_tokens: Option<u64>,
    pub stream: Option<bool>,
    pub error: Option<String>,
}

// ---------------------------------------------------------------- bench profile

/// What decisions read of `~/.cache/freetoken/benchbw/<gpu-uuid>.json`, written by
/// `ft bench bw`.
pub struct BenchProfile {
    pub gpu: BenchGpu,
    /// What is faster for each dtype, `offload` or `hybrid`, where it was measured.
    pub dtypes: TextMap<Option<String>>,
}

impl Default for BenchProfile {
    fn default() -> (r: Self)
        ensures
            r.dtypes@ == Map::<Seq<char>, Option<String>>::empty(),
            r.gpu.name is None,
    {
        BenchProfile {
            gpu: BenchGpu { index: None, name: None, uuid: None },
            dtypes: TextMap::new(),
        }
    }
}

#[derive(Debug, Clone, Default)]
pub struct BenchGpu {
    pub index: Option<u32>,
    pub name: Option<String>,
    pub uuid: Option<String>,
}

#[derive(Debug, Clone, Copy, Default)]
pub struct BenchCpu {
    pub physical_cores: u32,
    pub threads_used: u32,
}

} // verus!
