//! The logic behind paddock, a manager for a local FreeToken inference engine.

pub mod actions;
pub mod cache_pools;
pub mod compat;
pub mod config;
pub mod doctor;
pub mod ft;
pub mod hub;
pub mod json;
mod knob_options;
pub mod knobs;
pub mod laws;
pub mod models;
pub mod numeral;
pub mod order;
pub mod overrides;
pub mod paths;
pub mod plan;
pub mod probe;
pub mod reuse;
pub mod runtime;
pub mod sampling;
pub mod shell;
pub mod state;
pub mod templates;
pub mod text;
pub mod text_map;
pub mod util;
