//! What the operations are for, stated of their inputs and results alone.

pub mod compat;
pub mod config;
pub mod engine;
pub mod hub;
pub mod knobs;
pub mod machine;
pub mod models;
pub mod numbers;
pub mod overrides;
pub mod paths;
pub mod plan;
pub mod pools;
pub mod serve;
pub mod text;
pub mod work;
