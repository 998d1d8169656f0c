//! What is known of FreeToken: its documents, its processes and its checkout.

pub mod api;
pub mod checkout;
pub mod locate;
pub mod preflight;
pub mod proc;
pub mod types;
