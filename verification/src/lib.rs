//! Comb: evidence-backed, channel-local organizational memory.

pub mod text;
pub mod order;
pub mod digest;
pub mod json;
pub mod error;
pub mod evidence;
pub mod claim;
pub mod coverage;
pub mod snapshot;
pub mod proposal;
pub mod review;
pub mod record;
pub mod invalidation;
pub mod graph;
pub mod keyed;
pub mod envelope;
pub mod ratify;
pub mod projection;
pub mod buzz;
pub mod cli;
pub mod store;
pub mod observer;
pub mod normal_form;
pub mod laws;
pub mod guarantees;
pub mod relay;
