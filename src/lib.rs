//! Deterministic feature-flag evaluation: a rollout gate and a weighted
//! variant pick, both derived from BLAKE3 digests of the flag key and the
//! caller's identifier.

pub mod bucket;
pub mod flag;
pub mod gate;
pub mod laws;
pub mod order;
pub mod record;
pub mod variant;

pub use bucket::hk;
pub use flag::{eval_flag, EvalResponse, Flag};
