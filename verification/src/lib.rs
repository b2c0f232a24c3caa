//! Deterministic planning for A/B experiments over a version-controlled
//! code base: which shards receive which treatment, when persisted build
//! state may be reused, where each piece of build state lives on disk, and
//! in which order the per-shard processes are started and stopped.
//!
//! Every function here works on plain values and carries a contract. The
//! caller performs the effects (cloning, merging, spawning) that the values
//! returned from this crate describe.

pub mod assignment;
pub mod config;
pub mod hooks;
pub mod layout;
pub mod lockfile;
pub mod names;
pub mod plan;
pub mod supervisor;
pub mod treatment;
