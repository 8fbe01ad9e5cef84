//! Per-layer KV cache: which kernels a step runs, in which order, on what.
//!
//! A cache takes one step per forward pass. [`KvCache::update_and_sdpa`] starts
//! the step of a layer that shares nothing; the two sharing entry points start
//! that of a producer. [`KvCache::resume`] takes the reply to each request until
//! the step is done. Consumers attend what a producer left with
//! [`KvCache::sdpa_shared`], which only reads.
pub mod arms;
pub mod attend_laws;
pub mod consumer;
pub mod consumer_laws;
pub mod edge_laws;
pub mod flow_laws;
pub mod gate;
pub mod laws;
pub mod materialise;
pub mod mirror;
pub mod mixed;
pub mod over_store;
pub mod quant;
pub mod request;
pub mod rot_k;
pub mod rot_k_laws;
pub mod route_laws;
pub mod sdpa;
pub mod share_laws;
pub mod step;
pub mod storage;
pub mod store_laws;
pub mod store_step_laws;

pub use request::KvCache;
pub use step::{SharedKv, SharedKvOut};
