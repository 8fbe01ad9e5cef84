//! Attention over a quantized KV cache: the dispatch rules of the cache, the
//! host side of its stores, and the layers of a model that shares K/V between
//! layers.
//!
//! Nothing here touches a device. What a step needs of one it asks for, call by
//! call, and it goes on with the answers; what it decides in between is proved.
pub mod error;
pub mod gates;
pub mod gemma4;
pub mod kvcache;
pub mod storage;
pub mod tensor;

pub use gates::{fused_qk_enabled, gpu_resident_iso_enabled, sparse_attn_enabled};
pub use kvcache::quant::KvQuant;
pub use kvcache::{KvCache, SharedKv};
