//! Quantized payloads of a cache, as they are kept on the host.
pub mod bf16;
pub mod quant_rotor_v4;
pub mod rotor_blocks;
pub mod seq_layout;
