//! What a step asks of the tensor runtime, and what it is answered.
//!
//! A step is a conversation. It asks for one runtime call at a time and goes on
//! with the answer, until it is done. Every call of a step is carried out on
//! the device that the step was started for.
use vstd::prelude::*;

use crate::error::Side;
use crate::kvcache::quant::{KvQuant, MixedParams};
use crate::kvcache::storage::KvStorage;
use crate::tensor::{Device, Dims, Dtype, MaskMode, Shape, Tensor};

verus! {

/// A per-layer cache, as far as the dispatch rules read it.
#[derive(Clone, Copy, PartialEq, Eq, Debug)]
pub struct KvCache {
    /// Mode that the cache was made with.
    pub quant: KvQuant,
    /// Storage that holds the data. It alone says how a step is routed: a cache that
    /// was read back may hold another than its mode asks for.
    pub storage: KvStorage,
    /// Number of positions held.
    pub offset: i32,
    /// Whether a prefill is open: K and V are then gathered unquantized.
    pub in_prefill: bool,
    /// Whether the cache is a ring over a sliding window.
    pub rotating: bool,
    /// Whether the cache holds K/V that survive a spill.
    pub persistent: bool,
    /// Unquantized K kept beside the store, once it is seeded.
    pub decode_fp16_k: Option<Tensor>,
    /// Unquantized V kept beside the store, once it is seeded.
    pub decode_fp16_v: Option<Tensor>,
    /// Element type of the stream, recorded by the codecs that keep no mirror.
    pub stream_dtype: Option<Dtype>,
}

/// Switches that a step is decided under.
#[derive(Clone, Copy, PartialEq, Eq, Structural, Debug)]
pub struct Toggles {
    /// The fused-QK kernel over packed K may run.
    pub planar_fused_qk: bool,
    /// The single-pass flash kernel over packed K may run.
    pub planar_flash_decode: bool,
    /// New rotor stores are built with the residual sideband.
    pub rotor_qjl: bool,
    /// The fused Hadamard kernel may rotate queries.
    pub rot_k_fused: bool,
}

/// Inputs of one attention step.
#[derive(Clone, Copy, PartialEq, Eq, Debug)]
pub struct Call {
    pub queries: Tensor,
    pub new_k: Tensor,
    pub new_v: Tensor,
    /// Bit pattern of the score scale.
    pub scale: u32,
    pub mask_mode: MaskMode,
    /// Additive mask, where one comes with the step.
    pub mask: Option<u64>,
    pub device: Device,
    pub toggles: Toggles,
}

/// One side of an affine store.
#[derive(Clone, Copy, PartialEq, Eq, Structural, Debug)]
pub struct MixedTuple {
    pub codes: Tensor,
    pub scales: Tensor,
    pub biases: Tensor,
}

/// Codes, scales and norms of a rotor ring.
#[derive(Clone, Copy, PartialEq, Eq, Structural, Debug)]
pub struct Ring {
    pub codes: Tensor,
    pub scales: Tensor,
    pub norms: Tensor,
}

/// A rotor ring with the rotor table that it was encoded under.
#[derive(Clone, Copy, PartialEq, Eq, Structural, Debug)]
pub struct Packed {
    pub codes: Tensor,
    pub scales: Tensor,
    pub norms: Tensor,
    pub rotors: Tensor,
}

/// Extents that a flash kernel over a packed store runs on.
#[derive(Clone, Copy, PartialEq, Eq, Structural, Debug)]
pub struct Geometry {
    pub b: i32,
    pub kv_h: i32,
    pub kv_seq: i32,
    pub head_dim: i32,
    pub n_q_heads: i32,
    pub heads_per_kv: i32,
}

/// A runtime call. Tensors are named by their numbers.
#[derive(Clone, Copy, PartialEq, Eq, Debug)]
#[allow(inconsistent_fields)]
pub enum Request {
    // Calls that may change the cache.
    /// The codec's own update: append, and give back the whole K and V.
    Update { new_k: u64, new_v: u64 },
    /// Append to the unquantized prefill buffers, and give them back.
    PrefillRaw { new_k: u64, new_v: u64 },
    /// Append to the affine store, and give back both sides and the K rotation.
    MixedUpdateAndFetch { new_k: u64, new_v: u64 },
    /// Append to both unquantized mirrors, and give back their filled prefix.
    UpdateDecodeFp16 { new_k: u64, new_v: u64, max_seq: i32 },
    /// Append to the unquantized V mirror alone, and give back its filled prefix.
    UpdateDecodeFp16V { new_v: u64, max_seq: i32 },
    /// Append to the rotated K store, and give back its filled prefix.
    RotKUpdateK { new_k: u64 },
    /// Append to the codebook V buffer, whatever its provisioned length. `rows`
    /// are the widened host rows; without them the tensor itself is encoded.
    RotKAppendV { rows: Option<u64>, shape: Shape, new_v: u64 },
    /// Append to the packed K store, making an empty one first where `fresh`.
    PlanarAppend { new_k: u64, shape: Shape, fresh: bool, max_seq: i32 },
    /// Encode into the rotor K ring of the given bit width.
    RotorKAppend { bits: u8, new_k: u64, shape: Shape },
    /// Encode into both rotor rings of the given bit width.
    RotorSymAppend { bits: u8, new_k: u64, new_v: u64, shape: Shape },
    /// The split-K flash kernel with its own append, where it is eligible.
    /// Without `lock` the unquantized mirrors stay current.
    Flash { lock: bool, queries: u64, new_k: u64, new_v: u64, scale: u32, mask: Option<u64> },
    /// The fused-QK kernel over the head-major shadow with its own append, where
    /// it is eligible.
    FusedQk { queries: u64, new_k: u64, new_v: u64, scale: u32, mask: Option<u64> },
    // Calls that leave the cache alone.
    /// Scaled dot-product attention.
    Sdpa { q: u64, k: u64, v: u64, scale: u32, mode: MaskMode, mask: Option<u64> },
    /// Attention over both sides of the affine store.
    MixedSdpa {
        q: u64,
        k: MixedTuple,
        v: MixedTuple,
        scale: u32,
        mask: Option<u64>,
        params: MixedParams,
        rotation: Option<u64>,
    },
    /// Attention over rotated affine K and plain V.
    RotKTq4VSdpa {
        q: u64,
        k: MixedTuple,
        v: u64,
        scale: u32,
        mask: Option<u64>,
        group_size: i32,
        bits: i32,
        rotation: Option<u64>,
    },
    /// Read a bf16 tensor to the host and widen its elements.
    HostRows { x: u64 },
    /// Decode the whole codebook V buffer, on the device or to host rows.
    RotKDequantV { dtype: Dtype },
    /// Narrow host rows to bf16 and bring them to the device.
    UploadRows { rows: u64, shape: Shape },
    /// Bring host rows to the device as they are.
    UploadWide { rows: u64, shape: Shape },
    /// Decode one side of an affine store.
    Dequantize { tuple: MixedTuple, group_size: i32, bits: i32 },
    /// Whether the fused Hadamard kernel takes heads of this dimension.
    FwhtSupported { d: i32 },
    /// Rotate by the fused Hadamard kernel.
    FwhtRotate { x: u64 },
    /// Rotate by a product with the rotation matrix.
    RotateLastAxis { x: u64, rotation: u64 },
    /// Codes, scales and rotations of the packed K store, where they live on the device.
    PlanarView,
    /// The single-pass flash kernel over packed K of the given bit width.
    PlanarFlash {
        q: u64,
        codes: u64,
        scales: u64,
        rot32: u64,
        v: u64,
        mask: Option<u64>,
        geometry: Geometry,
        bits: u8,
        scale: u32,
    },
    /// Scores before the softmax, over packed K of the given bit width.
    PlanarScores {
        q: u64,
        codes: u64,
        scales: u64,
        rot32: u64,
        geometry: Geometry,
        bits: u8,
        scale: u32,
    },
    /// Codes, scales and norms of a rotor ring up to `kv_seq` positions, where it
    /// is live.
    RotorView { side: Side, kv_seq: i32 },
    /// The rotor table of one side, as a tensor.
    RotorTable { side: Side },
    /// The flash kernel over a rotor K ring of the given bit width and plain V.
    RotorFlash {
        bits: u8,
        q: u64,
        k: Packed,
        v: u64,
        mask: Option<u64>,
        geometry: Geometry,
        scale: u32,
    },
    /// The flash kernel over both rotor rings of the given bit width.
    RotorSymFlash {
        bits: u8,
        q: u64,
        k: Packed,
        v: Packed,
        mask: Option<u64>,
        geometry: Geometry,
        scale: u32,
    },
    /// The leading part of a rank-four tensor, up to `stop` on each axis.
    Slice { x: u64, stop: Dims },
    Add { a: u64, b: u64 },
    /// Softmax over the last axis in full precision.
    SoftmaxPrecise { x: u64 },
    Reshape { x: u64, dims: Dims },
    Matmul { a: u64, b: u64 },
    Astype { x: u64, dtype: Dtype },
    /// Decode a whole rotor store and bring it to the device in its recorded shape.
    DequantStore { side: Side },
    /// Decode the whole packed K store for a stream of this element type, on the
    /// device or to host rows.
    PlanarDequantK { dtype: Dtype },
}

/// What a runtime call came to.
#[derive(Clone, Copy, PartialEq, Eq, Debug)]
#[allow(inconsistent_fields)]
pub enum Answer {
    /// The call failed; the number is the runtime's key to its own report.
    Failed(u64),
    /// There is nothing of the kind asked for, or the call is not eligible.
    Absent,
    /// The call was carried out and has no result.
    Done,
    Flag(bool),
    /// Rows kept on the host, by number.
    Host(u64),
    One(Tensor),
    Two(Tensor, Tensor),
    Three(Tensor, Tensor, Tensor),
    /// Both sides of an affine store, and the K rotation where there is one.
    Mixed { k: MixedTuple, v: MixedTuple, rotation: Option<u64> },
    /// The K side of a rotated store, its rotation where there is one, and its codec.
    RotK(RotKFetch),
}

/// The K side of a rotated store as it was fetched.
#[derive(Clone, Copy, PartialEq, Eq, Debug)]
pub struct RotKFetch {
    pub k: MixedTuple,
    pub rotation: Option<u64>,
    pub group_size: i32,
    pub bits: i32,
}

/// The answer to a request, with the cache as the call left it. The cache
/// counts only for those calls that may change it.
#[derive(Clone, Copy, PartialEq, Eq, Debug)]
pub struct Reply {
    pub cache: KvCache,
    pub answer: Answer,
}

} // verus!
