//! What can go wrong in a step.
use vstd::prelude::*;

use crate::kvcache::storage::StorageKind;
use crate::tensor::{Dtype, Shape};

verus! {

/// The storage that a rule needed and did not find.
#[derive(Clone, Copy, PartialEq, Eq, Structural, Debug)]
pub enum Expected {
    Mixed,
    PlanarK,
    PlanarKLive,
    RotorKOnly,
    RotorKOnlyLive,
    RotorSym,
    RotorSymLiveK,
    RotorSymLiveKv,
}

/// The fused path in which a check failed.
#[derive(Clone, Copy, PartialEq, Eq, Structural, Debug)]
pub enum Fused {
    PlanarK,
    RotorK,
    RotorSym,
}

/// One of the two sides of a cache.
#[derive(Clone, Copy, PartialEq, Eq, Structural, Debug)]
pub enum Side {
    K,
    V,
}

/// Axis of a `[B, kv_h, S, D]` tensor on which two tensors must agree.
#[derive(Clone, Copy, PartialEq, Eq, Structural, Debug)]
pub enum Axis {
    Batch,
    Heads,
    HeadDim,
}

/// Kind of an attention layer.
#[derive(Clone, Copy, PartialEq, Eq, Structural, Debug)]
pub enum LayerType {
    SlidingAttention,
    FullAttention,
}

/// Why a step ended without a result.
#[derive(Clone, Copy, PartialEq, Eq, Structural, Debug)]
#[allow(inconsistent_fields)]
pub enum Error {
    /// A runtime call failed; the number is the runtime's key to its own report.
    Outside(u64),
    /// The answer to a request was not of the kind that the request asks for.
    Protocol,
    /// The new K of a step has no sequence axis.
    NoStepAxis { shape: Shape },
    /// The positions of a step do not fit behind those already held.
    OffsetOverflow { offset: i32, new_seq: i32 },
    /// The mixed-precision path was entered on a cache of another codec.
    NotMixedPath,
    /// The cache holds another storage variant than the path works on.
    KvStorageMismatch { expected: Expected, got: StorageKind },
    /// The rotated-K path found another storage variant.
    RotKStorageMismatch { got: StorageKind },
    /// The rotated-K path found no V buffer (the prefill was never closed).
    RotKValueBufferMissing,
    /// No kernel lets a consumer layer attend this storage variant.
    NoConsumerPath { got: StorageKind },
    /// This storage variant holds no share that can be turned into tensors.
    NoStoreBackedShare { got: StorageKind },
    /// No element type was ever recorded for the stream.
    NoStreamDtype,
    /// K and V of one share came out with different element types.
    DtypeSplit { k: Dtype, v: Dtype },
    /// The length that a producer reported is not the length of the store.
    SharedLenDesync { reported: i32, actual: i32 },
    /// The bf16 V mirror of a store-backed share is missing.
    ShareMirrorMissing,
    /// The bf16 V mirror of a store-backed share is not of rank four.
    ShareMirrorRank { shape: Shape },
    /// The store is longer than the bf16 V mirror.
    ShareExceedsMirror { kv_seq: i32, v_seq: i32 },
    /// A bf16 mirror is missing after a dispatch that maintains it.
    MirrorMissing { side: Side },
    /// A bf16 mirror is not of rank four.
    MirrorRank { k: Shape, v: Shape },
    /// A bf16 mirror and the step tensor disagree on an axis.
    MirrorAxis { side: Side, axis: Axis, mirror: i32, step: i32 },
    /// The cache offset lies beyond a bf16 mirror.
    OffsetExceedsMirror { offset: i32, k_seq: i32, v_seq: i32 },
    /// The shape recorded by a store has no sequence axis.
    NoSeqAxis { path: Fused, side: Side, shape: Shape },
    /// The K store and the V store hold different lengths.
    AxesDiverge { k_seq: i32, v_seq: i32 },
    /// The new K of a step is not of rank four.
    NewKRank { path: Fused, shape: Shape },
    /// The K store of a fused path is not of rank four.
    StoreRank { path: Fused, shape: Shape },
    /// The V of a fused path is not of rank four.
    ValueRank { path: Fused, shape: Shape },
    /// The queries of a fused path are not of rank four.
    QueryRank { path: Fused, shape: Shape },
    /// The queries of a fused path span more than one position.
    NotDecode { path: Fused, q_seq: i32 },
    /// The query heads cannot be split evenly over the K/V heads.
    HeadsNotDivisible { path: Fused, n_q_heads: i32, kv_h: i32 },
    /// The K store is missing after an append that keeps it.
    StoreAbsent { path: Fused },
    /// The packed view is missing after an append that keeps it.
    ViewAbsent { path: Fused, kv_seq: i32 },
    /// The codec refused to encode an appended slice.
    RotorEncode(u64),
    /// The codec refused to decode a stored block.
    RotorDecode(u64),
    /// An appended slice is not of rank four; the number is its rank.
    AppendRank(usize),
    /// The recorded shape is not of rank four; the number is its rank.
    MalformedShape(usize),
    /// Blocks are held but no rotor table.
    RotorTableEmpty,
    /// A forward pass was asked for no token at all.
    EmptyPrompt,
    /// The number of positions asked for is not between one and the prompt length.
    LastKOutOfRange { k: usize, seq: usize },
    /// The same, counted in the element type of tensor extents.
    LastKOutOfRangeI32 { k: i32, seq: i32 },
    /// No layer of the wanted kind left bf16 K/V behind.
    NoLayerKv(LayerType),
    /// A layer without a K projection was given no shared K/V.
    NoSharedKv,
    /// A layer without a V projection was given no shared K/V.
    NoValueProjection,
    /// Quantized shared K/V reached a layer outside of decoding.
    QuantShareNotDecode { seq: i32 },
    /// The rows of a layer cannot be counted.
    RowsOverflow { batch: i32, seq: i32 },
    /// The mask of a producer does not span the K that was attended.
    ProducerMaskWidth { mask_kv: i32, k_seq: i32, layer: LayerType, seq: i32, producer_offset: i32 },
    /// The K shared with a consumer is shorter than the query.
    SharedKTooShort { total_kv_len: i32, seq: i32, layer: LayerType, offset: i32 },
    /// The mask of a consumer does not span the K that is attended.
    ConsumerMaskWidth { mask_kv: i32, total_kv_len: i32, layer: LayerType, seq: i32, offset: i32 },
}

} // verus!
