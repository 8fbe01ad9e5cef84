//! The parts of an attention step: what it may share, where it stands, and what
//! it comes to.
use vstd::prelude::*;

use crate::error::{Error, Fused};
use crate::kvcache::materialise::TensorsRun;
use crate::kvcache::over_store::StoreRun;
use crate::kvcache::quant::MixedParams;
use crate::kvcache::request::{Call, KvCache, MixedTuple, Request, RotKFetch};
use crate::tensor::{Dims, MaskMode, Tensor};

verus! {

/// What a step leaves behind for the layers that share its K/V.
#[derive(Clone, Copy, PartialEq, Eq, Structural, Debug)]
pub enum Share {
    /// Nothing: no layer shares the K/V.
    Nothing,
    /// A [`SharedKv`]: the store itself where a kernel attends it, else bf16.
    Source,
    /// A [`SharedKvOut`]: the affine tuples where they are attended, else bf16.
    Out,
}

/// What consumers of a producer layer attend: tensors, or the producer's store.
#[derive(Clone, Copy, PartialEq, Eq, Debug)]
pub enum SharedKv {
    Bf16(Tensor, Tensor),
    /// The store up to `kv_len` positions, the length that the producer attended.
    Store { kv_len: i32 },
}

/// What consumers of a producer layer attend: tensors, or the affine tuples.
#[derive(Clone, Copy, PartialEq, Eq, Debug)]
pub enum SharedKvOut {
    Bf16(Tensor, Tensor),
    MixedQuant {
        k: MixedTuple,
        v: MixedTuple,
        k_rotation: Option<u64>,
        k_bits: i32,
        v_bits: i32,
        k_group_size: i32,
        v_group_size: i32,
    },
}

/// What was shared, by the kind of share that was asked for.
#[derive(Clone, Copy, PartialEq, Eq, Debug)]
pub enum Shared {
    Nothing,
    Source(SharedKv),
    Out(SharedKvOut),
}

/// The outcome of a step.
#[derive(Clone, Copy, PartialEq, Eq, Debug)]
pub struct Attended {
    pub out: Tensor,
    pub shared: Shared,
}

/// Where a step stands: the call whose answer it waits for, with what it keeps
/// for afterwards.
#[derive(Clone, Copy, PartialEq, Eq, Debug)]
#[allow(inconsistent_fields)]
pub enum Stage {
    /// Nothing has been asked yet.
    Start,
    /// The accumulated K and V, by the codec's own update or off the prefill
    /// buffers.
    Gather { mode: MaskMode, own_offset: bool },
    /// Attention over the accumulated K and V.
    Attend { k: Tensor, v: Tensor },
    MixedFetch { params: MixedParams },
    MixedSdpa { k: MixedTuple, v: MixedTuple, rotation: Option<u64>, params: MixedParams },
    MixedMirror { out: Tensor },
    RotKUpdateK,
    RotKHostRows { fetch: RotKFetch },
    RotKAppendV { fetch: RotKFetch },
    RotKDequantV { fetch: RotKFetch },
    RotKUpload { fetch: RotKFetch },
    RotKSdpa,
    RotKDequantK { v: Tensor, rotation: Option<u64> },
    RotKFwhtSupported { k: Tensor, v: Tensor, rotation: u64 },
    RotKFwht { k: Tensor, v: Tensor, rotation: u64 },
    RotKRotate { k: Tensor, v: Tensor },
    PlanarAppend { max_seq: i32 },
    PlanarProbe { max_seq: i32 },
    PlanarValues { kv_seq: i32 },
    /// V, behind packed K that no kernel can attend where it is.
    UnpackValues,
    /// Packed K decoded, beside a V that is in hand.
    Unpack { run: TensorsRun },
    RotorKAppend,
    RotorKValues,
    RotorSymAppend,
    /// Flash-decode over the store, through the path that filled it.
    Store { path: Fused, run: StoreRun },
    Flash,
    FusedQk,
    MirrorK { out: Tensor, v: u64, v_stop: Dims },
    MirrorV { out: Tensor, k: Tensor },
}

/// What a runtime call may have written of the cache.
#[derive(Clone, Copy, PartialEq, Eq, Structural, Debug)]
pub enum Effect {
    Untouched,
    /// The storage, and with it whether the K/V held survive a spill.
    Stores,
    /// The V mirror alone.
    Values,
    /// Both mirrors.
    Mirrors,
    /// The storage, both mirrors and the offset.
    Advances,
}

impl Stage {
    /// What the awaited call may write, where it is carried out.
    pub open spec fn effect(self) -> Effect {
        match self {
            Stage::Gather { own_offset, .. } => if own_offset {
                Effect::Advances
            } else {
                Effect::Mirrors
            },
            Stage::Flash => Effect::Advances,
            Stage::FusedQk => Effect::Advances,
            Stage::MixedFetch { .. } => Effect::Stores,
            Stage::MixedMirror { .. } => Effect::Mirrors,
            Stage::RotKUpdateK => Effect::Stores,
            Stage::RotKAppendV { .. } => Effect::Stores,
            Stage::PlanarAppend { .. } => Effect::Stores,
            Stage::PlanarValues { .. } => Effect::Values,
            Stage::UnpackValues => Effect::Values,
            Stage::RotorKAppend => Effect::Stores,
            Stage::RotorKValues => Effect::Values,
            Stage::RotorSymAppend => Effect::Stores,
            _ => Effect::Untouched,
        }
    }

    /// What the awaited call may write, where it is carried out.
    pub fn effect_of(&self) -> (r: Effect)
        ensures
            r == self.effect(),
    {
        match self {
            Stage::Gather { own_offset, .. } => if *own_offset {
                Effect::Advances
            } else {
                Effect::Mirrors
            },
            Stage::Flash => Effect::Advances,
            Stage::FusedQk => Effect::Advances,
            Stage::MixedFetch { .. } => Effect::Stores,
            Stage::MixedMirror { .. } => Effect::Mirrors,
            Stage::RotKUpdateK => Effect::Stores,
            Stage::RotKAppendV { .. } => Effect::Stores,
            Stage::PlanarAppend { .. } => Effect::Stores,
            Stage::PlanarValues { .. } => Effect::Values,
            Stage::UnpackValues => Effect::Values,
            Stage::RotorKAppend => Effect::Stores,
            Stage::RotorKValues => Effect::Values,
            Stage::RotorSymAppend => Effect::Stores,
            _ => Effect::Untouched,
        }
    }
}

#[derive(Clone, Copy, PartialEq, Eq, Debug)]
pub struct Run {
    pub call: Call,
    pub share: Share,
    pub stage: Stage,
}

impl Run {
    /// The same step, waiting elsewhere.
    pub open spec fn at(self, stage: Stage) -> Run {
        Run { stage, ..self }
    }
}

/// The next thing that a step does.
#[derive(Clone, Copy, PartialEq, Eq, Debug)]
pub enum Step {
    Ask { run: Run, request: Request },
    Done(Result<Attended, Error>),
}

/// A step that ends in an error.
pub open spec fn failing(e: Error) -> Step {
    Step::Done(Err(e))
}

/// A step that waits at `stage` for the answer to `request`.
pub open spec fn asking(run: Run, stage: Stage, request: Request) -> Step {
    Step::Ask { run: run.at(stage), request }
}

/// Ends a step in an error.
pub fn fail(e: Error) -> (r: Step)
    ensures
        r == failing(e),
{
    Step::Done(Err(e))
}

/// Asks a request and waits at `stage` for its answer.
pub fn ask(run: &Run, stage: Stage, request: Request) -> (r: Step)
    ensures
        r == asking(*run, stage, request),
{
    Step::Ask { run: Run { call: run.call, share: run.share, stage }, request }
}

/// What a step over plain K and V shares: both, where anything is shared.
pub open spec fn bf16_share(share: Share, k: Tensor, v: Tensor) -> Shared {
    match share {
        Share::Nothing => Shared::Nothing,
        Share::Source => Shared::Source(SharedKv::Bf16(k, v)),
        Share::Out => Shared::Out(SharedKvOut::Bf16(k, v)),
    }
}

/// A step that ends with an output over plain K and V.
pub open spec fn ending(share: Share, out: Tensor, k: Tensor, v: Tensor) -> Step {
    Step::Done(Ok(Attended { out, shared: bf16_share(share, k, v) }))
}

/// Ends a step with an output over plain K and V.
pub fn end(share: Share, out: Tensor, k: Tensor, v: Tensor) -> (r: Step)
    ensures
        r == ending(share, out, k, v),
{
    let shared: Shared = match share {
        Share::Nothing => Shared::Nothing,
        Share::Source => Shared::Source(SharedKv::Bf16(k, v)),
        Share::Out => Shared::Out(SharedKvOut::Bf16(k, v)),
    };
    Step::Done(Ok(Attended { out, shared }))
}

impl KvCache {
    /// The cache after a runtime call with a given effect. No call changes the
    /// mode, the ring, the prefill flag or the recorded element type; each takes
    /// over only what it has written.
    pub open spec fn absorbing(self, after: KvCache, effect: Effect) -> KvCache {
        match effect {
            Effect::Untouched => self,
            Effect::Stores => KvCache {
                storage: after.storage,
                persistent: after.persistent,
                ..self
            },
            Effect::Values => KvCache { decode_fp16_v: after.decode_fp16_v, ..self },
            Effect::Mirrors => KvCache {
                decode_fp16_k: after.decode_fp16_k,
                decode_fp16_v: after.decode_fp16_v,
                ..self
            },
            Effect::Advances => KvCache {
                storage: after.storage,
                persistent: after.persistent,
                decode_fp16_k: after.decode_fp16_k,
                decode_fp16_v: after.decode_fp16_v,
                offset: after.offset,
                ..self
            },
        }
    }

    /// Takes over what a runtime call has written of the cache.
    pub fn absorb(&mut self, after: &KvCache, effect: Effect)
        ensures
            *final(self) == old(self).absorbing(*after, effect),
    {
        match effect {
            Effect::Untouched => {},
            Effect::Stores => {
                self.storage = after.storage;
                self.persistent = after.persistent;
            },
            Effect::Values => {
                self.decode_fp16_v = after.decode_fp16_v;
            },
            Effect::Mirrors => {
                self.decode_fp16_k = after.decode_fp16_k;
                self.decode_fp16_v = after.decode_fp16_v;
            },
            Effect::Advances => {
                self.storage = after.storage;
                self.persistent = after.persistent;
                self.decode_fp16_k = after.decode_fp16_k;
                self.decode_fp16_v = after.decode_fp16_v;
                self.offset = after.offset;
            },
        }
    }

    /// The cache with `new_seq` more positions, where they fit.
    pub open spec fn advancing(self, new_seq: i32) -> Result<KvCache, Error> {
        if i32::MIN <= self.offset + new_seq <= i32::MAX {
            Ok(KvCache { offset: (self.offset + new_seq) as i32, ..self })
        } else {
            Err(Error::OffsetOverflow { offset: self.offset, new_seq })
        }
    }

    /// Advances the offset by the positions of a step, where they fit.
    pub fn advance(&mut self, new_seq: i32) -> (r: Result<(), Error>)
        ensures
            match old(self).advancing(new_seq) {
                Ok(after) => r is Ok && *final(self) == after,
                Err(e) => r == Err::<(), Error>(e) && *final(self) == *old(self),
            },
    {
        match self.offset.checked_add(new_seq) {
            Some(offset) => {
                self.offset = offset;
                Ok(())
            },
            None => Err(Error::OffsetOverflow { offset: self.offset, new_seq }),
        }
    }

    /// Number of positions held.
    pub fn offset(&self) -> (r: i32)
        ensures
            r == self.offset,
    {
        self.offset
    }

    /// Whether the cache is a ring over a sliding window.
    pub fn is_rotating(&self) -> (r: bool)
        ensures
            r == self.rotating,
    {
        self.rotating
    }

    /// Whether the cache holds K/V that survive a spill.
    pub fn has_persistent_cache(&self) -> (r: bool)
        ensures
            r == self.persistent,
    {
        self.persistent
    }
}

} // verus!
