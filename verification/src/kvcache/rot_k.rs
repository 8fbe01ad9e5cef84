//! The rotated-K path: affine K under a Hadamard rotation, codebook V.
use vstd::prelude::*;

use crate::error::Error;
use crate::kvcache::mixed::{attend, gather_prefill, prefill_mask_mode, step_offset};
use crate::kvcache::quant::{ROT_K_BITS, ROT_K_GROUP_SIZE};
use crate::kvcache::request::{KvCache, Request, RotKFetch};
use crate::kvcache::step::{ask, fail, Run, Share, Stage, Step};
use crate::kvcache::{mixed, step, storage::KvStorage};
use crate::tensor::{Device, MaskMode, Shape, Tensor};

verus! {

/// How a rotated-K step starts. The offset moves first. While a prefill is
/// open, K and V are gathered unquantized; a sharing step then attends under
/// the caller's mask mode.
pub open spec fn starting(cache: KvCache, run: Run) -> (KvCache, Step) {
    match mixed::stepped(cache, run.call) {
        Err(e) => (cache, step::failing(e)),
        Ok((after, new_seq)) => (
            after,
            if after.in_prefill {
                mixed::gathering_prefill(
                    run,
                    if run.share is Nothing {
                        mixed::prefill_mode(run.call.mask, new_seq)
                    } else {
                        run.call.mask_mode
                    },
                )
            } else if after.storage is RotKTq4V {
                step::asking(
                    run,
                    Stage::RotKUpdateK,
                    Request::RotKUpdateK { new_k: run.call.new_k.id },
                )
            } else {
                step::failing(Error::RotKStorageMismatch { got: after.storage.spec_kind() })
            },
        ),
    }
}

/// Starts a rotated-K step.
pub fn start(cache: &mut KvCache, run: &Run) -> (r: Step)
    ensures
        (*final(cache), r) == starting(*old(cache), *run),
{
    let new_seq: i32 = match step_offset(cache, &run.call) {
        Ok(new_seq) => new_seq,
        Err(e) => return fail(e),
    };
    if cache.in_prefill {
        let mode: MaskMode = match run.share {
            Share::Nothing => prefill_mask_mode(run.call.mask, new_seq),
            _ => run.call.mask_mode,
        };
        return gather_prefill(run, mode);
    }
    match cache.storage {
        KvStorage::RotKTq4V { .. } => ask(
            run,
            Stage::RotKUpdateK,
            Request::RotKUpdateK { new_k: run.call.new_k.id },
        ),
        _ => fail(Error::RotKStorageMismatch { got: cache.storage.kind() }),
    }
}

/// The shape of the V buffer, which only exists once a prefill was closed.
pub open spec fn value_buffer(cache: KvCache) -> Result<Shape, Error> {
    match cache.storage {
        KvStorage::RotKTq4V { v: Some(shape) } => Ok(shape),
        KvStorage::RotKTq4V { v: None } => Err(Error::RotKValueBufferMissing),
        _ => Err(Error::RotKStorageMismatch { got: cache.storage.spec_kind() }),
    }
}

/// The shape of the V buffer.
pub fn value_buffer_shape(cache: &KvCache) -> (r: Result<Shape, Error>)
    ensures
        r == value_buffer(*cache),
{
    match cache.storage {
        KvStorage::RotKTq4V { v: Some(shape) } => Ok(shape),
        KvStorage::RotKTq4V { v: None } => Err(Error::RotKValueBufferMissing),
        _ => Err(Error::RotKStorageMismatch { got: cache.storage.kind() }),
    }
}

/// Appending V, from host rows where there are any.
pub open spec fn appending_v(cache: KvCache, run: Run, fetch: RotKFetch, rows: Option<u64>) -> Step {
    match value_buffer(cache) {
        Err(e) => step::failing(e),
        Ok(_) => step::asking(
            run,
            Stage::RotKAppendV { fetch },
            Request::RotKAppendV {
                rows,
                shape: run.call.new_v.shape,
                new_v: run.call.new_v.id,
            },
        ),
    }
}

/// Appends V, from host rows where there are any.
pub fn append_v(cache: &KvCache, run: &Run, fetch: RotKFetch, rows: Option<u64>) -> (r: Step)
    ensures
        r == appending_v(*cache, *run, fetch, rows),
{
    match value_buffer_shape(cache) {
        Err(e) => fail(e),
        Ok(_) => ask(
            run,
            Stage::RotKAppendV { fetch },
            Request::RotKAppendV {
                rows,
                shape: run.call.new_v.shape,
                new_v: run.call.new_v.id,
            },
        ),
    }
}

/// V follows K: on the CPU its rows are read to the host first.
pub open spec fn after_k(cache: KvCache, run: Run, fetch: RotKFetch) -> Step {
    if run.call.device is Gpu {
        appending_v(cache, run, fetch, None)
    } else {
        step::asking(
            run,
            Stage::RotKHostRows { fetch },
            Request::HostRows { x: run.call.new_v.id },
        )
    }
}

/// Goes on from the K update.
pub fn follow_k(cache: &KvCache, run: &Run, fetch: RotKFetch) -> (r: Step)
    ensures
        r == after_k(*cache, *run, fetch),
{
    match run.call.device {
        Device::Gpu => append_v(cache, run, fetch, None),
        Device::Cpu => ask(
            run,
            Stage::RotKHostRows { fetch },
            Request::HostRows { x: run.call.new_v.id },
        ),
    }
}

/// Bringing decoded host rows back, in the shape of the V buffer.
pub open spec fn uploading(cache: KvCache, run: Run, fetch: RotKFetch, rows: u64) -> Step {
    match value_buffer(cache) {
        Err(e) => step::failing(e),
        Ok(shape) => step::asking(
            run,
            Stage::RotKUpload { fetch },
            Request::UploadRows { rows, shape },
        ),
    }
}

/// Brings decoded host rows back.
pub fn upload(cache: &KvCache, run: &Run, fetch: RotKFetch, rows: u64) -> (r: Step)
    ensures
        r == uploading(*cache, *run, fetch, rows),
{
    match value_buffer_shape(cache) {
        Err(e) => fail(e),
        Ok(shape) => ask(run, Stage::RotKUpload { fetch }, Request::UploadRows { rows, shape }),
    }
}

/// With V in hand: attention over the tuple, or, for a sharing step, K decoded
/// by its own codec parameters.
pub open spec fn after_v(run: Run, fetch: RotKFetch, v: Tensor) -> Step {
    if run.share is Nothing {
        step::asking(
            run,
            Stage::RotKSdpa,
            Request::RotKTq4VSdpa {
                q: run.call.queries.id,
                k: fetch.k,
                v: v.id,
                scale: run.call.scale,
                mask: run.call.mask,
                group_size: ROT_K_GROUP_SIZE,
                bits: ROT_K_BITS,
                rotation: fetch.rotation,
            },
        )
    } else {
        step::asking(
            run,
            Stage::RotKDequantK { v, rotation: fetch.rotation },
            Request::Dequantize {
                tuple: fetch.k,
                group_size: fetch.group_size,
                bits: fetch.bits,
            },
        )
    }
}

/// Goes on with V in hand.
pub fn follow_v(run: &Run, fetch: RotKFetch, v: Tensor) -> (r: Step)
    ensures
        r == after_v(*run, fetch, v),
{
    match run.share {
        Share::Nothing => ask(
            run,
            Stage::RotKSdpa,
            Request::RotKTq4VSdpa {
                q: run.call.queries.id,
                k: fetch.k,
                v: v.id,
                scale: run.call.scale,
                mask: run.call.mask,
                group_size: ROT_K_GROUP_SIZE,
                bits: ROT_K_BITS,
                rotation: fetch.rotation,
            },
        ),
        _ => ask(
            run,
            Stage::RotKDequantK { v, rotation: fetch.rotation },
            Request::Dequantize {
                tuple: fetch.k,
                group_size: fetch.group_size,
                bits: fetch.bits,
            },
        ),
    }
}

/// The mask of a sharing step that decodes: the given one, else the causal one.
pub open spec fn decode_mode(mask: Option<u64>) -> MaskMode {
    if mask is Some {
        MaskMode::Array
    } else {
        MaskMode::Causal
    }
}

/// Attention over decoded K, which is still rotated, by rotated queries.
pub open spec fn attending_rotated(run: Run, q: u64, k: Tensor, v: Tensor) -> Step {
    mixed::attending(run, q, k, v, decode_mode(run.call.mask))
}

/// Asks for attention over decoded K.
pub fn attend_rotated(run: &Run, q: u64, k: Tensor, v: Tensor) -> (r: Step)
    ensures
        r == attending_rotated(*run, q, k, v),
{
    let mode: MaskMode = if run.call.mask.is_some() {
        MaskMode::Array
    } else {
        MaskMode::Causal
    };
    attend(run, q, k, v, mode)
}

/// Rotating the queries by a product with the rotation matrix.
pub open spec fn rotating(run: Run, k: Tensor, v: Tensor, rotation: u64) -> Step {
    step::asking(
        run,
        Stage::RotKRotate { k, v },
        Request::RotateLastAxis { x: run.call.queries.id, rotation },
    )
}

/// Rotates the queries by a product with the rotation matrix.
pub fn rotate(run: &Run, k: Tensor, v: Tensor, rotation: u64) -> (r: Step)
    ensures
        r == rotating(*run, k, v, rotation),
{
    ask(
        run,
        Stage::RotKRotate { k, v },
        Request::RotateLastAxis { x: run.call.queries.id, rotation },
    )
}

/// With K decoded: the queries meet it under the rotation it was stored under.
/// The fused rotation is tried where it is switched on.
pub open spec fn after_decode(run: Run, k: Tensor, v: Tensor, rotation: Option<u64>) -> Step {
    match rotation {
        None => attending_rotated(run, run.call.queries.id, k, v),
        Some(m) => if run.call.toggles.rot_k_fused {
            step::asking(
                run,
                Stage::RotKFwhtSupported { k, v, rotation: m },
                Request::FwhtSupported { d: run.call.queries.shape.spec_last_or_zero() },
            )
        } else {
            rotating(run, k, v, m)
        },
    }
}

/// Goes on with K decoded.
pub fn follow_decode(run: &Run, k: Tensor, v: Tensor, rotation: Option<u64>) -> (r: Step)
    ensures
        r == after_decode(*run, k, v, rotation),
{
    match rotation {
        None => attend_rotated(run, run.call.queries.id, k, v),
        Some(m) => if run.call.toggles.rot_k_fused {
            ask(
                run,
                Stage::RotKFwhtSupported { k, v, rotation: m },
                Request::FwhtSupported { d: run.call.queries.shape.last_or_zero() },
            )
        } else {
            rotate(run, k, v, m)
        },
    }
}

/// The fused rotation runs where the kernel takes the head dimension.
pub open spec fn after_support(
    run: Run,
    supported: bool,
    k: Tensor,
    v: Tensor,
    rotation: u64,
) -> Step {
    if supported {
        step::asking(
            run,
            Stage::RotKFwht { k, v, rotation },
            Request::FwhtRotate { x: run.call.queries.id },
        )
    } else {
        rotating(run, k, v, rotation)
    }
}

/// Goes on with the kernel's word on the head dimension.
pub fn follow_support(run: &Run, supported: bool, k: Tensor, v: Tensor, rotation: u64) -> (r: Step)
    ensures
        r == after_support(*run, supported, k, v, rotation),
{
    if supported {
        ask(
            run,
            Stage::RotKFwht { k, v, rotation },
            Request::FwhtRotate { x: run.call.queries.id },
        )
    } else {
        rotate(run, k, v, rotation)
    }
}

} // verus!
