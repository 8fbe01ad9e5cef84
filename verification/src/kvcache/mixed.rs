//! The mixed-precision path: affine K and V, attended as they are stored.
use vstd::prelude::*;

use crate::error::{Error, Expected};
use crate::kvcache::quant::MixedParams;
use crate::kvcache::request::{Call, KvCache, MixedTuple, Request};
use crate::kvcache::step::{ask, fail, Attended, Run, Share, Shared, SharedKvOut, Stage, Step};
use crate::kvcache::{step, storage::KvStorage};
use crate::tensor::{MaskMode, Tensor};

verus! {

/// The mask of a prefill chunk: the given one, else the causal one, which a
/// single position does not need.
pub open spec fn prefill_mode(mask: Option<u64>, new_seq: i32) -> MaskMode {
    if mask is Some {
        MaskMode::Array
    } else if new_seq > 1 {
        MaskMode::Causal
    } else {
        MaskMode::Open
    }
}

/// The mask of a prefill chunk.
pub fn prefill_mask_mode(mask: Option<u64>, new_seq: i32) -> (r: MaskMode)
    ensures
        r == prefill_mode(mask, new_seq),
{
    if mask.is_some() {
        MaskMode::Array
    } else if new_seq > 1 {
        MaskMode::Causal
    } else {
        MaskMode::Open
    }
}

/// Gathering the prefill buffers, to attend them under `mode`.
pub open spec fn gathering_prefill(run: Run, mode: MaskMode) -> Step {
    step::asking(
        run,
        Stage::Gather { mode, own_offset: false },
        Request::PrefillRaw { new_k: run.call.new_k.id, new_v: run.call.new_v.id },
    )
}

/// Gathers the prefill buffers.
pub fn gather_prefill(run: &Run, mode: MaskMode) -> (r: Step)
    ensures
        r == gathering_prefill(*run, mode),
{
    ask(
        run,
        Stage::Gather { mode, own_offset: false },
        Request::PrefillRaw { new_k: run.call.new_k.id, new_v: run.call.new_v.id },
    )
}

/// Attention over plain K and V.
pub open spec fn attending(run: Run, q: u64, k: Tensor, v: Tensor, mode: MaskMode) -> Step {
    step::asking(
        run,
        Stage::Attend { k, v },
        Request::Sdpa {
            q,
            k: k.id,
            v: v.id,
            scale: run.call.scale,
            mode,
            mask: run.call.mask,
        },
    )
}

/// Asks for attention over plain K and V.
pub fn attend(run: &Run, q: u64, k: Tensor, v: Tensor, mode: MaskMode) -> (r: Step)
    ensures
        r == attending(*run, q, k, v, mode),
{
    ask(
        run,
        Stage::Attend { k, v },
        Request::Sdpa {
            q,
            k: k.id,
            v: v.id,
            scale: run.call.scale,
            mode,
            mask: run.call.mask,
        },
    )
}

/// The cache with the positions of a step behind those it holds.
pub open spec fn stepped(cache: KvCache, call: Call) -> Result<(KvCache, i32), Error> {
    match call.new_k.shape.at(2) {
        None => Err(Error::NoStepAxis { shape: call.new_k.shape }),
        Some(new_seq) => match cache.advancing(new_seq) {
            Err(e) => Err(e),
            Ok(after) => Ok((after, new_seq)),
        },
    }
}

/// Advances the cache by the positions of a step.
pub fn step_offset(cache: &mut KvCache, call: &Call) -> (r: Result<i32, Error>)
    ensures
        match stepped(*old(cache), *call) {
            Ok((after, new_seq)) => r == Ok::<i32, Error>(new_seq) && *final(cache) == after,
            Err(e) => r == Err::<i32, Error>(e) && *final(cache) == *old(cache),
        },
{
    let new_seq: i32 = match call.new_k.shape.dim(2) {
        Some(d) => d,
        None => return Err(Error::NoStepAxis { shape: call.new_k.shape }),
    };
    match cache.advance(new_seq) {
        Ok(_) => Ok(new_seq),
        Err(e) => Err(e),
    }
}

/// The codec parameters of a mixed-precision step: those of the storage, which
/// alone says how its bytes are read. The mode stands in where the storage holds
/// no affine tuples.
pub open spec fn params_of(cache: KvCache) -> Option<MixedParams> {
    match cache.storage {
        KvStorage::Mixed { params, .. } => Some(params),
        _ => cache.quant.spec_mixed_params(),
    }
}

fn find_params(cache: &KvCache) -> (r: Option<MixedParams>)
    ensures
        r == params_of(*cache),
{
    match cache.storage {
        KvStorage::Mixed { params, .. } => Some(params),
        _ => cache.quant.mixed_params(),
    }
}

/// How a mixed-precision step starts. The offset moves first. While a prefill
/// is open, K and V are gathered unquantized and quantized in bulk later.
pub open spec fn starting(cache: KvCache, run: Run) -> (KvCache, Step) {
    match params_of(cache) {
        None => (cache, step::failing(Error::NotMixedPath)),
        Some(params) => match stepped(cache, run.call) {
            Err(e) => (cache, step::failing(e)),
            Ok((after, new_seq)) => (
                after,
                if after.in_prefill {
                    gathering_prefill(run, prefill_mode(run.call.mask, new_seq))
                } else if after.storage is Mixed {
                    step::asking(
                        run,
                        Stage::MixedFetch { params },
                        Request::MixedUpdateAndFetch {
                            new_k: run.call.new_k.id,
                            new_v: run.call.new_v.id,
                        },
                    )
                } else {
                    step::failing(
                        Error::KvStorageMismatch {
                            expected: Expected::Mixed,
                            got: after.storage.spec_kind(),
                        },
                    )
                },
            ),
        },
    }
}

/// Starts a mixed-precision step.
pub fn start(cache: &mut KvCache, run: &Run) -> (r: Step)
    ensures
        (*final(cache), r) == starting(*old(cache), *run),
{
    let params: MixedParams = match find_params(cache) {
        Some(params) => params,
        None => return fail(Error::NotMixedPath),
    };
    let new_seq: i32 = match step_offset(cache, &run.call) {
        Ok(new_seq) => new_seq,
        Err(e) => return fail(e),
    };
    if cache.in_prefill {
        return gather_prefill(run, prefill_mask_mode(run.call.mask, new_seq));
    }
    match cache.storage {
        KvStorage::Mixed { .. } => ask(
            run,
            Stage::MixedFetch { params },
            Request::MixedUpdateAndFetch { new_k: run.call.new_k.id, new_v: run.call.new_v.id },
        ),
        _ => fail(
            Error::KvStorageMismatch { expected: Expected::Mixed, got: cache.storage.kind() },
        ),
    }
}

/// Attention over the fetched tuples, with the rotation that K was stored under.
pub open spec fn attending_tuples(
    run: Run,
    k: MixedTuple,
    v: MixedTuple,
    rotation: Option<u64>,
    params: MixedParams,
) -> Step {
    step::asking(
        run,
        Stage::MixedSdpa { k, v, rotation, params },
        Request::MixedSdpa {
            q: run.call.queries.id,
            k,
            v,
            scale: run.call.scale,
            mask: run.call.mask,
            params,
            rotation,
        },
    )
}

/// Asks for attention over the fetched tuples.
pub fn attend_tuples(
    run: &Run,
    k: MixedTuple,
    v: MixedTuple,
    rotation: Option<u64>,
    params: MixedParams,
) -> (r: Step)
    ensures
        r == attending_tuples(*run, k, v, rotation, params),
{
    ask(
        run,
        Stage::MixedSdpa { k, v, rotation, params },
        Request::MixedSdpa {
            q: run.call.queries.id,
            k,
            v,
            scale: run.call.scale,
            mask: run.call.mask,
            params,
            rotation,
        },
    )
}

/// How a mixed-precision step ends. A store-backed share appends to the bf16
/// mirrors and shares those; a quantized share is the tuples themselves.
pub open spec fn sharing(
    cache: KvCache,
    run: Run,
    out: Tensor,
    k: MixedTuple,
    v: MixedTuple,
    rotation: Option<u64>,
    params: MixedParams,
) -> Step {
    match run.share {
        Share::Nothing => Step::Done(Ok(Attended { out, shared: Shared::Nothing })),
        Share::Out => Step::Done(
            Ok(
                Attended {
                    out,
                    shared: Shared::Out(
                        SharedKvOut::MixedQuant {
                            k,
                            v,
                            k_rotation: rotation,
                            k_bits: params.k_bits,
                            v_bits: params.v_bits,
                            k_group_size: params.k_group_size,
                            v_group_size: params.v_group_size,
                        },
                    ),
                },
            ),
        ),
        Share::Source => match cache.storage {
            KvStorage::Mixed { max_seq, .. } => step::asking(
                run,
                Stage::MixedMirror { out },
                Request::UpdateDecodeFp16 {
                    new_k: run.call.new_k.id,
                    new_v: run.call.new_v.id,
                    max_seq,
                },
            ),
            _ => step::failing(
                Error::KvStorageMismatch {
                    expected: Expected::Mixed,
                    got: cache.storage.spec_kind(),
                },
            ),
        },
    }
}

/// Ends a mixed-precision step, or asks for the mirrors that it shares.
pub fn share_tuples(
    cache: &KvCache,
    run: &Run,
    out: Tensor,
    k: MixedTuple,
    v: MixedTuple,
    rotation: Option<u64>,
    params: MixedParams,
) -> (r: Step)
    ensures
        r == sharing(*cache, *run, out, k, v, rotation, params),
{
    match run.share {
        Share::Nothing => Step::Done(Ok(Attended { out, shared: Shared::Nothing })),
        Share::Out => Step::Done(
            Ok(
                Attended {
                    out,
                    shared: Shared::Out(
                        SharedKvOut::MixedQuant {
                            k,
                            v,
                            k_rotation: rotation,
                            k_bits: params.k_bits,
                            v_bits: params.v_bits,
                            k_group_size: params.k_group_size,
                            v_group_size: params.v_group_size,
                        },
                    ),
                },
            ),
        ),
        Share::Source => match cache.storage {
            KvStorage::Mixed { max_seq, .. } => ask(
                run,
                Stage::MixedMirror { out },
                Request::UpdateDecodeFp16 {
                    new_k: run.call.new_k.id,
                    new_v: run.call.new_v.id,
                    max_seq,
                },
            ),
            _ => fail(
                Error::KvStorageMismatch { expected: Expected::Mixed, got: cache.storage.kind() },
            ),
        },
    }
}

} // verus!
