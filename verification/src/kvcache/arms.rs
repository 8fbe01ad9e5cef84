//! The decode arms of a step, in the order in which they are tried: flash-decode
//! over packed K, over a rotor K ring, over both rotor rings, the split-K flash
//! kernel, the head-major fused-QK kernel, and last the codec's own update.
//!
//! An arm that changes the cache is only entered once every gate in front of it
//! has passed, since a step that turned back after an append would append twice.
//! Packed K that is not on the device after its append is therefore decoded by the
//! arm itself.
use vstd::prelude::*;

use crate::error::{Error, Expected, Fused};
use crate::kvcache::materialise::{TensorsRun, TensorsStep};
use crate::kvcache::mirror::slice_decode_fp16_for_consumer;
use crate::kvcache::mixed::attend;
use crate::kvcache::over_store::{
    planar_k_flash_over_store, rotor_k_flash_over_store, rotor_sym_flash_over_store, StoreCall,
    StoreStep,
};
use crate::kvcache::request::{Call, KvCache, Request};
use crate::kvcache::step::{ask, fail, Attended, Run, Share, Shared, SharedKv, Stage, Step};
use crate::kvcache::storage::{
    planar_k_accumulated_seq, rotor_k_accumulated_seq, rotor_k_max_seq, rotor_k_store_uses_qjl,
    rotor_sym_accumulated_seq, rotor_sym_store_uses_qjl, KvStorage,
};
use crate::kvcache::{gate, mirror, mixed, over_store, step, storage};
use crate::tensor::{Device, Shape, Tensor};

verus! {

/// Whether a call decodes: its queries span a single position.
pub open spec fn decodes(call: Call) -> bool {
    call.queries.shape.at(2) == Some(1i32)
}

fn is_decode(call: &Call) -> (r: bool)
    ensures
        r == decodes(*call),
{
    match call.queries.shape.dim(2) {
        Some(q_seq) => q_seq == 1,
        None => false,
    }
}

/// Whether the packed-K arm is open: the kernel is on and nothing holds it
/// back. While an unquantized K seed is live, every codec decodes off the seed.
/// A share of affine tuples has no room for a store, so no store arm is open
/// for it.
pub open spec fn planar_open(cache: KvCache, run: Run) -> bool {
    &&& !(run.share is Out)
    &&& cache.storage is PlanarK
    &&& run.call.toggles.planar_fused_qk
    &&& run.call.device is Gpu
    &&& decodes(run.call)
    &&& cache.decode_fp16_k is None
}

/// Whether the rotor K arm is open. A store with the residual sideband keeps
/// the host decode.
pub open spec fn rotor_k_open(cache: KvCache, run: Run) -> bool {
    &&& !(run.share is Out)
    &&& storage::is_rotor_k_only(cache.storage)
    &&& run.call.device is Gpu
    &&& !storage::spec_rotor_k_store_uses_qjl(cache.storage, run.call.toggles.rotor_qjl)
    &&& decodes(run.call)
}

/// Whether the symmetric rotor arm is open.
pub open spec fn rotor_sym_open(cache: KvCache, run: Run) -> bool {
    &&& !(run.share is Out)
    &&& storage::is_rotor_sym(cache.storage)
    &&& run.call.device is Gpu
    &&& !storage::spec_rotor_sym_store_uses_qjl(cache.storage, run.call.toggles.rotor_qjl)
    &&& decodes(run.call)
}

fn is_gpu(call: &Call) -> (r: bool)
    ensures
        r == (call.device is Gpu),
{
    match call.device {
        Device::Gpu => true,
        Device::Cpu => false,
    }
}

fn shares_out(run: &Run) -> (r: bool)
    ensures
        r == (run.share is Out),
{
    match run.share {
        Share::Out => true,
        _ => false,
    }
}

fn planar_is_open(cache: &KvCache, run: &Run) -> (r: bool)
    ensures
        r == planar_open(*cache, *run),
{
    let planar: bool = match cache.storage {
        KvStorage::PlanarK { .. } => true,
        _ => false,
    };
    !shares_out(run) && planar && run.call.toggles.planar_fused_qk && is_gpu(&run.call)
        && is_decode(&run.call) && cache.decode_fp16_k.is_none()
}

fn rotor_k_is_open(cache: &KvCache, run: &Run) -> (r: bool)
    ensures
        r == rotor_k_open(*cache, *run),
{
    let rotor: bool = match cache.storage {
        KvStorage::RotorKOnly3 { .. } => true,
        KvStorage::RotorKOnly4 { .. } => true,
        _ => false,
    };
    !shares_out(run) && rotor && is_gpu(&run.call) && !rotor_k_store_uses_qjl(
        &cache.storage,
        run.call.toggles.rotor_qjl,
    ) && is_decode(&run.call)
}

fn rotor_sym_is_open(cache: &KvCache, run: &Run) -> (r: bool)
    ensures
        r == rotor_sym_open(*cache, *run),
{
    let rotor: bool = match cache.storage {
        KvStorage::RotorSym3 { .. } => true,
        KvStorage::RotorSym4 { .. } => true,
        _ => false,
    };
    !shares_out(run) && rotor && is_gpu(&run.call) && !rotor_sym_store_uses_qjl(
        &cache.storage,
        run.call.toggles.rotor_qjl,
    ) && is_decode(&run.call)
}

/// The codec's own update, then attention over everything it gives back. The
/// accumulated K and V are attended, never those of the step alone.
pub open spec fn updating(run: Run) -> Step {
    step::asking(
        run,
        Stage::Gather { mode: run.call.mask_mode, own_offset: true },
        Request::Update { new_k: run.call.new_k.id, new_v: run.call.new_v.id },
    )
}

/// Asks for the codec's own update.
pub fn update(run: &Run) -> (r: Step)
    ensures
        r == updating(*run),
{
    ask(
        run,
        Stage::Gather { mode: run.call.mask_mode, own_offset: true },
        Request::Update { new_k: run.call.new_k.id, new_v: run.call.new_v.id },
    )
}

/// The head-major fused-QK kernel.
pub open spec fn trying_fused_qk(run: Run) -> Step {
    step::asking(
        run,
        Stage::FusedQk,
        Request::FusedQk {
            queries: run.call.queries.id,
            new_k: run.call.new_k.id,
            new_v: run.call.new_v.id,
            scale: run.call.scale,
            mask: run.call.mask,
        },
    )
}

/// Asks for the head-major fused-QK kernel.
pub fn try_fused_qk(run: &Run) -> (r: Step)
    ensures
        r == trying_fused_qk(*run),
{
    ask(
        run,
        Stage::FusedQk,
        Request::FusedQk {
            queries: run.call.queries.id,
            new_k: run.call.new_k.id,
            new_v: run.call.new_v.id,
            scale: run.call.scale,
            mask: run.call.mask,
        },
    )
}

/// The split-K flash kernel. It may lock the mirrors only where nothing is
/// shared out of them.
pub open spec fn trying_flash(run: Run) -> Step {
    step::asking(
        run,
        Stage::Flash,
        Request::Flash {
            lock: run.share is Nothing,
            queries: run.call.queries.id,
            new_k: run.call.new_k.id,
            new_v: run.call.new_v.id,
            scale: run.call.scale,
            mask: run.call.mask,
        },
    )
}

fn try_flash(run: &Run) -> (r: Step)
    ensures
        r == trying_flash(*run),
{
    let lock: bool = match run.share {
        Share::Nothing => true,
        _ => false,
    };
    ask(
        run,
        Stage::Flash,
        Request::Flash {
            lock,
            queries: run.call.queries.id,
            new_k: run.call.new_k.id,
            new_v: run.call.new_v.id,
            scale: run.call.scale,
            mask: run.call.mask,
        },
    )
}

/// From the symmetric rotor arm on. The element type of the stream is recorded
/// before the append: this codec keeps no mirror that would tell it.
pub open spec fn from_rotor_sym(cache: KvCache, run: Run) -> (KvCache, Step) {
    let new_k = run.call.new_k;
    if !rotor_sym_open(cache, run) {
        (cache, trying_flash(run))
    } else if new_k.shape.rank != 4 {
        (cache, step::failing(Error::NewKRank { path: Fused::RotorSym, shape: new_k.shape }))
    } else if !gate::rotor_shape_fits(new_k.shape) {
        (cache, trying_flash(run))
    } else {
        (
            KvCache { stream_dtype: Some(run.call.new_v.dtype), ..cache },
            step::asking(
                run,
                Stage::RotorSymAppend,
                Request::RotorSymAppend {
                    bits: if cache.storage is RotorSym3 {
                        3
                    } else {
                        4
                    },
                    new_k: new_k.id,
                    new_v: run.call.new_v.id,
                    shape: new_k.shape,
                },
            ),
        )
    }
}

/// Tries the arms from the symmetric rotor arm on.
pub fn try_rotor_sym(cache: &mut KvCache, run: &Run) -> (r: Step)
    ensures
        (*final(cache), r) == from_rotor_sym(*old(cache), *run),
{
    if !rotor_sym_is_open(cache, run) {
        return try_flash(run);
    }
    let shape: Shape = run.call.new_k.shape;
    if shape.rank != 4 {
        return fail(Error::NewKRank { path: Fused::RotorSym, shape });
    }
    if !KvCache::rotor_flash_shape_ok(&shape) {
        return try_flash(run);
    }
    let bits: u8 = match cache.storage {
        KvStorage::RotorSym3 { .. } => 3,
        _ => 4,
    };
    cache.stream_dtype = Some(run.call.new_v.dtype);
    ask(
        run,
        Stage::RotorSymAppend,
        Request::RotorSymAppend {
            bits,
            new_k: run.call.new_k.id,
            new_v: run.call.new_v.id,
            shape,
        },
    )
}

/// From the rotor K arm on.
pub open spec fn from_rotor_k(cache: KvCache, run: Run) -> (KvCache, Step) {
    let new_k = run.call.new_k;
    if !rotor_k_open(cache, run) {
        from_rotor_sym(cache, run)
    } else if new_k.shape.rank != 4 {
        (cache, step::failing(Error::NewKRank { path: Fused::RotorK, shape: new_k.shape }))
    } else if !gate::rotor_shape_fits(new_k.shape) {
        from_rotor_sym(cache, run)
    } else {
        (
            cache,
            step::asking(
                run,
                Stage::RotorKAppend,
                Request::RotorKAppend {
                    bits: if cache.storage is RotorKOnly3 {
                        3
                    } else {
                        4
                    },
                    new_k: new_k.id,
                    shape: new_k.shape,
                },
            ),
        )
    }
}

/// Tries the arms from the rotor K arm on.
pub fn try_rotor_k(cache: &mut KvCache, run: &Run) -> (r: Step)
    ensures
        (*final(cache), r) == from_rotor_k(*old(cache), *run),
{
    if !rotor_k_is_open(cache, run) {
        return try_rotor_sym(cache, run);
    }
    let shape: Shape = run.call.new_k.shape;
    if shape.rank != 4 {
        return fail(Error::NewKRank { path: Fused::RotorK, shape });
    }
    if !KvCache::rotor_flash_shape_ok(&shape) {
        return try_rotor_sym(cache, run);
    }
    let bits: u8 = match cache.storage {
        KvStorage::RotorKOnly3 { .. } => 3,
        _ => 4,
    };
    ask(
        run,
        Stage::RotorKAppend,
        Request::RotorKAppend { bits, new_k: run.call.new_k.id, shape },
    )
}

/// Whether the packed-K arm would be open but for a live unquantized K seed.
pub open spec fn seed_closes_planar(cache: KvCache, call: Call) -> bool {
    &&& !cache.rotating
    &&& cache.storage is PlanarK
    &&& call.toggles.planar_fused_qk
    &&& call.device is Gpu
    &&& decodes(call)
    &&& cache.decode_fp16_k is Some
}

impl KvCache {
    /// Whether only a live unquantized K seed keeps a step off the packed-K arm.
    pub fn seed_bypasses_packed_k(&self, call: &Call) -> (r: bool)
        ensures
            r == seed_closes_planar(*self, *call),
    {
        let planar: bool = match self.storage {
            KvStorage::PlanarK { .. } => true,
            _ => false,
        };
        !self.rotating && planar && call.toggles.planar_fused_qk && is_gpu(call) && is_decode(call)
            && self.decode_fp16_k.is_some()
    }
}

/// From the packed-K arm on.
pub open spec fn from_planar(cache: KvCache, run: Run) -> (KvCache, Step) {
    let new_k = run.call.new_k;
    match cache.storage {
        KvStorage::PlanarK { k, max_seq } if planar_open(cache, run) => (
            cache,
            if new_k.shape.rank < 3 {
                step::failing(Error::NoStepAxis { shape: new_k.shape })
            } else {
                step::asking(
                    run,
                    Stage::PlanarAppend { max_seq },
                    Request::PlanarAppend {
                        new_k: new_k.id,
                        shape: new_k.shape,
                        fresh: k is None,
                        max_seq,
                    },
                )
            },
        ),
        _ => from_rotor_k(cache, run),
    }
}

/// Tries the arms from the packed-K arm on.
pub fn try_planar(cache: &mut KvCache, run: &Run) -> (r: Step)
    ensures
        (*final(cache), r) == from_planar(*old(cache), *run),
{
    if !planar_is_open(cache, run) {
        return try_rotor_k(cache, run);
    }
    match cache.storage {
        KvStorage::PlanarK { k, max_seq } => {
            let shape: Shape = run.call.new_k.shape;
            if shape.rank < 3 {
                return fail(Error::NoStepAxis { shape });
            }
            ask(
                run,
                Stage::PlanarAppend { max_seq },
                Request::PlanarAppend {
                    new_k: run.call.new_k.id,
                    shape,
                    fresh: k.is_none(),
                    max_seq,
                },
            )
        },
        _ => try_rotor_k(cache, run),
    }
}

/// Appending to the V mirror alone.
pub open spec fn appending_values(run: Run, stage: Stage, max_seq: i32) -> Step {
    step::asking(run, stage, Request::UpdateDecodeFp16V { new_v: run.call.new_v.id, max_seq })
}

/// Once packed K is on the device: the offset moves before V is appended, since
/// V is written behind the offset that the step started from.
pub open spec fn after_planar_probe(cache: KvCache, run: Run, max_seq: i32) -> (KvCache, Step) {
    match cache.storage {
        KvStorage::PlanarK { k: Some(shape), .. } => if shape.rank != 4 {
            (cache, step::failing(Error::StoreRank { path: Fused::PlanarK, shape }))
        } else {
            match cache.advancing(run.call.new_k.shape.d2) {
                Err(e) => (cache, step::failing(e)),
                Ok(after) => (
                    after,
                    appending_values(run, Stage::PlanarValues { kv_seq: shape.d2 }, max_seq),
                ),
            }
        },
        KvStorage::PlanarK { k: None, .. } => (
            cache,
            step::failing(Error::StoreAbsent { path: Fused::PlanarK }),
        ),
        _ => (
            cache,
            step::failing(
                Error::KvStorageMismatch {
                    expected: Expected::PlanarK,
                    got: cache.storage.spec_kind(),
                },
            ),
        ),
    }
}

/// Goes on once packed K is on the device.
pub fn follow_planar_probe(cache: &mut KvCache, run: &Run, max_seq: i32) -> (r: Step)
    ensures
        (*final(cache), r) == after_planar_probe(*old(cache), *run, max_seq),
{
    match cache.storage {
        KvStorage::PlanarK { k: Some(shape), .. } => {
            if shape.rank != 4 {
                return fail(Error::StoreRank { path: Fused::PlanarK, shape });
            }
            match cache.advance(run.call.new_k.shape.d2) {
                Ok(_) => {},
                Err(e) => return fail(e),
            }
            ask(
                run,
                Stage::PlanarValues { kv_seq: shape.d2 },
                Request::UpdateDecodeFp16V { new_v: run.call.new_v.id, max_seq },
            )
        },
        KvStorage::PlanarK { k: None, .. } => fail(Error::StoreAbsent { path: Fused::PlanarK }),
        _ => fail(
            Error::KvStorageMismatch { expected: Expected::PlanarK, got: cache.storage.kind() },
        ),
    }
}

/// Once packed K was appended and its buffers are not on the device after all:
/// the step ends as the codec's own update would, but for the append. No other
/// arm may take the step on, since it would append K again.
pub open spec fn without_view(cache: KvCache, run: Run, max_seq: i32) -> (KvCache, Step) {
    match cache.advancing(run.call.new_k.shape.d2) {
        Err(e) => (cache, step::failing(e)),
        Ok(after) => (after, appending_values(run, Stage::UnpackValues, max_seq)),
    }
}

/// Goes on where packed K is not on the device after its append.
pub fn follow_without_view(cache: &mut KvCache, run: &Run, max_seq: i32) -> (r: Step)
    ensures
        (*final(cache), r) == without_view(*old(cache), *run, max_seq),
{
    match cache.advance(run.call.new_k.shape.d2) {
        Ok(_) => {},
        Err(e) => return fail(e),
    }
    ask(
        run,
        Stage::UnpackValues,
        Request::UpdateDecodeFp16V { new_v: run.call.new_v.id, max_seq },
    )
}

/// Once V is behind packed K that no kernel can attend: K is decoded in the
/// element type of V.
pub open spec fn after_unpack_values(run: Run, v: Tensor) -> Step {
    step::asking(
        run,
        Stage::Unpack { run: TensorsRun::Keys { v } },
        Request::PlanarDequantK { dtype: v.dtype },
    )
}

/// Goes on once V is behind packed K that no kernel can attend.
pub fn follow_unpack_values(run: &Run, v: Tensor) -> (r: Step)
    ensures
        r == after_unpack_values(*run, v),
{
    ask(
        run,
        Stage::Unpack { run: TensorsRun::Keys { v } },
        Request::PlanarDequantK { dtype: v.dtype },
    )
}

/// A step follows the decoding of packed K, and attends the result plainly under
/// the caller's mask.
pub open spec fn unpacking(run: Run, inner: TensorsStep) -> Step {
    match inner {
        TensorsStep::Ask { run: r, request } => step::asking(
            run,
            Stage::Unpack { run: r },
            request,
        ),
        TensorsStep::Done(Err(e)) => step::failing(e),
        TensorsStep::Done(Ok((k, v))) => mixed::attending(
            run,
            run.call.queries.id,
            k,
            v,
            run.call.mask_mode,
        ),
    }
}

/// Follows the decoding of packed K.
pub fn follow_unpack(run: &Run, inner: TensorsStep) -> (r: Step)
    ensures
        r == unpacking(*run, inner),
{
    match inner {
        TensorsStep::Ask { run: r, request } => ask(run, Stage::Unpack { run: r }, request),
        TensorsStep::Done(Err(e)) => fail(e),
        TensorsStep::Done(Ok((k, v))) => attend(
            run,
            run.call.queries.id,
            k,
            v,
            run.call.mask_mode,
        ),
    }
}

/// Once K is in its rotor ring: the offset moves before V is appended.
pub open spec fn after_rotor_k_append(cache: KvCache, run: Run) -> (KvCache, Step) {
    match cache.advancing(run.call.new_k.shape.d2) {
        Err(e) => (cache, step::failing(e)),
        Ok(after) => (
            after,
            match storage::spec_rotor_k_max_seq(after.storage) {
                Err(e) => step::failing(e),
                Ok(max_seq) => appending_values(run, Stage::RotorKValues, max_seq),
            },
        ),
    }
}

/// Goes on once K is in its rotor ring.
pub fn follow_rotor_k_append(cache: &mut KvCache, run: &Run) -> (r: Step)
    ensures
        (*final(cache), r) == after_rotor_k_append(*old(cache), *run),
{
    match cache.advance(run.call.new_k.shape.d2) {
        Ok(_) => {},
        Err(e) => return fail(e),
    }
    match rotor_k_max_seq(&cache.storage) {
        Err(e) => fail(e),
        Ok(max_seq) => ask(
            run,
            Stage::RotorKValues,
            Request::UpdateDecodeFp16V { new_v: run.call.new_v.id, max_seq },
        ),
    }
}

/// What flash-decode over a store is given by a step that attends `kv_seq`
/// positions.
pub open spec fn store_call(call: Call, kv_seq: i32) -> StoreCall {
    StoreCall {
        queries: call.queries,
        scale: call.scale,
        mask: call.mask,
        kv_seq,
        planar_flash_decode: call.toggles.planar_flash_decode,
    }
}

fn make_store_call(call: &Call, kv_seq: i32) -> (r: StoreCall)
    ensures
        r == store_call(*call, kv_seq),
{
    StoreCall {
        queries: call.queries,
        scale: call.scale,
        mask: call.mask,
        kv_seq,
        planar_flash_decode: call.toggles.planar_flash_decode,
    }
}

/// The length held by the store of a path.
pub open spec fn held(path: Fused, cache: KvCache) -> Result<i32, Error> {
    match path {
        Fused::PlanarK => storage::spec_planar_k_accumulated_seq(cache.storage),
        Fused::RotorK => storage::spec_rotor_k_accumulated_seq(cache.storage),
        Fused::RotorSym => storage::spec_rotor_sym_accumulated_seq(cache.storage),
    }
}

/// The length held by the store of a path.
pub fn held_by_store(path: Fused, cache: &KvCache) -> (r: Result<i32, Error>)
    ensures
        r == held(path, *cache),
{
    match path {
        Fused::PlanarK => planar_k_accumulated_seq(&cache.storage),
        Fused::RotorK => rotor_k_accumulated_seq(&cache.storage),
        Fused::RotorSym => rotor_sym_accumulated_seq(&cache.storage),
    }
}

/// A step follows flash-decode over the store, and ends with it. A sharing step
/// shares the store, at the length that the store holds.
pub open spec fn following(cache: KvCache, run: Run, path: Fused, inner: StoreStep) -> Step {
    match inner {
        StoreStep::Ask { run: r, request } => step::asking(
            run,
            Stage::Store { path, run: r },
            request,
        ),
        StoreStep::Done(Err(e)) => step::failing(e),
        StoreStep::Done(Ok(out)) => match run.share {
            Share::Source => match held(path, cache) {
                Err(e) => step::failing(e),
                Ok(kv_len) => Step::Done(
                    Ok(Attended { out, shared: Shared::Source(SharedKv::Store { kv_len }) }),
                ),
            },
            _ => Step::Done(Ok(Attended { out, shared: Shared::Nothing })),
        },
    }
}

/// Follows flash-decode over the store.
pub fn follow_store(cache: &KvCache, run: &Run, path: Fused, inner: StoreStep) -> (r: Step)
    ensures
        r == following(*cache, *run, path, inner),
{
    match inner {
        StoreStep::Ask { run: r, request } => ask(run, Stage::Store { path, run: r }, request),
        StoreStep::Done(Err(e)) => fail(e),
        StoreStep::Done(Ok(out)) => match run.share {
            Share::Source => match held_by_store(path, cache) {
                Err(e) => fail(e),
                Ok(kv_len) => Step::Done(
                    Ok(Attended { out, shared: Shared::Source(SharedKv::Store { kv_len }) }),
                ),
            },
            _ => Step::Done(Ok(Attended { out, shared: Shared::Nothing })),
        },
    }
}

/// Once V is behind packed K: the store is attended at the length it had after
/// its append.
pub open spec fn after_planar_values(cache: KvCache, run: Run, kv_seq: i32, v: Tensor) -> Step {
    following(
        cache,
        run,
        Fused::PlanarK,
        over_store::planar_begin(cache, store_call(run.call, kv_seq), v),
    )
}

/// Goes on once V is behind packed K.
pub fn follow_planar_values(cache: &KvCache, run: &Run, kv_seq: i32, v: Tensor) -> (r: Step)
    ensures
        r == after_planar_values(*cache, *run, kv_seq, v),
{
    let inner: StoreStep = planar_k_flash_over_store(cache, make_store_call(&run.call, kv_seq), v);
    follow_store(cache, run, Fused::PlanarK, inner)
}

/// Once V is behind K: the ring is attended at the length of the store that it
/// was written from.
pub open spec fn after_rotor_k_values(cache: KvCache, run: Run, v: Tensor) -> Step {
    match held(Fused::RotorK, cache) {
        Err(e) => step::failing(e),
        Ok(kv_seq) => following(
            cache,
            run,
            Fused::RotorK,
            over_store::rotor_k_begin(cache, store_call(run.call, kv_seq), v),
        ),
    }
}

/// Goes on once V is behind K.
pub fn follow_rotor_k_values(cache: &KvCache, run: &Run, v: Tensor) -> (r: Step)
    ensures
        r == after_rotor_k_values(*cache, *run, v),
{
    match held_by_store(Fused::RotorK, cache) {
        Err(e) => fail(e),
        Ok(kv_seq) => {
            let inner: StoreStep = rotor_k_flash_over_store(
                cache,
                make_store_call(&run.call, kv_seq),
                v,
            );
            follow_store(cache, run, Fused::RotorK, inner)
        },
    }
}

/// Once K and V are in their rings: the offset moves, and both rings are
/// attended at the length that their stores agree on.
pub open spec fn after_rotor_sym_append(cache: KvCache, run: Run) -> (KvCache, Step) {
    match cache.advancing(run.call.new_k.shape.d2) {
        Err(e) => (cache, step::failing(e)),
        Ok(after) => (
            after,
            match held(Fused::RotorSym, after) {
                Err(e) => step::failing(e),
                Ok(kv_seq) => following(
                    after,
                    run,
                    Fused::RotorSym,
                    over_store::rotor_sym_begin(after, store_call(run.call, kv_seq)),
                ),
            },
        ),
    }
}

/// Goes on once K and V are in their rings.
pub fn follow_rotor_sym_append(cache: &mut KvCache, run: &Run) -> (r: Step)
    ensures
        (*final(cache), r) == after_rotor_sym_append(*old(cache), *run),
{
    match cache.advance(run.call.new_k.shape.d2) {
        Ok(_) => {},
        Err(e) => return fail(e),
    }
    match held_by_store(Fused::RotorSym, cache) {
        Err(e) => fail(e),
        Ok(kv_seq) => {
            let inner: StoreStep = rotor_sym_flash_over_store(
                cache,
                make_store_call(&run.call, kv_seq),
            );
            follow_store(cache, run, Fused::RotorSym, inner)
        },
    }
}

/// Once a kernel with mirrors of its own has run: a sharing step shares the
/// mirrors up to the offset.
pub open spec fn after_mirrored(cache: KvCache, run: Run, out: Tensor) -> Step {
    if run.share is Nothing {
        Step::Done(Ok(Attended { out, shared: Shared::Nothing }))
    } else {
        match mirror::consumer_windows(cache, run.call.new_k, run.call.new_v) {
            Err(e) => step::failing(e),
            Ok((k, v)) => step::asking(
                run,
                Stage::MirrorK { out, v: v.x, v_stop: v.stop },
                Request::Slice { x: k.x, stop: k.stop },
            ),
        }
    }
}

/// Goes on once a kernel with mirrors of its own has run.
pub fn follow_mirrored(cache: &KvCache, run: &Run, out: Tensor) -> (r: Step)
    ensures
        r == after_mirrored(*cache, *run, out),
{
    match run.share {
        Share::Nothing => Step::Done(Ok(Attended { out, shared: Shared::Nothing })),
        _ => match slice_decode_fp16_for_consumer(cache, &run.call.new_k, &run.call.new_v) {
            Err(e) => fail(e),
            Ok((k, v)) => ask(
                run,
                Stage::MirrorK { out, v: v.x, v_stop: v.stop },
                Request::Slice { x: k.x, stop: k.stop },
            ),
        },
    }
}

} // verus!
