//! The attention step of a layer: append K and V, and attend.
//!
//! A step is routed once, by the ring, the storage and the shape of its inputs. From there on it asks for one runtime call at a time;
//! [`KvCache::resume`] takes each answer and says what comes next.
use vstd::prelude::*;

use crate::error::Error;
use crate::kvcache::arms::{
    follow_mirrored, follow_planar_probe, follow_planar_values, follow_rotor_k_append,
    follow_rotor_k_values, follow_rotor_sym_append, follow_store, follow_unpack,
    follow_unpack_values, follow_without_view, try_fused_qk, try_planar, update,
};
use crate::kvcache::mixed::{attend, attend_tuples, share_tuples};
use crate::kvcache::request::{Answer, Call, KvCache, Reply, Request};
use crate::kvcache::rot_k::{
    append_v, attend_rotated, follow_decode, follow_k, follow_support, follow_v, rotate, upload,
};
use crate::kvcache::step::{ask, end, fail, Attended, Run, Share, Shared, Stage, Step};
use crate::kvcache::storage::KvStorage;
use crate::kvcache::{arms, materialise, mixed, rot_k, step};

verus! {

/// How a step starts. A ring over a sliding window stays unquantized in every
/// mode and goes through the codec's own update. Everything else is routed by
/// the storage, which may be another than the mode asked for: a cache brought
/// back from a spill keeps its mode. The two storages that attend affine K as it
/// is held have a path of their own. All others try the decode arms.
pub open spec fn starting(cache: KvCache, run: Run) -> (KvCache, Step) {
    if cache.rotating {
        (cache, arms::updating(run))
    } else {
        match cache.storage {
            KvStorage::RotKTq4V { .. } => rot_k::starting(cache, run),
            KvStorage::Mixed { .. } => mixed::starting(cache, run),
            _ => arms::from_planar(cache, run),
        }
    }
}

/// A step over `call`, yet to start.
pub open spec fn fresh(call: Call, share: Share) -> Run {
    Run { call, share, stage: Stage::Start }
}

/// The cache after the call that a stage waited for. What the call wrote counts
/// whether it succeeded or not; but one that turned the step down has written
/// nothing.
pub open spec fn absorbed(cache: KvCache, stage: Stage, reply: Reply) -> KvCache {
    if reply.answer is Absent {
        cache
    } else {
        cache.absorbing(reply.cache, stage.effect())
    }
}

/// How a step goes on once the cache has taken the call in. An answer of a kind
/// that the request does not ask for ends the step.
pub open spec fn answered(cache: KvCache, run: Run, answer: Answer) -> (KvCache, Step) {
    let call = run.call;
    match (run.stage, answer) {
        // A failing rotation is done again as a product.
        (Stage::RotKFwht { k, v, rotation }, Answer::Failed(_)) => (
            cache,
            rot_k::rotating(run, k, v, rotation),
        ),
        (Stage::Store { path, run: inner }, _) => (
            cache,
            arms::following(cache, run, path, inner.next(answer)),
        ),
        (Stage::Unpack { run: inner }, _) => (
            cache,
            arms::unpacking(run, materialise::resumed(cache, inner, answer)),
        ),
        (_, Answer::Failed(code)) => (cache, step::failing(Error::Outside(code))),
        (Stage::Gather { mode, .. }, Answer::Two(k, v)) => (
            cache,
            mixed::attending(run, call.queries.id, k, v, mode),
        ),
        (Stage::Attend { k, v }, Answer::One(out)) => (cache, step::ending(run.share, out, k, v)),
        (Stage::MixedFetch { params }, Answer::Mixed { k, v, rotation }) => (
            cache,
            mixed::attending_tuples(run, k, v, rotation, params),
        ),
        (Stage::MixedSdpa { k, v, rotation, params }, Answer::One(out)) => (
            cache,
            mixed::sharing(cache, run, out, k, v, rotation, params),
        ),
        (Stage::MixedMirror { out }, Answer::Two(k, v)) => (
            cache,
            step::ending(run.share, out, k, v),
        ),
        (Stage::RotKUpdateK, Answer::RotK(fetch)) => (cache, rot_k::after_k(cache, run, fetch)),
        (Stage::RotKHostRows { fetch }, Answer::Host(rows)) => (
            cache,
            rot_k::appending_v(cache, run, fetch, Some(rows)),
        ),
        (Stage::RotKAppendV { fetch }, Answer::Done) => (
            cache,
            step::asking(
                run,
                Stage::RotKDequantV { fetch },
                Request::RotKDequantV { dtype: call.new_v.dtype },
            ),
        ),
        (Stage::RotKDequantV { fetch }, Answer::One(v)) => (cache, rot_k::after_v(run, fetch, v)),
        (Stage::RotKDequantV { fetch }, Answer::Host(rows)) => (
            cache,
            rot_k::uploading(cache, run, fetch, rows),
        ),
        (Stage::RotKUpload { fetch }, Answer::One(v)) => (cache, rot_k::after_v(run, fetch, v)),
        (Stage::RotKSdpa, Answer::One(out)) => (
            cache,
            Step::Done(Ok(Attended { out, shared: Shared::Nothing })),
        ),
        (Stage::RotKDequantK { v, rotation }, Answer::One(k)) => (
            cache,
            rot_k::after_decode(run, k, v, rotation),
        ),
        (Stage::RotKFwhtSupported { k, v, rotation }, Answer::Flag(supported)) => (
            cache,
            rot_k::after_support(run, supported, k, v, rotation),
        ),
        (Stage::RotKFwht { k, v, .. }, Answer::One(q)) => (
            cache,
            rot_k::attending_rotated(run, q.id, k, v),
        ),
        (Stage::RotKRotate { k, v }, Answer::One(q)) => (
            cache,
            rot_k::attending_rotated(run, q.id, k, v),
        ),
        (Stage::PlanarAppend { max_seq }, Answer::Done) => (
            cache,
            step::asking(run, Stage::PlanarProbe { max_seq }, Request::PlanarView),
        ),
        (Stage::PlanarProbe { max_seq }, Answer::Three(_, _, _)) => arms::after_planar_probe(
            cache,
            run,
            max_seq,
        ),
        (Stage::PlanarProbe { max_seq }, Answer::Absent) => arms::without_view(
            cache,
            run,
            max_seq,
        ),
        (Stage::UnpackValues, Answer::One(v)) => (cache, arms::after_unpack_values(run, v)),
        (Stage::PlanarValues { kv_seq }, Answer::One(v)) => (
            cache,
            arms::after_planar_values(cache, run, kv_seq, v),
        ),
        (Stage::RotorKAppend, Answer::Done) => arms::after_rotor_k_append(cache, run),
        (Stage::RotorKValues, Answer::One(v)) => (
            cache,
            arms::after_rotor_k_values(cache, run, v),
        ),
        (Stage::RotorSymAppend, Answer::Done) => arms::after_rotor_sym_append(cache, run),
        (Stage::Flash, Answer::One(out)) => (cache, arms::after_mirrored(cache, run, out)),
        (Stage::Flash, Answer::Absent) => (cache, arms::trying_fused_qk(run)),
        (Stage::FusedQk, Answer::One(out)) => (cache, arms::after_mirrored(cache, run, out)),
        (Stage::FusedQk, Answer::Absent) => (cache, arms::updating(run)),
        (Stage::MirrorK { out, v, v_stop }, Answer::One(k)) => (
            cache,
            step::asking(run, Stage::MirrorV { out, k }, Request::Slice { x: v, stop: v_stop }),
        ),
        (Stage::MirrorV { out, k }, Answer::One(v)) => (
            cache,
            step::ending(run.share, out, k, v),
        ),
        _ => (cache, step::failing(Error::Protocol)),
    }
}

/// How a step goes on with a reply: the cache takes in what the call left, and
/// the answer decides what comes next.
pub open spec fn resumed(cache: KvCache, run: Run, reply: Reply) -> (KvCache, Step) {
    answered(absorbed(cache, run.stage, reply), run, reply.answer)
}

fn start(cache: &mut KvCache, call: Call, share: Share) -> (r: Step)
    ensures
        (*final(cache), r) == starting(*old(cache), fresh(call, share)),
{
    let run: Run = Run { call, share, stage: Stage::Start };
    if cache.rotating {
        return update(&run);
    }
    match cache.storage {
        KvStorage::RotKTq4V { .. } => rot_k::start(cache, &run),
        KvStorage::Mixed { .. } => mixed::start(cache, &run),
        _ => try_planar(cache, &run),
    }
}

fn answer_step(cache: &mut KvCache, run: &Run, answer: Answer) -> (r: Step)
    ensures
        (*final(cache), r) == answered(*old(cache), *run, answer),
{
    match (run.stage, answer) {
        (Stage::RotKFwht { k, v, rotation }, Answer::Failed(_)) => rotate(run, k, v, rotation),
        (Stage::Store { path, run: inner }, _) => {
            let next = inner.resume(answer);
            follow_store(cache, run, path, next)
        },
        (Stage::Unpack { run: inner }, _) => {
            let next = cache.resume_materialise(inner, answer);
            follow_unpack(run, next)
        },
        (_, Answer::Failed(code)) => fail(Error::Outside(code)),
        (Stage::Gather { mode, .. }, Answer::Two(k, v)) => attend(
            run,
            run.call.queries.id,
            k,
            v,
            mode,
        ),
        (Stage::Attend { k, v }, Answer::One(out)) => end(run.share, out, k, v),
        (Stage::MixedFetch { params }, Answer::Mixed { k, v, rotation }) => attend_tuples(
            run,
            k,
            v,
            rotation,
            params,
        ),
        (Stage::MixedSdpa { k, v, rotation, params }, Answer::One(out)) => share_tuples(
            cache,
            run,
            out,
            k,
            v,
            rotation,
            params,
        ),
        (Stage::MixedMirror { out }, Answer::Two(k, v)) => end(run.share, out, k, v),
        (Stage::RotKUpdateK, Answer::RotK(fetch)) => follow_k(cache, run, fetch),
        (Stage::RotKHostRows { fetch }, Answer::Host(rows)) => append_v(
            cache,
            run,
            fetch,
            Some(rows),
        ),
        (Stage::RotKAppendV { fetch }, Answer::Done) => ask(
            run,
            Stage::RotKDequantV { fetch },
            Request::RotKDequantV { dtype: run.call.new_v.dtype },
        ),
        (Stage::RotKDequantV { fetch }, Answer::One(v)) => follow_v(run, fetch, v),
        (Stage::RotKDequantV { fetch }, Answer::Host(rows)) => upload(cache, run, fetch, rows),
        (Stage::RotKUpload { fetch }, Answer::One(v)) => follow_v(run, fetch, v),
        (Stage::RotKSdpa, Answer::One(out)) => Step::Done(
            Ok(Attended { out, shared: Shared::Nothing }),
        ),
        (Stage::RotKDequantK { v, rotation }, Answer::One(k)) => follow_decode(
            run,
            k,
            v,
            rotation,
        ),
        (Stage::RotKFwhtSupported { k, v, rotation }, Answer::Flag(supported)) => follow_support(
            run,
            supported,
            k,
            v,
            rotation,
        ),
        (Stage::RotKFwht { k, v, .. }, Answer::One(q)) => attend_rotated(run, q.id, k, v),
        (Stage::RotKRotate { k, v }, Answer::One(q)) => attend_rotated(run, q.id, k, v),
        (Stage::PlanarAppend { max_seq }, Answer::Done) => ask(
            run,
            Stage::PlanarProbe { max_seq },
            Request::PlanarView,
        ),
        (Stage::PlanarProbe { max_seq }, Answer::Three(_, _, _)) => follow_planar_probe(
            cache,
            run,
            max_seq,
        ),
        (Stage::PlanarProbe { max_seq }, Answer::Absent) => follow_without_view(
            cache,
            run,
            max_seq,
        ),
        (Stage::UnpackValues, Answer::One(v)) => follow_unpack_values(run, v),
        (Stage::PlanarValues { kv_seq }, Answer::One(v)) => follow_planar_values(
            cache,
            run,
            kv_seq,
            v,
        ),
        (Stage::RotorKAppend, Answer::Done) => follow_rotor_k_append(cache, run),
        (Stage::RotorKValues, Answer::One(v)) => follow_rotor_k_values(cache, run, v),
        (Stage::RotorSymAppend, Answer::Done) => follow_rotor_sym_append(cache, run),
        (Stage::Flash, Answer::One(out)) => follow_mirrored(cache, run, out),
        (Stage::Flash, Answer::Absent) => try_fused_qk(run),
        (Stage::FusedQk, Answer::One(out)) => follow_mirrored(cache, run, out),
        (Stage::FusedQk, Answer::Absent) => update(run),
        (Stage::MirrorK { out, v, v_stop }, Answer::One(k)) => ask(
            run,
            Stage::MirrorV { out, k },
            Request::Slice { x: v, stop: v_stop },
        ),
        (Stage::MirrorV { out, k }, Answer::One(v)) => end(run.share, out, k, v),
        _ => fail(Error::Protocol),
    }
}

impl KvCache {
    /// Starts the step of a layer that shares its K/V with no other layer.
    pub fn update_and_sdpa(&mut self, call: Call) -> (r: Step)
        ensures
            (*final(self), r) == starting(*old(self), fresh(call, Share::Nothing)),
    {
        start(self, call, Share::Nothing)
    }

    /// Starts the step of a producer layer whose consumers attend its store, or
    /// the bf16 K and V that the step had in hand anyway. The arms, their gates
    /// and their order are those of [`KvCache::update_and_sdpa`].
    pub fn update_and_sdpa_shared_source(&mut self, call: Call) -> (r: Step)
        ensures
            (*final(self), r) == starting(*old(self), fresh(call, Share::Source)),
    {
        start(self, call, Share::Source)
    }

    /// Starts the step of a producer layer whose consumers attend the affine
    /// tuples, or bf16 K and V.
    pub fn update_and_sdpa_returning_shared_kv(&mut self, call: Call) -> (r: Step)
        ensures
            (*final(self), r) == starting(*old(self), fresh(call, Share::Out)),
    {
        start(self, call, Share::Out)
    }

    /// Starts a mixed-precision step, on whatever cache.
    pub fn update_and_sdpa_mixed(&mut self, call: Call) -> (r: Step)
        ensures
            (*final(self), r) == mixed::starting(*old(self), fresh(call, Share::Nothing)),
    {
        let run: Run = Run { call, share: Share::Nothing, stage: Stage::Start };
        mixed::start(self, &run)
    }

    /// Goes on with the reply to the request that a step asked last.
    pub fn resume(&mut self, run: Run, reply: Reply) -> (r: Step)
        ensures
            (*final(self), r) == resumed(*old(self), run, reply),
    {
        match reply.answer {
            Answer::Absent => {},
            _ => self.absorb(&reply.cache, run.stage.effect_of()),
        }
        answer_step(self, &run, reply.answer)
    }
}

} // verus!
