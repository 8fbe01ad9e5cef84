//! Where a step starts, told by the ring, the storage, the prefill, the switches
//! and the shapes of the call; and what a cache takes over of each runtime call.
use vstd::prelude::*;

use crate::error::{Axis, Error, Expected, Fused, Side};
use crate::kvcache::request::{Call, KvCache, Reply, Request};
use crate::kvcache::step::{Run, Share, Stage, Step};
use crate::kvcache::storage::{KvStorage, RotorKStore};
use crate::kvcache::{arms, gate, laws, mirror, sdpa, storage};
use crate::tensor::{Device, Dims, Shape, Tensor};

verus! {

/// The request that a step asks, where it asks one.
pub open spec fn request_of(now: Step) -> Option<Request> {
    match now {
        Step::Ask { request, .. } => Some(request),
        Step::Done(_) => None,
    }
}

/// The error that a step ended in, where it ended in one.
pub open spec fn error_of(now: Step) -> Option<Error> {
    match now {
        Step::Done(Err(e)) => Some(e),
        _ => None,
    }
}

/// Whether the new positions of a call can be counted behind those of a cache.
pub open spec fn room_for(cache: KvCache, call: Call) -> bool {
    i32::MIN <= cache.offset + call.new_k.shape.d2 <= i32::MAX
}

/// Whether a call brings the queries of a single position to the GPU.
pub open spec fn one_query_on_gpu(call: Call) -> bool {
    call.device == Device::Gpu && call.queries.shape.rank >= 3 && call.queries.shape.d2 == 1
}

/// Whether a rotor store packs, or would be made to pack, without the residual
/// sideband.
pub open spec fn without_sideband(k: Option<RotorKStore>, call: Call) -> bool {
    match k {
        Some(store) => !store.use_qjl,
        None => !call.toggles.rotor_qjl,
    }
}

/// Whether a K of this shape goes into a rotor ring.
pub open spec fn fits_ring(shape: Shape) -> bool {
    &&& shape.rank == 4
    &&& shape.d0 == 1
    &&& shape.d1 > 0
    &&& (shape.d3 == 1 || shape.d3 == 2 || shape.d3 == 4 || shape.d3 == 8 || shape.d3 == 16
        || shape.d3 == 32 || shape.d3 == 64 || shape.d3 == 128 || shape.d3 == 256 || shape.d3
        == 512)
}

/// The store of the rotor K ring of a cache, where it holds a ring of K alone.
pub open spec fn k_ring(storage: KvStorage) -> Option<(u8, Option<RotorKStore>)> {
    match storage {
        KvStorage::RotorKOnly3 { k, .. } => Some((3, k)),
        KvStorage::RotorKOnly4 { k, .. } => Some((4, k)),
        _ => None,
    }
}

/// The K store of the two rotor rings of a cache, where it holds two.
pub open spec fn kv_rings(storage: KvStorage) -> Option<(u8, Option<RotorKStore>)> {
    match storage {
        KvStorage::RotorSym3 { k, .. } => Some((3, k)),
        KvStorage::RotorSym4 { k, .. } => Some((4, k)),
        _ => None,
    }
}

/// A ring over a sliding window goes through the codec's own update, and no other
/// cache starts with it.
pub proof fn law_ring_starts_with_update(cache: KvCache, call: Call, share: Share)
    ensures
        ({
            let (c, now) = sdpa::starting(cache, sdpa::fresh(call, share));
            &&& (request_of(now) matches Some(r) && r is Update) <==> cache.rotating
            &&& cache.rotating ==> c == cache && request_of(now) == Some(
                Request::Update { new_k: call.new_k.id, new_v: call.new_v.id },
            )
        }),
{
}

/// The two affine storages count the new positions first, and only then gather the
/// open prefill, or append to the store that they attend. Nothing else starts in
/// these three ways. New K without a sequence axis, and positions that cannot be
/// counted, end the step with the cache as it was.
pub proof fn law_affine_step_starts(cache: KvCache, call: Call, share: Share)
    ensures
        ({
            let (c, now) = sdpa::starting(cache, sdpa::fresh(call, share));
            let mixed = !cache.rotating && cache.storage is Mixed;
            let rotated = !cache.rotating && cache.storage is RotKTq4V;
            let counted = call.new_k.shape.rank >= 3 && room_for(cache, call);
            &&& (request_of(now) matches Some(r) && r is PrefillRaw) <==> (mixed || rotated)
                && cache.in_prefill && counted
            &&& (request_of(now) matches Some(r) && r is MixedUpdateAndFetch) <==> mixed
                && !cache.in_prefill && counted
            &&& (request_of(now) matches Some(r) && r is RotKUpdateK) <==> rotated
                && !cache.in_prefill && counted
            &&& mixed || rotated ==> {
                &&& counted ==> c == (KvCache {
                    offset: (cache.offset + call.new_k.shape.d2) as i32,
                    ..cache
                })
                &&& !counted ==> c == cache && error_of(now) == Some(
                    if call.new_k.shape.rank < 3 {
                        Error::NoStepAxis { shape: call.new_k.shape }
                    } else {
                        Error::OffsetOverflow { offset: cache.offset, new_seq: call.new_k.shape.d2 }
                    },
                )
            }
        }),
{
}

/// Packed K is appended to exactly where its kernel is switched on, the queries
/// of a single position are on the GPU, no unquantized K seed is live and the
/// step does not share affine tuples. An empty store is made first, of the length
/// that was provisioned.
pub proof fn law_packed_k_step_starts(cache: KvCache, call: Call, share: Share)
    ensures
        ({
            let (c, now) = sdpa::starting(cache, sdpa::fresh(call, share));
            let open = {
                &&& !cache.rotating
                &&& cache.storage is PlanarK
                &&& !(share is Out)
                &&& call.toggles.planar_fused_qk
                &&& one_query_on_gpu(call)
                &&& cache.decode_fp16_k is None
            };
            &&& (request_of(now) matches Some(r) && r is PlanarAppend) <==> open
                && call.new_k.shape.rank >= 3
            &&& open ==> c == cache
            &&& open && call.new_k.shape.rank < 3 ==> error_of(now) == Some(
                Error::NoStepAxis { shape: call.new_k.shape },
            )
            &&& open && call.new_k.shape.rank >= 3 ==> (cache.storage matches KvStorage::PlanarK {
                k,
                max_seq,
            } && request_of(now) == Some(
                Request::PlanarAppend {
                    new_k: call.new_k.id,
                    shape: call.new_k.shape,
                    fresh: k is None,
                    max_seq,
                },
            ))
        }),
{
}

/// A rotor K ring is encoded into exactly where it packs without the sideband,
/// the queries of a single position are on the GPU, the step does not share
/// affine tuples and the shape of K is one that the kernel serves. K of another
/// rank ends the step there.
pub proof fn law_rotor_k_step_starts(cache: KvCache, call: Call, share: Share)
    ensures
        ({
            let (c, now) = sdpa::starting(cache, sdpa::fresh(call, share));
            let open = {
                &&& !cache.rotating
                &&& !(share is Out)
                &&& one_query_on_gpu(call)
                &&& k_ring(cache.storage) matches Some((_, k)) && without_sideband(k, call)
            };
            &&& (request_of(now) matches Some(r) && r is RotorKAppend) <==> open && fits_ring(
                call.new_k.shape,
            )
            &&& open ==> c == cache
            &&& open && call.new_k.shape.rank != 4 ==> error_of(now) == Some(
                Error::NewKRank { path: Fused::RotorK, shape: call.new_k.shape },
            )
            &&& open && fits_ring(call.new_k.shape) ==> (k_ring(cache.storage) matches Some((bits, _))
                && request_of(now) == Some(
                Request::RotorKAppend { bits, new_k: call.new_k.id, shape: call.new_k.shape },
            ))
        }),
{
    gate::law_rotor_shapes(call.new_k.shape);
}

/// Both rotor rings are encoded into exactly where they pack without the
/// sideband, the queries of a single position are on the GPU, the step does not
/// share affine tuples and the shape of K is one that the kernel serves. The
/// element type of V is recorded first. K of another rank ends the step there.
pub proof fn law_rotor_sym_step_starts(cache: KvCache, call: Call, share: Share)
    ensures
        ({
            let (c, now) = sdpa::starting(cache, sdpa::fresh(call, share));
            let open = {
                &&& !cache.rotating
                &&& !(share is Out)
                &&& one_query_on_gpu(call)
                &&& kv_rings(cache.storage) matches Some((_, k)) && without_sideband(k, call)
            };
            &&& (request_of(now) matches Some(r) && r is RotorSymAppend) <==> open && fits_ring(
                call.new_k.shape,
            )
            &&& open && call.new_k.shape.rank != 4 ==> c == cache && error_of(now) == Some(
                Error::NewKRank { path: Fused::RotorSym, shape: call.new_k.shape },
            )
            &&& open && fits_ring(call.new_k.shape) ==> {
                &&& c == (KvCache { stream_dtype: Some(call.new_v.dtype), ..cache })
                &&& kv_rings(cache.storage) matches Some((bits, _)) && request_of(now) == Some(
                    Request::RotorSymAppend {
                        bits,
                        new_k: call.new_k.id,
                        new_v: call.new_v.id,
                        shape: call.new_k.shape,
                    },
                )
            }
        }),
{
    gate::law_rotor_shapes(call.new_k.shape);
}

/// Every other step starts with the flash kernel, on the cache as it was: it is
/// neither on a ring nor over an affine storage, and none of the stores takes it
/// or turns it down.
pub proof fn law_other_step_starts_with_flash(cache: KvCache, call: Call, share: Share)
    requires
        !cache.rotating,
        !(cache.storage is Mixed),
        !(cache.storage is RotKTq4V),
    ensures
        ({
            let (c, now) = sdpa::starting(cache, sdpa::fresh(call, share));
            let packed = cache.storage is PlanarK && call.toggles.planar_fused_qk
                && cache.decode_fp16_k is None;
            let ring = k_ring(cache.storage) matches Some((_, k)) && without_sideband(k, call);
            let rings = kv_rings(cache.storage) matches Some((_, k)) && without_sideband(k, call);
            let served = call.new_k.shape.rank != 4 || fits_ring(call.new_k.shape);
            let taken = !(share is Out) && one_query_on_gpu(call) && (packed || ((ring || rings)
                && served));
            &&& (request_of(now) matches Some(r) && r is Flash) <==> !taken
            &&& !taken ==> c == cache && request_of(now) == Some(
                Request::Flash {
                    lock: share is Nothing,
                    queries: call.queries.id,
                    new_k: call.new_k.id,
                    new_v: call.new_v.id,
                    scale: call.scale,
                    mask: call.mask,
                },
            )
        }),
{
    gate::law_rotor_shapes(call.new_k.shape);
}

/// What a cache takes over of a runtime call that was not turned down. A call that
/// advances on its own writes the storage, the mirrors and the offset; an append to
/// a store the storage alone; an append to a mirror that mirror alone. Whether the
/// K/V survive a spill goes with the storage. Every other call only reads.
pub proof fn law_cache_takes_over_what_was_written(cache: KvCache, run: Run, reply: Reply)
    requires
        !(reply.answer is Absent),
    ensures
        ({
            let after = laws::turn(cache, run, reply).0;
            let took = reply.cache;
            let whole = match run.stage {
                Stage::Gather { own_offset, .. } => own_offset,
                _ => run.stage is Flash || run.stage is FusedQk,
            };
            let store = whole || run.stage is MixedFetch || run.stage is RotKUpdateK
                || run.stage is RotKAppendV || run.stage is PlanarAppend
                || run.stage is RotorKAppend || run.stage is RotorSymAppend;
            let both = whole || run.stage is Gather || run.stage is MixedMirror;
            let values = both || run.stage is PlanarValues || run.stage is UnpackValues
                || run.stage is RotorKValues;
            &&& after.storage == if store {
                took.storage
            } else {
                cache.storage
            }
            &&& after.persistent == if store {
                took.persistent
            } else {
                cache.persistent
            }
            &&& after.decode_fp16_k == if both {
                took.decode_fp16_k
            } else {
                cache.decode_fp16_k
            }
            &&& after.decode_fp16_v == if values {
                took.decode_fp16_v
            } else {
                cache.decode_fp16_v
            }
            &&& whole ==> after.offset == took.offset
        }),
{
    reveal(laws::turn);
}

/// A call that turned a step down has written nothing, whatever cache is handed
/// back with it.
pub proof fn law_cache_ignores_a_call_turned_down(cache: KvCache, run: Run, reply: Reply)
    requires
        reply.answer is Absent,
    ensures
        ({
            let after = laws::turn(cache, run, reply).0;
            after == KvCache { offset: after.offset, ..cache }
        }),
        !(run.stage is PlanarProbe) ==> laws::turn(cache, run, reply).0 == cache,
{
    reveal(laws::turn);
}

/// The length that a store holds is its third extent: that of packed K, that of a
/// rotor K store, and that of both rotor stores, which must agree on it. Without a
/// live store, and without a third extent, there is no length.
pub proof fn law_held_length_is_the_third_extent(cache: KvCache, n: i32)
    ensures
        arms::held(Fused::PlanarK, cache) == Ok::<i32, Error>(n) <==> (cache.storage
            matches KvStorage::PlanarK { k: Some(s), .. } && s.rank >= 3 && s.d2 == n),
        arms::held(Fused::RotorK, cache) == Ok::<i32, Error>(n) <==> (k_ring(cache.storage)
            matches Some((_, Some(k))) && k.shape.rank >= 3 && k.shape.d2 == n),
        arms::held(Fused::RotorSym, cache) == Ok::<i32, Error>(n) <==> match cache.storage {
            KvStorage::RotorSym3 { k: Some(k), v: Some(v), .. } => k.shape.rank >= 3 && v.rank >= 3
                && k.shape.d2 == n && v.d2 == n,
            KvStorage::RotorSym4 { k: Some(k), v: Some(v), .. } => k.shape.rank >= 3 && v.rank >= 3
                && k.shape.d2 == n && v.d2 == n,
            _ => false,
        },
{
}

/// Why a store has no length: there is no live store of the path, one of its
/// shapes has no third extent, K first, or the two stores differ in it.
pub proof fn law_missing_length_is_explained(cache: KvCache)
    ensures
        !(cache.storage matches KvStorage::PlanarK { k: Some(_), .. }) ==> arms::held(
            Fused::PlanarK,
            cache,
        ) == Err::<i32, Error>(
            Error::KvStorageMismatch {
                expected: Expected::PlanarKLive,
                got: cache.storage.spec_kind(),
            },
        ),
        cache.storage matches KvStorage::PlanarK { k: Some(s), .. } ==> s.rank < 3 ==> arms::held(
            Fused::PlanarK,
            cache,
        ) == Err::<i32, Error>(Error::NoSeqAxis { path: Fused::PlanarK, side: Side::K, shape: s }),
        !(k_ring(cache.storage) matches Some((_, Some(_)))) ==> arms::held(Fused::RotorK, cache)
            == Err::<i32, Error>(
            Error::KvStorageMismatch {
                expected: Expected::RotorKOnlyLive,
                got: cache.storage.spec_kind(),
            },
        ),
        k_ring(cache.storage) matches Some((_, Some(k))) ==> k.shape.rank < 3 ==> arms::held(
            Fused::RotorK,
            cache,
        ) == Err::<i32, Error>(
            Error::NoSeqAxis { path: Fused::RotorK, side: Side::K, shape: k.shape },
        ),
        match cache.storage {
            KvStorage::RotorSym3 { k: Some(k), v: Some(v), .. } => rings_explained(cache, k, v),
            KvStorage::RotorSym4 { k: Some(k), v: Some(v), .. } => rings_explained(cache, k, v),
            _ => arms::held(Fused::RotorSym, cache) == Err::<i32, Error>(
                Error::KvStorageMismatch {
                    expected: Expected::RotorSymLiveKv,
                    got: cache.storage.spec_kind(),
                },
            ),
        },
{
}

/// Why two live rotor stores have no length.
pub open spec fn rings_explained(cache: KvCache, k: RotorKStore, v: Shape) -> bool {
    let held = arms::held(Fused::RotorSym, cache);
    let path = Fused::RotorSym;
    &&& k.shape.rank < 3 ==> held == Err::<i32, Error>(
        Error::NoSeqAxis { path, side: Side::K, shape: k.shape },
    )
    &&& k.shape.rank >= 3 && v.rank < 3 ==> held == Err::<i32, Error>(
        Error::NoSeqAxis { path, side: Side::V, shape: v },
    )
    &&& k.shape.rank >= 3 && v.rank >= 3 && k.shape.d2 != v.d2 ==> held == Err::<i32, Error>(
        Error::AxesDiverge { k_seq: k.shape.d2, v_seq: v.d2 },
    )
}

/// A window of the V mirror is the mirror itself up to the length asked for, on
/// all its other extents, and there is one exactly where the mirror is of rank
/// four and reaches that far.
pub proof fn law_value_window_is_a_prefix(cache: KvCache, kv_seq: i32)
    ensures
        match cache.decode_fp16_v {
            None => mirror::value_window(cache, kv_seq) == Err::<mirror::Window, Error>(
                Error::ShareMirrorMissing,
            ),
            Some(v) => match mirror::value_window(cache, kv_seq) {
                Ok(w) => {
                    &&& v.shape.rank == 4
                    &&& kv_seq <= v.shape.d2
                    &&& w.x == v.id
                    &&& w.stop == Dims::D4(v.shape.d0, v.shape.d1, kv_seq, v.shape.d3)
                },
                Err(e) => {
                    ||| v.shape.rank != 4 && e == (Error::ShareMirrorRank { shape: v.shape })
                    ||| v.shape.rank == 4 && kv_seq > v.shape.d2 && e == (
                    Error::ShareExceedsMirror { kv_seq, v_seq: v.shape.d2 })
                },
            },
        },
{
}

/// Whether a mirror and a tensor of the step are alike but for their length.
pub open spec fn alike_but_length(mirror: Shape, step: Shape) -> bool {
    step.rank != 4 || (mirror.d0 == step.d0 && mirror.d1 == step.d1 && mirror.d3 == step.d3)
}

/// The windows of both mirrors are the mirrors themselves up to the offset, each
/// on its own extents, and there are two exactly where both mirrors are of rank
/// four, reach the offset and are alike the tensors of the step but for their
/// length.
pub proof fn law_mirror_windows_are_prefixes(cache: KvCache, new_k: Tensor, new_v: Tensor)
    ensures
        match (cache.decode_fp16_k, cache.decode_fp16_v) {
            (Some(k), Some(v)) => {
                let fit = {
                    &&& k.shape.rank == 4
                    &&& v.shape.rank == 4
                    &&& alike_but_length(k.shape, new_k.shape)
                    &&& alike_but_length(v.shape, new_v.shape)
                    &&& cache.offset <= k.shape.d2
                    &&& cache.offset <= v.shape.d2
                };
                &&& fit ==> (mirror::consumer_windows(cache, new_k, new_v) matches Ok((kw, vw)) && {
                    &&& kw.x == k.id
                    &&& kw.stop == Dims::D4(k.shape.d0, k.shape.d1, cache.offset, k.shape.d3)
                    &&& vw.x == v.id
                    &&& vw.stop == Dims::D4(v.shape.d0, v.shape.d1, cache.offset, v.shape.d3)
                })
                &&& !fit ==> mirror::consumer_windows(cache, new_k, new_v) is Err
            },
            (None, _) => mirror::consumer_windows(cache, new_k, new_v) == Err::<
                (mirror::Window, mirror::Window),
                Error,
            >(Error::MirrorMissing { side: Side::K }),
            (_, None) => mirror::consumer_windows(cache, new_k, new_v) == Err::<
                (mirror::Window, mirror::Window),
                Error,
            >(Error::MirrorMissing { side: Side::V }),
        },
{
}

/// Mirrors that do not fit a step are told by what is wrong with them: their rank,
/// an axis on which one of them differs from the step, K before V, or their length.
pub proof fn law_unfit_mirrors_are_explained(
    cache: KvCache,
    new_k: Tensor,
    new_v: Tensor,
    k: Tensor,
    v: Tensor,
)
    requires
        cache.decode_fp16_k == Some(k),
        cache.decode_fp16_v == Some(v),
    ensures
        mirror::consumer_windows(cache, new_k, new_v) matches Err(e) ==> match e {
            Error::MirrorRank { k: ks, v: vs } => {
                &&& k.shape.rank != 4 || v.shape.rank != 4
                &&& ks == k.shape
                &&& vs == v.shape
            },
            Error::MirrorAxis { side, axis, mirror: m, step: s } => {
                let (held, new) = if side is K {
                    (k.shape, new_k.shape)
                } else {
                    (v.shape, new_v.shape)
                };
                &&& new.rank == 4
                &&& m != s
                &&& side is V ==> alike_but_length(k.shape, new_k.shape)
                &&& match axis {
                    Axis::Batch => m == held.d0 && s == new.d0,
                    Axis::Heads => m == held.d1 && s == new.d1,
                    Axis::HeadDim => m == held.d3 && s == new.d3,
                }
            },
            Error::OffsetExceedsMirror { offset, k_seq, v_seq } => {
                &&& offset == cache.offset
                &&& k_seq == k.shape.d2
                &&& v_seq == v.shape.d2
                &&& offset > k_seq || offset > v_seq
            },
            _ => false,
        },
{
}

/// A storage is told by its own name, which no other storage has.
pub proof fn law_storage_kind_is_its_name(a: KvStorage, b: KvStorage)
    ensures
        !(a is Plain) && !(b is Plain) ==> (a.spec_kind() == b.spec_kind() <==> {
            ||| a is Mixed && b is Mixed
            ||| a is RotKTq4V && b is RotKTq4V
            ||| a is PlanarK && b is PlanarK
            ||| a is RotorKOnly3 && b is RotorKOnly3
            ||| a is RotorKOnly4 && b is RotorKOnly4
            ||| a is RotorSym3 && b is RotorSym3
            ||| a is RotorSym4 && b is RotorSym4
        }),
        a matches KvStorage::Plain(kind) ==> a.spec_kind() == kind,
        a is Mixed ==> a.spec_kind() == storage::StorageKind::Mixed,
        a is RotKTq4V ==> a.spec_kind() == storage::StorageKind::RotKTq4V,
        a is PlanarK ==> a.spec_kind() == storage::StorageKind::PlanarK,
        a is RotorKOnly3 ==> a.spec_kind() == storage::StorageKind::RotorKOnly3,
        a is RotorKOnly4 ==> a.spec_kind() == storage::StorageKind::RotorKOnly4,
        a is RotorSym3 ==> a.spec_kind() == storage::StorageKind::RotorSym3,
        a is RotorSym4 ==> a.spec_kind() == storage::StorageKind::RotorSym4,
{
}

/// Answers of a kind that nothing asks for end a step.
pub proof fn law_stray_answer_ends_a_step(cache: KvCache, run: Run, reply: Reply)
    requires
        reply.answer is Flag,
        !(run.stage is RotKFwhtSupported),
    ensures
        laws::turn(cache, run, reply).1 == Step::Done(Err(Error::Protocol)),
{
    reveal(laws::turn);
}

} // verus!
