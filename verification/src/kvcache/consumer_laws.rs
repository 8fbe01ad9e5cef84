//! What a consumer asks for and comes to, and how a share that lives in its store
//! is turned into tensors, told by the cache and the answers.
use vstd::prelude::*;

use crate::error::{Error, Fused, Side};
use crate::kvcache::consumer::ConsumerStep;
use crate::kvcache::materialise::TensorsStep;
use crate::kvcache::over_store::{StoreCall, StoreStep};
use crate::kvcache::request::{Answer, KvCache, Request};
use crate::kvcache::storage::KvStorage;
use crate::kvcache::{
    arms, attend_laws, consumer, materialise, over_store, route_laws, share_laws, store_laws,
};
use crate::tensor::{Dims, Dtype, Shape, Tensor};

verus! {

/// A consumer at its store does what the run over the store does.
proof fn lemma_follows_store(cache: KvCache, inner: StoreStep, answers: Seq<Answer>)
    ensures
        attend_laws::consumer_asked(cache, consumer::following(inner), answers)
            == store_laws::store_asked(inner, answers),
        share_laws::play_consumer(cache, consumer::following(inner), answers)
            == consumer::following(store_laws::play_store(inner, answers)),
    decreases answers.len(),
{
    match inner {
        StoreStep::Ask { run, .. } if answers.len() > 0 => {
            lemma_follows_store(cache, run.next(answers[0]), answers.drop_first());
        },
        _ => {},
    }
}

/// Whether a consumer stands where a run over a store does.
pub open spec fn stands_with(now: ConsumerStep, run: StoreStep) -> bool {
    match (now, run) {
        (ConsumerStep::Ask { request: a, .. }, StoreStep::Ask { request: b, .. }) => a == b,
        (ConsumerStep::Done(a), StoreStep::Done(b)) => a == b,
        _ => false,
    }
}

/// A consumer over packed K or a rotor K ring first cuts the V mirror to the length
/// that the producer reported, on all its other extents, and then attends the store
/// together with that V, as the producer did.
pub proof fn law_consumer_of_a_k_store(
    cache: KvCache,
    call: StoreCall,
    mirror: Tensor,
    v: Tensor,
    answers: Seq<Answer>,
)
    requires
        cache.storage is PlanarK || cache.storage is RotorKOnly3 || cache.storage is RotorKOnly4,
        match cache.storage {
            KvStorage::PlanarK { k: Some(s), .. } => s.rank >= 3 && s.d2 == call.kv_seq,
            KvStorage::RotorKOnly3 { k: Some(s), .. } => s.shape.rank >= 3 && s.shape.d2
                == call.kv_seq,
            KvStorage::RotorKOnly4 { k: Some(s), .. } => s.shape.rank >= 3 && s.shape.d2
                == call.kv_seq,
            _ => false,
        },
        cache.decode_fp16_v == Some(mirror),
        mirror.shape.rank == 4,
        call.kv_seq <= mirror.shape.d2,
        answers.len() > 0,
        answers[0] == Answer::One(v),
    ensures
        ({
            let run = if cache.storage is PlanarK {
                over_store::planar_begin(cache, call, v)
            } else {
                over_store::rotor_k_begin(cache, call, v)
            };
            let start = consumer::starting(cache, call);
            let rest = answers.drop_first();
            &&& attend_laws::consumer_asked(cache, start, answers) == seq![
                Request::Slice {
                    x: mirror.id,
                    stop: Dims::D4(
                        mirror.shape.d0,
                        mirror.shape.d1,
                        call.kv_seq,
                        mirror.shape.d3,
                    ),
                },
            ] + store_laws::store_asked(run, rest)
            &&& stands_with(
                share_laws::play_consumer(cache, start, answers),
                store_laws::play_store(run, rest),
            )
        }),
{
    let run = if cache.storage is PlanarK {
        over_store::planar_begin(cache, call, v)
    } else {
        over_store::rotor_k_begin(cache, call, v)
    };
    route_laws::law_held_length_is_the_third_extent(cache, call.kv_seq);
    lemma_follows_store(cache, run, answers.drop_first());
}

/// A consumer over both rotor rings attends them at once, as the producer did: the
/// rings hold V as well.
pub proof fn law_consumer_of_both_rings(
    cache: KvCache,
    call: StoreCall,
    bits: u8,
    k: crate::kvcache::storage::RotorKStore,
    v: Shape,
    max_seq: i32,
    answers: Seq<Answer>,
)
    requires
        bits == 3 || bits == 4,
        cache.storage == store_laws::rotor_rings(bits, Some(k), Some(v), max_seq),
        k.shape.rank >= 3,
        v.rank >= 3,
        k.shape.d2 == call.kv_seq,
        v.d2 == call.kv_seq,
    ensures
        ({
            let run = over_store::rotor_sym_begin(cache, call);
            let start = consumer::starting(cache, call);
            &&& attend_laws::consumer_asked(cache, start, answers) == store_laws::store_asked(
                run,
                answers,
            )
            &&& stands_with(
                share_laws::play_consumer(cache, start, answers),
                store_laws::play_store(run, answers),
            )
        }),
{
    route_laws::law_held_length_is_the_third_extent(cache, call.kv_seq);
    lemma_follows_store(cache, over_store::rotor_sym_begin(cache, call), answers);
}

/// A consumer is turned away where no kernel attends the storage, where the store
/// has no length, and where the length that the producer reported is another.
pub proof fn law_consumer_is_turned_away(cache: KvCache, call: StoreCall, n: i32, e: Error)
    ensures
        !(cache.storage is PlanarK || cache.storage is RotorKOnly3 || cache.storage is RotorKOnly4
            || cache.storage is RotorSym3 || cache.storage is RotorSym4) ==> consumer::starting(
            cache,
            call,
        ) == ConsumerStep::Done(Err(Error::NoConsumerPath { got: cache.storage.spec_kind() })),
        forall|path: Fused|
            path_of(cache.storage, path) && #[trigger] arms::held(path, cache) == Ok::<i32, Error>(
                n,
            ) && n != call.kv_seq ==> consumer::starting(cache, call) == ConsumerStep::Done(
                Err(Error::SharedLenDesync { reported: call.kv_seq, actual: n }),
            ),
        forall|path: Fused|
            path_of(cache.storage, path) && #[trigger] arms::held(path, cache) == Err::<i32, Error>(
                e,
            ) ==> consumer::starting(cache, call) == ConsumerStep::Done(Err(e)),
{
}

/// The path of a storage.
pub open spec fn path_of(storage: KvStorage, path: Fused) -> bool {
    match path {
        Fused::PlanarK => storage is PlanarK,
        Fused::RotorK => storage is RotorKOnly3 || storage is RotorKOnly4,
        Fused::RotorSym => storage is RotorSym3 || storage is RotorSym4,
    }
}

/// The requests of a materialisation that were answered, in order.
pub open spec fn tensors_asked(cache: KvCache, now: TensorsStep, answers: Seq<Answer>) -> Seq<
    Request,
>
    decreases answers.len(),
{
    match now {
        TensorsStep::Ask { run, request } if answers.len() > 0 => seq![request] + tensors_asked(
            cache,
            materialise::resumed(cache, run, answers[0]),
            answers.drop_first(),
        ),
        _ => Seq::empty(),
    }
}

/// Decoded K beside V, with K brought to the element type of V where it has another.
pub open spec fn cast_answers(k: Tensor, v: Tensor, cast: Tensor) -> Seq<Answer> {
    if k.dtype == v.dtype {
        Seq::empty()
    } else {
        seq![Answer::One(cast)]
    }
}

/// A share over packed K or a rotor K ring, as tensors: the V mirror cut to the
/// reported length, and K decoded whole, in the element type of that V. Packed K
/// may come over host rows, which are brought back in the shape of its store.
pub proof fn law_k_store_as_tensors(
    cache: KvCache,
    kv_len: i32,
    mirror: Tensor,
    v: Tensor,
    rows: Option<u64>,
    k: Tensor,
    cast: Tensor,
)
    requires
        match cache.storage {
            KvStorage::PlanarK { k: Some(s), .. } => s.rank >= 3 && s.d2 == kv_len,
            KvStorage::RotorKOnly3 { k: Some(s), .. } => s.shape.rank >= 3 && s.shape.d2 == kv_len,
            KvStorage::RotorKOnly4 { k: Some(s), .. } => s.shape.rank >= 3 && s.shape.d2 == kv_len,
            _ => false,
        },
        rows is Some ==> cache.storage is PlanarK,
        cache.decode_fp16_v == Some(mirror),
        mirror.shape.rank == 4,
        kv_len <= mirror.shape.d2,
        cast.dtype == v.dtype,
    ensures
        ({
            let now = materialise::starting(cache, kv_len);
            let keys = match rows {
                Some(r) => seq![Answer::Host(r), Answer::One(k)],
                None => seq![Answer::One(k)],
            };
            let answers = seq![Answer::One(v)] + keys + cast_answers(k, v, cast);
            let asked = tensors_asked(cache, now, answers);
            let at: int = if rows is Some {
                1
            } else {
                0
            };
            &&& asked.len() == answers.len()
            &&& asked[0] == (Request::Slice {
                x: mirror.id,
                stop: Dims::D4(mirror.shape.d0, mirror.shape.d1, kv_len, mirror.shape.d3),
            })
            &&& asked[1] == if cache.storage is PlanarK {
                Request::PlanarDequantK { dtype: v.dtype }
            } else {
                Request::DequantStore { side: Side::K }
            }
            &&& rows matches Some(r) ==> (cache.storage matches KvStorage::PlanarK { k: Some(s), .. }
                && asked[2] == (Request::UploadWide { rows: r, shape: s }))
            &&& k.dtype != v.dtype ==> asked[2 + at] == (Request::Astype { x: k.id, dtype: v.dtype })
            &&& share_laws::play_tensors(cache, now, answers) == TensorsStep::Done(
                Ok(
                    (
                        if k.dtype == v.dtype {
                            k
                        } else {
                            cast
                        },
                        v,
                    ),
                ),
            )
        }),
{
    reveal_with_fuel(share_laws::play_tensors, 5);
    reveal_with_fuel(tensors_asked, 5);
    route_laws::law_held_length_is_the_third_extent(cache, kv_len);
    let keys = match rows {
        Some(r) => seq![Answer::Host(r), Answer::One(k)],
        None => seq![Answer::One(k)],
    };
    let answers = seq![Answer::One(v)] + keys + cast_answers(k, v, cast);
    let a1 = answers.drop_first();
    let a2 = a1.drop_first();
    let a3 = a2.drop_first();
    assert(a1[0] == answers[1]);
    if answers.len() > 2 {
        assert(a2[0] == answers[2]);
    }
    if answers.len() > 3 {
        assert(a3[0] == answers[3]);
    }
}

/// A share over both rotor rings, as tensors: K and V decoded whole, each off its
/// own store, K first, and both brought to the element type that was recorded at
/// the append, V first, where they have another.
pub proof fn law_both_rings_as_tensors(
    cache: KvCache,
    kv_len: i32,
    bits: u8,
    ks: crate::kvcache::storage::RotorKStore,
    vs: Shape,
    max_seq: i32,
    stream: Dtype,
    k: Tensor,
    v: Tensor,
    cast_k: Tensor,
    cast_v: Tensor,
)
    requires
        bits == 3 || bits == 4,
        cache.storage == store_laws::rotor_rings(bits, Some(ks), Some(vs), max_seq),
        ks.shape.rank >= 3,
        vs.rank >= 3,
        ks.shape.d2 == kv_len,
        vs.d2 == kv_len,
        cache.stream_dtype == Some(stream),
        cast_k.dtype == stream,
        cast_v.dtype == stream,
    ensures
        ({
            let now = materialise::starting(cache, kv_len);
            let answers = seq![Answer::One(k), Answer::One(v)] + (if v.dtype == stream {
                Seq::empty()
            } else {
                seq![Answer::One(cast_v)]
            }) + (if k.dtype == stream {
                Seq::empty()
            } else {
                seq![Answer::One(cast_k)]
            });
            let asked = tensors_asked(cache, now, answers);
            let at: int = if v.dtype == stream {
                0
            } else {
                1
            };
            &&& asked.len() == answers.len()
            &&& asked[0] == (Request::DequantStore { side: Side::K })
            &&& asked[1] == (Request::DequantStore { side: Side::V })
            &&& v.dtype != stream ==> asked[2] == (Request::Astype { x: v.id, dtype: stream })
            &&& k.dtype != stream ==> asked[2 + at] == (Request::Astype { x: k.id, dtype: stream })
            &&& share_laws::play_tensors(cache, now, answers) == TensorsStep::Done(
                Ok(
                    (
                        if k.dtype == stream {
                            k
                        } else {
                            cast_k
                        },
                        if v.dtype == stream {
                            v
                        } else {
                            cast_v
                        },
                    ),
                ),
            )
        }),
{
    reveal_with_fuel(share_laws::play_tensors, 5);
    reveal_with_fuel(tensors_asked, 5);
    route_laws::law_held_length_is_the_third_extent(cache, kv_len);
    let answers = seq![Answer::One(k), Answer::One(v)] + (if v.dtype == stream {
        Seq::empty()
    } else {
        seq![Answer::One(cast_v)]
    }) + (if k.dtype == stream {
        Seq::empty()
    } else {
        seq![Answer::One(cast_k)]
    });
    let a1 = answers.drop_first();
    let a2 = a1.drop_first();
    let a3 = a2.drop_first();
    assert(a1[0] == answers[1]);
    if answers.len() > 2 {
        assert(a2[0] == answers[2]);
    }
    if answers.len() > 3 {
        assert(a3[0] == answers[3]);
    }
}

/// What keeps a share from being turned into tensors: a storage without live stores
/// to decode, a length other than the one reported, and, without a mirror, an
/// element type that was never recorded.
pub proof fn law_tensors_are_refused(cache: KvCache, kv_len: i32, n: i32, k: Tensor, v: Tensor)
    ensures
        !live(cache.storage) ==> materialise::starting(cache, kv_len) == TensorsStep::Done(
            Err(Error::NoStoreBackedShare { got: cache.storage.spec_kind() }),
        ),
        forall|path: Fused|
            live(cache.storage) && path_of(cache.storage, path) && #[trigger] arms::held(path, cache)
                == Ok::<i32, Error>(n) && n != kv_len ==> materialise::starting(cache, kv_len)
                == TensorsStep::Done(Err(Error::SharedLenDesync { reported: kv_len, actual: n })),
        (cache.storage is RotorSym3 || cache.storage is RotorSym4) && cache.stream_dtype is None
            && materialise::starting(cache, kv_len) is Ask ==> share_laws::play_tensors(
            cache,
            materialise::starting(cache, kv_len),
            seq![Answer::One(k), Answer::One(v)],
        ) == TensorsStep::Done(Err(Error::NoStreamDtype)),
{
    reveal_with_fuel(share_laws::play_tensors, 3);
    assert(seq![Answer::One(k), Answer::One(v)].drop_first()[0] == Answer::One(v));
}

/// Whether the stores of a storage that can be attended where it stands exist.
pub open spec fn live(storage: KvStorage) -> bool {
    match storage {
        KvStorage::PlanarK { k, .. } => k is Some,
        KvStorage::RotorKOnly3 { k, .. } => k is Some,
        KvStorage::RotorKOnly4 { k, .. } => k is Some,
        KvStorage::RotorSym3 { k, v, .. } => k is Some && v is Some,
        KvStorage::RotorSym4 { k, v, .. } => k is Some && v is Some,
        _ => false,
    }
}

/// A cast that comes out in another element type than the one asked for splits K
/// and V, and the split is told.
pub proof fn law_split_pair_is_refused(cache: KvCache, k: Tensor, v: Tensor)
    ensures
        materialise::resumed(cache, materialise::TensorsRun::CastK { v }, Answer::One(k))
            == TensorsStep::Done(
            if k.dtype == v.dtype {
                Ok((k, v))
            } else {
                Err(Error::DtypeSplit { k: k.dtype, v: v.dtype })
            },
        ),
{
}

} // verus!
