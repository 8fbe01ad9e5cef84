//! Whole steps that append to a store and attend it, told by their inputs.
use vstd::prelude::*;

use crate::error::{Error, Fused};
use crate::kvcache::over_store::{StoreCall, StoreRun, StoreStep};
use crate::kvcache::request::{Answer, Call, KvCache, Reply, Request};
use crate::kvcache::step::{Attended, Run, Share, Shared, SharedKv, Stage, Step};
use crate::kvcache::storage::{KvStorage, RotorKStore};
use crate::kvcache::{arms, flow_laws, laws, over_store, route_laws, sdpa, store_laws};
use crate::tensor::{Shape, Tensor};

verus! {

/// The answers of replies.
pub open spec fn answers_of(replies: Seq<Reply>) -> Seq<Answer> {
    Seq::new(replies.len(), |i: int| replies[i].answer)
}

/// What flash-decode over a store is given by a step that attends `n` positions.
pub open spec fn store_call_of(call: Call, n: i32) -> StoreCall {
    StoreCall {
        queries: call.queries,
        scale: call.scale,
        mask: call.mask,
        kv_seq: n,
        planar_flash_decode: call.toggles.planar_flash_decode,
    }
}

/// Whether a step over a store that holds `n` positions ends as the run over the
/// store does: with its output, sharing the store at that length where it shares,
/// or in its error; and whether it still asks where the run does.
pub open spec fn ends_with(end: Step, share: Share, n: i32, run: StoreStep) -> bool {
    match run {
        StoreStep::Ask { request, .. } => route_laws::request_of(end) == Some(request),
        StoreStep::Done(Err(e)) => end == Step::Done(Err(e)),
        StoreStep::Done(Ok(out)) => end == Step::Done(
            Ok(
                Attended {
                    out,
                    shared: if share is Source {
                        Shared::Source(SharedKv::Store { kv_len: n })
                    } else {
                        Shared::Nothing
                    },
                },
            ),
        ),
    }
}

/// A step that has come to its store does what the run over the store does.
proof fn lemma_follows_store(
    cache: KvCache,
    run: Run,
    path: Fused,
    inner: StoreStep,
    replies: Seq<Reply>,
)
    ensures
        ({
            let now = arms::following(cache, run, path, inner);
            let answers = answers_of(replies);
            &&& laws::asked(cache, now, replies) == store_laws::store_asked(inner, answers)
            &&& laws::play(cache, now, replies) == (
                cache,
                arms::following(cache, run, path, store_laws::play_store(inner, answers)),
            )
        }),
    decreases replies.len(),
{
    let now = arms::following(cache, run, path, inner);
    let answers = answers_of(replies);
    match inner {
        StoreStep::Ask { run: r, request } if replies.len() > 0 => {
            let next = arms::following(cache, run, path, r.next(answers[0]));
            flow_laws::lemma_one_reply(cache, now, replies);
            assert(laws::turn(cache, now->run, replies[0]) == (cache, next)) by {
                reveal(laws::turn);
                lemma_same_run(cache, run, path, r, answers[0]);
            }
            lemma_follows_store(cache, run, path, r.next(answers[0]), replies.drop_first());
            assert(answers_of(replies.drop_first()) =~= answers.drop_first());
        },
        _ => {},
    }
}

/// Following a run over a store does not depend on where the step stood before.
proof fn lemma_same_run(cache: KvCache, run: Run, path: Fused, inner: StoreRun, answer: Answer)
    ensures
        arms::following(
            cache,
            run.at(Stage::Store { path, run: inner }),
            path,
            inner.next(answer),
        ) == arms::following(cache, run, path, inner.next(answer)),
{
}

/// A step over packed K: the new K is appended; once its buffers are seen on the
/// device the new positions are counted and the new V goes behind the V mirror;
/// and the store is attended together with that V, at the length that it has after
/// the append.
pub proof fn law_packed_k_step(
    cache: KvCache,
    call: Call,
    share: Share,
    replies: Seq<Reply>,
    k: Option<Shape>,
    max_seq: i32,
    shape: Shape,
    v: Tensor,
)
    requires
        ({
            let (_, now) = sdpa::starting(cache, sdpa::fresh(call, share));
            route_laws::request_of(now) matches Some(r) && r is PlanarAppend
        }),
        cache.storage == (KvStorage::PlanarK { k, max_seq }),
        route_laws::room_for(cache, call),
        replies.len() >= 3,
        replies[0].answer is Done,
        replies[0].cache.storage matches KvStorage::PlanarK { k: Some(s), .. } && s == shape,
        shape.rank == 4,
        replies[1].answer is Three,
        replies[2].answer == Answer::One(v),
    ensures
        ({
            let (c, now) = sdpa::starting(cache, sdpa::fresh(call, share));
            let after = KvCache {
                storage: replies[0].cache.storage,
                persistent: replies[0].cache.persistent,
                offset: (cache.offset + call.new_k.shape.d2) as i32,
                decode_fp16_v: replies[2].cache.decode_fp16_v,
                ..cache
            };
            let run = over_store::planar_begin(after, store_call_of(call, shape.d2), v);
            let answers = answers_of(replies.skip(3));
            let (last, end) = laws::play(c, now, replies);
            &&& last == after
            &&& ends_with(end, share, shape.d2, store_laws::play_store(run, answers))
            &&& laws::asked(c, now, replies) == seq![
                Request::PlanarAppend {
                    new_k: call.new_k.id,
                    shape: call.new_k.shape,
                    fresh: k is None,
                    max_seq,
                },
                Request::PlanarView,
                Request::UpdateDecodeFp16V { new_v: call.new_v.id, max_seq },
            ] + store_laws::store_asked(run, answers)
        }),
{
    let now = Step::Ask {
        run: Run { call, share, stage: Stage::PlanarAppend { max_seq } },
        request: Request::PlanarAppend {
            new_k: call.new_k.id,
            shape: call.new_k.shape,
            fresh: k is None,
            max_seq,
        },
    };
    assert(sdpa::starting(cache, sdpa::fresh(call, share)) == (cache, now));
    let c1 = KvCache {
        storage: replies[0].cache.storage,
        persistent: replies[0].cache.persistent,
        ..cache
    };
    let probe = Step::Ask {
        run: Run { call, share, stage: Stage::PlanarProbe { max_seq } },
        request: Request::PlanarView,
    };
    assert(laws::turn(cache, now->run, replies[0]) == (c1, probe)) by {
        reveal(laws::turn);
    }
    flow_laws::lemma_takes(cache, now, c1, probe, replies);
    let r1 = replies.skip(1);
    assert(r1[0] == replies[1]);
    let c2 = KvCache { offset: (cache.offset + call.new_k.shape.d2) as i32, ..c1 };
    let values = Step::Ask {
        run: Run { call, share, stage: Stage::PlanarValues { kv_seq: shape.d2 } },
        request: Request::UpdateDecodeFp16V { new_v: call.new_v.id, max_seq },
    };
    assert(laws::turn(c1, probe->run, r1[0]) == (c2, values)) by {
        reveal(laws::turn);
    }
    flow_laws::lemma_takes(c1, probe, c2, values, r1);
    let r2 = r1.skip(1);
    assert(r2[0] == replies[2]);
    let c3 = KvCache { decode_fp16_v: replies[2].cache.decode_fp16_v, ..c2 };
    let inner = over_store::planar_begin(c3, store_call_of(call, shape.d2), v);
    let next = arms::following(c3, values->run, Fused::PlanarK, inner);
    assert(laws::turn(c2, values->run, r2[0]) == (c3, next)) by {
        reveal(laws::turn);
    }
    flow_laws::lemma_takes(c2, values, c3, next, r2);
    lemma_follows_store(c3, values->run, Fused::PlanarK, inner, r2.skip(1));
    assert(r2.skip(1) =~= replies.skip(3));
    route_laws::law_held_length_is_the_third_extent(c3, shape.d2);
}

/// A step over a rotor K ring: the new K is encoded into the ring, the new positions
/// are counted, the new V goes behind the V mirror, and the ring is attended
/// together with that V, at the length that its store has after the append.
pub proof fn law_rotor_k_step(
    cache: KvCache,
    call: Call,
    share: Share,
    replies: Seq<Reply>,
    bits: u8,
    ks: RotorKStore,
    max_seq: i32,
    v: Tensor,
)
    requires
        ({
            let (_, now) = sdpa::starting(cache, sdpa::fresh(call, share));
            route_laws::request_of(now) matches Some(r) && r is RotorKAppend
        }),
        bits == 3 || bits == 4,
        route_laws::k_ring(cache.storage) matches Some((b, _)) && b == bits,
        route_laws::room_for(cache, call),
        replies.len() >= 2,
        replies[0].answer is Done,
        replies[0].cache.storage == store_laws::rotor_k_ring(bits, Some(ks), max_seq),
        ks.shape.rank >= 3,
        replies[1].answer == Answer::One(v),
    ensures
        ({
            let (c, now) = sdpa::starting(cache, sdpa::fresh(call, share));
            let after = KvCache {
                storage: replies[0].cache.storage,
                persistent: replies[0].cache.persistent,
                offset: (cache.offset + call.new_k.shape.d2) as i32,
                decode_fp16_v: replies[1].cache.decode_fp16_v,
                ..cache
            };
            let run = over_store::rotor_k_begin(after, store_call_of(call, ks.shape.d2), v);
            let answers = answers_of(replies.skip(2));
            let (last, end) = laws::play(c, now, replies);
            &&& last == after
            &&& ends_with(end, share, ks.shape.d2, store_laws::play_store(run, answers))
            &&& laws::asked(c, now, replies) == seq![
                Request::RotorKAppend { bits, new_k: call.new_k.id, shape: call.new_k.shape },
                Request::UpdateDecodeFp16V { new_v: call.new_v.id, max_seq },
            ] + store_laws::store_asked(run, answers)
        }),
{
    let now = Step::Ask {
        run: Run { call, share, stage: Stage::RotorKAppend },
        request: Request::RotorKAppend { bits, new_k: call.new_k.id, shape: call.new_k.shape },
    };
    assert(sdpa::starting(cache, sdpa::fresh(call, share)) == (cache, now));
    let c1 = KvCache {
        storage: replies[0].cache.storage,
        persistent: replies[0].cache.persistent,
        offset: (cache.offset + call.new_k.shape.d2) as i32,
        ..cache
    };
    let values = Step::Ask {
        run: Run { call, share, stage: Stage::RotorKValues },
        request: Request::UpdateDecodeFp16V { new_v: call.new_v.id, max_seq },
    };
    assert(laws::turn(cache, now->run, replies[0]) == (c1, values)) by {
        reveal(laws::turn);
    }
    flow_laws::lemma_takes(cache, now, c1, values, replies);
    let r1 = replies.skip(1);
    assert(r1[0] == replies[1]);
    let c2 = KvCache { decode_fp16_v: replies[1].cache.decode_fp16_v, ..c1 };
    let inner = over_store::rotor_k_begin(c2, store_call_of(call, ks.shape.d2), v);
    let next = arms::following(c2, values->run, Fused::RotorK, inner);
    route_laws::law_held_length_is_the_third_extent(c2, ks.shape.d2);
    assert(laws::turn(c1, values->run, r1[0]) == (c2, next)) by {
        reveal(laws::turn);
    }
    flow_laws::lemma_takes(c1, values, c2, next, r1);
    lemma_follows_store(c2, values->run, Fused::RotorK, inner, r1.skip(1));
    assert(r1.skip(1) =~= replies.skip(2));
}

/// A step over both rotor rings: K and V are encoded into them, the new positions
/// are counted, and both rings are attended at the one length that their stores
/// have after the append.
pub proof fn law_rotor_sym_step(
    cache: KvCache,
    call: Call,
    share: Share,
    replies: Seq<Reply>,
    bits: u8,
    ks: RotorKStore,
    vs: Shape,
    max_seq: i32,
)
    requires
        ({
            let (_, now) = sdpa::starting(cache, sdpa::fresh(call, share));
            route_laws::request_of(now) matches Some(r) && r is RotorSymAppend
        }),
        bits == 3 || bits == 4,
        route_laws::kv_rings(cache.storage) matches Some((b, _)) && b == bits,
        route_laws::room_for(cache, call),
        replies.len() >= 1,
        replies[0].answer is Done,
        replies[0].cache.storage == store_laws::rotor_rings(bits, Some(ks), Some(vs), max_seq),
        ks.shape.rank >= 3,
        vs.rank >= 3,
        ks.shape.d2 == vs.d2,
    ensures
        ({
            let (c, now) = sdpa::starting(cache, sdpa::fresh(call, share));
            let after = KvCache {
                storage: replies[0].cache.storage,
                persistent: replies[0].cache.persistent,
                offset: (cache.offset + call.new_k.shape.d2) as i32,
                stream_dtype: Some(call.new_v.dtype),
                ..cache
            };
            let run = over_store::rotor_sym_begin(after, store_call_of(call, vs.d2));
            let answers = answers_of(replies.skip(1));
            let (last, end) = laws::play(c, now, replies);
            &&& last == after
            &&& ends_with(end, share, vs.d2, store_laws::play_store(run, answers))
            &&& laws::asked(c, now, replies) == seq![
                Request::RotorSymAppend {
                    bits,
                    new_k: call.new_k.id,
                    new_v: call.new_v.id,
                    shape: call.new_k.shape,
                },
            ] + store_laws::store_asked(run, answers)
        }),
{
    let now = Step::Ask {
        run: Run { call, share, stage: Stage::RotorSymAppend },
        request: Request::RotorSymAppend {
            bits,
            new_k: call.new_k.id,
            new_v: call.new_v.id,
            shape: call.new_k.shape,
        },
    };
    let c0 = KvCache { stream_dtype: Some(call.new_v.dtype), ..cache };
    assert(sdpa::starting(cache, sdpa::fresh(call, share)) == (c0, now));
    let c1 = KvCache {
        storage: replies[0].cache.storage,
        persistent: replies[0].cache.persistent,
        offset: (cache.offset + call.new_k.shape.d2) as i32,
        ..c0
    };
    let inner = over_store::rotor_sym_begin(c1, store_call_of(call, vs.d2));
    let next = arms::following(c1, now->run, Fused::RotorSym, inner);
    route_laws::law_held_length_is_the_third_extent(c1, vs.d2);
    assert(laws::turn(c0, now->run, replies[0]) == (c1, next)) by {
        reveal(laws::turn);
    }
    flow_laws::lemma_takes(c0, now, c1, next, replies);
    lemma_follows_store(c1, now->run, Fused::RotorSym, inner, replies.skip(1));
}

/// A step whose store was appended to, and whose new positions cannot be counted,
/// ends there: nothing is attended and V stays where it was.
pub proof fn law_uncounted_positions_end_a_step(
    cache: KvCache,
    call: Call,
    share: Share,
    replies: Seq<Reply>,
)
    requires
        ({
            let (_, now) = sdpa::starting(cache, sdpa::fresh(call, share));
            route_laws::request_of(now) matches Some(r) && (r is RotorKAppend
                || r is RotorSymAppend)
        }),
        !route_laws::room_for(cache, call),
        replies.len() > 0,
        replies[0].answer is Done,
    ensures
        ({
            let (c, now) = sdpa::starting(cache, sdpa::fresh(call, share));
            laws::play(c, now, replies).1 == Step::Done(
                Err(Error::OffsetOverflow { offset: cache.offset, new_seq: call.new_k.shape.d2 }),
            )
        }),
{
    reveal(laws::turn);
    reveal_with_fuel(laws::play, 2);
}

} // verus!
