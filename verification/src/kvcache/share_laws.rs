//! What holds between a producer layer, a layer that shares nothing, and the
//! layers that attend what a producer left.
use vstd::prelude::*;

use crate::error::{Error, Fused, Side};
use crate::kvcache::consumer::{ConsumerRun, ConsumerStep};
use crate::kvcache::materialise::{TensorsRun, TensorsStep};
use crate::kvcache::over_store::{StoreCall, StoreRun, StoreStage, StoreStep};
use crate::kvcache::request::{Answer, Call, KvCache, Reply, Request};
use crate::kvcache::step::{Attended, Run, Share, Shared, SharedKv, SharedKvOut, Stage, Step};
use crate::kvcache::storage::KvStorage;
use crate::kvcache::{arms, consumer, laws, materialise, mirror, over_store, sdpa, storage};
use crate::tensor::{Dtype, Tensor};

verus! {

/// Two requests that differ at most in whether the flash kernel may lock the
/// mirrors.
pub open spec fn same_but_lock(a: Request, b: Request) -> bool {
    match (a, b) {
        (
            Request::Flash { queries: q1, new_k: k1, new_v: v1, scale: s1, mask: m1, .. },
            Request::Flash { queries: q2, new_k: k2, new_v: v2, scale: s2, mask: m2, .. },
        ) => q1 == q2 && k1 == k2 && v1 == v2 && s1 == s2 && m1 == m2,
        _ => a == b,
    }
}

/// The stages of the rotated-K decode, on which a sharing step goes its own way.
spec fn on_rot_k(stage: Stage) -> bool {
    ||| stage is RotKUpdateK
    ||| stage is RotKHostRows
    ||| stage is RotKAppendV
    ||| stage is RotKDequantV
    ||| stage is RotKUpload
    ||| stage is RotKSdpa
    ||| stage is RotKDequantK
    ||| stage is RotKFwhtSupported
    ||| stage is RotKFwht
    ||| stage is RotKRotate
}

/// The length on which a kernel over a store runs.
pub open spec fn kernel_len(request: Request) -> Option<i32> {
    match request {
        Request::PlanarFlash { geometry, .. } => Some(geometry.kv_seq),
        Request::PlanarScores { geometry, .. } => Some(geometry.kv_seq),
        Request::RotorFlash { geometry, .. } => Some(geometry.kv_seq),
        Request::RotorSymFlash { geometry, .. } => Some(geometry.kv_seq),
        _ => None,
    }
}

/// Packed K whose buffers were asked for, and whose length is yet to be held to
/// the length that the run attends.
spec fn packed_in_view(cache: KvCache, path: Fused, inner: StoreRun) -> bool {
    match (path, inner.stage, cache.storage) {
        (
            Fused::PlanarK,
            StoreStage::PlanarView { shape, .. },
            KvStorage::PlanarK { k: Some(s), .. },
        ) => s == shape,
        _ => false,
    }
}

/// A step at its store: the store is of the path, and it holds the length that
/// the run attends, or is about to be held to it.
spec fn at_store(cache: KvCache, now: Step) -> bool {
    match now {
        Step::Ask { run, request } => match run.stage {
            Stage::Store { path, run: inner } => {
                &&& consumer::store_path(cache.storage) == Some(path)
                &&& ({
                    ||| arms::held(path, cache) == Ok::<i32, Error>(inner.call.kv_seq)
                    ||| packed_in_view(cache, path, inner) && kernel_len(request) is None
                })
                &&& kernel_len(request) is Some ==> kernel_len(request) == Some(inner.call.kv_seq)
            },
            _ => kernel_len(request) is None,
        },
        _ => true,
    }
}

/// The length of the store that a step has shared, where it ended so.
pub open spec fn shared_len(now: Step) -> Option<i32> {
    match now {
        Step::Done(Ok(Attended { shared: Shared::Source(SharedKv::Store { kv_len }), .. })) => Some(
            kv_len,
        ),
        _ => None,
    }
}

/// A run over a store keeps its call, and every kernel it asks for runs on the
/// length that the store holds.
proof fn lemma_store_next(cache: KvCache, path: Fused, inner: StoreRun, answer: Answer)
    requires
        ({
            ||| arms::held(path, cache) == Ok::<i32, Error>(inner.call.kv_seq)
            ||| packed_in_view(cache, path, inner)
        }),
    ensures
        match inner.next(answer) {
            StoreStep::Ask { run, request } => {
                &&& run.call == inner.call
                &&& arms::held(path, cache) == Ok::<i32, Error>(inner.call.kv_seq)
                &&& kernel_len(request) is Some ==> kernel_len(request) == Some(inner.call.kv_seq)
            },
            StoreStep::Done(Ok(_)) => arms::held(path, cache) == Ok::<i32, Error>(
                inner.call.kv_seq,
            ),
            StoreStep::Done(Err(_)) => true,
        },
{
}

/// A step that enters its store stands at it.
proof fn lemma_enters_store(cache: KvCache, run: Run, kv_seq: i32, v: Tensor)
    ensures
        ({
            let call = arms::store_call(run.call, kv_seq);
            &&& at_store(
                cache,
                arms::following(
                    cache,
                    run,
                    Fused::PlanarK,
                    over_store::planar_begin(cache, call, v),
                ),
            )
            &&& arms::held(Fused::RotorK, cache) == Ok::<i32, Error>(kv_seq) ==> at_store(
                cache,
                arms::following(
                    cache,
                    run,
                    Fused::RotorK,
                    over_store::rotor_k_begin(cache, call, v),
                ),
            )
            &&& arms::held(Fused::RotorSym, cache) == Ok::<i32, Error>(kv_seq) ==> at_store(
                cache,
                arms::following(
                    cache,
                    run,
                    Fused::RotorSym,
                    over_store::rotor_sym_begin(cache, call),
                ),
            )
        }),
{
}

proof fn lemma_at_store(cache: KvCache, run: Run, request: Request, reply: Reply)
    requires
        at_store(cache, Step::Ask { run, request }),
    ensures
        ({
            let (after, next) = laws::turn(cache, run, reply);
            &&& at_store(after, next)
            &&& match run.stage {
                Stage::Store { path, run: inner } => {
                    &&& after == cache
                    &&& shared_len(next) is Some ==> {
                        &&& shared_len(next) == Some(inner.call.kv_seq)
                        &&& arms::held(path, after) == Ok::<i32, Error>(inner.call.kv_seq)
                    }
                    &&& match next {
                        Step::Ask { run: Run { stage: Stage::Store { path: p2, run: i2 }, .. }, .. } =>
                            p2 == path && i2.call == inner.call,
                        Step::Ask { .. } => false,
                        Step::Done(_) => true,
                    }
                },
                _ => shared_len(next) is None,
            }
        }),
{
    reveal(laws::turn);
    let absorbed = sdpa::absorbed(cache, run.stage, reply);
    match run.stage {
        Stage::Store { path, run: inner } => {
            lemma_store_next(cache, path, inner, reply.answer);
        },
        Stage::PlanarValues { kv_seq } => {
            if let Answer::One(v) = reply.answer {
                lemma_enters_store(absorbed, run, kv_seq, v);
            }
        },
        Stage::RotorKValues => {
            if let Answer::One(v) = reply.answer {
                if let Ok(kv_seq) = arms::held(Fused::RotorK, absorbed) {
                    lemma_enters_store(absorbed, run, kv_seq, v);
                }
            }
        },
        Stage::RotorSymAppend => {
            if let Ok(after) = absorbed.advancing(run.call.new_k.shape.d2) {
                if let Ok(kv_seq) = arms::held(Fused::RotorSym, after) {
                    lemma_enters_store(after, run, kv_seq, run.call.new_v);
                }
            }
        },
        _ => {},
    }
}

proof fn lemma_play_store(cache: KvCache, now: Step, replies: Seq<Reply>)
    requires
        at_store(cache, now),
        shared_len(now) is None,
    ensures
        ({
            let (last, end) = laws::play(cache, now, replies);
            shared_len(end) matches Some(kv_len) ==> {
                &&& consumer::store_path(last.storage) matches Some(path) && arms::held(path, last)
                    == Ok::<i32, Error>(kv_len)
                &&& (now matches Step::Ask { run: Run { stage: Stage::Store { run, .. }, .. }, .. }
                    && run.call.kv_seq == kv_len) || !(now matches Step::Ask {
                    run: Run { stage: Stage::Store { .. }, .. },
                    ..
                })
                &&& forall|i: int|
                    0 <= i < laws::asked(cache, now, replies).len() && kernel_len(
                        #[trigger] laws::asked(cache, now, replies)[i],
                    ) is Some ==> kernel_len(laws::asked(cache, now, replies)[i]) == Some(kv_len)
            }
        }),
    decreases replies.len(),
{
    match now {
        Step::Ask { run, request } if replies.len() > 0 => {
            lemma_at_store(cache, run, request, replies[0]);
            let (after, next) = laws::turn(cache, run, replies[0]);
            let rest = laws::asked(after, next, replies.drop_first());
            let all = laws::asked(cache, now, replies);
            if shared_len(next) is None {
                lemma_play_store(after, next, replies.drop_first());
            } else {
                assert(laws::play(after, next, replies.drop_first()) == (after, next));
                assert(rest == Seq::<Request>::empty());
            }
            assert forall|i: int|
                0 <= i < all.len() && shared_len(laws::play(cache, now, replies).1) is Some
                    && kernel_len(#[trigger] all[i]) is Some implies kernel_len(all[i])
                == shared_len(laws::play(cache, now, replies).1) by {
                if i > 0 {
                    assert(all[i] == rest[i - 1]);
                }
            }
        },
        _ => {},
    }
}

/// A producer that shares its store reports the length that its kernel attended,
/// which is the length that the store holds when the step ends.
pub proof fn law_reported_length_was_attended(cache: KvCache, call: Call, replies: Seq<Reply>)
    ensures
        ({
            let (c, now) = sdpa::starting(cache, sdpa::fresh(call, Share::Source));
            let (last, end) = laws::play(c, now, replies);
            shared_len(end) matches Some(kv_len) ==> {
                &&& consumer::store_path(last.storage) matches Some(path) && arms::held(path, last)
                    == Ok::<i32, Error>(kv_len)
                &&& forall|i: int|
                    0 <= i < laws::asked(c, now, replies).len() && kernel_len(
                        #[trigger] laws::asked(c, now, replies)[i],
                    ) is Some ==> kernel_len(laws::asked(c, now, replies)[i]) == Some(kv_len)
            }
        }),
{
    let (c, now) = sdpa::starting(cache, sdpa::fresh(call, Share::Source));
    lemma_play_store(c, now, replies);
}

/// A step that ended with an output.
spec fn ends_well(now: Step) -> bool {
    now matches Step::Done(Ok(_))
}

/// The requests after which a producer still has mirrors to share.
pub open spec fn leaves_mirrors(request: Request) -> bool {
    request is Flash || request is FusedQk || request is MixedSdpa
}

/// The stages of a step over affine tuples that a producer goes through as well.
spec fn on_tuples(stage: Stage) -> bool {
    stage is MixedFetch || stage is MixedSdpa
}

/// Two caches that differ at most in their mirrors, and only where the affine
/// tuples are attended.
pub open spec fn alike(tuples: bool, a: KvCache, b: KvCache) -> bool {
    if tuples {
        a == KvCache { decode_fp16_k: a.decode_fp16_k, decode_fp16_v: a.decode_fp16_v, ..b }
    } else {
        a == b
    }
}

/// A step that shares nothing, and a producer that is at least as far.
spec fn abreast(tuples: bool, a: Step, b: Step) -> bool {
    match (a, b) {
        (Step::Ask { run: r1, request: q1 }, Step::Ask { run: r2, request: q2 }) => {
            &&& r1.share is Nothing
            &&& r2 == (Run { share: Share::Source, ..r1 })
            &&& same_but_lock(q1, q2)
            &&& !on_rot_k(r1.stage)
            &&& !(r1.stage is MirrorK || r1.stage is MirrorV || r1.stage is MixedMirror)
            &&& on_tuples(r1.stage) == tuples
            &&& leaves_mirrors(q1) == (r1.stage is Flash || r1.stage is FusedQk
                || r1.stage is MixedSdpa)
        },
        (Step::Done(Err(e1)), Step::Done(Err(e2))) => e1 == e2,
        (Step::Done(Ok(out)), _) => carries(tuples, b, out.out),
        _ => false,
    }
}

/// A producer that has its output in hand: it ends with it, or fails to share.
spec fn carries(tuples: bool, b: Step, out: Tensor) -> bool {
    match b {
        Step::Done(Ok(a)) => a.out == out,
        Step::Done(Err(_)) => true,
        Step::Ask { run, .. } => {
            ||| run.stage matches Stage::MirrorK { out: o, .. } && o == out
            ||| run.stage matches Stage::MirrorV { out: o, .. } && o == out
            ||| run.stage matches Stage::MixedMirror { out: o } && o == out && tuples
        },
    }
}

proof fn lemma_carried(tuples: bool, cache: KvCache, b: Step, out: Tensor, replies: Seq<Reply>)
    requires
        carries(tuples, b, out),
    ensures
        carries(tuples, laws::play(cache, b, replies).1, out),
        alike(tuples, cache, laws::play(cache, b, replies).0),
    decreases replies.len(),
{
    match b {
        Step::Ask { run, .. } if replies.len() > 0 => {
            let (after, next) = laws::turn(cache, run, replies[0]);
            assert(carries(tuples, next, out) && alike(tuples, cache, after)) by {
                reveal(laws::turn);
            }
            lemma_carried(tuples, after, next, out, replies.drop_first());
        },
        _ => {},
    }
}

/// A run over a store asks for nothing that leaves mirrors.
proof fn lemma_store_leaves_none(inner: StoreRun, answer: Answer)
    ensures
        inner.next(answer) matches StoreStep::Ask { request, .. } ==> !leaves_mirrors(request),
{
}

/// The store run of a producer takes the same answer to the same next place. It
/// ends well wherever the length of the store can be told.
proof fn lemma_abreast_store(cache: KvCache, run: Run, path: Fused, inner: StoreStep)
    requires
        run.share is Nothing,
        inner matches StoreStep::Ask { request, .. } ==> !leaves_mirrors(request),
    ensures
        abreast(
            false,
            arms::following(cache, run, path, inner),
            arms::following(cache, Run { share: Share::Source, ..run }, path, inner),
        ),
        inner matches StoreStep::Done(Ok(out)) && arms::held(path, cache) is Ok ==> ends_well(
            arms::following(cache, Run { share: Share::Source, ..run }, path, inner),
        ),
{
}

/// What one answer does to a step that shares nothing and to a producer abreast
/// of it.
spec fn stays_abreast(tuples: bool, cache: KvCache, run: Run, request: Request, reply: Reply) -> bool {
    let (c1, n1) = laws::turn(cache, run, reply);
    let (c2, n2) = laws::turn(cache, Run { share: Share::Source, ..run }, reply);
    &&& c1 == c2
    &&& abreast(tuples, n1, n2)
    &&& ends_well(n1) && !leaves_mirrors(request) ==> ends_well(n2)
}

proof fn lemma_abreast_at_store(cache: KvCache, run: Run, request: Request, reply: Reply)
    requires
        run.share is Nothing,
        run.stage is Store,
        at_store(cache, Step::Ask { run, request }),
    ensures
        stays_abreast(false, cache, run, request, reply),
{
    reveal(laws::turn);
    if let Stage::Store { path, run: inner } = run.stage {
        lemma_store_leaves_none(inner, reply.answer);
        lemma_store_next(cache, path, inner, reply.answer);
        lemma_abreast_store(cache, run, path, inner.next(reply.answer));
    }
}

proof fn lemma_abreast_enters(cache: KvCache, run: Run, request: Request, reply: Reply)
    requires
        run.share is Nothing,
        run.stage is PlanarValues || run.stage is RotorKValues || run.stage is RotorSymAppend,
    ensures
        stays_abreast(false, cache, run, request, reply),
{
    reveal(laws::turn);
    let absorbed = sdpa::absorbed(cache, run.stage, reply);
    match run.stage {
        Stage::PlanarValues { kv_seq } => {
            if let Answer::One(v) = reply.answer {
                let begun = over_store::planar_begin(
                    absorbed,
                    arms::store_call(run.call, kv_seq),
                    v,
                );
                lemma_abreast_store(absorbed, run, Fused::PlanarK, begun);
            }
        },
        Stage::RotorKValues => {
            if let Answer::One(v) = reply.answer {
                if let Ok(kv_seq) = arms::held(Fused::RotorK, absorbed) {
                    let begun = over_store::rotor_k_begin(
                        absorbed,
                        arms::store_call(run.call, kv_seq),
                        v,
                    );
                    lemma_abreast_store(absorbed, run, Fused::RotorK, begun);
                }
            }
        },
        _ => {
            if let Ok(after) = absorbed.advancing(run.call.new_k.shape.d2) {
                if let Ok(kv_seq) = arms::held(Fused::RotorSym, after) {
                    let begun = over_store::rotor_sym_begin(
                        after,
                        arms::store_call(run.call, kv_seq),
                    );
                    lemma_abreast_store(after, run, Fused::RotorSym, begun);
                }
            }
        },
    }
}

proof fn lemma_abreast_elsewhere(tuples: bool, cache: KvCache, run: Run, request: Request, reply: Reply)
    requires
        abreast(
            tuples,
            Step::Ask { run, request },
            Step::Ask { run: Run { share: Share::Source, ..run }, request },
        ),
        !(run.stage is Store),
        !(run.stage is PlanarValues),
        !(run.stage is RotorKValues),
        !(run.stage is RotorSymAppend),
    ensures
        stays_abreast(tuples, cache, run, request, reply),
{
    reveal(laws::turn);
}

/// One answer takes a step that shares nothing and a producer abreast of it to
/// the same cache, and leaves them abreast.
proof fn lemma_abreast_next(tuples: bool, cache: KvCache, run: Run, request: Request, reply: Reply)
    requires
        abreast(
            tuples,
            Step::Ask { run, request },
            Step::Ask { run: Run { share: Share::Source, ..run }, request },
        ),
        at_store(cache, Step::Ask { run, request }),
    ensures
        stays_abreast(tuples, cache, run, request, reply),
        at_store(laws::turn(cache, run, reply).0, laws::turn(cache, run, reply).1),
{
    lemma_at_store(cache, run, request, reply);
    if run.stage is Store {
        lemma_abreast_at_store(cache, run, request, reply);
    } else if run.stage is PlanarValues || run.stage is RotorKValues
        || run.stage is RotorSymAppend {
        lemma_abreast_enters(cache, run, request, reply);
    } else {
        lemma_abreast_elsewhere(tuples, cache, run, request, reply);
    }
}

proof fn lemma_abreast(tuples: bool, cache: KvCache, a: Step, b: Step, replies: Seq<Reply>)
    requires
        abreast(tuples, a, b),
        at_store(cache, a),
        a is Ask,
    ensures
        laws::asked(cache, a, replies).len() <= laws::asked(cache, b, replies).len(),
        forall|i: int|
            0 <= i < laws::asked(cache, a, replies).len() ==> same_but_lock(
                #[trigger] laws::asked(cache, a, replies)[i],
                laws::asked(cache, b, replies)[i],
            ),
        abreast(tuples, laws::play(cache, a, replies).1, laws::play(cache, b, replies).1),
        alike(tuples, laws::play(cache, a, replies).0, laws::play(cache, b, replies).0),
        ends_well(laws::play(cache, a, replies).1) ==> {
            &&& laws::asked(cache, a, replies).len() > 0
            &&& !leaves_mirrors(laws::asked(cache, a, replies).last()) ==> ends_well(
                laws::play(cache, b, replies).1,
            )
        },
    decreases replies.len(),
{
    match (a, b) {
        (
            Step::Ask { run: r1, request: q1 },
            Step::Ask { run: r2, request: q2 },
        ) if replies.len() > 0 => {
            let (c1, n1) = laws::turn(cache, r1, replies[0]);
            let (c2, n2) = laws::turn(cache, r2, replies[0]);
            lemma_abreast_next(tuples, cache, r1, q1, replies[0]);
            let rest1 = laws::asked(c1, n1, replies.drop_first());
            let rest2 = laws::asked(c2, n2, replies.drop_first());
            let all1 = laws::asked(cache, a, replies);
            let all2 = laws::asked(cache, b, replies);
            assert(all1 == seq![q1] + rest1);
            assert(all2 == seq![q2] + rest2);
            match n1 {
                Step::Ask { .. } => {
                    lemma_abreast(tuples, c1, n1, n2, replies.drop_first());
                    if rest1.len() > 0 {
                        assert(all1.last() == rest1.last());
                    }
                },
                Step::Done(Ok(out)) => {
                    lemma_carried(tuples, c2, n2, out.out, replies.drop_first());
                    assert(all1.last() == q1);
                },
                Step::Done(Err(_)) => {},
            }
            assert forall|i: int| 0 <= i < all1.len() implies same_but_lock(
                #[trigger] all1[i],
                all2[i],
            ) by {
                if i > 0 {
                    assert(all1[i] == rest1[i - 1]);
                    assert(all2[i] == rest2[i - 1]);
                }
            }
        },
        _ => {},
    }
}

/// A producer goes the way of a layer that shares nothing, arm for arm: it
/// starts on the same cache, asks the same requests in the same order before
/// anything else, fails where that layer fails, and where both succeed their
/// outputs are the same. The flash kernel alone is told not to lock the mirrors.
/// The caches are the same at the end, but for the mirrors that a producer over
/// affine tuples appends to. Where no mirrors are left to be shared, as on a
/// ring, in a prefill and on a store, the producer succeeds wherever that layer
/// does. Left out is the rotated-K codec with a codebook V, whose producer decodes
/// K and attends it plainly.
pub proof fn law_producer_mirrors_plain_step(cache: KvCache, call: Call, replies: Seq<Reply>)
    requires
        cache.rotating || !(cache.storage is RotKTq4V),
    ensures
        ({
            let (c1, a) = sdpa::starting(cache, sdpa::fresh(call, Share::Nothing));
            let (c2, b) = sdpa::starting(cache, sdpa::fresh(call, Share::Source));
            let (last1, end1) = laws::play(c1, a, replies);
            let (last2, end2) = laws::play(c2, b, replies);
            let asked = laws::asked(c1, a, replies);
            &&& c1 == c2
            &&& asked.len() <= laws::asked(c2, b, replies).len()
            &&& forall|i: int|
                0 <= i < asked.len() ==> same_but_lock(
                    #[trigger] asked[i],
                    laws::asked(c2, b, replies)[i],
                )
            &&& alike(laws::attends_tuples(cache), last1, last2)
            &&& match (end1, end2) {
                (Step::Done(Err(e1)), end) => end == Step::Done(Err(e1)),
                (Step::Done(Ok(x)), Step::Done(Ok(y))) => x.out == y.out,
                (Step::Done(Ok(_)), _) => leaves_mirrors(asked.last()),
                (Step::Ask { .. }, end) => end is Ask,
            }
        }),
{
    let (c1, a) = sdpa::starting(cache, sdpa::fresh(call, Share::Nothing));
    let (c2, b) = sdpa::starting(cache, sdpa::fresh(call, Share::Source));
    assert(c1 == c2);
    assert(abreast(laws::attends_tuples(cache), a, b));
    if a is Ask {
        lemma_abreast(laws::attends_tuples(cache), c1, a, b, replies);
    }
}

/// A step over affine tuples that shares nothing, and one that shares the tuples.
spec fn level(a: Step, b: Step) -> bool {
    match (a, b) {
        (Step::Ask { run: r1, request: q1 }, Step::Ask { run: r2, request: q2 }) => {
            &&& r1.share is Nothing
            &&& r2 == (Run { share: Share::Out, ..r1 })
            &&& q1 == q2
            &&& on_tuples(r1.stage)
        },
        (Step::Done(Err(e1)), Step::Done(Err(e2))) => e1 == e2,
        (Step::Done(Ok(x)), Step::Done(Ok(y))) => x.out == y.out,
        _ => false,
    }
}

proof fn lemma_level(cache: KvCache, a: Step, b: Step, replies: Seq<Reply>)
    requires
        level(a, b),
    ensures
        ({
            let (last1, end1) = laws::play(cache, a, replies);
            let (last2, end2) = laws::play(cache, b, replies);
            &&& last1 == last2
            &&& level(end1, end2)
            &&& last1.decode_fp16_k == cache.decode_fp16_k
            &&& last1.decode_fp16_v == cache.decode_fp16_v
            &&& last1.offset == cache.offset
        }),
    decreases replies.len(),
{
    match (a, b) {
        (Step::Ask { run: r1, .. }, Step::Ask { run: r2, .. }) if replies.len() > 0 => {
            let (c1, n1) = laws::turn(cache, r1, replies[0]);
            let (c2, n2) = laws::turn(cache, r2, replies[0]);
            assert({
                &&& c1 == c2
                &&& level(n1, n2)
                &&& c1.decode_fp16_k == cache.decode_fp16_k
                &&& c1.decode_fp16_v == cache.decode_fp16_v
                &&& c1.offset == cache.offset
            }) by {
                reveal(laws::turn);
            }
            lemma_level(c1, n1, n2, replies.drop_first());
        },
        _ => {},
    }
}

/// A step over affine tuples comes to the same whatever it shares: one output,
/// and one cache but for the mirrors. A step that shares nothing, or the tuples
/// themselves, leaves the mirrors as they were. The offset moves by the positions
/// of the step.
pub proof fn law_tuples_step_is_the_same_shared(cache: KvCache, call: Call, replies: Seq<Reply>)
    requires
        laws::attends_tuples(cache),
    ensures
        ({
            let (c1, a) = sdpa::starting(cache, sdpa::fresh(call, Share::Nothing));
            let (c2, b) = sdpa::starting(cache, sdpa::fresh(call, Share::Source));
            let (c3, c) = sdpa::starting(cache, sdpa::fresh(call, Share::Out));
            let (last1, end1) = laws::play(c1, a, replies);
            let (last2, end2) = laws::play(c2, b, replies);
            let (last3, end3) = laws::play(c3, c, replies);
            &&& last1.decode_fp16_k == cache.decode_fp16_k
            &&& last1.decode_fp16_v == cache.decode_fp16_v
            &&& alike(true, last1, last2)
            &&& last1 == last3
            &&& end1 matches Step::Done(Ok(_)) ==> {
                &&& last1.offset == cache.offset + call.new_k.shape.d2
                &&& last2.offset == cache.offset + call.new_k.shape.d2
            }
            &&& match (end1, end2) {
                (Step::Done(Ok(x)), Step::Done(Ok(y))) => x.out == y.out,
                (_, Step::Done(Ok(_))) => false,
                _ => true,
            }
            &&& match (end1, end3) {
                (Step::Done(Ok(x)), Step::Done(Ok(y))) => x.out == y.out,
                (Step::Done(Err(e1)), Step::Done(Err(e3))) => e1 == e3,
                (Step::Ask { .. }, Step::Ask { .. }) => true,
                _ => false,
            }
        }),
{
    law_producer_mirrors_plain_step(cache, call, replies);
    let (c1, a) = sdpa::starting(cache, sdpa::fresh(call, Share::Nothing));
    let (c3, c) = sdpa::starting(cache, sdpa::fresh(call, Share::Out));
    assert(c1 == c3);
    assert(level(a, c));
    lemma_level(c1, a, c, replies);
}

/// Whether every gathering of unquantized K and V in a play gave back tensors as
/// long as the offset that the cache stood at: the prefill buffers and the
/// mirrors hold all positions.
pub open spec fn gathers_the_prefix(cache: KvCache, now: Step, replies: Seq<Reply>) -> bool
    decreases replies.len(),
{
    match now {
        Step::Ask { run, request } if replies.len() > 0 => {
            let (after, next) = laws::turn(cache, run, replies[0]);
            &&& match (request, replies[0].answer) {
                (Request::UpdateDecodeFp16 { .. }, Answer::Two(k, v)) => spans(k, v, cache.offset),
                (Request::PrefillRaw { .. }, Answer::Two(k, v)) => spans(k, v, cache.offset),
                _ => true,
            }
            &&& gathers_the_prefix(after, next, replies.drop_first())
        },
        _ => true,
    }
}

/// Whether K and V both hold `n` positions.
pub open spec fn spans(k: Tensor, v: Tensor, n: i32) -> bool {
    k.shape.at(2) == Some(n) && v.shape.at(2) == Some(n)
}

/// The unquantized pair that a step has shared, where it ended so.
pub open spec fn shared_pair(now: Step) -> Option<(Tensor, Tensor)> {
    match now {
        Step::Done(Ok(Attended { shared: Shared::Source(SharedKv::Bf16(k, v)), .. })) => Some(
            (k, v),
        ),
        Step::Done(Ok(Attended { shared: Shared::Out(SharedKvOut::Bf16(k, v)), .. })) => Some(
            (k, v),
        ),
        _ => None,
    }
}

/// A step of an affine cache, at a place from which it shares no pair that is
/// shorter or longer than the offset.
spec fn pair_path(cache: KvCache, now: Step) -> bool {
    match now {
        Step::Ask { run, request } => match run.stage {
            Stage::Gather { own_offset, .. } => !own_offset && request is PrefillRaw,
            Stage::MixedMirror { .. } => request is UpdateDecodeFp16,
            Stage::MixedFetch { .. } => true,
            Stage::MixedSdpa { .. } => true,
            Stage::Attend { k, v } => spans(k, v, cache.offset),
            _ => false,
        },
        Step::Done(_) => shared_pair(now) matches Some((k, v)) ==> spans(k, v, cache.offset),
    }
}

proof fn lemma_pair_next(cache: KvCache, run: Run, request: Request, reply: Reply)
    requires
        pair_path(cache, Step::Ask { run, request }),
        match (request, reply.answer) {
            (Request::UpdateDecodeFp16 { .. }, Answer::Two(k, v)) => spans(k, v, cache.offset),
            (Request::PrefillRaw { .. }, Answer::Two(k, v)) => spans(k, v, cache.offset),
            _ => true,
        },
    ensures
        ({
            let (after, next) = laws::turn(cache, run, reply);
            pair_path(after, next) && after.offset == cache.offset
        }),
{
    reveal(laws::turn);
}

proof fn lemma_pair_spans(cache: KvCache, now: Step, replies: Seq<Reply>)
    requires
        pair_path(cache, now),
        gathers_the_prefix(cache, now, replies),
    ensures
        ({
            let (last, end) = laws::play(cache, now, replies);
            pair_path(last, end) && last.offset == cache.offset
        }),
    decreases replies.len(),
{
    match now {
        Step::Ask { run, request } if replies.len() > 0 => {
            lemma_pair_next(cache, run, request, replies[0]);
            let (after, next) = laws::turn(cache, run, replies[0]);
            lemma_pair_spans(after, next, replies.drop_first());
        },
        _ => {},
    }
}

/// The unquantized pair that a step over an affine cache shares holds every
/// position up to the new offset, and no other, in a prefill and beside the
/// tuples, as long as the prefill buffers and the mirrors hold them all.
pub proof fn law_affine_pair_spans_the_offset(
    cache: KvCache,
    call: Call,
    share: Share,
    replies: Seq<Reply>,
)
    requires
        !cache.rotating,
        cache.storage is Mixed,
        ({
            let (c, now) = sdpa::starting(cache, sdpa::fresh(call, share));
            gathers_the_prefix(c, now, replies)
        }),
    ensures
        ({
            let (c, now) = sdpa::starting(cache, sdpa::fresh(call, share));
            let (last, end) = laws::play(c, now, replies);
            shared_pair(end) matches Some((k, v)) ==> {
                &&& last.offset == cache.offset + call.new_k.shape.d2
                &&& spans(k, v, last.offset)
            }
        }),
{
    let (c, now) = sdpa::starting(cache, sdpa::fresh(call, share));
    lemma_pair_spans(c, now, replies);
}

/// A producer that ended in a kernel with mirrors of its own, and whose mirrors
/// reach the offset, shares the two windows of them as they are handed back, and
/// ends with the output of the kernel.
pub proof fn law_mirrored_kernel_shares_its_mirrors(
    cache: KvCache,
    run: Run,
    request: Request,
    replies: Seq<Reply>,
    out: Tensor,
    k: Tensor,
    v: Tensor,
)
    requires
        run.stage is Flash || run.stage is FusedQk,
        run.share is Source,
        replies.len() == 3,
        replies[0].answer == Answer::One(out),
        replies[1].answer == Answer::One(k),
        replies[2].answer == Answer::One(v),
        mirror::consumer_windows(
            sdpa::absorbed(cache, run.stage, replies[0]),
            run.call.new_k,
            run.call.new_v,
        ) is Ok,
    ensures
        laws::play(cache, Step::Ask { run, request }, replies).1 == Step::Done(
            Ok(Attended { out, shared: Shared::Source(SharedKv::Bf16(k, v)) }),
        ),
{
    reveal(laws::turn);
    reveal_with_fuel(laws::play, 4);
    let r1 = replies.drop_first();
    let r2 = r1.drop_first();
    assert(r1[0] == replies[1] && r2[0] == replies[2]);
}

/// A consumer driven by a list of answers.
pub open spec fn play_consumer(
    cache: KvCache,
    now: ConsumerStep,
    answers: Seq<Answer>,
) -> ConsumerStep
    decreases answers.len(),
{
    match now {
        ConsumerStep::Ask { run, .. } if answers.len() > 0 => play_consumer(
            cache,
            consumer::resumed(cache, run, answers[0]),
            answers.drop_first(),
        ),
        _ => now,
    }
}

/// What a step was answered from its store on: first the V that it attends beside
/// the store, where V has a mirror, then what the kernels over the store gave.
pub open spec fn store_answers(cache: KvCache, now: Step, replies: Seq<Reply>) -> Seq<Answer>
    decreases replies.len(),
{
    match now {
        Step::Ask { run, .. } if replies.len() > 0 => {
            let (after, next) = laws::turn(cache, run, replies[0]);
            let rest = store_answers(after, next, replies.drop_first());
            if run.stage is PlanarValues || run.stage is RotorKValues || run.stage is Store {
                seq![replies[0].answer] + rest
            } else {
                rest
            }
        },
        _ => Seq::empty(),
    }
}

/// The output of a step, where it ended with one.
pub open spec fn output(now: Step) -> Option<Tensor> {
    match now {
        Step::Done(Ok(a)) => Some(a.out),
        _ => None,
    }
}

/// A consumer at the store, next to its producer, ends with the producer's output.
proof fn lemma_consumer_at_store(cache: KvCache, run: Run, request: Request, replies: Seq<Reply>)
    requires
        run.stage is Store,
        at_store(cache, Step::Ask { run, request }),
    ensures
        ({
            let now = Step::Ask { run, request };
            let (last, end) = laws::play(cache, now, replies);
            let at = ConsumerStep::Ask {
                run: ConsumerRun::Store { run: run.stage->Store_run },
                request,
            };
            &&& last == cache
            &&& output(end) matches Some(out) ==> play_consumer(
                cache,
                at,
                store_answers(cache, now, replies),
            ) == ConsumerStep::Done(Ok(out))
        }),
    decreases replies.len(),
{
    if replies.len() > 0 {
        let now = Step::Ask { run, request };
        let (after, next) = laws::turn(cache, run, replies[0]);
        lemma_at_store(cache, run, request, replies[0]);
        let path = run.stage->Store_path;
        let inner = run.stage->Store_run;
        assert((after, next) == sdpa::answered(cache, run, replies[0].answer)) by {
            reveal(laws::turn);
        }
        law_consumer_runs_producer_kernel(cache, run, path, inner, replies[0].answer);
        let rest = store_answers(after, next, replies.drop_first());
        let answers = store_answers(cache, now, replies);
        assert(answers == seq![replies[0].answer] + rest);
        assert(answers.drop_first() =~= rest);
        let at = ConsumerStep::Ask { run: ConsumerRun::Store { run: inner }, request };
        let then = consumer::resumed(cache, ConsumerRun::Store { run: inner }, replies[0].answer);
        assert(play_consumer(cache, at, answers) == play_consumer(cache, then, rest));
        match next {
            Step::Ask { run: r, request: q } => {
                assert(then == ConsumerStep::Ask {
                    run: ConsumerRun::Store { run: r.stage->Store_run },
                    request: q,
                });
                lemma_consumer_at_store(after, r, q, replies.drop_first());
            },
            Step::Done(_) => {
                assert(laws::play(after, next, replies.drop_first()) == (after, next));
                assert(play_consumer(cache, then, rest) == then);
            },
        }
    }
}

/// The answers that end a consumer over a store next to its producer.
spec fn consumed(cache: KvCache, call: StoreCall, answers: Seq<Answer>, out: Tensor) -> bool {
    mirror::value_window(cache, call.kv_seq) is Ok || storage::is_rotor_sym(cache.storage)
        ==> play_consumer(cache, consumer::starting(cache, call), answers) == ConsumerStep::Done(
        Ok(out),
    )
}

/// A step that enters its store: a consumer that starts where the step ends goes
/// the same way.
proof fn lemma_consumer_enters(cache: KvCache, run: Run, request: Request, replies: Seq<Reply>)
    requires
        run.stage is PlanarValues || run.stage is RotorKValues || run.stage is RotorSymAppend,
        at_store(cache, Step::Ask { run, request }),
        replies.len() > 0,
    ensures
        ({
            let now = Step::Ask { run, request };
            let (last, end) = laws::play(cache, now, replies);
            (shared_len(end), output(end)) matches (Some(kv_len), Some(out)) ==> consumed(
                last,
                arms::store_call(run.call, kv_len),
                store_answers(cache, now, replies),
                out,
            )
        }),
{
    let now = Step::Ask { run, request };
    let (after, next) = laws::turn(cache, run, replies[0]);
    lemma_at_store(cache, run, request, replies[0]);
    assert(laws::play(cache, now, replies) == laws::play(after, next, replies.drop_first()));
    if next is Done {
        assert(laws::play(after, next, replies.drop_first()) == (after, next));
    }
    if let Step::Ask { run: r, request: q } = next {
        assert(r.stage is Store) by {
            reveal(laws::turn);
        }
        let rest = store_answers(after, next, replies.drop_first());
        let answers = store_answers(cache, now, replies);
        lemma_play_store(after, next, replies.drop_first());
        lemma_consumer_at_store(after, r, q, replies.drop_first());
        if !(run.stage is RotorSymAppend) {
            assert(answers == seq![replies[0].answer] + rest);
            assert(answers.drop_first() =~= rest);
        }
        if let Some(kv_len) = shared_len(laws::play(cache, now, replies).1) {
            lemma_consumer_begins(cache, run, replies[0], kv_len);
            let start = consumer::starting(after, arms::store_call(run.call, kv_len));
            if let ConsumerStep::Ask { run: first, .. } = start {
                if !(run.stage is RotorSymAppend) && mirror::value_window(after, kv_len) is Ok {
                    assert(play_consumer(after, start, answers) == play_consumer(
                        after,
                        consumer::resumed(after, first, replies[0].answer),
                        rest,
                    ));
                }
            }
        }
    }
}

/// A consumer that starts where a step stands after it entered its store asks
/// what the step asks there.
proof fn lemma_consumer_begins(cache: KvCache, run: Run, reply: Reply, kv_len: i32)
    requires
        run.stage is PlanarValues || run.stage is RotorKValues || run.stage is RotorSymAppend,
        ({
            let (after, next) = laws::turn(cache, run, reply);
            &&& at_store(after, next)
            &&& consumer::store_path(after.storage) matches Some(path) && arms::held(path, after)
                == Ok::<i32, Error>(kv_len)
            &&& next matches Step::Ask { run: Run { stage: Stage::Store { run: inner, .. }, .. }, .. }
                && inner.call.kv_seq == kv_len
        }),
    ensures
        ({
            let (after, next) = laws::turn(cache, run, reply);
            let start = consumer::starting(after, arms::store_call(run.call, kv_len));
            let at = ConsumerStep::Ask {
                run: ConsumerRun::Store { run: next->run.stage->Store_run },
                request: next->request,
            };
            if run.stage is RotorSymAppend {
                storage::is_rotor_sym(after.storage) && start == at
            } else {
                &&& !storage::is_rotor_sym(after.storage)
                &&& mirror::value_window(after, kv_len) is Ok ==> (start matches ConsumerStep::Ask {
                    run: r,
                    ..
                } && consumer::resumed(after, r, reply.answer) == at)
            }
        }),
{
    reveal(laws::turn);
}

proof fn lemma_play_consumer(
    cache: KvCache,
    now: Step,
    call: Call,
    replies: Seq<Reply>,
)
    requires
        at_store(cache, now),
        now matches Step::Ask { run, .. } ==> run.call == call && !(run.stage is Store),
        shared_len(now) is None,
    ensures
        ({
            let (last, end) = laws::play(cache, now, replies);
            (shared_len(end), output(end)) matches (Some(kv_len), Some(out)) ==> consumed(
                last,
                arms::store_call(call, kv_len),
                store_answers(cache, now, replies),
                out,
            )
        }),
    decreases replies.len(),
{
    match now {
        Step::Ask { run, request } if replies.len() > 0 => {
            if run.stage is PlanarValues || run.stage is RotorKValues
                || run.stage is RotorSymAppend {
                lemma_consumer_enters(cache, run, request, replies);
            } else {
                let (after, next) = laws::turn(cache, run, replies[0]);
                lemma_at_store(cache, run, request, replies[0]);
                assert(next matches Step::Ask { run: r, .. } ==> r.call == call && !(
                r.stage is Store)) by {
                    reveal(laws::turn);
                }
                lemma_play_consumer(after, next, call, replies.drop_first());
            }
        },
        _ => {},
    }
}

/// A consumer that is handed the share of a producer, asks with the producer's
/// queries and is answered as the producer was ends with the producer's output.
/// Where V has a mirror, the window that the consumer asks for must reach to the
/// length shared, and is answered by the V that the producer had in hand.
pub proof fn law_consumer_repeats_producer(cache: KvCache, call: Call, replies: Seq<Reply>)
    ensures
        ({
            let (c, now) = sdpa::starting(cache, sdpa::fresh(call, Share::Source));
            let (last, end) = laws::play(c, now, replies);
            (shared_len(end), output(end)) matches (Some(kv_len), Some(out)) ==> {
                storage::is_rotor_sym(last.storage) || mirror::value_window(last, kv_len) is Ok
                    ==> play_consumer(
                    last,
                    consumer::starting(last, arms::store_call(call, kv_len)),
                    store_answers(c, now, replies),
                ) == ConsumerStep::Done(Ok(out))
            }
        }),
{
    let (c, now) = sdpa::starting(cache, sdpa::fresh(call, Share::Source));
    lemma_play_consumer(c, now, call, replies);
}

/// A consumer that is handed the share of a producer is not turned away: the
/// length is accepted, and the consumer asks for the stores that the producer's
/// kernel read, at the producer's length. Where V has a mirror, its window comes
/// first; only a mirror that does not reach that far ends the consumer.
pub proof fn law_consumer_accepts_share(
    cache: KvCache,
    call: Call,
    replies: Seq<Reply>,
    shared: StoreCall,
    v: Tensor,
)
    requires
        ({
            let (c, now) = sdpa::starting(cache, sdpa::fresh(call, Share::Source));
            shared_len(laws::play(c, now, replies).1) == Some(shared.kv_seq)
        }),
    ensures
        ({
            let (c, now) = sdpa::starting(cache, sdpa::fresh(call, Share::Source));
            let last = laws::play(c, now, replies).0;
            match (consumer::starting(last, shared), mirror::value_window(last, shared.kv_seq)) {
                (ConsumerStep::Ask { run: ConsumerRun::Store { .. }, request }, _) => request == (
                Request::RotorView { side: Side::K, kv_seq: shared.kv_seq }) && storage::is_rotor_sym(
                    last.storage,
                ),
                (ConsumerStep::Ask { run, request }, Ok(w)) => {
                    &&& request == (Request::Slice { x: w.x, stop: w.stop })
                    &&& consumer::resumed(last, run, Answer::One(v)) matches ConsumerStep::Ask {
                        request,
                        ..
                    } && request == if last.storage is PlanarK {
                        Request::PlanarView
                    } else {
                        Request::RotorView { side: Side::K, kv_seq: shared.kv_seq }
                    }
                },
                (ConsumerStep::Done(Err(e)), Err(missing)) => e == missing,
                _ => false,
            }
        }),
{
    law_reported_length_was_attended(cache, call, replies);
}

/// At the store, a consumer and a producer ask the same of the runtime, answer
/// for answer, and end with the same output.
pub proof fn law_consumer_runs_producer_kernel(
    cache: KvCache,
    run: Run,
    path: Fused,
    inner: StoreRun,
    answer: Answer,
)
    requires
        run.stage == (Stage::Store { path, run: inner }),
    ensures
        match (
            sdpa::answered(cache, run, answer).1,
            consumer::resumed(cache, ConsumerRun::Store { run: inner }, answer),
        ) {
            (
                Step::Ask { run: r1, request: q1 },
                ConsumerStep::Ask { run: ConsumerRun::Store { run: r2 }, request: q2 },
            ) => q1 == q2 && r1.stage == (Stage::Store { path, run: r2 }),
            (Step::Done(Ok(a)), ConsumerStep::Done(Ok(out))) => a.out == out,
            (Step::Done(Err(e1)), ConsumerStep::Done(Err(e2))) => e1 == e2,
            (Step::Done(Err(e1)), ConsumerStep::Done(Ok(_))) => arms::held(path, cache) == Err::<
                i32,
                Error,
            >(e1),
            _ => false,
        },
{
}

/// A materialisation driven by a list of answers.
pub open spec fn play_tensors(cache: KvCache, now: TensorsStep, answers: Seq<Answer>) -> TensorsStep
    decreases answers.len(),
{
    match now {
        TensorsStep::Ask { run, .. } if answers.len() > 0 => play_tensors(
            cache,
            materialise::resumed(cache, run, answers[0]),
            answers.drop_first(),
        ),
        _ => now,
    }
}

/// Whether every cast in a materialisation came out as the type asked for.
pub open spec fn casts_hold(cache: KvCache, now: TensorsStep, answers: Seq<Answer>) -> bool
    decreases answers.len(),
{
    match now {
        TensorsStep::Ask { run, request } if answers.len() > 0 => {
            &&& match (request, answers[0]) {
                (Request::Astype { dtype, .. }, Answer::One(t)) => t.dtype == dtype,
                _ => true,
            }
            &&& casts_hold(
                cache,
                materialise::resumed(cache, run, answers[0]),
                answers.drop_first(),
            )
        },
        _ => true,
    }
}

spec fn casts_to(request: Request, stream: Dtype) -> bool {
    match request {
        Request::Astype { dtype, .. } => dtype == stream,
        _ => false,
    }
}

/// A materialisation whose stream, once it is known, is `stream`.
spec fn on_stream(now: TensorsStep, stream: Dtype) -> bool {
    match now {
        TensorsStep::Ask { run, request } => match run {
            TensorsRun::Keys { v } => v.dtype == stream && !(request is Astype),
            TensorsRun::KeyRows { v } => v.dtype == stream && !(request is Astype),
            TensorsRun::CastV { stream: s, .. } => s == stream && casts_to(request, stream),
            TensorsRun::CastK { v } => v.dtype == stream && casts_to(request, stream),
            _ => false,
        },
        TensorsStep::Done(Ok((k, v))) => k.dtype == stream && v.dtype == stream,
        TensorsStep::Done(Err(e)) => !(e is DtypeSplit),
    }
}

proof fn lemma_on_stream(cache: KvCache, now: TensorsStep, stream: Dtype, answers: Seq<Answer>)
    requires
        on_stream(now, stream),
        casts_hold(cache, now, answers),
    ensures
        on_stream(play_tensors(cache, now, answers), stream),
    decreases answers.len(),
{
    match now {
        TensorsStep::Ask { run, .. } if answers.len() > 0 => {
            lemma_on_stream(
                cache,
                materialise::resumed(cache, run, answers[0]),
                stream,
                answers.drop_first(),
            );
        },
        _ => {},
    }
}

/// K and V that are materialised always share one element type.
pub proof fn law_materialised_pair_has_one_type(cache: KvCache, kv_len: i32, answers: Seq<Answer>)
    ensures
        play_tensors(cache, materialise::starting(cache, kv_len), answers) matches TensorsStep::Done(
            Ok((k, v)),
        ) ==> k.dtype == v.dtype,
{
    lemma_pair(cache, materialise::starting(cache, kv_len), answers);
}

proof fn lemma_pair(cache: KvCache, now: TensorsStep, answers: Seq<Answer>)
    requires
        now matches TensorsStep::Done(Ok((k, v))) ==> k.dtype == v.dtype,
    ensures
        play_tensors(cache, now, answers) matches TensorsStep::Done(Ok((k, v))) ==> k.dtype
            == v.dtype,
    decreases answers.len(),
{
    match now {
        TensorsStep::Ask { run, .. } if answers.len() > 0 => {
            lemma_pair(
                cache,
                materialise::resumed(cache, run, answers[0]),
                answers.drop_first(),
            );
        },
        _ => {},
    }
}

/// With a V mirror, K and V come back in the element type of the mirror, and
/// never split, as long as the runtime casts to what it is asked for.
pub proof fn law_materialised_type_is_that_of_the_mirror(
    cache: KvCache,
    kv_len: i32,
    v: Tensor,
    answers: Seq<Answer>,
)
    requires
        materialise::starting(cache, kv_len) matches TensorsStep::Ask {
            run: TensorsRun::Values { .. },
            ..
        },
        answers.len() > 0,
        answers[0] == Answer::One(v),
        casts_hold(cache, materialise::starting(cache, kv_len), answers),
    ensures
        match play_tensors(cache, materialise::starting(cache, kv_len), answers) {
            TensorsStep::Done(Ok((k2, v2))) => k2.dtype == v.dtype && v2.dtype == v.dtype,
            TensorsStep::Done(Err(e)) => !(e is DtypeSplit),
            TensorsStep::Ask { .. } => true,
        },
{
    let now = materialise::starting(cache, kv_len);
    if let TensorsStep::Ask { run, .. } = now {
        lemma_on_stream(
            cache,
            materialise::resumed(cache, run, answers[0]),
            v.dtype,
            answers.drop_first(),
        );
    }
}

/// Without a mirror, K and V come back in the element type that was recorded at
/// the append, and never split, as long as the runtime casts to what it is asked
/// for.
pub proof fn law_materialised_type_is_the_recorded_one(
    cache: KvCache,
    kv_len: i32,
    k: Tensor,
    v: Tensor,
    stream: Dtype,
    answers: Seq<Answer>,
)
    requires
        storage::is_rotor_sym(cache.storage),
        cache.stream_dtype == Some(stream),
        materialise::starting(cache, kv_len) is Ask,
        answers.len() > 1,
        answers[0] == Answer::One(k),
        answers[1] == Answer::One(v),
        casts_hold(cache, materialise::starting(cache, kv_len), answers),
    ensures
        match play_tensors(cache, materialise::starting(cache, kv_len), answers) {
            TensorsStep::Done(Ok((k2, v2))) => k2.dtype == stream && v2.dtype == stream,
            TensorsStep::Done(Err(e)) => !(e is DtypeSplit),
            TensorsStep::Ask { .. } => true,
        },
{
    reveal_with_fuel(play_tensors, 3);
    reveal_with_fuel(casts_hold, 3);
    let first = materialise::starting(cache, kv_len);
    if let TensorsStep::Ask { run, .. } = first {
        let second = materialise::resumed(cache, run, answers[0]);
        if let TensorsStep::Ask { run, .. } = second {
            assert(answers.drop_first()[0] == answers[1]);
            lemma_on_stream(
                cache,
                materialise::resumed(cache, run, answers[1]),
                stream,
                answers.drop_first().drop_first(),
            );
        }
    }
}

} // verus!
