//! What holds of a whole step, whatever the runtime answers.
use vstd::prelude::*;

use crate::error::{Error, Fused};
use crate::kvcache::materialise::{TensorsRun, TensorsStep};
use crate::kvcache::over_store::{StoreCall, StoreRun, StoreStage, StoreStep};
use crate::kvcache::request::{Answer, Call, KvCache, Reply, Request};
use crate::kvcache::step::{Attended, Run, Share, Shared, Stage, Step};
use crate::kvcache::{arms, materialise, over_store, sdpa, step};
use crate::tensor::Tensor;

verus! {

/// One turn of a step: how it goes on with a reply.
#[verifier::opaque]
pub open spec fn turn(cache: KvCache, run: Run, reply: Reply) -> (KvCache, Step) {
    sdpa::resumed(cache, run, reply)
}

/// A step driven by a list of replies, one to each request, until it is done or
/// the replies run out.
pub open spec fn play(cache: KvCache, now: Step, replies: Seq<Reply>) -> (KvCache, Step)
    decreases replies.len(),
{
    match now {
        Step::Ask { run, .. } if replies.len() > 0 => {
            let (after, next) = turn(cache, run, replies[0]);
            play(after, next, replies.drop_first())
        },
        _ => (cache, now),
    }
}

/// Whether a call was carried out to its end.
pub open spec fn carried_out(answer: Answer) -> bool {
    !(answer is Absent) && !(answer is Failed)
}

/// The requests that append the K of a step.
pub open spec fn appends_k(request: Request) -> bool {
    ||| request is Update
    ||| request is PrefillRaw
    ||| request is MixedUpdateAndFetch
    ||| request is RotKUpdateK
    ||| request is PlanarAppend
    ||| request is RotorKAppend
    ||| request is RotorSymAppend
    ||| request is Flash
    ||| request is FusedQk
}

/// The requests that append the V of a step. The mirror kept beside affine
/// tuples is a copy and not counted.
pub open spec fn appends_v(request: Request) -> bool {
    ||| request is Update
    ||| request is PrefillRaw
    ||| request is MixedUpdateAndFetch
    ||| request is RotKAppendV
    ||| request is UpdateDecodeFp16V
    ||| request is RotorSymAppend
    ||| request is Flash
    ||| request is FusedQk
}

/// The requests that advance the offset on their own.
pub open spec fn advances(request: Request) -> bool {
    ||| request is Update
    ||| request is Flash
    ||| request is FusedQk
}

/// How often the requests of a kind were carried out in a play.
pub open spec fn tally(
    kind: spec_fn(Request) -> bool,
    cache: KvCache,
    now: Step,
    replies: Seq<Reply>,
) -> nat
    decreases replies.len(),
{
    match now {
        Step::Ask { run, request } if replies.len() > 0 => {
            let (after, next) = turn(cache, run, replies[0]);
            let here: nat = if kind(request) && carried_out(replies[0].answer) {
                1
            } else {
                0
            };
            here + tally(kind, after, next, replies.drop_first())
        },
        _ => 0,
    }
}

/// The offset that the runtime reported from a call that advances it, where one
/// was carried out in a play: the last such report.
pub open spec fn reported_offset(cache: KvCache, now: Step, replies: Seq<Reply>) -> Option<i32>
    decreases replies.len(),
{
    match now {
        Step::Ask { run, request } if replies.len() > 0 => {
            let (after, next) = turn(cache, run, replies[0]);
            match reported_offset(after, next, replies.drop_first()) {
                Some(offset) => Some(offset),
                None => if advances(request) && carried_out(replies[0].answer) {
                    Some(replies[0].cache.offset)
                } else {
                    None
                },
            }
        },
        _ => None,
    }
}

/// How many answers a run over a store can still take.
pub open spec fn store_weight(stage: StoreStage) -> nat {
    match stage {
        StoreStage::PlanarView { .. } => 9,
        StoreStage::PlanarScores { .. } => 8,
        StoreStage::PlanarMask { .. } => 7,
        StoreStage::PlanarSoftmax { .. } => 6,
        StoreStage::PlanarProbs { .. } => 5,
        StoreStage::PlanarValues { .. } => 4,
        StoreStage::PlanarMatmul { .. } => 3,
        StoreStage::RotorKView { .. } => 4,
        StoreStage::RotorKTable { .. } => 3,
        StoreStage::SymKView { .. } => 6,
        StoreStage::SymVView { .. } => 5,
        StoreStage::SymKTable { .. } => 4,
        StoreStage::SymVTable { .. } => 3,
        StoreStage::Kernel => 2,
        StoreStage::Cast => 1,
    }
}

/// How many answers a step can still take that decodes K before it attends.
pub open spec fn tensors_weight(run: TensorsRun) -> nat {
    match run {
        TensorsRun::Values { .. } => 6,
        TensorsRun::Keys { .. } => 5,
        TensorsRun::SymKeys => 5,
        TensorsRun::KeyRows { .. } => 4,
        TensorsRun::SymValues { .. } => 4,
        TensorsRun::CastV { .. } => 3,
        TensorsRun::CastK { .. } => 2,
    }
}

/// How many answers a step can still take.
pub open spec fn weight(stage: Stage) -> nat {
    match stage {
        Stage::Start => 1,
        Stage::Attend { .. } => 1,
        Stage::RotKSdpa => 1,
        Stage::MirrorV { .. } => 1,
        Stage::MixedMirror { .. } => 1,
        Stage::Gather { .. } => 2,
        Stage::MirrorK { .. } => 2,
        Stage::MixedSdpa { .. } => 2,
        Stage::RotKRotate { .. } => 2,
        Stage::MixedFetch { .. } => 3,
        Stage::RotKFwht { .. } => 3,
        Stage::FusedQk => 3,
        Stage::RotKFwhtSupported { .. } => 4,
        Stage::Flash => 4,
        Stage::RotKDequantK { .. } => 5,
        Stage::RotKUpload { .. } => 6,
        Stage::RotKDequantV { .. } => 7,
        Stage::RotKAppendV { .. } => 8,
        Stage::RotKHostRows { .. } => 9,
        Stage::RotKUpdateK => 10,
        Stage::Store { run, .. } => store_weight(run.stage),
        Stage::PlanarValues { .. } => 10,
        Stage::RotorKValues => 10,
        Stage::RotorSymAppend => 10,
        Stage::RotorKAppend => 11,
        Stage::UnpackValues => 7,
        Stage::Unpack { run } => tensors_weight(run),
        Stage::PlanarProbe { .. } => 12,
        Stage::PlanarAppend { .. } => 13,
    }
}

/// The stages that wait for the append of K.
spec fn awaits_k(stage: Stage) -> bool {
    ||| stage is Gather
    ||| stage is MixedFetch
    ||| stage is RotKUpdateK
    ||| stage is PlanarAppend
    ||| stage is RotorKAppend
    ||| stage is RotorSymAppend
    ||| stage is Flash
    ||| stage is FusedQk
}

/// The stages that wait for the append of V.
spec fn awaits_v(stage: Stage) -> bool {
    ||| stage is Gather
    ||| stage is MixedFetch
    ||| stage is RotKAppendV
    ||| stage is PlanarValues
    ||| stage is UnpackValues
    ||| stage is RotorKValues
    ||| stage is RotorSymAppend
    ||| stage is Flash
    ||| stage is FusedQk
}

/// The stages at which V is still to be appended.
spec fn v_ahead(stage: Stage) -> bool {
    ||| awaits_v(stage)
    ||| stage is RotKUpdateK
    ||| stage is RotKHostRows
    ||| stage is PlanarAppend
    ||| stage is PlanarProbe
    ||| stage is RotorKAppend
}

/// The stages at which the offset is still to move.
spec fn offset_ahead(stage: Stage) -> bool {
    ||| stage.effect() is Advances
    ||| stage is PlanarAppend
    ||| stage is PlanarProbe
    ||| stage is RotorKAppend
    ||| stage is RotorSymAppend
}

/// A step asks what the stage that it waits at stands for.
spec fn coherent(now: Step, call: Call, share: Share) -> bool {
    match now {
        Step::Ask { run, request } => {
            &&& run.call == call
            &&& run.share == share
            &&& !(run.stage is Start)
            &&& appends_k(request) <==> awaits_k(run.stage)
            &&& appends_v(request) <==> awaits_v(run.stage)
            &&& advances(request) <==> run.stage.effect() is Advances
        },
        Step::Done(_) => true,
    }
}

/// A run over a store appends nothing and advances nothing.
spec fn only_reads(inner: StoreStep) -> bool {
    match inner {
        StoreStep::Ask { request, .. } => !appends_k(request) && !appends_v(request) && !advances(
            request,
        ),
        StoreStep::Done(_) => true,
    }
}

/// One answer in a run over a store.
proof fn lemma_store_next(inner: StoreRun, answer: Answer)
    ensures
        only_reads(inner.next(answer)),
        match inner.next(answer) {
            StoreStep::Ask { run, .. } => store_weight(run.stage) < store_weight(inner.stage),
            StoreStep::Done(Ok(_)) => carried_out(answer),
            StoreStep::Done(Err(_)) => true,
        },
{
}

/// The start of a run over a store.
proof fn lemma_store_begin(cache: KvCache, call: StoreCall, v: Tensor)
    ensures
        begins(over_store::planar_begin(cache, call, v)),
        begins(over_store::rotor_k_begin(cache, call, v)),
        begins(over_store::rotor_sym_begin(cache, call)),
{
}

/// A run over a store that starts only looks, and is not done yet.
spec fn begins(inner: StoreStep) -> bool {
    &&& only_reads(inner)
    &&& match inner {
        StoreStep::Ask { run, .. } => store_weight(run.stage) <= 9,
        StoreStep::Done(r) => r is Err,
    }
}

/// Whether a cache is still of the kind that it was: its mode, its ring, its
/// prefill flag and the recorded element type.
pub open spec fn keeps_kind(before: KvCache, after: KvCache) -> bool {
    &&& after.quant == before.quant
    &&& after.rotating == before.rotating
    &&& after.in_prefill == before.in_prefill
    &&& after.stream_dtype == before.stream_dtype
}

/// What one answer leaves of the place where a step stands: the step still asks
/// what its stage stands for, it is nearer to its end, and it only succeeds on a
/// call that was carried out.
spec fn moves_on(cache: KvCache, run: Run, reply: Reply) -> bool {
    let (_, next) = turn(cache, run, reply);
    &&& coherent(next, run.call, run.share)
    &&& match next {
        Step::Ask { run: r, .. } => weight(r.stage) < weight(run.stage),
        Step::Done(Ok(_)) => carried_out(reply.answer),
        Step::Done(Err(_)) => true,
    }
}

proof fn lemma_follow(cache: KvCache, run: Run, path: Fused, inner: StoreStep)
    requires
        only_reads(inner),
    ensures
        coherent(arms::following(cache, run, path, inner), run.call, run.share),
        match (arms::following(cache, run, path, inner), inner) {
            (Step::Ask { run: r, .. }, StoreStep::Ask { run: r2, .. }) => weight(r.stage)
                == store_weight(r2.stage),
            (Step::Done(Ok(_)), StoreStep::Done(Ok(_))) => true,
            (Step::Done(Err(_)), StoreStep::Done(_)) => true,
            _ => false,
        },
{
}

proof fn lemma_next_store(cache: KvCache, run: Run, path: Fused, inner: StoreRun, reply: Reply)
    requires
        run.stage == (Stage::Store { path, run: inner }),
    ensures
        moves_on(cache, run, reply),
{
    reveal(turn);
    lemma_store_next(inner, reply.answer);
    lemma_follow(cache, run, path, inner.next(reply.answer));
}

proof fn lemma_next_values(cache: KvCache, run: Run, reply: Reply)
    requires
        run.stage is PlanarValues || run.stage is RotorKValues || run.stage is RotorSymAppend,
    ensures
        moves_on(cache, run, reply),
{
    reveal(turn);
    let absorbed = sdpa::absorbed(cache, run.stage, reply);
    match run.stage {
        Stage::PlanarValues { kv_seq } => {
            if let Answer::One(v) = reply.answer {
                let call = arms::store_call(run.call, kv_seq);
                lemma_store_begin(absorbed, call, v);
                let begun = over_store::planar_begin(absorbed, call, v);
                lemma_follow(absorbed, run, Fused::PlanarK, begun);
            }
        },
        Stage::RotorKValues => {
            if let Answer::One(v) = reply.answer {
                if let Ok(kv_seq) = arms::held(Fused::RotorK, absorbed) {
                    let call = arms::store_call(run.call, kv_seq);
                    lemma_store_begin(absorbed, call, v);
                    let begun = over_store::rotor_k_begin(absorbed, call, v);
                    lemma_follow(absorbed, run, Fused::RotorK, begun);
                }
            }
        },
        _ => {
            if let Ok(after) = absorbed.advancing(run.call.new_k.shape.d2) {
                if let Ok(kv_seq) = arms::held(Fused::RotorSym, after) {
                    let call = arms::store_call(run.call, kv_seq);
                    lemma_store_begin(after, call, run.call.new_v);
                    let begun = over_store::rotor_sym_begin(after, call);
                    lemma_follow(after, run, Fused::RotorSym, begun);
                }
            }
        },
    }
}

/// One answer in the decoding of K.
proof fn lemma_tensors_next(cache: KvCache, inner: TensorsRun, answer: Answer)
    ensures
        match materialise::resumed(cache, inner, answer) {
            TensorsStep::Ask { run, request } => {
                &&& tensors_weight(run) < tensors_weight(inner)
                &&& !appends_k(request) && !appends_v(request) && !advances(request)
            },
            TensorsStep::Done(Ok(_)) => carried_out(answer),
            TensorsStep::Done(Err(_)) => true,
        },
{
}

proof fn lemma_next_unpack(cache: KvCache, run: Run, inner: TensorsRun, reply: Reply)
    requires
        run.stage == (Stage::Unpack { run: inner }),
    ensures
        moves_on(cache, run, reply),
{
    reveal(turn);
    lemma_tensors_next(cache, inner, reply.answer);
}

proof fn lemma_next_kind(cache: KvCache, run: Run, reply: Reply)
    ensures
        keeps_kind(cache, turn(cache, run, reply).0),
{
    reveal(turn);
}

proof fn lemma_next_other(cache: KvCache, run: Run, reply: Reply)
    requires
        !(run.stage is Start),
        !(run.stage is Store),
        !(run.stage is Unpack),
        !(run.stage is PlanarValues),
        !(run.stage is RotorKValues),
        !(run.stage is RotorSymAppend),
    ensures
        moves_on(cache, run, reply),
{
    reveal(turn);
}

/// One answer: what it does to the place where the step stands.
proof fn lemma_next(cache: KvCache, run: Run, request: Request, reply: Reply)
    requires
        coherent(Step::Ask { run, request }, run.call, run.share),
    ensures
        moves_on(cache, run, reply),
        keeps_kind(cache, turn(cache, run, reply).0),
{
    lemma_next_kind(cache, run, reply);
    match run.stage {
        Stage::Store { path, run: inner } => {
            lemma_next_store(cache, run, path, inner, reply);
        },
        Stage::Unpack { run: inner } => {
            lemma_next_unpack(cache, run, inner, reply);
        },
        Stage::PlanarValues { .. } => {
            lemma_next_values(cache, run, reply);
        },
        Stage::RotorKValues => {
            lemma_next_values(cache, run, reply);
        },
        Stage::RotorSymAppend => {
            lemma_next_values(cache, run, reply);
        },
        _ => {
            lemma_next_other(cache, run, reply);
        },
    }
}

/// One answer: what it does to the appends that are still ahead.
proof fn lemma_next_appends(cache: KvCache, run: Run, request: Request, reply: Reply)
    requires
        coherent(Step::Ask { run, request }, run.call, run.share),
    ensures
        ({
            let (_, next) = turn(cache, run, reply);
            match next {
                Step::Ask { run: r, .. } => {
                    &&& v_ahead(run.stage) <==> (awaits_v(run.stage) && carried_out(reply.answer))
                        || v_ahead(r.stage)
                    &&& !(awaits_v(run.stage) && carried_out(reply.answer) && v_ahead(r.stage))
                    &&& awaits_k(run.stage) <==> (awaits_k(run.stage) && carried_out(reply.answer))
                        || awaits_k(r.stage)
                    &&& !(awaits_k(run.stage) && carried_out(reply.answer) && awaits_k(r.stage))
                },
                Step::Done(Ok(_)) => {
                    &&& v_ahead(run.stage) ==> awaits_v(run.stage)
                },
                Step::Done(Err(_)) => true,
            }
        }),
{
    reveal(turn);
}

/// One answer: what it does to the offset.
proof fn lemma_next_offset(cache: KvCache, run: Run, request: Request, reply: Reply)
    requires
        coherent(Step::Ask { run, request }, run.call, run.share),
    ensures
        ({
            let (after, next) = turn(cache, run, reply);
            let reported = advances(request) && carried_out(reply.answer);
            match next {
                Step::Ask { run: r, .. } => {
                    &&& !offset_ahead(run.stage) ==> !offset_ahead(r.stage) && after.offset
                        == cache.offset
                    &&& reported ==> !offset_ahead(r.stage) && after.offset == reply.cache.offset
                    &&& offset_ahead(run.stage) && !reported && offset_ahead(r.stage)
                        ==> after.offset == cache.offset
                    &&& offset_ahead(run.stage) && !reported && !offset_ahead(r.stage)
                        ==> after.offset == cache.offset + run.call.new_k.shape.d2
                },
                Step::Done(Ok(_)) => {
                    &&& !offset_ahead(run.stage) ==> after.offset == cache.offset
                    &&& reported ==> after.offset == reply.cache.offset
                    &&& offset_ahead(run.stage) && !reported ==> after.offset == cache.offset
                        + run.call.new_k.shape.d2
                },
                Step::Done(Err(_)) => true,
            }
        }),
{
    reveal(turn);
}

/// How a step that starts stands.
proof fn lemma_start(cache: KvCache, call: Call, share: Share)
    ensures
        ({
            let (after, now) = sdpa::starting(cache, sdpa::fresh(call, share));
            &&& coherent(now, call, share)
            &&& keeps_kind(cache, KvCache { stream_dtype: cache.stream_dtype, ..after })
            &&& after.stream_dtype == match now {
                Step::Ask { request: Request::RotorSymAppend { .. }, .. } => Some(call.new_v.dtype),
                _ => cache.stream_dtype,
            }
            &&& match now {
                Step::Ask { run, .. } => {
                    &&& weight(run.stage) <= 13
                    &&& awaits_k(run.stage)
                    &&& v_ahead(run.stage)
                    &&& offset_ahead(run.stage) ==> after.offset == cache.offset
                    &&& !offset_ahead(run.stage) ==> after.offset == cache.offset
                        + call.new_k.shape.d2
                },
                Step::Done(r) => r is Err,
            }
        }),
{
}

proof fn lemma_play_ends(cache: KvCache, now: Step, call: Call, share: Share, replies: Seq<Reply>)
    requires
        coherent(now, call, share),
        now matches Step::Ask { run, .. } ==> weight(run.stage) <= replies.len(),
    ensures
        play(cache, now, replies).1 is Done,
    decreases replies.len(),
{
    match now {
        Step::Ask { run, request } => {
            assert(weight(run.stage) > 0);
            lemma_next(cache, run, request, replies[0]);
            let (after, next) = turn(cache, run, replies[0]);
            lemma_play_ends(after, next, call, share, replies.drop_first());
        },
        _ => {},
    }
}

/// Every step comes to an end: no more than thirteen answers are ever needed.
pub proof fn law_step_ends(cache: KvCache, call: Call, share: Share, replies: Seq<Reply>)
    requires
        replies.len() >= 13,
    ensures
        ({
            let (after, now) = sdpa::starting(cache, sdpa::fresh(call, share));
            play(after, now, replies).1 is Done
        }),
{
    lemma_start(cache, call, share);
    let (after, now) = sdpa::starting(cache, sdpa::fresh(call, share));
    lemma_play_ends(after, now, call, share, replies);
}

proof fn lemma_play_v(cache: KvCache, now: Step, call: Call, share: Share, replies: Seq<Reply>)
    requires
        coherent(now, call, share),
    ensures
        ({
            let ahead: nat = if now matches Step::Ask { run, .. } && v_ahead(run.stage) {
                1
            } else {
                0
            };
            let count = tally(|q: Request| appends_v(q), cache, now, replies);
            &&& count <= ahead
            &&& play(cache, now, replies).1 matches Step::Done(Ok(_)) ==> (now is Done || count
                == ahead)
        }),
    decreases replies.len(),
{
    match now {
        Step::Ask { run, request } if replies.len() > 0 => {
            lemma_next(cache, run, request, replies[0]);
            lemma_next_appends(cache, run, request, replies[0]);
            let (after, next) = turn(cache, run, replies[0]);
            lemma_play_v(after, next, call, share, replies.drop_first());
        },
        _ => {},
    }
}

/// The V of a step is appended exactly once in every step that succeeds, and at
/// most once in every other.
pub proof fn law_values_appended_once(cache: KvCache, call: Call, share: Share, replies: Seq<Reply>)
    ensures
        ({
            let (after, now) = sdpa::starting(cache, sdpa::fresh(call, share));
            let count = tally(|q: Request| appends_v(q), after, now, replies);
            &&& count <= 1
            &&& play(after, now, replies).1 matches Step::Done(Ok(_)) ==> count == 1
        }),
{
    lemma_start(cache, call, share);
    let (after, now) = sdpa::starting(cache, sdpa::fresh(call, share));
    lemma_play_v(after, now, call, share, replies);
}

proof fn lemma_play_k(cache: KvCache, now: Step, call: Call, share: Share, replies: Seq<Reply>)
    requires
        coherent(now, call, share),
    ensures
        ({
            let ahead: nat = if now matches Step::Ask { run, .. } && awaits_k(run.stage) {
                1
            } else {
                0
            };
            let count = tally(|q: Request| appends_k(q), cache, now, replies);
            &&& count <= ahead
            &&& play(cache, now, replies).1 matches Step::Done(Ok(_)) ==> (now is Done || count
                == ahead)
        }),
    decreases replies.len(),
{
    match now {
        Step::Ask { run, request } if replies.len() > 0 => {
            lemma_next(cache, run, request, replies[0]);
            lemma_next_appends(cache, run, request, replies[0]);
            let (after, next) = turn(cache, run, replies[0]);
            lemma_play_k(after, next, call, share, replies.drop_first());
        },
        _ => {},
    }
}

/// The K of a step is appended exactly once in every step that succeeds, and at
/// most once in every other: no step turns to another arm once it has appended.
pub proof fn law_keys_appended_once(cache: KvCache, call: Call, share: Share, replies: Seq<Reply>)
    ensures
        ({
            let (after, now) = sdpa::starting(cache, sdpa::fresh(call, share));
            let count = tally(|q: Request| appends_k(q), after, now, replies);
            &&& count <= 1
            &&& play(after, now, replies).1 matches Step::Done(Ok(_)) ==> count == 1
        }),
{
    lemma_start(cache, call, share);
    let (after, now) = sdpa::starting(cache, sdpa::fresh(call, share));
    lemma_play_k(after, now, call, share, replies);
}

proof fn lemma_play_offset(
    cache: KvCache,
    now: Step,
    call: Call,
    share: Share,
    replies: Seq<Reply>,
)
    requires
        coherent(now, call, share),
        play(cache, now, replies).1 matches Step::Done(Ok(_)),
    ensures
        ({
            let ahead = now matches Step::Ask { run, .. } && offset_ahead(run.stage);
            let offset = play(cache, now, replies).0.offset;
            match reported_offset(cache, now, replies) {
                Some(reported) => ahead && offset == reported,
                None => if ahead {
                    offset == cache.offset + call.new_k.shape.d2
                } else {
                    offset == cache.offset
                },
            }
        }),
    decreases replies.len(),
{
    match now {
        Step::Ask { run, request } if replies.len() > 0 => {
            lemma_next(cache, run, request, replies[0]);
            lemma_next_offset(cache, run, request, replies[0]);
            let (after, next) = turn(cache, run, replies[0]);
            lemma_play_offset(after, next, call, share, replies.drop_first());
        },
        _ => {},
    }
}

/// The offset moves exactly once in every step that succeeds: to where the
/// runtime reports it, by a call that advances it, or else by the positions of
/// the step.
pub proof fn law_offset_moves_once(cache: KvCache, call: Call, share: Share, replies: Seq<Reply>)
    requires
        ({
            let (after, now) = sdpa::starting(cache, sdpa::fresh(call, share));
            play(after, now, replies).1 matches Step::Done(Ok(_))
        }),
    ensures
        ({
            let (after, now) = sdpa::starting(cache, sdpa::fresh(call, share));
            play(after, now, replies).0.offset == match reported_offset(after, now, replies) {
                Some(reported) => reported as int,
                None => cache.offset + call.new_k.shape.d2,
            }
        }),
{
    lemma_start(cache, call, share);
    let (after, now) = sdpa::starting(cache, sdpa::fresh(call, share));
    lemma_play_offset(after, now, call, share, replies);
}

/// Whether every call of a play that advances the offset on its own, and was
/// carried out, reports the offset that it found and the positions of the step.
pub open spec fn reports_its_step(cache: KvCache, now: Step, replies: Seq<Reply>) -> bool
    decreases replies.len(),
{
    match now {
        Step::Ask { run, request } if replies.len() > 0 => {
            let (after, next) = turn(cache, run, replies[0]);
            &&& advances(request) && carried_out(replies[0].answer) ==> replies[0].cache.offset
                == cache.offset + run.call.new_k.shape.d2
            &&& reports_its_step(after, next, replies.drop_first())
        },
        _ => true,
    }
}

proof fn lemma_play_sum(cache: KvCache, now: Step, call: Call, share: Share, replies: Seq<Reply>)
    requires
        coherent(now, call, share),
        reports_its_step(cache, now, replies),
        play(cache, now, replies).1 matches Step::Done(Ok(_)),
    ensures
        play(cache, now, replies).0.offset == if now matches Step::Ask { run, .. } && offset_ahead(
            run.stage,
        ) {
            cache.offset + call.new_k.shape.d2
        } else {
            cache.offset as int
        },
    decreases replies.len(),
{
    match now {
        Step::Ask { run, request } if replies.len() > 0 => {
            lemma_next(cache, run, request, replies[0]);
            lemma_next_offset(cache, run, request, replies[0]);
            let (after, next) = turn(cache, run, replies[0]);
            lemma_play_sum(after, next, call, share, replies.drop_first());
        },
        _ => {},
    }
}

/// As long as the calls that advance the offset on their own count the positions
/// of the step, a step that succeeds ends behind exactly those positions,
/// whichever arm ran and whichever were tried before it.
pub proof fn law_offset_moves_by_the_step(
    cache: KvCache,
    call: Call,
    share: Share,
    replies: Seq<Reply>,
)
    requires
        ({
            let (after, now) = sdpa::starting(cache, sdpa::fresh(call, share));
            reports_its_step(after, now, replies)
        }),
    ensures
        ({
            let (after, now) = sdpa::starting(cache, sdpa::fresh(call, share));
            let (last, end) = play(after, now, replies);
            end matches Step::Done(Ok(_)) ==> last.offset == cache.offset + call.new_k.shape.d2
        }),
{
    lemma_start(cache, call, share);
    let (after, now) = sdpa::starting(cache, sdpa::fresh(call, share));
    if play(after, now, replies).1 matches Step::Done(Ok(_)) {
        lemma_play_sum(after, now, call, share, replies);
    }
}

proof fn lemma_play_kind(cache: KvCache, now: Step, call: Call, share: Share, replies: Seq<Reply>)
    requires
        coherent(now, call, share),
    ensures
        keeps_kind(cache, play(cache, now, replies).0),
    decreases replies.len(),
{
    match now {
        Step::Ask { run, request } if replies.len() > 0 => {
            lemma_next(cache, run, request, replies[0]);
            let (after, next) = turn(cache, run, replies[0]);
            lemma_play_kind(after, next, call, share, replies.drop_first());
        },
        _ => {},
    }
}

/// A step never changes the mode of a cache, nor its ring, nor its prefill flag,
/// whatever the runtime reports. The one element type that it may record is that
/// of its own V, and only before it appends to both rotor rings.
pub proof fn law_step_keeps_kind(cache: KvCache, call: Call, share: Share, replies: Seq<Reply>)
    ensures
        ({
            let (after, now) = sdpa::starting(cache, sdpa::fresh(call, share));
            let last = play(after, now, replies).0;
            &&& last.quant == cache.quant
            &&& last.rotating == cache.rotating
            &&& last.in_prefill == cache.in_prefill
            &&& last.stream_dtype == match now {
                Step::Ask { request: Request::RotorSymAppend { .. }, .. } => Some(call.new_v.dtype),
                _ => cache.stream_dtype,
            }
        }),
{
    lemma_start(cache, call, share);
    let (after, now) = sdpa::starting(cache, sdpa::fresh(call, share));
    lemma_play_kind(after, now, call, share, replies);
}

/// Where a step over both rotor rings can stand.
spec fn rings_path(now: Step) -> bool {
    match now {
        Step::Ask { run, .. } => match run.stage {
            Stage::RotorSymAppend => true,
            Stage::Store { path, .. } => path is RotorSym,
            _ => false,
        },
        Step::Done(_) => true,
    }
}

proof fn lemma_next_rings(cache: KvCache, run: Run, request: Request, reply: Reply)
    requires
        rings_path(Step::Ask { run, request }),
    ensures
        ({
            let (after, next) = turn(cache, run, reply);
            &&& rings_path(next)
            &&& after.decode_fp16_k == cache.decode_fp16_k
            &&& after.decode_fp16_v == cache.decode_fp16_v
            &&& run.stage is Store ==> after == cache
            &&& next matches Step::Ask { run: r, .. } ==> r.stage is Store && r.call == run.call
            &&& run.stage is RotorSymAppend && !(next matches Step::Done(Err(_))) ==> {
                &&& after.storage == reply.cache.storage
                &&& after.offset == cache.offset + run.call.new_k.shape.d2
                &&& arms::held(Fused::RotorSym, after) is Ok
            }
        }),
{
    reveal(turn);
}

proof fn lemma_play_rings(cache: KvCache, now: Step, replies: Seq<Reply>)
    requires
        rings_path(now),
        now matches Step::Ask { run, .. } ==> run.stage is Store,
    ensures
        play(cache, now, replies).0 == cache,
    decreases replies.len(),
{
    match now {
        Step::Ask { run, request } if replies.len() > 0 => {
            lemma_next_rings(cache, run, request, replies[0]);
            let (after, next) = turn(cache, run, replies[0]);
            lemma_play_rings(after, next, replies.drop_first());
        },
        _ => {},
    }
}

/// A step over both rotor rings leaves the mirrors as they were, records the
/// element type of its V, and, where it succeeds, moves the offset by its own
/// positions and ends on the storage that its append reported, with K and V
/// stores of one length.
pub proof fn law_rings_step_keeps_mirrors(
    cache: KvCache,
    call: Call,
    share: Share,
    replies: Seq<Reply>,
)
    requires
        sdpa::starting(cache, sdpa::fresh(call, share)).1 matches Step::Ask {
            request: Request::RotorSymAppend { .. },
            ..
        },
    ensures
        ({
            let (after, now) = sdpa::starting(cache, sdpa::fresh(call, share));
            let (last, end) = play(after, now, replies);
            &&& last.decode_fp16_k == cache.decode_fp16_k
            &&& last.decode_fp16_v == cache.decode_fp16_v
            &&& last.stream_dtype == Some(call.new_v.dtype)
            &&& end matches Step::Done(Ok(_)) ==> {
                &&& last.offset == cache.offset + call.new_k.shape.d2
                &&& replies.len() > 0 && last.storage == replies[0].cache.storage
                &&& arms::held(Fused::RotorSym, last) is Ok
            }
        }),
{
    let (after, now) = sdpa::starting(cache, sdpa::fresh(call, share));
    if let Step::Ask { run, request } = now {
        if replies.len() > 0 {
            lemma_start(cache, call, share);
            lemma_next(after, run, request, replies[0]);
            lemma_next_rings(after, run, request, replies[0]);
            let (c, next) = turn(after, run, replies[0]);
            lemma_play_rings(c, next, replies.drop_first());
        }
    }
}

/// Packed K whose buffers are not on the device after its append is decoded and
/// attended plainly: the step succeeds, K stays as it was appended, V goes behind
/// it, the offset moves once, and what is shared is the pair that was attended.
pub proof fn law_packed_k_without_view_is_decoded(
    cache: KvCache,
    run: Run,
    request: Request,
    max_seq: i32,
    replies: Seq<Reply>,
    k: Tensor,
    v: Tensor,
    out: Tensor,
)
    requires
        run.stage == (Stage::PlanarProbe { max_seq }),
        cache.advancing(run.call.new_k.shape.d2) is Ok,
        replies.len() == 4,
        replies[0].answer is Absent,
        replies[1].answer == Answer::One(v),
        replies[2].answer == Answer::One(k),
        k.dtype == v.dtype,
        replies[3].answer == Answer::One(out),
    ensures
        ({
            let (last, end) = play(cache, Step::Ask { run, request }, replies);
            &&& end == Step::Done(Ok(Attended { out, shared: step::bf16_share(run.share, k, v) }))
            &&& last == KvCache {
                offset: (cache.offset + run.call.new_k.shape.d2) as i32,
                decode_fp16_v: replies[1].cache.decode_fp16_v,
                ..cache
            }
            &&& asked(cache, Step::Ask { run, request }, replies) == seq![
                request,
                Request::UpdateDecodeFp16V { new_v: run.call.new_v.id, max_seq },
                Request::PlanarDequantK { dtype: v.dtype },
                Request::Sdpa {
                    q: run.call.queries.id,
                    k: k.id,
                    v: v.id,
                    scale: run.call.scale,
                    mode: run.call.mask_mode,
                    mask: run.call.mask,
                },
            ]
        }),
{
    reveal(turn);
    reveal_with_fuel(play, 5);
    reveal_with_fuel(asked, 5);
    let r1 = replies.drop_first();
    let r2 = r1.drop_first();
    let r3 = r2.drop_first();
    assert(r1[0] == replies[1] && r2[0] == replies[2] && r3[0] == replies[3]);
}

/// Whether a share is of the kind that was asked for.
pub open spec fn of_kind(shared: Shared, share: Share) -> bool {
    match share {
        Share::Nothing => shared is Nothing,
        Share::Source => shared is Source,
        Share::Out => shared is Out,
    }
}

/// Whether a share is a store.
pub open spec fn is_store(shared: Shared) -> bool {
    shared matches Shared::Source(s) && s is Store
}

/// Whether a share is the affine tuples.
pub open spec fn is_tuples(shared: Shared) -> bool {
    shared matches Shared::Out(s) && s is MixedQuant
}

/// Whether a cache attends affine tuples as they are stored.
pub open spec fn attends_tuples(cache: KvCache) -> bool {
    !cache.rotating && cache.storage is Mixed && !cache.in_prefill
}

/// Whether a cache goes through the decode arms.
pub open spec fn tries_arms(cache: KvCache) -> bool {
    !cache.rotating && !(cache.storage is RotKTq4V) && !(cache.storage is Mixed)
}

/// The stages of a step over affine tuples.
spec fn on_tuples(stage: Stage) -> bool {
    stage is MixedFetch || stage is MixedSdpa || stage is MixedMirror
}

/// The stages from which a step can still come to its store.
spec fn near_store(stage: Stage) -> bool {
    ||| stage is PlanarAppend
    ||| stage is PlanarProbe
    ||| stage is PlanarValues
    ||| stage is RotorKAppend
    ||| stage is RotorKValues
    ||| stage is RotorSymAppend
    ||| stage is Store
}

/// The stages of a step that appends to a store and attends it.
spec fn on_store_arm(stage: Stage) -> bool {
    near_store(stage) || stage is UnpackValues || stage is Unpack || stage is Attend
}

proof fn lemma_next_near_store(cache: KvCache, run: Run, request: Request, reply: Reply)
    requires
        on_store_arm(run.stage),
    ensures
        ({
            let (after, next) = turn(cache, run, reply);
            &&& after.decode_fp16_k == cache.decode_fp16_k
            &&& next matches Step::Ask { run: r, .. } ==> on_store_arm(r.stage)
        }),
{
    reveal(turn);
}

proof fn lemma_play_near_store(
    cache: KvCache,
    now: Step,
    call: Call,
    share: Share,
    replies: Seq<Reply>,
)
    requires
        coherent(now, call, share),
        now matches Step::Ask { run, .. } ==> on_store_arm(run.stage),
    ensures
        play(cache, now, replies).0.decode_fp16_k == cache.decode_fp16_k,
        reported_offset(cache, now, replies) is None,
    decreases replies.len(),
{
    match now {
        Step::Ask { run, request } if replies.len() > 0 => {
            lemma_next(cache, run, request, replies[0]);
            lemma_next_near_store(cache, run, request, replies[0]);
            let (after, next) = turn(cache, run, replies[0]);
            lemma_play_near_store(after, next, call, share, replies.drop_first());
        },
        _ => {},
    }
}

/// A step that appends to a store and attends what it holds never touches the K
/// mirror, and where it succeeds the offset moves by its own positions.
pub proof fn law_store_step_keeps_k_mirror(
    cache: KvCache,
    call: Call,
    share: Share,
    replies: Seq<Reply>,
)
    requires
        sdpa::starting(cache, sdpa::fresh(call, share)).1 matches Step::Ask { request, .. } && (
        request is PlanarAppend || request is RotorKAppend || request is RotorSymAppend),
    ensures
        ({
            let (after, now) = sdpa::starting(cache, sdpa::fresh(call, share));
            let (last, end) = play(after, now, replies);
            &&& last.decode_fp16_k == cache.decode_fp16_k
            &&& end matches Step::Done(Ok(_)) ==> last.offset == cache.offset
                + call.new_k.shape.d2
        }),
{
    lemma_start(cache, call, share);
    let (after, now) = sdpa::starting(cache, sdpa::fresh(call, share));
    lemma_play_near_store(after, now, call, share, replies);
    if play(after, now, replies).1 matches Step::Done(Ok(_)) {
        law_offset_moves_once(cache, call, share, replies);
    }
}

/// Where a step can stand, by what it is to share: on the affine tuples or not,
/// on its way to a store only where the arms are tried.
spec fn share_path(now: Step, share: Share, tuples: bool, arms_tried: bool) -> bool {
    match now {
        Step::Ask { run, .. } => {
            &&& on_tuples(run.stage) == tuples
            &&& near_store(run.stage) ==> arms_tried && !(share is Out)
            &&& run.stage is RotKSdpa ==> share is Nothing
            &&& run.stage is MixedMirror ==> share is Source
        },
        Step::Done(Ok(a)) => {
            &&& of_kind(a.shared, share)
            &&& is_store(a.shared) ==> arms_tried
            &&& share is Out ==> is_tuples(a.shared) == tuples
        },
        Step::Done(Err(_)) => true,
    }
}

proof fn lemma_next_share(
    cache: KvCache,
    run: Run,
    request: Request,
    tuples: bool,
    arms_tried: bool,
    reply: Reply,
)
    requires
        coherent(Step::Ask { run, request }, run.call, run.share),
        share_path(Step::Ask { run, request }, run.share, tuples, arms_tried),
    ensures
        share_path(turn(cache, run, reply).1, run.share, tuples, arms_tried),
{
    reveal(turn);
}

proof fn lemma_play_share(
    cache: KvCache,
    now: Step,
    call: Call,
    share: Share,
    tuples: bool,
    arms_tried: bool,
    replies: Seq<Reply>,
)
    requires
        coherent(now, call, share),
        share_path(now, share, tuples, arms_tried),
    ensures
        share_path(play(cache, now, replies).1, share, tuples, arms_tried),
    decreases replies.len(),
{
    match now {
        Step::Ask { run, request } if replies.len() > 0 => {
            lemma_next(cache, run, request, replies[0]);
            lemma_next_share(cache, run, request, tuples, arms_tried, replies[0]);
            let (after, next) = turn(cache, run, replies[0]);
            lemma_play_share(
                after,
                next,
                call,
                share,
                tuples,
                arms_tried,
                replies.drop_first(),
            );
        },
        _ => {},
    }
}

/// What a step that succeeds shares is decided by the cache. It is of the kind
/// asked for. The affine tuples are shared exactly where they are attended. The
/// store is shared by the decode arms alone, so that a ring, an affine codec and
/// a prefill of either always share bf16 K and V.
pub proof fn law_share_follows_cache(cache: KvCache, call: Call, share: Share, replies: Seq<Reply>)
    ensures
        ({
            let (after, now) = sdpa::starting(cache, sdpa::fresh(call, share));
            play(after, now, replies).1 matches Step::Done(Ok(a)) ==> {
                &&& of_kind(a.shared, share)
                &&& is_store(a.shared) ==> tries_arms(cache)
                &&& share is Out ==> is_tuples(a.shared) == attends_tuples(cache)
            }
        }),
{
    lemma_start(cache, call, share);
    let (after, now) = sdpa::starting(cache, sdpa::fresh(call, share));
    lemma_play_share(
        after,
        now,
        call,
        share,
        attends_tuples(cache),
        tries_arms(cache),
        replies,
    );
}

/// The requests of a play that were replied to, in order.
pub open spec fn asked(cache: KvCache, now: Step, replies: Seq<Reply>) -> Seq<Request>
    decreases replies.len(),
{
    match now {
        Step::Ask { run, request } if replies.len() > 0 => {
            let (after, next) = turn(cache, run, replies[0]);
            seq![request] + asked(after, next, replies.drop_first())
        },
        _ => Seq::empty(),
    }
}

/// Whether a request is the codec's own update, or plain attention under the
/// mask of the call.
pub open spec fn plain(request: Request, call: Call) -> bool {
    match request {
        Request::Update { .. } => true,
        Request::Sdpa { mode, mask, .. } => mode == call.mask_mode && mask == call.mask,
        _ => false,
    }
}

/// Where a step on a ring can stand.
spec fn ring_path(now: Step, call: Call) -> bool {
    now matches Step::Ask { run, request } ==> {
        &&& plain(request, call)
        &&& run.stage is Gather || run.stage is Attend
        &&& run.stage matches Stage::Gather { mode, .. } ==> mode == call.mask_mode
    }
}

proof fn lemma_next_ring(cache: KvCache, run: Run, request: Request, reply: Reply)
    requires
        ring_path(Step::Ask { run, request }, run.call),
    ensures
        ring_path(turn(cache, run, reply).1, run.call),
{
    reveal(turn);
}

proof fn lemma_play_ring(cache: KvCache, now: Step, call: Call, share: Share, replies: Seq<Reply>)
    requires
        coherent(now, call, share),
        ring_path(now, call),
    ensures
        forall|i: int|
            0 <= i < asked(cache, now, replies).len() ==> plain(
                #[trigger] asked(cache, now, replies)[i],
                call,
            ),
    decreases replies.len(),
{
    match now {
        Step::Ask { run, request } if replies.len() > 0 => {
            lemma_next(cache, run, request, replies[0]);
            lemma_next_ring(cache, run, request, replies[0]);
            let (after, next) = turn(cache, run, replies[0]);
            lemma_play_ring(after, next, call, share, replies.drop_first());
            let rest = asked(after, next, replies.drop_first());
            let all = asked(cache, now, replies);
            assert forall|i: int| 0 <= i < all.len() implies plain(#[trigger] all[i], call) by {
                if i > 0 {
                    assert(all[i] == rest[i - 1]);
                }
            }
        },
        _ => {},
    }
}

/// A ring over a sliding window is updated and attended plainly under the
/// caller's mask, whatever the mode of the cache, so that the K attended is the
/// one that the mask was sized for.
pub proof fn law_ring_stays_plain(cache: KvCache, call: Call, share: Share, replies: Seq<Reply>)
    requires
        cache.rotating,
    ensures
        ({
            let (after, now) = sdpa::starting(cache, sdpa::fresh(call, share));
            &&& after == cache
            &&& forall|i: int|
                0 <= i < asked(after, now, replies).len() ==> plain(
                    #[trigger] asked(after, now, replies)[i],
                    call,
                )
        }),
{
    lemma_start(cache, call, share);
    let (after, now) = sdpa::starting(cache, sdpa::fresh(call, share));
    lemma_play_ring(after, now, call, share, replies);
}

/// A step that tries the decode arms leaves the cache as it was until its first
/// request, whichever arm it comes to: every gate in front of an arm only looks.
/// The one thing noted is the element type of the stream, right before the
/// append to both rings.
pub proof fn law_gates_only_look(cache: KvCache, call: Call, share: Share)
    requires
        tries_arms(cache),
    ensures
        ({
            let (after, now) = sdpa::starting(cache, sdpa::fresh(call, share));
            after == match now {
                Step::Ask { request: Request::RotorSymAppend { .. }, .. } => KvCache {
                    stream_dtype: Some(call.new_v.dtype),
                    ..cache
                },
                _ => cache,
            }
        }),
{
}

/// Plain attention runs over what was accumulated: K and V come out of the answer
/// of the call that gathered them, never out of the step itself.
pub proof fn law_accumulated_kv_is_attended(cache: KvCache, run: Run, reply: Reply, k: Tensor, v: Tensor)
    requires
        run.stage is Gather,
        reply.answer == Answer::Two(k, v),
    ensures
        turn(cache, run, reply).1 matches Step::Ask {
            request: Request::Sdpa { q, k: attended_k, v: attended_v, .. },
            ..
        } && q == run.call.queries.id && attended_k == k.id && attended_v == v.id,
{
    reveal(turn);
}

/// A fused rotation that fails is done again as a product with the rotation
/// matrix. It is the one failure that does not end a step.
pub proof fn law_failed_rotation_is_done_again(cache: KvCache, run: Run, reply: Reply, code: u64)
    requires
        reply.answer == Answer::Failed(code),
        !(run.stage is Start),
    ensures
        match run.stage {
            Stage::RotKFwht { rotation, .. } => turn(cache, run, reply).1 matches Step::Ask {
                request: Request::RotateLastAxis { x, rotation: r },
                ..
            } && x == run.call.queries.id && r == rotation,
            _ => turn(cache, run, reply).1 == Step::Done(Err(Error::Outside(code))),
        },
{
    reveal(turn);
}

/// While an unquantized K seed is live, packed K is not appended to: the step
/// decodes off the seed.
pub proof fn law_seed_keeps_packed_arm_closed(cache: KvCache, call: Call, share: Share)
    requires
        cache.decode_fp16_k is Some,
    ensures
        !(sdpa::starting(cache, sdpa::fresh(call, share)).1 matches Step::Ask {
            request: Request::PlanarAppend { .. },
            ..
        }),
{
}

/// A request for the flash kernel that locks the mirrors exactly where nothing is
/// shared.
pub open spec fn locks_rightly(request: Request, share: Share) -> bool {
    request matches Request::Flash { lock, .. } ==> lock == (share is Nothing)
}

proof fn lemma_play_lock(cache: KvCache, now: Step, call: Call, share: Share, replies: Seq<Reply>)
    requires
        coherent(now, call, share),
        now matches Step::Ask { request, .. } ==> locks_rightly(request, share),
    ensures
        forall|i: int|
            0 <= i < asked(cache, now, replies).len() ==> locks_rightly(
                #[trigger] asked(cache, now, replies)[i],
                share,
            ),
    decreases replies.len(),
{
    match now {
        Step::Ask { run, request } if replies.len() > 0 => {
            lemma_next(cache, run, request, replies[0]);
            let (after, next) = turn(cache, run, replies[0]);
            assert(next matches Step::Ask { request, .. } ==> locks_rightly(request, share)) by {
                reveal(turn);
            }
            lemma_play_lock(after, next, call, share, replies.drop_first());
            let rest = asked(after, next, replies.drop_first());
            let all = asked(cache, now, replies);
            assert forall|i: int| 0 <= i < all.len() implies locks_rightly(
                #[trigger] all[i],
                share,
            ) by {
                if i > 0 {
                    assert(all[i] == rest[i - 1]);
                }
            }
        },
        _ => {},
    }
}

/// A step that shares never lets the flash kernel lock the mirrors that it shares
/// out of; a step that shares nothing always does.
pub proof fn law_sharing_never_locks_mirrors(
    cache: KvCache,
    call: Call,
    share: Share,
    replies: Seq<Reply>,
)
    ensures
        ({
            let (after, now) = sdpa::starting(cache, sdpa::fresh(call, share));
            forall|i: int|
                0 <= i < asked(after, now, replies).len() ==> locks_rightly(
                    #[trigger] asked(after, now, replies)[i],
                    share,
                )
        }),
{
    lemma_start(cache, call, share);
    let (after, now) = sdpa::starting(cache, sdpa::fresh(call, share));
    lemma_play_lock(after, now, call, share, replies);
}

} // verus!
