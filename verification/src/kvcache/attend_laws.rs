//! What the requests of a step carry: the tensors, the scale and the mask of the
//! call that the step was started with, whichever arm it takes.
use vstd::prelude::*;

use crate::error::Fused;
use crate::kvcache::consumer::{ConsumerRun, ConsumerStep};
use crate::kvcache::over_store::{StoreCall, StoreRun, StoreStep};
use crate::kvcache::request::{Answer, Call, KvCache, Reply, Request};
use crate::kvcache::step::{Run, Share, Stage, Step};
use crate::kvcache::{arms, consumer, laws, materialise, mixed, over_store, sdpa};
use crate::tensor::Tensor;

verus! {

/// Whether a request that attends carries the scale of a call, and its mask where
/// the kernel takes one.
pub open spec fn weighs_by(request: Request, scale: u32, mask: Option<u64>) -> bool {
    match request {
        Request::Flash { scale: s, mask: m, .. } => s == scale && m == mask,
        Request::FusedQk { scale: s, mask: m, .. } => s == scale && m == mask,
        Request::Sdpa { scale: s, mask: m, .. } => s == scale && m == mask,
        Request::MixedSdpa { scale: s, mask: m, .. } => s == scale && m == mask,
        Request::RotKTq4VSdpa { scale: s, mask: m, .. } => s == scale && m == mask,
        Request::PlanarFlash { scale: s, mask: m, .. } => s == scale && m == mask,
        Request::RotorFlash { scale: s, mask: m, .. } => s == scale && m == mask,
        Request::RotorSymFlash { scale: s, mask: m, .. } => s == scale && m == mask,
        Request::PlanarScores { scale: s, .. } => s == scale,
        // The mask goes onto scores that come without one.
        Request::Add { b, .. } => mask == Some(b),
        _ => true,
    }
}

/// The queries that a request attends with, or turns.
pub open spec fn queries_of(request: Request) -> Option<u64> {
    match request {
        Request::Flash { queries, .. } => Some(queries),
        Request::FusedQk { queries, .. } => Some(queries),
        Request::Sdpa { q, .. } => Some(q),
        Request::MixedSdpa { q, .. } => Some(q),
        Request::RotKTq4VSdpa { q, .. } => Some(q),
        Request::PlanarFlash { q, .. } => Some(q),
        Request::PlanarScores { q, .. } => Some(q),
        Request::RotorFlash { q, .. } => Some(q),
        Request::RotorSymFlash { q, .. } => Some(q),
        Request::FwhtRotate { x } => Some(x),
        Request::RotateLastAxis { x, .. } => Some(x),
        _ => None,
    }
}

/// Whether a request that appends is handed the K and V of a call, in their own
/// shapes.
pub open spec fn appends_from(request: Request, call: Call) -> bool {
    let k = call.new_k.id;
    let v = call.new_v.id;
    match request {
        Request::Update { new_k, new_v } => new_k == k && new_v == v,
        Request::PrefillRaw { new_k, new_v } => new_k == k && new_v == v,
        Request::MixedUpdateAndFetch { new_k, new_v } => new_k == k && new_v == v,
        Request::UpdateDecodeFp16 { new_k, new_v, .. } => new_k == k && new_v == v,
        Request::UpdateDecodeFp16V { new_v, .. } => new_v == v,
        Request::RotKUpdateK { new_k } => new_k == k,
        Request::HostRows { x } => x == v,
        Request::RotKAppendV { shape, new_v, .. } => new_v == v && shape == call.new_v.shape,
        Request::RotKDequantV { dtype } => dtype == call.new_v.dtype,
        Request::PlanarAppend { new_k, shape, .. } => new_k == k && shape == call.new_k.shape,
        Request::RotorKAppend { new_k, shape, .. } => new_k == k && shape == call.new_k.shape,
        Request::RotorSymAppend { new_k, new_v, shape, .. } => new_k == k && new_v == v && shape
            == call.new_k.shape,
        Request::Flash { new_k, new_v, .. } => new_k == k && new_v == v,
        Request::FusedQk { new_k, new_v, .. } => new_k == k && new_v == v,
        _ => true,
    }
}

/// Whether the queries of a step are turned before they attend: its K is stored
/// under a rotation and decoded, since the step shares it.
pub open spec fn turns_queries(cache: KvCache, share: Share) -> bool {
    !cache.rotating && cache.storage is RotKTq4V && !cache.in_prefill && !(share is Nothing)
}

/// The stages of the rotated-K decode before its V is in hand.
spec fn before_values(stage: Stage) -> bool {
    ||| stage is RotKUpdateK
    ||| stage is RotKHostRows
    ||| stage is RotKAppendV
    ||| stage is RotKDequantV
    ||| stage is RotKUpload
}

/// The stages at which the queries are turned.
spec fn turning(stage: Stage) -> bool {
    ||| stage is RotKDequantK
    ||| stage is RotKFwhtSupported
    ||| stage is RotKFwht
    ||| stage is RotKRotate
}

/// Whether a run over a store was given what the step was.
spec fn passes_on(inner: StoreCall, call: Call) -> bool {
    inner.queries == call.queries && inner.scale == call.scale && inner.mask == call.mask
}

/// Whether a request carries what the call brought.
spec fn carries(request: Request, call: Call, turned: bool) -> bool {
    &&& weighs_by(request, call.scale, call.mask)
    &&& appends_from(request, call)
    &&& queries_of(request) matches Some(q) ==> q == call.queries.id || (turned && request is Sdpa)
}

/// A step that has only asked for what its call brought, and will.
spec fn faithful(now: Step, call: Call, share: Share, turned: bool) -> bool {
    match now {
        Step::Ask { run, request } => {
            &&& run.call == call
            &&& run.share == share
            &&& carries(request, call, turned)
            &&& run.stage matches Stage::Store { run: inner, .. } ==> passes_on(inner.call, call)
            &&& turning(run.stage) ==> turned
            &&& before_values(run.stage) ==> turned || share is Nothing
        },
        Step::Done(_) => true,
    }
}

/// A run over a store that asks for what it was given.
spec fn store_faithful(now: StoreStep, call: StoreCall) -> bool {
    now matches StoreStep::Ask { run, request } ==> {
        &&& run.call == call
        &&& weighs_by(request, call.scale, call.mask)
        &&& queries_of(request) matches Some(q) ==> q == call.queries.id
        &&& !laws::appends_k(request)
        &&& !laws::appends_v(request)
        &&& !(request is UpdateDecodeFp16)
        &&& !(request is HostRows)
        &&& !(request is RotKDequantV)
    }
}

proof fn lemma_store_next(inner: StoreRun, answer: Answer)
    ensures
        store_faithful(inner.next(answer), inner.call),
{
}

proof fn lemma_store_begins(cache: KvCache, call: StoreCall, v: Tensor)
    ensures
        store_faithful(over_store::planar_begin(cache, call, v), call),
        store_faithful(over_store::rotor_k_begin(cache, call, v), call),
        store_faithful(over_store::rotor_sym_begin(cache, call), call),
{
}

proof fn lemma_follows(
    cache: KvCache,
    run: Run,
    path: Fused,
    inner: StoreStep,
    call: StoreCall,
    turned: bool,
)
    requires
        store_faithful(inner, call),
        passes_on(call, run.call),
    ensures
        faithful(arms::following(cache, run, path, inner), run.call, run.share, turned),
{
}

proof fn lemma_unpacks(cache: KvCache, run: Run, inner: materialise::TensorsRun, answer: Answer)
    ensures
        faithful(
            arms::unpacking(run, materialise::resumed(cache, inner, answer)),
            run.call,
            run.share,
            false,
        ),
{
}

proof fn lemma_next_store(cache: KvCache, run: Run, request: Request, turned: bool, reply: Reply)
    requires
        faithful(Step::Ask { run, request }, run.call, run.share, turned),
        run.stage is Store,
    ensures
        faithful(laws::turn(cache, run, reply).1, run.call, run.share, turned),
{
    reveal(laws::turn);
    if let Stage::Store { path, run: inner } = run.stage {
        lemma_store_next(inner, reply.answer);
        lemma_follows(cache, run, path, inner.next(reply.answer), inner.call, turned);
    }
}

proof fn lemma_next_enters(cache: KvCache, run: Run, request: Request, turned: bool, reply: Reply)
    requires
        faithful(Step::Ask { run, request }, run.call, run.share, turned),
        run.stage is PlanarValues || run.stage is RotorKValues || run.stage is RotorSymAppend,
    ensures
        faithful(laws::turn(cache, run, reply).1, run.call, run.share, turned),
{
    reveal(laws::turn);
    let absorbed = sdpa::absorbed(cache, run.stage, reply);
    match run.stage {
        Stage::PlanarValues { kv_seq } => {
            if let Answer::One(v) = reply.answer {
                let call = arms::store_call(run.call, kv_seq);
                lemma_store_begins(absorbed, call, v);
                let begun = over_store::planar_begin(absorbed, call, v);
                lemma_follows(absorbed, run, Fused::PlanarK, begun, call, turned);
            }
        },
        Stage::RotorKValues => {
            if let Answer::One(v) = reply.answer {
                if let Ok(kv_seq) = arms::held(Fused::RotorK, absorbed) {
                    let call = arms::store_call(run.call, kv_seq);
                    lemma_store_begins(absorbed, call, v);
                    let begun = over_store::rotor_k_begin(absorbed, call, v);
                    lemma_follows(absorbed, run, Fused::RotorK, begun, call, turned);
                }
            }
        },
        _ => {
            if let Ok(after) = absorbed.advancing(run.call.new_k.shape.d2) {
                if let Ok(kv_seq) = arms::held(Fused::RotorSym, after) {
                    let call = arms::store_call(run.call, kv_seq);
                    lemma_store_begins(after, call, run.call.new_v);
                    let begun = over_store::rotor_sym_begin(after, call);
                    lemma_follows(after, run, Fused::RotorSym, begun, call, turned);
                }
            }
        },
    }
}

proof fn lemma_next_rotated(cache: KvCache, run: Run, request: Request, turned: bool, reply: Reply)
    requires
        faithful(Step::Ask { run, request }, run.call, run.share, turned),
        turning(run.stage) || before_values(run.stage) || run.stage is RotKSdpa,
    ensures
        faithful(laws::turn(cache, run, reply).1, run.call, run.share, turned),
{
    reveal(laws::turn);
}

proof fn lemma_next_other(cache: KvCache, run: Run, request: Request, turned: bool, reply: Reply)
    requires
        faithful(Step::Ask { run, request }, run.call, run.share, turned),
        !(run.stage is Store),
        !(run.stage is PlanarValues),
        !(run.stage is RotorKValues),
        !(run.stage is RotorSymAppend),
        !turning(run.stage),
        !before_values(run.stage),
        !(run.stage is RotKSdpa),
    ensures
        faithful(laws::turn(cache, run, reply).1, run.call, run.share, turned),
{
    reveal(laws::turn);
    if let Stage::Unpack { run: inner } = run.stage {
        lemma_unpacks(cache, run, inner, reply.answer);
    }
}

proof fn lemma_next(cache: KvCache, run: Run, request: Request, turned: bool, reply: Reply)
    requires
        faithful(Step::Ask { run, request }, run.call, run.share, turned),
    ensures
        faithful(laws::turn(cache, run, reply).1, run.call, run.share, turned),
{
    if run.stage is Store {
        lemma_next_store(cache, run, request, turned, reply);
    } else if run.stage is PlanarValues || run.stage is RotorKValues
        || run.stage is RotorSymAppend {
        lemma_next_enters(cache, run, request, turned, reply);
    } else if turning(run.stage) || before_values(run.stage) || run.stage is RotKSdpa {
        lemma_next_rotated(cache, run, request, turned, reply);
    } else {
        lemma_next_other(cache, run, request, turned, reply);
    }
}

proof fn lemma_play(
    cache: KvCache,
    now: Step,
    call: Call,
    share: Share,
    turned: bool,
    replies: Seq<Reply>,
)
    requires
        faithful(now, call, share, turned),
    ensures
        forall|i: int|
            0 <= i < laws::asked(cache, now, replies).len() ==> carries(
                #[trigger] laws::asked(cache, now, replies)[i],
                call,
                turned,
            ),
    decreases replies.len(),
{
    match now {
        Step::Ask { run, request } if replies.len() > 0 => {
            lemma_next(cache, run, request, turned, replies[0]);
            let (after, next) = laws::turn(cache, run, replies[0]);
            lemma_play(after, next, call, share, turned, replies.drop_first());
            let rest = laws::asked(after, next, replies.drop_first());
            let all = laws::asked(cache, now, replies);
            assert forall|i: int| 0 <= i < all.len() implies carries(
                #[trigger] all[i],
                call,
                turned,
            ) by {
                if i > 0 {
                    assert(all[i] == rest[i - 1]);
                }
            }
        },
        _ => {},
    }
}

/// Every request of a step that attends carries the scale of the call, and the
/// mask of the call where it takes one: whichever arm runs, whatever is shared and
/// whatever the runtime answers. Scores that come without a mask are given that of
/// the call before the softmax.
pub proof fn law_attention_carries_scale_and_mask(
    cache: KvCache,
    call: Call,
    share: Share,
    replies: Seq<Reply>,
)
    ensures
        ({
            let (c, now) = sdpa::starting(cache, sdpa::fresh(call, share));
            forall|i: int|
                0 <= i < laws::asked(c, now, replies).len() ==> weighs_by(
                    #[trigger] laws::asked(c, now, replies)[i],
                    call.scale,
                    call.mask,
                )
        }),
{
    let (c, now) = sdpa::starting(cache, sdpa::fresh(call, share));
    lemma_play(c, now, call, share, turns_queries(cache, share), replies);
}

/// The same of a step that is put on the mixed-precision path, on whatever cache:
/// scale, mask, queries and appended tensors are those of the call.
pub proof fn law_mixed_path_carries_the_call(cache: KvCache, call: Call, replies: Seq<Reply>)
    ensures
        ({
            let (c, now) = mixed::starting(cache, sdpa::fresh(call, Share::Nothing));
            forall|i: int|
                0 <= i < laws::asked(c, now, replies).len() ==> {
                    let request = #[trigger] laws::asked(c, now, replies)[i];
                    &&& weighs_by(request, call.scale, call.mask)
                    &&& appends_from(request, call)
                    &&& queries_of(request) matches Some(q) ==> q == call.queries.id
                }
        }),
{
    let (c, now) = mixed::starting(cache, sdpa::fresh(call, Share::Nothing));
    lemma_play(c, now, call, Share::Nothing, false, replies);
    assert forall|i: int| 0 <= i < laws::asked(c, now, replies).len() implies ({
        let request = #[trigger] laws::asked(c, now, replies)[i];
        &&& weighs_by(request, call.scale, call.mask)
        &&& appends_from(request, call)
        &&& queries_of(request) matches Some(q) ==> q == call.queries.id
    }) by {
        assert(carries(laws::asked(c, now, replies)[i], call, false));
    }
}

/// Every request of a step that appends is handed the new K and V of the call, K
/// as K and V as V, in the shapes that they have.
pub proof fn law_appends_carry_the_new_tensors(
    cache: KvCache,
    call: Call,
    share: Share,
    replies: Seq<Reply>,
)
    ensures
        ({
            let (c, now) = sdpa::starting(cache, sdpa::fresh(call, share));
            forall|i: int|
                0 <= i < laws::asked(c, now, replies).len() ==> appends_from(
                    #[trigger] laws::asked(c, now, replies)[i],
                    call,
                )
        }),
{
    let (c, now) = sdpa::starting(cache, sdpa::fresh(call, share));
    lemma_play(c, now, call, share, turns_queries(cache, share), replies);
    assert forall|i: int| 0 <= i < laws::asked(c, now, replies).len() implies appends_from(
        #[trigger] laws::asked(c, now, replies)[i],
        call,
    ) by {
        assert(carries(laws::asked(c, now, replies)[i], call, turns_queries(cache, share)));
    }
}

/// Every request of a step that attends does so with the queries of the call. The
/// one exception is plain attention over K that was decoded and is still under
/// its rotation: there the queries have been turned first, and it is those of the
/// call that were.
pub proof fn law_attention_carries_the_queries(
    cache: KvCache,
    call: Call,
    share: Share,
    replies: Seq<Reply>,
)
    ensures
        ({
            let (c, now) = sdpa::starting(cache, sdpa::fresh(call, share));
            forall|i: int|
                0 <= i < laws::asked(c, now, replies).len() && (queries_of(
                    #[trigger] laws::asked(c, now, replies)[i],
                ) is Some) ==> queries_of(laws::asked(c, now, replies)[i]) == Some(call.queries.id)
                    || (turns_queries(cache, share) && laws::asked(c, now, replies)[i] is Sdpa)
        }),
{
    let (c, now) = sdpa::starting(cache, sdpa::fresh(call, share));
    let turned = turns_queries(cache, share);
    lemma_play(c, now, call, share, turned, replies);
    assert forall|i: int|
        0 <= i < laws::asked(c, now, replies).len() && (queries_of(
            #[trigger] laws::asked(c, now, replies)[i],
        ) is Some) implies queries_of(laws::asked(c, now, replies)[i]) == Some(call.queries.id) || (
    turned && laws::asked(c, now, replies)[i] is Sdpa) by {
        assert(carries(laws::asked(c, now, replies)[i], call, turned));
    }
}

/// The requests of a consumer that were answered, in order.
pub open spec fn consumer_asked(cache: KvCache, now: ConsumerStep, answers: Seq<Answer>) -> Seq<
    Request,
>
    decreases answers.len(),
{
    match now {
        ConsumerStep::Ask { run, request } if answers.len() > 0 => seq![request] + consumer_asked(
            cache,
            consumer::resumed(cache, run, answers[0]),
            answers.drop_first(),
        ),
        _ => Seq::empty(),
    }
}

/// A consumer that asks for what it was given.
spec fn consumer_faithful(now: ConsumerStep, call: StoreCall) -> bool {
    now matches ConsumerStep::Ask { run, request } ==> {
        &&& run matches ConsumerRun::Values { call: c, .. } ==> c == call && request is Slice
        &&& run matches ConsumerRun::Store { run: inner } ==> store_faithful(
            StoreStep::Ask { run: inner, request },
            call,
        )
    }
}

proof fn lemma_consumer_next(cache: KvCache, run: ConsumerRun, request: Request, call: StoreCall, answer: Answer)
    requires
        consumer_faithful(ConsumerStep::Ask { run, request }, call),
    ensures
        consumer_faithful(consumer::resumed(cache, run, answer), call),
{
    match (run, answer) {
        (ConsumerRun::Store { run: inner }, _) => {
            lemma_store_next(inner, answer);
        },
        (ConsumerRun::Values { .. }, Answer::One(v)) => {
            lemma_store_begins(cache, call, v);
        },
        _ => {},
    }
}

proof fn lemma_consumer_play(
    cache: KvCache,
    now: ConsumerStep,
    call: StoreCall,
    answers: Seq<Answer>,
)
    requires
        consumer_faithful(now, call),
    ensures
        forall|i: int|
            0 <= i < consumer_asked(cache, now, answers).len() ==> {
                let request = #[trigger] consumer_asked(cache, now, answers)[i];
                &&& weighs_by(request, call.scale, call.mask)
                &&& queries_of(request) matches Some(q) ==> q == call.queries.id
            },
    decreases answers.len(),
{
    match now {
        ConsumerStep::Ask { run, request } if answers.len() > 0 => {
            lemma_consumer_next(cache, run, request, call, answers[0]);
            let next = consumer::resumed(cache, run, answers[0]);
            lemma_consumer_play(cache, next, call, answers.drop_first());
            let rest = consumer_asked(cache, next, answers.drop_first());
            let all = consumer_asked(cache, now, answers);
            assert forall|i: int| 0 <= i < all.len() implies ({
                let request = #[trigger] all[i];
                &&& weighs_by(request, call.scale, call.mask)
                &&& queries_of(request) matches Some(q) ==> q == call.queries.id
            }) by {
                if i > 0 {
                    assert(all[i] == rest[i - 1]);
                }
            }
        },
        _ => {},
    }
}

/// A consumer attends with its own queries, under its own scale and mask, whatever
/// store it attends and whatever the runtime answers.
pub proof fn law_consumer_carries_its_call(cache: KvCache, call: StoreCall, answers: Seq<Answer>)
    ensures
        ({
            let asked = consumer_asked(cache, consumer::starting(cache, call), answers);
            forall|i: int|
                0 <= i < asked.len() ==> {
                    let request = #[trigger] asked[i];
                    &&& weighs_by(request, call.scale, call.mask)
                    &&& queries_of(request) matches Some(q) ==> q == call.queries.id
                }
        }),
{
    lemma_store_begins(cache, call, call.queries);
    lemma_consumer_play(cache, consumer::starting(cache, call), call, answers);
}

} // verus!
