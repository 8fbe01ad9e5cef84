//! What holds of the attention of a layer, whatever the runtime answers.
use vstd::prelude::*;

use crate::error::Error;
use crate::gemma4::attention::{AttnCall, AttnRun, AttnStage, AttnStepView, Attention};
use crate::gemma4::mask::MaskPlan;
use crate::gemma4::program::Op;
use crate::gemma4::{attention, mask, program};
use crate::kvcache::step::{Attended, SharedKvOut};
use crate::tensor::{MaskMode, Tensor};

verus! {

/// The answer to a step.
pub enum AttnAnswer {
    Ran(Result<Seq<Tensor>, u64>),
    Built(Result<Tensor, u64>),
    Stepped(Result<Attended, Error>),
}

/// How a call goes on with an answer of the kind that it waits for.
pub open spec fn next(now: AttnStepView, answer: AttnAnswer) -> AttnStepView {
    match (now, answer) {
        (AttnStepView::Run { run, .. }, AttnAnswer::Ran(results)) => attention::ran(run, results),
        (AttnStepView::Mask { run, .. }, AttnAnswer::Built(built)) => attention::masked(run, built),
        (AttnStepView::Cached { run, .. }, AttnAnswer::Stepped(outcome)) => attention::stepped(
            run,
            outcome,
        ),
        _ => now,
    }
}

/// A call driven by a list of answers.
pub open spec fn play(now: AttnStepView, answers: Seq<AttnAnswer>) -> AttnStepView
    decreases answers.len(),
{
    if answers.len() == 0 {
        now
    } else {
        play(next(now, answers[0]), answers.drop_first())
    }
}

/// Where a call of a layer can stand, by whether the layer shares K and V, and
/// what it is on its way to leave.
spec fn standing(now: AttnStepView, call: AttnCall) -> bool {
    match now {
        AttnStepView::Run { run, .. } => run.call == call && match run.stage {
            AttnStage::Query => true,
            AttnStage::SharedQuery { .. } => call.shared_kv is Some,
            AttnStage::Project => call.shared_kv is None,
            AttnStage::Output { new_kv, .. } => new_kv is None <==> call.shared_kv is Some,
            _ => false,
        },
        AttnStepView::Mask { run, .. } => run.call == call && match run.stage {
            AttnStage::CacheMask { producer_offset, .. } => call.shared_kv is None && call.cache
                == Some(producer_offset),
            AttnStage::PlainMask { own, .. } => own <==> call.shared_kv is None,
            _ => false,
        },
        AttnStepView::Cached { run, .. } => run.call == call && match run.stage {
            AttnStage::Cached { producer_offset, .. } => call.shared_kv is None && call.cache
                == Some(producer_offset),
            _ => false,
        },
        AttnStepView::Done(Ok((_, new_kv))) => new_kv is None <==> call.shared_kv is Some,
        AttnStepView::Done(Err(_)) => true,
    }
}

proof fn lemma_standing(now: AttnStepView, call: AttnCall, answers: Seq<AttnAnswer>)
    requires
        standing(now, call),
    ensures
        standing(play(now, answers), call),
    decreases answers.len(),
{
    if answers.len() > 0 {
        assert(standing(next(now, answers[0]), call));
        lemma_standing(next(now, answers[0]), call, answers.drop_first());
    }
}

/// A layer that shares K and V never steps a cache and leaves nothing; a layer of
/// its own that succeeds always leaves its K and V. Only a layer of its own that
/// was given a cache steps it.
pub proof fn law_sharing_layers_only_read(
    attn: Attention,
    call: AttnCall,
    answers: Seq<AttnAnswer>,
)
    ensures
        match play(attention::starting(attn, call), answers) {
            AttnStepView::Cached { .. } => call.shared_kv is None && call.cache is Some,
            AttnStepView::Done(Ok((_, new_kv))) => new_kv is None <==> call.shared_kv is Some,
            _ => true,
        },
{
    lemma_standing(attention::starting(attn, call), call, answers);
}

/// Whether a call steps a cache: the layer projects K and V of its own and was
/// given a cache.
pub open spec fn holds_cache(call: AttnCall) -> bool {
    call.shared_kv is None && call.cache is Some
}

/// How often the cache of a layer took a step in a play.
pub open spec fn steps_taken(now: AttnStepView, answers: Seq<AttnAnswer>) -> nat
    decreases answers.len(),
{
    if answers.len() == 0 {
        0
    } else {
        let here: nat = match (now, answers[0]) {
            (AttnStepView::Cached { .. }, AttnAnswer::Stepped(Ok(_))) => 1,
            _ => 0,
        };
        here + steps_taken(next(now, answers[0]), answers.drop_first())
    }
}

/// Where a call can stand on its way to its cache, and past it.
spec fn on_way(now: AttnStepView, call: AttnCall) -> bool {
    match now {
        AttnStepView::Run { run, .. } => run.call == call && match run.stage {
            AttnStage::Query => true,
            AttnStage::SharedQuery { .. } => call.shared_kv is Some,
            AttnStage::Project => call.shared_kv is None,
            AttnStage::Output { .. } => true,
            _ => false,
        },
        AttnStepView::Mask { run, .. } => run.call == call && match run.stage {
            AttnStage::CacheMask { .. } => holds_cache(call),
            AttnStage::PlainMask { .. } => !holds_cache(call),
            _ => false,
        },
        AttnStepView::Cached { run, .. } => run.call == call && run.stage is Cached && holds_cache(
            call,
        ),
        AttnStepView::Done(_) => true,
    }
}

/// How many steps of its cache a call has ahead of it.
spec fn steps_ahead(now: AttnStepView, call: AttnCall) -> nat {
    match now {
        AttnStepView::Run { run, .. } => if holds_cache(call) && !(run.stage is Output) {
            1
        } else {
            0
        },
        AttnStepView::Mask { .. } => if holds_cache(call) {
            1
        } else {
            0
        },
        AttnStepView::Cached { .. } => 1,
        AttnStepView::Done(_) => 0,
    }
}

proof fn lemma_done_stays(now: AttnStepView, answers: Seq<AttnAnswer>)
    requires
        now is Done,
    ensures
        play(now, answers) == now,
    decreases answers.len(),
{
    if answers.len() > 0 {
        lemma_done_stays(next(now, answers[0]), answers.drop_first());
    }
}

proof fn lemma_steps(now: AttnStepView, call: AttnCall, answers: Seq<AttnAnswer>)
    requires
        on_way(now, call),
    ensures
        steps_taken(now, answers) <= steps_ahead(now, call),
        play(now, answers) matches AttnStepView::Done(Ok(_)) ==> steps_taken(now, answers)
            == steps_ahead(now, call),
    decreases answers.len(),
{
    if answers.len() > 0 {
        let after = next(now, answers[0]);
        lemma_steps(after, call, answers.drop_first());
        if after is Done {
            lemma_done_stays(after, answers.drop_first());
        }
    }
}

/// A layer that holds a cache steps it exactly once in every call that succeeds,
/// and at most once in every other. No other layer steps any.
pub proof fn law_own_cache_is_stepped_once(
    attn: Attention,
    call: AttnCall,
    answers: Seq<AttnAnswer>,
)
    ensures
        ({
            let now = attention::starting(attn, call);
            let expected: nat = if holds_cache(call) {
                1
            } else {
                0
            };
            &&& steps_taken(now, answers) <= expected
            &&& play(now, answers) matches AttnStepView::Done(Ok(_)) ==> steps_taken(now, answers)
                == expected
        }),
{
    lemma_steps(attention::starting(attn, call), call, answers);
}

/// A mask over shared K that is built as planned always spans that K: the check
/// on its width cannot fail.
pub proof fn law_planned_consumer_mask_fits(
    run: AttnRun,
    shared: SharedKvOut,
    q: Tensor,
    built: Tensor,
)
    requires
        run.valid(),
        attention::with_shared(run, shared, q) matches AttnStepView::Mask { plan, .. }
            && plan.keys() matches Some(keys) && built.shape.at(3) == Some(keys as i32),
    ensures
        attention::with_shared(run, shared, q) matches AttnStepView::Mask { run: waiting, .. }
            && attention::masked(waiting, Ok(built)) is Run,
{
    if let SharedKvOut::Bf16(k, v) = shared {
        if let Some(total_kv_len) = k.shape.at(2) {
            let seq = run.call.x.shape.d1;
            if total_kv_len >= seq {
                mask::law_mask_spans_the_keys(
                    run.attn.layer_type,
                    seq,
                    (total_kv_len - seq) as i32,
                    total_kv_len,
                    run.call.kv_is_rotating,
                    run.attn.sliding_window,
                );
            }
        }
    }
}

/// A step on a cache is asked with the mask that its keys need: the mask spans
/// the keys before the step, by the offset of that cache, and those of the step.
pub proof fn law_producer_mask_is_sized_by_its_cache(
    run: AttnRun,
    q: Tensor,
    k: Tensor,
    v: Tensor,
)
    requires
        run.valid(),
        run.call.cache is Some,
    ensures
        match attention::with_own(run, q, k, v) {
            AttnStepView::Mask { plan, .. } => plan.keys() == Some(
                mask::keys_before(
                    run.call.cache.unwrap(),
                    run.call.kv_is_rotating,
                    run.attn.sliding_window,
                ) + run.call.x.shape.d1,
            ),
            AttnStepView::Cached { call, .. } => call.mask is None,
            AttnStepView::Done(r) => r is Err,
            AttnStepView::Run { .. } => false,
        },
{
    if let Ok((before, total)) = attention::own_keys(run) {
        mask::law_mask_spans_the_keys(
            run.attn.layer_type,
            run.call.x.shape.d1,
            before,
            total,
            run.call.kv_is_rotating,
            run.attn.sliding_window,
        );
    }
}

/// The mask that a step asks for, where it asks for one.
pub open spec fn plan_of(now: AttnStepView) -> Option<MaskPlan> {
    match now {
        AttnStepView::Mask { plan, .. } => Some(plan),
        _ => None,
    }
}

/// A consumer that sizes its mask from the K it is handed asks for the very mask
/// that the producer of that K asked for, ring or not, whatever the position of
/// either.
pub proof fn law_consumer_asks_for_the_producers_mask(
    producer: AttnRun,
    consumer: AttnRun,
    q: Tensor,
    k: Tensor,
    v: Tensor,
    shared_q: Tensor,
    shared_k: Tensor,
    shared_v: Tensor,
)
    requires
        producer.valid(),
        consumer.valid(),
        producer.attn.layer_type == consumer.attn.layer_type,
        producer.attn.sliding_window == consumer.attn.sliding_window,
        producer.call.x.shape.d1 == consumer.call.x.shape.d1,
        producer.call.kv_is_rotating == consumer.call.kv_is_rotating,
        attention::own_keys(producer) matches Ok((before, total)) && before >= 0
            && shared_k.shape.at(2) == Some(total),
    ensures
        plan_of(
            attention::with_shared(consumer, SharedKvOut::Bf16(shared_k, shared_v), shared_q),
        ) == plan_of(attention::with_own(producer, q, k, v)),
{
}

/// Every program of a layer reads only what was written before.
pub proof fn law_programs_are_well_formed(
    attn: Attention,
    call: AttnCall,
    q: Tensor,
    k: Tensor,
    v: Tensor,
    mode: MaskMode,
    built: Option<Tensor>,
    op: Op,
    repeat: usize,
)
    requires
        program::reads_below(op, 1),
    ensures
        program::well_formed(attention::query_program(attn, call)),
        program::well_formed(attention::shared_query_program(attn, call, q)),
        program::well_formed(attention::project_program(attn, call, q)),
        program::well_formed(attention::output_program(attn, call, q)),
        program::well_formed(attention::plain_program(attn, call, q, k, v, mode, built)),
        program::well_formed(attention::tuples_program(attn, call, q, op)),
        program::well_formed(attention::repeat_program(k, repeat)),
{
}

} // verus!
