//! What holds of a whole forward pass, whatever the runtime answers.
use vstd::prelude::*;

use crate::error::{Error, LayerType};
use crate::gemma4::model::{Forward, ForwardStage, ForwardStepView, Gemma4Text, RunView, Tail};
use crate::gemma4::{model, program};
use crate::kvcache::request::{KvCache, Toggles};
use crate::kvcache::step::SharedKvOut;
use crate::tensor::{Device, Tensor};

verus! {

/// The answer to a step.
pub enum PassAnswer {
    Uploaded(Result<Tensor, u64>),
    Ran(Result<Seq<Tensor>, u64>),
    Layered(Result<(Tensor, Option<SharedKvOut>), Error>),
}

/// How a pass goes on with an answer of the kind that it waits for.
pub open spec fn next(m: Gemma4Text, now: ForwardStepView, answer: PassAnswer) -> ForwardStepView {
    match (now, answer) {
        (ForwardStepView::Upload { run, .. }, PassAnswer::Uploaded(t)) => model::uploaded(
            m,
            run,
            t,
        ),
        (ForwardStepView::Run { run, .. }, PassAnswer::Ran(results)) => model::ran(m, run, results),
        (ForwardStepView::Layer { run, .. }, PassAnswer::Layered(outcome)) => model::layered(
            m,
            run,
            outcome,
        ),
        _ => now,
    }
}

/// A pass driven by a list of answers.
pub open spec fn play(
    m: Gemma4Text,
    now: ForwardStepView,
    answers: Seq<PassAnswer>,
) -> ForwardStepView
    decreases answers.len(),
{
    if answers.len() == 0 {
        now
    } else {
        play(m, next(m, now, answers[0]), answers.drop_first())
    }
}

/// What the layers left that ran in a play, in the order in which they ran, each
/// with its number.
pub open spec fn left_in(
    m: Gemma4Text,
    now: ForwardStepView,
    answers: Seq<PassAnswer>,
) -> Seq<(usize, Option<SharedKvOut>)>
    decreases answers.len(),
{
    if answers.len() == 0 {
        Seq::empty()
    } else {
        let rest = left_in(m, next(m, now, answers[0]), answers.drop_first());
        match (now, answers[0]) {
            (
                ForwardStepView::Layer { layer, .. },
                PassAnswer::Layered(Ok((_, new_kv))),
            ) => seq![(layer, new_kv)] + rest,
            _ => rest,
        }
    }
}

/// How many layers of a pass have run where it stands.
spec fn done_layers(m: Gemma4Text, now: ForwardStepView) -> int {
    match now {
        ForwardStepView::Layer { layer, .. } => layer as int,
        ForwardStepView::Run { run, .. } => if run.stage is Tail {
            m.depth()
        } else {
            0
        },
        ForwardStepView::Done(Ok(_)) => m.depth(),
        _ => 0,
    }
}

/// The pass itself, where it is not done.
spec fn run_of(now: ForwardStepView) -> Option<RunView> {
    match now {
        ForwardStepView::Upload { run, .. } => Some(run),
        ForwardStepView::Run { run, .. } => Some(run),
        ForwardStepView::Layer { run, .. } => Some(run),
        ForwardStepView::Done(_) => None,
    }
}

/// A pass that waits for what its stage stands for.
spec fn coherent(m: Gemma4Text, now: ForwardStepView) -> bool {
    match now {
        ForwardStepView::Upload { run, .. } => run.stage is Ids && model::fits(m, run),
        ForwardStepView::Run { run, .. } => {
            &&& run.stage is Embed || run.stage is LayerInputs || run.stage is Tail
            &&& run.tail is Embedding ==> run.stage is Embed
            &&& model::fits(m, run)
        },
        ForwardStepView::Layer { run, layer, call } => {
            &&& run.stage == (ForwardStage::Layer { layer })
            &&& !(run.tail is Embedding)
            &&& model::fits(m, run)
            &&& call == model::layer_call(m, run, layer as int)
        },
        ForwardStepView::Done(_) => true,
    }
}

/// What is kept of the layers that have run: exactly what each of them left.
spec fn kept(run: RunView, done: Seq<(usize, Option<SharedKvOut>)>) -> bool {
    &&& done.len() <= run.stored_kvs.len()
    &&& forall|j: int| 0 <= j < done.len() ==> (#[trigger] done[j]).0 == j
    &&& forall|j: int| 0 <= j < done.len() ==> run.stored_kvs[j] == (#[trigger] done[j]).1
    &&& forall|j: int|
        done.len() <= j < run.stored_kvs.len() ==> (#[trigger] run.stored_kvs[j]) is None
}

/// One answer keeps a pass coherent, and keeps its tail.
proof fn lemma_coherent(m: Gemma4Text, now: ForwardStepView, answer: PassAnswer)
    requires
        m.valid(),
        coherent(m, now),
    ensures
        coherent(m, next(m, now, answer)),
        run_of(next(m, now, answer)) matches Some(r) ==> (run_of(now) matches Some(r0) && r.tail
            == r0.tail),
{
}

/// One answer keeps what is kept.
proof fn lemma_kept(
    m: Gemma4Text,
    now: ForwardStepView,
    answer: PassAnswer,
    done: Seq<(usize, Option<SharedKvOut>)>,
)
    requires
        m.valid(),
        coherent(m, now),
        run_of(now) matches Some(r) && kept(r, done) && done.len() == done_layers(m, now),
        !(run_of(now) matches Some(r) && r.tail is Embedding),
    ensures
        ({
            let after = next(m, now, answer);
            let more = match (now, answer) {
                (
                    ForwardStepView::Layer { layer, .. },
                    PassAnswer::Layered(Ok((_, new_kv))),
                ) => done.push((layer, new_kv)),
                _ => done,
            };
            &&& (run_of(after) matches Some(r) ==> kept(r, more))
            &&& (after matches ForwardStepView::Done(Err(_)) || more.len() == done_layers(m, after))
        }),
{
    match (now, answer) {
        (
            ForwardStepView::Layer { run, layer, .. },
            PassAnswer::Layered(Ok((h, new_kv))),
        ) => {
            let more = done.push((layer, new_kv));
            let stored = match new_kv {
                Some(kv) => run.stored_kvs.update(layer as int, Some(kv)),
                None => run.stored_kvs,
            };
            assert(forall|j: int| 0 <= j < more.len() ==> stored[j] == (#[trigger] more[j]).1);
        },
        _ => {},
    }
}

proof fn lemma_play(
    m: Gemma4Text,
    now: ForwardStepView,
    answers: Seq<PassAnswer>,
    done: Seq<(usize, Option<SharedKvOut>)>,
)
    requires
        m.valid(),
        coherent(m, now),
        run_of(now) matches Some(r) && kept(r, done) && done.len() == done_layers(m, now),
        !(run_of(now) matches Some(r) && r.tail is Embedding),
    ensures
        ({
            let end = play(m, now, answers);
            let all = done + left_in(m, now, answers);
            &&& coherent(m, end)
            &&& (run_of(end) matches Some(r) ==> kept(r, all))
            &&& (end matches ForwardStepView::Done(Err(_)) || all.len() == done_layers(m, end))
            &&& (end is Done || run_of(end) is Some)
            &&& forall|j: int| 0 <= j < all.len() ==> (#[trigger] all[j]).0 == j
        }),
    decreases answers.len(),
{
    if answers.len() == 0 {
        assert(done + left_in(m, now, answers) =~= done);
    } else {
        let after = next(m, now, answers[0]);
        lemma_coherent(m, now, answers[0]);
        lemma_kept(m, now, answers[0], done);
        let more = match (now, answers[0]) {
            (
                ForwardStepView::Layer { layer, .. },
                PassAnswer::Layered(Ok((_, new_kv))),
            ) => done.push((layer, new_kv)),
            _ => done,
        };
        let rest = left_in(m, after, answers.drop_first());
        assert(done + left_in(m, now, answers) =~= more + rest);
        match after {
            ForwardStepView::Done(_) => {
                lemma_done_stays(m, after, answers.drop_first());
                assert(more + rest =~= more);
            },
            _ => {
                lemma_play(m, after, answers.drop_first(), more);
            },
        }
    }
}

proof fn lemma_done_stays(m: Gemma4Text, now: ForwardStepView, answers: Seq<PassAnswer>)
    requires
        now is Done,
    ensures
        play(m, now, answers) == now,
        left_in(m, now, answers).len() == 0,
    decreases answers.len(),
{
    if answers.len() > 0 {
        lemma_done_stays(m, next(m, now, answers[0]), answers.drop_first());
    }
}

/// The layers of a pass run one after the other from the first on, each at most
/// once, and all of them in a pass that succeeds.
pub proof fn law_layers_run_in_order(
    m: Gemma4Text,
    prompt: Seq<u32>,
    seq: i32,
    tail: Tail,
    caches: Option<Seq<KvCache>>,
    device: Device,
    toggles: Toggles,
    answers: Seq<PassAnswer>,
)
    requires
        m.valid(),
        !(tail is Embedding),
        model::fits(m, model::fresh(m, seq, tail, caches, device, toggles)),
    ensures
        ({
            let now = model::uploading(
                model::fresh(m, seq, tail, caches, device, toggles),
                prompt,
            );
            let ran = left_in(m, now, answers);
            &&& forall|j: int| 0 <= j < ran.len() ==> (#[trigger] ran[j]).0 == j
            &&& play(m, now, answers) matches ForwardStepView::Done(Ok(_)) ==> ran.len()
                == m.depth()
        }),
{
    let now = model::uploading(model::fresh(m, seq, tail, caches, device, toggles), prompt);
    let none = Seq::<(usize, Option<SharedKvOut>)>::empty();
    lemma_play(m, now, answers, none);
    assert(none + left_in(m, now, answers) =~= left_in(m, now, answers));
}

/// A layer that shares K/V is handed exactly what its source layer left in the
/// same pass, and no cache. A layer of its own is handed nothing, and its cache
/// where the pass has caches.
pub proof fn law_layer_gets_what_its_source_left(
    m: Gemma4Text,
    prompt: Seq<u32>,
    seq: i32,
    tail: Tail,
    caches: Option<Seq<KvCache>>,
    device: Device,
    toggles: Toggles,
    answers: Seq<PassAnswer>,
)
    requires
        m.valid(),
        !(tail is Embedding),
        model::fits(m, model::fresh(m, seq, tail, caches, device, toggles)),
    ensures
        ({
            let now = model::uploading(
                model::fresh(m, seq, tail, caches, device, toggles),
                prompt,
            );
            let ran = left_in(m, now, answers);
            play(m, now, answers) matches ForwardStepView::Layer { run, layer, call } ==> {
                let source = m.previous_kvs@[layer as int] as int;
                &&& ran.len() == layer
                &&& call.shared_kv == if source < layer {
                    ran[source].1
                } else {
                    None
                }
                &&& call.cache is Some <==> source == layer && run.offsets is Some
            }
        }),
{
    let now = model::uploading(model::fresh(m, seq, tail, caches, device, toggles), prompt);
    let none = Seq::<(usize, Option<SharedKvOut>)>::empty();
    lemma_play(m, now, answers, none);
    assert(none + left_in(m, now, answers) =~= left_in(m, now, answers));
    if let ForwardStepView::Layer { run, layer, call } = play(m, now, answers) {
        let source = m.previous_kvs@[layer as int] as int;
        assert(source < m.depth());
        let ran = left_in(m, now, answers);
        if source < layer {
            assert(ran[source].0 == source);
        }
    }
}

/// Two passes that differ at most in what they read off in the end.
pub open spec fn same_but_tail(a: RunView, b: RunView) -> bool {
    a == RunView { tail: a.tail, ..b }
}

/// A pass that has its layers behind it, or has ended.
pub open spec fn past_layers(now: ForwardStepView) -> bool {
    match now {
        ForwardStepView::Run { run, .. } => run.stage is Tail,
        ForwardStepView::Done(_) => true,
        _ => false,
    }
}

/// Two passes that stand at the same place and ask the same there, but for what
/// they read off in the end.
pub open spec fn asks_the_same(a: ForwardStepView, b: ForwardStepView) -> bool {
    match (a, b) {
        (
            ForwardStepView::Upload { run: r1, bytes: b1, len: l1 },
            ForwardStepView::Upload { run: r2, bytes: b2, len: l2 },
        ) => same_but_tail(r1, r2) && b1 == b2 && l1 == l2,
        (
            ForwardStepView::Run { run: r1, program: p1 },
            ForwardStepView::Run { run: r2, program: p2 },
        ) => {
            &&& same_but_tail(r1, r2)
            &&& p1.inputs == p2.inputs
            &&& r1.stage is Tail || p1 == p2
        },
        (
            ForwardStepView::Layer { run: r1, layer: i1, call: c1 },
            ForwardStepView::Layer { run: r2, layer: i2, call: c2 },
        ) => same_but_tail(r1, r2) && i1 == i2 && c1 == c2,
        (ForwardStepView::Done(Err(e1)), ForwardStepView::Done(Err(e2))) => e1 == e2,
        _ => false,
    }
}

/// Two passes of which neither asks the layers for anything that the other does
/// not.
pub open spec fn alike_in_layers(a: ForwardStepView, b: ForwardStepView) -> bool {
    asks_the_same(a, b) || (past_layers(a) && past_layers(b))
}

/// A pass that reads more off than an embedding.
spec fn runs_layers(now: ForwardStepView) -> bool {
    run_of(now) matches Some(r) ==> !(r.tail is Embedding)
}

proof fn lemma_alike_next(
    m: Gemma4Text,
    a: ForwardStepView,
    b: ForwardStepView,
    answer: PassAnswer,
)
    requires
        alike_in_layers(a, b),
        runs_layers(a),
        runs_layers(b),
    ensures
        alike_in_layers(next(m, a, answer), next(m, b, answer)),
        runs_layers(next(m, a, answer)),
        runs_layers(next(m, b, answer)),
{
}

proof fn lemma_alike(
    m: Gemma4Text,
    a: ForwardStepView,
    b: ForwardStepView,
    answers: Seq<PassAnswer>,
)
    requires
        alike_in_layers(a, b),
        runs_layers(a),
        runs_layers(b),
    ensures
        alike_in_layers(play(m, a, answers), play(m, b, answers)),
        left_in(m, a, answers) == left_in(m, b, answers),
    decreases answers.len(),
{
    if answers.len() > 0 {
        lemma_alike_next(m, a, b, answers[0]);
        lemma_alike(m, next(m, a, answers[0]), next(m, b, answers[0]), answers.drop_first());
    }
}

/// What a pass reads off in the end makes no difference to its layers: under the
/// same answers, two passes over the same tokens and caches that read off
/// different things bring the same ids to the device, compute the same inputs of
/// the layers, hand every layer the same call, and are left the same K/V. They
/// part only behind the last layer, on one and the same stream.
pub proof fn law_layers_do_not_see_the_tail(
    m: Gemma4Text,
    prompt: Seq<u32>,
    on_device: Tensor,
    seq: i32,
    tail: Tail,
    other: Tail,
    caches: Option<Seq<KvCache>>,
    device: Device,
    toggles: Toggles,
    answers: Seq<PassAnswer>,
)
    requires
        !(tail is Embedding),
        !(other is Embedding),
    ensures
        ({
            let run1 = model::fresh(m, seq, tail, caches, device, toggles);
            let run2 = model::fresh(m, seq, other, caches, device, toggles);
            let a = model::uploading(run1, prompt);
            let b = model::uploading(run2, prompt);
            &&& alike_in_layers(play(m, a, answers), play(m, b, answers))
            &&& left_in(m, a, answers) == left_in(m, b, answers)
        }),
        ({
            let run1 = model::fresh(m, seq, tail, caches, device, toggles);
            let run2 = model::fresh(m, seq, other, caches, device, toggles);
            let a = model::embedding(m, run1, on_device);
            let b = model::embedding(m, run2, on_device);
            &&& alike_in_layers(play(m, a, answers), play(m, b, answers))
            &&& left_in(m, a, answers) == left_in(m, b, answers)
        }),
{
    let run1 = model::fresh(m, seq, tail, caches, device, toggles);
    let run2 = model::fresh(m, seq, other, caches, device, toggles);
    assert(same_but_tail(run1, run2));
    lemma_alike(m, model::uploading(run1, prompt), model::uploading(run2, prompt), answers);
    lemma_alike(
        m,
        model::embedding(m, run1, on_device),
        model::embedding(m, run2, on_device),
        answers,
    );
}

/// The logits of the last position are read off as those of the last one
/// position, and the stream is read off alike with and without the K/V of the
/// layers.
pub proof fn law_tails_agree(m: Gemma4Text, run: RunView, k: i32)
    ensures
        model::tail_program(m, RunView { tail: Tail::LastLogits, ..run }) == model::tail_program(
            m,
            RunView { tail: Tail::LastKLogits { k: 1 }, ..run },
        ),
        model::tail_program(m, RunView { tail: Tail::SharedHidden { k }, ..run })
            == model::tail_program(m, RunView { tail: Tail::Hidden { k }, ..run }),
{
}

/// What the layers left, by layer.
pub open spec fn left_by_layer(left: Seq<(usize, Option<SharedKvOut>)>) -> Seq<
    Option<SharedKvOut>,
> {
    Seq::new(left.len(), |i: int| left[i].1)
}

/// Whether a pass that leaves K/V to a drafter ended as it should, next to a pass
/// for the stream alone.
pub open spec fn drafts(
    m: Gemma4Text,
    end: ForwardStepView,
    plain: ForwardStepView,
    left: Seq<(usize, Option<SharedKvOut>)>,
    offset: i32,
) -> bool {
    end matches ForwardStepView::Done(Ok(result)) ==> match result {
        Forward::SharedHidden { hidden, sliding, full, offset: from } => {
            let pick = |want: LayerType|
                model::last_bf16(m.cfg.layer_types@, left_by_layer(left), want, m.depth());
            &&& plain == ForwardStepView::Done(Ok(Forward::Hidden(hidden)))
            &&& from == offset
            &&& pick(LayerType::SlidingAttention) == Some(sliding)
            &&& pick(LayerType::FullAttention) == Some(full)
        },
        _ => false,
    }
}

/// A pass for a drafter and one for the stream alone, neither of them done.
spec fn side_by_side(a: ForwardStepView, b: ForwardStepView, k: i32, offset: i32) -> bool {
    &&& asks_the_same(a, b)
    &&& run_of(a) matches Some(r) && r.tail == (Tail::SharedHidden { k }) && r.base_offset == offset
    &&& run_of(b) matches Some(r) && r.tail == (Tail::Hidden { k })
}

proof fn lemma_side_by_side(
    m: Gemma4Text,
    a: ForwardStepView,
    b: ForwardStepView,
    answer: PassAnswer,
    k: i32,
    offset: i32,
    done: Seq<(usize, Option<SharedKvOut>)>,
)
    requires
        m.valid(),
        coherent(m, a),
        side_by_side(a, b, k, offset),
        run_of(a) matches Some(r) && kept(r, done) && done.len() == done_layers(m, a),
    ensures
        next(m, a, answer) is Done || side_by_side(
            next(m, a, answer),
            next(m, b, answer),
            k,
            offset,
        ),
        next(m, a, answer) is Done ==> drafts(
            m,
            next(m, a, answer),
            next(m, b, answer),
            done,
            offset,
        ),
{
    if let ForwardStepView::Run { run, .. } = a {
        if run.stage is Tail {
            assert(left_by_layer(done) =~= run.stored_kvs);
        }
    }
}

proof fn lemma_drafts(
    m: Gemma4Text,
    a: ForwardStepView,
    b: ForwardStepView,
    answers: Seq<PassAnswer>,
    k: i32,
    offset: i32,
    done: Seq<(usize, Option<SharedKvOut>)>,
)
    requires
        m.valid(),
        coherent(m, a),
        side_by_side(a, b, k, offset),
        run_of(a) matches Some(r) && kept(r, done) && done.len() == done_layers(m, a),
    ensures
        drafts(
            m,
            play(m, a, answers),
            play(m, b, answers),
            done + left_in(m, a, answers),
            offset,
        ),
    decreases answers.len(),
{
    if answers.len() > 0 {
        let a2 = next(m, a, answers[0]);
        let b2 = next(m, b, answers[0]);
        lemma_coherent(m, a, answers[0]);
        lemma_kept(m, a, answers[0], done);
        lemma_side_by_side(m, a, b, answers[0], k, offset, done);
        let more = match (a, answers[0]) {
            (
                ForwardStepView::Layer { layer, .. },
                PassAnswer::Layered(Ok((_, new_kv))),
            ) => done.push((layer, new_kv)),
            _ => done,
        };
        let rest = left_in(m, a2, answers.drop_first());
        assert(done + left_in(m, a, answers) =~= more + rest);
        if a2 is Done {
            lemma_done_stays(m, a2, answers.drop_first());
            assert(more + rest =~= more);
            if let ForwardStepView::Done(Ok(_)) = a2 {
                lemma_done_stays(m, b2, answers.drop_first());
            }
        } else {
            lemma_drafts(m, a2, b2, answers.drop_first(), k, offset, more);
        }
    }
}

/// Under the same answers, a pass that leaves K/V to a drafter ends with the
/// stream of the pass for the stream alone, with the offset that positions were
/// counted from before it, and with the bf16 K/V of the last layer of each kind
/// that left any in it.
pub proof fn law_drafter_gets_the_stream_and_the_last_kv(
    m: Gemma4Text,
    prompt: Seq<u32>,
    seq: i32,
    k: i32,
    caches: Seq<KvCache>,
    device: Device,
    toggles: Toggles,
    answers: Seq<PassAnswer>,
)
    requires
        m.valid(),
        m.served_by(caches.len() as int),
        1 <= k <= seq,
    ensures
        ({
            let a = model::uploading(
                model::fresh(m, seq, Tail::SharedHidden { k }, Some(caches), device, toggles),
                prompt,
            );
            let b = model::uploading(
                model::fresh(m, seq, Tail::Hidden { k }, Some(caches), device, toggles),
                prompt,
            );
            drafts(
                m,
                play(m, a, answers),
                play(m, b, answers),
                left_in(m, a, answers),
                model::base_offset(caches),
            )
        }),
{
    let run1 = model::fresh(m, seq, Tail::SharedHidden { k }, Some(caches), device, toggles);
    let run2 = model::fresh(m, seq, Tail::Hidden { k }, Some(caches), device, toggles);
    let a = model::uploading(run1, prompt);
    let b = model::uploading(run2, prompt);
    let none = Seq::<(usize, Option<SharedKvOut>)>::empty();
    assert(same_but_tail(run1, run2));
    lemma_drafts(m, a, b, answers, k, model::base_offset(caches), none);
    assert(none + left_in(m, a, answers) =~= left_in(m, a, answers));
}

/// The K/V picked of a kind are those of the last layer of that kind that left
/// any in bf16.
pub proof fn law_last_layer_wins(
    types: Seq<LayerType>,
    stored: Seq<Option<SharedKvOut>>,
    want: LayerType,
    n: int,
    i: int,
    k: Tensor,
    v: Tensor,
)
    requires
        0 <= i < n <= stored.len(),
        n <= types.len(),
        types[i] == want,
        stored[i] == Some(SharedKvOut::Bf16(k, v)),
        forall|j: int|
            i < j < n && types[j] == want ==> !((#[trigger] stored[j]) matches Some(
                SharedKvOut::Bf16(_, _),
            )),
    ensures
        model::last_bf16(types, stored, want, n) == Some((k, v)),
    decreases n,
{
    if i < n - 1 {
        law_last_layer_wins(types, stored, want, n - 1, i, k, v);
    }
}

/// Nothing is picked of a kind of which no layer left any in bf16.
pub proof fn law_nothing_to_pick(
    types: Seq<LayerType>,
    stored: Seq<Option<SharedKvOut>>,
    want: LayerType,
    n: int,
)
    requires
        0 <= n <= stored.len(),
        n <= types.len(),
        forall|j: int|
            0 <= j < n && types[j] == want ==> !((#[trigger] stored[j]) matches Some(
                SharedKvOut::Bf16(_, _),
            )),
    ensures
        model::last_bf16(types, stored, want, n) is None,
    decreases n,
{
    if n > 0 {
        law_nothing_to_pick(types, stored, want, n - 1);
    }
}

/// Positions are counted from the first cache that survives a spill, however
/// many caches in front of it do not.
pub proof fn law_base_skips_what_was_not_spilled(caches: Seq<KvCache>, i: int)
    requires
        0 <= i < caches.len(),
        caches[i].persistent,
        forall|j: int| 0 <= j < i ==> !(#[trigger] caches[j]).persistent,
    ensures
        model::base_offset(caches) == caches[i].offset,
{
    lemma_first(caches, 0, i);
}

proof fn lemma_first(caches: Seq<KvCache>, from: int, i: int)
    requires
        0 <= from <= i < caches.len(),
        caches[i].persistent,
        forall|j: int| from <= j < i ==> !(#[trigger] caches[j]).persistent,
    ensures
        model::first_persistent(caches, from) == Some(caches[i].offset),
    decreases i - from,
{
    if from < i {
        lemma_first(caches, from + 1, i);
    }
}

/// A fresh pass fits its model, where its length and its caches do.
pub proof fn law_fresh_pass_fits(
    m: Gemma4Text,
    seq: i32,
    tail: Tail,
    caches: Option<Seq<KvCache>>,
    device: Device,
    toggles: Toggles,
)
    requires
        caches matches Some(cs) ==> m.served_by(cs.len() as int),
        match tail {
            Tail::LastKLogits { k } => 1 <= k <= seq,
            Tail::Hidden { k } => 1 <= k <= seq,
            Tail::SharedHidden { k } => 1 <= k <= seq,
            _ => seq > i32::MIN,
        },
    ensures
        model::fits(m, model::fresh(m, seq, tail, caches, device, toggles)),
{
}

/// A pass that fits its model goes on fitting it, answer after answer.
pub proof fn law_pass_goes_on_fitting(
    m: Gemma4Text,
    run: RunView,
    on_device: Result<Tensor, u64>,
    results: Result<Seq<Tensor>, u64>,
    outcome: Result<(Tensor, Option<SharedKvOut>), Error>,
)
    requires
        m.valid(),
        model::fits(m, run),
    ensures
        step_fits(m, model::uploaded(m, run, on_device)),
        step_fits(m, model::ran(m, run, results)),
        step_fits(m, model::layered(m, run, outcome)),
{
}

/// Whether the pass of a step fits its model.
pub open spec fn step_fits(m: Gemma4Text, now: ForwardStepView) -> bool {
    match now {
        ForwardStepView::Upload { run, .. } => model::fits(m, run),
        ForwardStepView::Run { run, .. } => model::fits(m, run),
        ForwardStepView::Layer { run, .. } => model::fits(m, run),
        ForwardStepView::Done(_) => true,
    }
}

/// Every program of a pass reads only what was written before.
pub proof fn law_programs_are_well_formed(m: Gemma4Text, run: RunView, ids: Tensor, seq: i32)
    requires
        m.valid(),
    ensures
        program::well_formed(model::embed_program(m, run)),
        program::well_formed(model::tail_program(m, run)),
        program::well_formed(model::layer_inputs_program(m, ids, run.h, seq)),
{
    let p = model::layer_inputs_program(m, ids, run.h, seq);
    let front = model::layer_input_front(m, seq);
    let cuts = model::layer_input_cuts(m, seq, m.depth());
    assert forall|i: int| 0 <= i < p.ops.len() implies program::reads_below(
        #[trigger] p.ops[i],
        (p.inputs.len() + i) as nat,
    ) by {
        if i < 9 {
            assert(p.ops[i] == front[i]);
        } else {
            assert(p.ops[i] == cuts[i - 9]);
        }
    }
}

} // verus!
