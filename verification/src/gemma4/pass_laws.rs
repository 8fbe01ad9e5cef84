//! What a forward pass computes between its layers, for a runtime that makes of
//! every operation a function of its operands.
use vstd::prelude::*;

use crate::error::Error;
use crate::gemma4::model::{
    Forward, ForwardStage, ForwardStepView, Gemma4Text, RunView, Tail,
};
use crate::gemma4::program::{Factor, Op, Weight};
use crate::gemma4::{ids, meaning, model, model_laws};
use crate::kvcache::request::{KvCache, Toggles};
use crate::kvcache::step::SharedKvOut;
use crate::tensor::{Device, Dims, Tensor};

verus! {

/// Whether the layers of a model have inputs of their own: it has all three
/// parameters that make them.
pub open spec fn mixes_inputs(m: Gemma4Text) -> bool {
    &&& m.has_embed_tokens_per_layer
    &&& m.has_per_layer_model_proj
    &&& m.has_per_layer_proj_norm
}

/// A product with a constant, in the element type of the operand.
pub open spec fn scaled<V>(rt: spec_fn(Op, Seq<V>) -> V, by: Factor, x: V) -> V {
    rt(Op::ScaleLike { x: 0, by }, seq![x])
}

/// Rows of an embedding table.
pub open spec fn embedded<V>(rt: spec_fn(Op, Seq<V>) -> V, weight: Weight, ids: V) -> V {
    rt(Op::Embed { weight, ids: 0 }, seq![ids])
}

/// The stream that a pass starts its layers on: the embedding of its ids, scaled
/// by the square root of the width, one row per position.
pub open spec fn first_stream<V>(
    rt: spec_fn(Op, Seq<V>) -> V,
    m: Gemma4Text,
    seq: i32,
    ids: V,
) -> V {
    meaning::reshape(
        rt,
        Dims::D3(1, seq, m.cfg.hidden_size as i32),
        scaled(
            rt,
            Factor::Sqrt(m.cfg.hidden_size),
            embedded(rt, Weight::EmbedTokens, ids),
        ),
    )
}

/// What the inputs of all layers are cut from: the normed projection of the stream
/// and the scaled embedding of the ids, summed, and scaled by one over the square
/// root of two.
pub open spec fn all_inputs<V>(
    rt: spec_fn(Op, Seq<V>) -> V,
    m: Gemma4Text,
    seq: i32,
    ids: V,
    h: V,
) -> V {
    let d = m.cfg.hidden_size_per_layer_input;
    let split = Dims::D4(1, seq, m.cfg.num_hidden_layers as i32, d as i32);
    let tokens = meaning::reshape(
        rt,
        split,
        scaled(rt, Factor::Sqrt(d), embedded(rt, Weight::EmbedTokensPerLayer, ids)),
    );
    let projected = meaning::reshape(
        rt,
        split,
        scaled(
            rt,
            Factor::InvSqrt(m.cfg.hidden_size),
            meaning::linear(rt, Weight::PerLayerModelProj, h),
        ),
    );
    scaled(
        rt,
        Factor::InvSqrt(2),
        meaning::sum(rt, meaning::norm(rt, Weight::PerLayerProjNorm, projected), tokens),
    )
}

/// The input of one layer: its plane of what the inputs of all layers are cut from,
/// one row per position.
pub open spec fn input_of<V>(
    rt: spec_fn(Op, Seq<V>) -> V,
    m: Gemma4Text,
    seq: i32,
    i: int,
    all: V,
) -> V {
    let d = m.cfg.hidden_size_per_layer_input;
    meaning::reshape(
        rt,
        Dims::D3(1, seq, d as i32),
        rt(Op::Plane { x: 0, i: i as i32, seq, n: d as i32 }, seq![all]),
    )
}

/// The tokens of a pass are embedded and scaled, and the pass goes on with that
/// stream.
pub proof fn law_tokens_are_embedded_and_scaled<V>(
    rt: spec_fn(Op, Seq<V>) -> V,
    val: spec_fn(Tensor) -> V,
    m: Gemma4Text,
    run: RunView,
    ids: Tensor,
    results: Seq<Tensor>,
)
    requires
        m.depth() > 0,
        !(run.tail is Embedding),
        model::embedding(m, run, ids) matches ForwardStepView::Run { program, .. }
            && meaning::carried_out(rt, val, program, results),
    ensures
        model::embedding(m, run, ids) matches ForwardStepView::Run { run: after, .. } && match model::ran(
            m,
            after,
            Ok(results),
        ) {
            ForwardStepView::Layer { run: r, layer, call } => {
                &&& layer == 0
                &&& !mixes_inputs(m)
                &&& call.per_layer_input is None
                &&& val(call.x) == first_stream(rt, m, run.seq, val(ids))
                &&& r.h == call.x
            },
            ForwardStepView::Run { run: r, program } => {
                &&& mixes_inputs(m)
                &&& r.stage is LayerInputs
                &&& program.inputs == seq![ids, r.h]
                &&& val(r.h) == first_stream(rt, m, run.seq, val(ids))
            },
            ForwardStepView::Done(r) => r is Err && mixes_inputs(m) && ids.shape.at(0) is None,
            ForwardStepView::Upload { .. } => false,
        },
{
    if let ForwardStepView::Run { program, .. } = model::embedding(m, run, ids) {
        let regs = meaning::values_of(val, program.inputs + results);
        assert(regs[0] == val(ids));
        meaning::lemma_register(rt, val, program, results, 0);
        meaning::lemma_register(rt, val, program, results, 1);
        meaning::lemma_register(rt, val, program, results, 2);
    }
}

/// The raw embedding of one token is scaled in full precision, as one row.
pub proof fn law_raw_embedding_is_scaled_wide<V>(
    rt: spec_fn(Op, Seq<V>) -> V,
    val: spec_fn(Tensor) -> V,
    m: Gemma4Text,
    run: RunView,
    ids: Tensor,
    results: Seq<Tensor>,
)
    requires
        run.tail is Embedding,
        model::embedding(m, run, ids) matches ForwardStepView::Run { program, .. }
            && meaning::carried_out(rt, val, program, results),
    ensures
        model::embedding(m, run, ids) matches ForwardStepView::Run { run: after, .. } && (model::ran(
            m,
            after,
            Ok(results),
        ) matches ForwardStepView::Done(Ok(Forward::Hidden(t))) && val(t) == rt(
            Op::ScaleWide { x: 0, by: Factor::Sqrt(m.cfg.hidden_size) },
            seq![
                meaning::reshape(
                    rt,
                    Dims::D3(1, 1, m.cfg.hidden_size as i32),
                    embedded(rt, Weight::EmbedTokens, val(ids)),
                ),
            ],
        )),
{
    if let ForwardStepView::Run { program, .. } = model::embedding(m, run, ids) {
        let regs = meaning::values_of(val, program.inputs + results);
        assert(regs[0] == val(ids));
        meaning::lemma_register(rt, val, program, results, 0);
        meaning::lemma_register(rt, val, program, results, 1);
        meaning::lemma_register(rt, val, program, results, 2);
    }
}

/// The inputs of all layers are cut from the sum of the normed projection of the
/// stream and of the scaled embedding of the ids, a plane to each layer.
pub proof fn law_layer_inputs_mix_stream_and_tokens<V>(
    rt: spec_fn(Op, Seq<V>) -> V,
    val: spec_fn(Tensor) -> V,
    m: Gemma4Text,
    ids: Tensor,
    h: Tensor,
    seq: i32,
    results: Seq<Tensor>,
    i: int,
)
    requires
        m.valid(),
        0 <= i < m.depth(),
        meaning::carried_out(rt, val, model::layer_inputs_program(m, ids, h, seq), results),
    ensures
        results.len() == 9 + 2 * m.depth(),
        val(results[8]) == all_inputs(rt, m, seq, val(ids), val(h)),
        val(results[10 + 2 * i]) == input_of(
            rt,
            m,
            seq,
            i,
            all_inputs(rt, m, seq, val(ids), val(h)),
        ),
        val(model::cut_inputs(m, results)[i]) == val(results[10 + 2 * i]),
{
    let p = model::layer_inputs_program(m, ids, h, seq);
    let front = model::layer_input_front(m, seq);
    let cuts = model::layer_input_cuts(m, seq, m.depth());
    let regs = meaning::values_of(val, p.inputs + results);
    assert(regs[0] == val(ids) && regs[1] == val(h));
    assert(forall|j: int| 0 <= j < 9 ==> p.ops[j] == #[trigger] front[j]);
    assert(p.ops[0] == front[0] && p.ops[1] == front[1] && p.ops[2] == front[2] && p.ops[3]
        == front[3] && p.ops[4] == front[4] && p.ops[5] == front[5] && p.ops[6] == front[6]
        && p.ops[7] == front[7] && p.ops[8] == front[8]);
    meaning::lemma_register(rt, val, p, results, 0);
    meaning::lemma_register(rt, val, p, results, 1);
    meaning::lemma_register(rt, val, p, results, 2);
    meaning::lemma_register(rt, val, p, results, 3);
    meaning::lemma_register(rt, val, p, results, 4);
    meaning::lemma_register(rt, val, p, results, 5);
    meaning::lemma_register(rt, val, p, results, 6);
    meaning::lemma_register(rt, val, p, results, 7);
    meaning::lemma_register(rt, val, p, results, 8);
    assert(val(results[8]) == all_inputs(rt, m, seq, val(ids), val(h)));
    let j = 9 + 2 * i;
    assert(p.ops[j] == cuts[2 * i]);
    assert(p.ops[j + 1] == cuts[2 * i + 1]);
    assert((2 * i) % 2 == 0 && (2 * i + 1) % 2 == 1 && (2 * i) / 2 == i);
    meaning::lemma_register(rt, val, p, results, j);
    meaning::lemma_register(rt, val, p, results, j + 1);
}

/// The first layer of a pass with inputs of the layers gets the stream as it is
/// and the first of the inputs; every other layer finds its own in the pass.
pub proof fn law_first_layer_gets_stream_and_input<V>(
    rt: spec_fn(Op, Seq<V>) -> V,
    val: spec_fn(Tensor) -> V,
    m: Gemma4Text,
    run: RunView,
    h: Tensor,
    results: Seq<Tensor>,
    i: int,
)
    requires
        m.valid(),
        0 <= i < m.depth(),
        mixes_inputs(m),
        model::preparing(m, run, h) matches ForwardStepView::Run { program, .. }
            && meaning::carried_out(rt, val, program, results),
    ensures
        run.ids.shape.at(0) matches Some(seq) && (model::preparing(m, run, h) matches ForwardStepView::Run {
            run: after,
            ..
        } && (model::ran(m, after, Ok(results)) matches ForwardStepView::Layer { run: r, layer, call }
            && {
            let all = all_inputs(rt, m, seq, val(run.ids), val(h));
            &&& layer == 0
            &&& call.x == h
            &&& r.h == h
            &&& call.per_layer_input matches Some(t) && val(t) == input_of(rt, m, seq, 0, all)
            &&& r.per_layer_inputs matches Some(inputs) && inputs.len() == m.depth() && val(
                inputs[i],
            ) == input_of(rt, m, seq, i, all)
        })),
{
    if let Some(seq) = run.ids.shape.at(0) {
        law_layer_inputs_mix_stream_and_tokens(rt, val, m, run.ids, h, seq, results, 0);
        law_layer_inputs_mix_stream_and_tokens(rt, val, m, run.ids, h, seq, results, i);
    }
}

/// A layer that ran hands its output to the next one as the stream, whole and
/// unchanged; what it left is kept under its own number, and nothing else of the
/// pass changes. Behind the last layer the output is what is read off.
pub proof fn law_stream_runs_through_the_layers(
    m: Gemma4Text,
    run: RunView,
    layer: usize,
    h: Tensor,
    new_kv: Option<SharedKvOut>,
)
    requires
        m.valid(),
        model::fits(m, run),
        run.stage == (ForwardStage::Layer { layer }),
        !(run.tail is SharedHidden),
    ensures
        match model::layered(m, run, Ok((h, new_kv))) {
            ForwardStepView::Layer { run: r, layer: next, call } => {
                &&& next == layer + 1
                &&& next < m.depth()
                &&& call.x == h
                &&& r.h == h
                &&& call.offset == run.base_offset
                &&& call.device == run.device
                &&& call.toggles == run.toggles
                &&& call.kv_is_rotating == run.kv_is_rotating[next as int]
                &&& call.per_layer_input == match run.per_layer_inputs {
                    Some(inputs) => Some(inputs[next as int]),
                    None => None,
                }
                &&& r.per_layer_inputs == run.per_layer_inputs
                &&& forall|j: int|
                    0 <= j < m.depth() ==> #[trigger] r.stored_kvs[j] == if j == layer
                        && new_kv is Some {
                        new_kv
                    } else {
                        run.stored_kvs[j]
                    }
            },
            ForwardStepView::Run { run: r, program } => {
                &&& layer + 1 == m.depth()
                &&& r.stage is Tail
                &&& r.h == h
                &&& program.inputs == seq![h]
            },
            _ => false,
        },
{
}

/// What stays of a pass from its start to its end.
spec fn stays(r: RunView, r0: RunView) -> bool {
    &&& r.seq == r0.seq
    &&& r.tail == r0.tail
    &&& r.device == r0.device
    &&& r.toggles == r0.toggles
    &&& r.base_offset == r0.base_offset
    &&& r.offsets == r0.offsets
    &&& r.kv_is_rotating == r0.kv_is_rotating
}

/// A pass that is still the one that was started, at a layer with the call of it.
spec fn same_pass(m: Gemma4Text, now: ForwardStepView, r0: RunView) -> bool {
    match now {
        ForwardStepView::Upload { run, .. } => stays(run, r0),
        ForwardStepView::Run { run, .. } => stays(run, r0),
        ForwardStepView::Layer { run, layer, call } => {
            &&& stays(run, r0)
            &&& layer < m.depth()
            &&& call == model::layer_call(m, run, layer as int)
            &&& call.x == run.h
        },
        ForwardStepView::Done(_) => true,
    }
}

proof fn lemma_same_pass(
    m: Gemma4Text,
    now: ForwardStepView,
    r0: RunView,
    answers: Seq<model_laws::PassAnswer>,
)
    requires
        m.valid(),
        same_pass(m, now, r0),
    ensures
        same_pass(m, model_laws::play(m, now, answers), r0),
    decreases answers.len(),
{
    if answers.len() > 0 {
        let after = model_laws::next(m, now, answers[0]);
        assert(same_pass(m, after, r0));
        lemma_same_pass(m, after, r0, answers.drop_first());
    }
}

/// Wherever a pass comes to a layer, the layer is called with the offset that the
/// pass counts from, on the device and under the switches of the pass, with the
/// offset of its own cache where it holds one, and told whether the cache of the
/// layer whose K it attends is a ring.
pub proof fn law_layer_call_follows_the_caches(
    m: Gemma4Text,
    prompt: Seq<u32>,
    seq: i32,
    tail: Tail,
    caches: Option<Seq<KvCache>>,
    device: Device,
    toggles: Toggles,
    answers: Seq<model_laws::PassAnswer>,
)
    requires
        m.valid(),
        caches matches Some(cs) ==> m.served_by(cs.len() as int),
    ensures
        model_laws::play(
            m,
            model::uploading(model::fresh(m, seq, tail, caches, device, toggles), prompt),
            answers,
        ) matches ForwardStepView::Layer { run, layer, call } ==> {
            let source = m.previous_kvs@[layer as int] as int;
            &&& layer < m.depth()
            &&& call.x == run.h
            &&& call.device == device
            &&& call.toggles == toggles
            &&& call.offset == match caches {
                None => 0,
                Some(cs) => model::base_offset(cs),
            }
            &&& call.cache == match caches {
                Some(cs) if source == layer => Some(cs[layer as int].offset),
                _ => None,
            }
            &&& call.kv_is_rotating == match caches {
                Some(cs) => source < cs.len() && cs[source].rotating,
                None => false,
            }
        },
{
    let r0 = model::fresh(m, seq, tail, caches, device, toggles);
    lemma_same_pass(m, model::uploading(r0, prompt), r0, answers);
    if let ForwardStepView::Layer { layer, .. } = model_laws::play(
        m,
        model::uploading(r0, prompt),
        answers,
    ) {
        assert(m.previous_kvs@[layer as int] < m.depth());
    }
}

/// Without a cache that survives a spill, positions are counted from the first
/// cache, and without any cache from zero.
pub proof fn law_base_falls_back_to_the_first(caches: Seq<KvCache>)
    requires
        forall|j: int| 0 <= j < caches.len() ==> !(#[trigger] caches[j]).persistent,
    ensures
        model::base_offset(caches) == if caches.len() == 0 {
            0
        } else {
            caches[0].offset
        },
{
    lemma_none_persistent(caches, 0);
}

proof fn lemma_none_persistent(caches: Seq<KvCache>, from: int)
    requires
        0 <= from,
        forall|j: int| 0 <= j < caches.len() ==> !(#[trigger] caches[j]).persistent,
    ensures
        model::first_persistent(caches, from) is None,
    decreases caches.len() - from,
{
    if from < caches.len() {
        lemma_none_persistent(caches, from + 1);
    }
}

/// The ids of a prompt are brought to the device as they are: four bytes to each,
/// from which each is found again, and as many words as there are ids.
pub proof fn law_prompt_is_uploaded_whole(run: RunView, prompt: Seq<u32>, i: int)
    requires
        prompt.len() <= i32::MAX,
        0 <= i < prompt.len(),
    ensures
        model::uploading(run, prompt) matches ForwardStepView::Upload { bytes, len, run: r } && {
            &&& len == prompt.len()
            &&& bytes.len() == 4 * prompt.len()
            &&& bytes[4 * i] + 256 * bytes[4 * i + 1] + 65536 * bytes[4 * i + 2] + 16777216
                * bytes[4 * i + 3] == prompt[i]
            &&& r.stage is Ids
        },
{
    ids::law_ids_survive(prompt, i);
}

/// The capped logits of rows behind the final norm.
pub open spec fn headed<V>(rt: spec_fn(Op, Seq<V>) -> V, m: Gemma4Text, x: V) -> V {
    rt(
        Op::Softcap { x: 0, cap: m.cfg.final_logit_softcapping },
        seq![rt(Op::AsLinear { weight: Weight::EmbedTokens, x: 0 }, seq![x])],
    )
}

/// The last `k` of `seq` positions.
pub open spec fn cut_to<V>(
    rt: spec_fn(Op, Seq<V>) -> V,
    m: Gemma4Text,
    seq: i32,
    k: i32,
    x: V,
) -> V {
    let n = m.cfg.hidden_size as i32;
    meaning::reshape(
        rt,
        Dims::D3(1, k, n),
        rt(Op::Positions { x: 0, from: (seq - k) as i32, to: seq, n }, seq![x]),
    )
}

/// What a pass comes to behind its last layer: the last positions of the stream, or
/// the capped logits of the last positions, or of all, behind the final norm.
pub open spec fn read_from<V>(
    rt: spec_fn(Op, Seq<V>) -> V,
    m: Gemma4Text,
    seq: i32,
    tail: Tail,
    h: V,
) -> V {
    let normed = meaning::norm(rt, Weight::FinalNorm, h);
    match tail {
        Tail::LastLogits => headed(rt, m, cut_to(rt, m, seq, 1, normed)),
        Tail::LastKLogits { k } => headed(rt, m, cut_to(rt, m, seq, k, normed)),
        Tail::AllLogits => headed(rt, m, normed),
        Tail::Hidden { k } => cut_to(rt, m, seq, k, h),
        Tail::SharedHidden { k } => cut_to(rt, m, seq, k, h),
        Tail::Embedding => h,
    }
}

/// A pass ends with what its tail reads off of the stream behind the last layer:
/// logits where logits were asked for, the stream where the stream was.
pub proof fn law_pass_ends_with_what_was_asked_for<V>(
    rt: spec_fn(Op, Seq<V>) -> V,
    val: spec_fn(Tensor) -> V,
    m: Gemma4Text,
    run: RunView,
    results: Seq<Tensor>,
)
    requires
        !(run.tail is Embedding),
        model::reading(m, run) matches ForwardStepView::Run { program, .. }
            && meaning::carried_out(rt, val, program, results),
    ensures
        model::reading(m, run) matches ForwardStepView::Run { run: after, .. } && match model::ran(
            m,
            after,
            Ok(results),
        ) {
            ForwardStepView::Done(Ok(Forward::Logits(t))) => {
                &&& run.tail is LastLogits || run.tail is LastKLogits || run.tail is AllLogits
                &&& val(t) == read_from(rt, m, run.seq, run.tail, val(run.h))
            },
            ForwardStepView::Done(Ok(Forward::Hidden(t))) => {
                &&& run.tail is Hidden
                &&& val(t) == read_from(rt, m, run.seq, run.tail, val(run.h))
            },
            ForwardStepView::Done(Ok(Forward::SharedHidden { hidden, offset, .. })) => {
                &&& run.tail is SharedHidden
                &&& val(hidden) == read_from(rt, m, run.seq, run.tail, val(run.h))
                &&& offset == run.base_offset
            },
            _ => false,
        },
{
    if let ForwardStepView::Run { program, .. } = model::reading(m, run) {
        let regs = meaning::values_of(val, program.inputs + results);
        assert(regs[0] == val(run.h));
        let n = program.ops.len();
        meaning::lemma_register(rt, val, program, results, 0);
        meaning::lemma_register(rt, val, program, results, 1);
        if n > 2 {
            meaning::lemma_register(rt, val, program, results, 2);
        }
        if n > 3 {
            meaning::lemma_register(rt, val, program, results, 3);
            meaning::lemma_register(rt, val, program, results, 4);
        }
    }
}

/// The head on a stream gives its capped logits behind the final norm, and the
/// final norm alone gives the normed stream.
pub proof fn law_head_is_norm_product_and_cap<V>(
    rt: spec_fn(Op, Seq<V>) -> V,
    val: spec_fn(Tensor) -> V,
    m: Gemma4Text,
    hidden: Tensor,
    results: Seq<Tensor>,
)
    requires
        meaning::carried_out(rt, val, model::head_program(m, hidden), results),
    ensures
        results.len() == 3,
        val(results[2]) == headed(rt, m, meaning::norm(rt, Weight::FinalNorm, val(hidden))),
{
    let program = model::head_program(m, hidden);
    let regs = meaning::values_of(val, program.inputs + results);
    assert(regs[0] == val(hidden));
    meaning::lemma_register(rt, val, program, results, 0);
    meaning::lemma_register(rt, val, program, results, 1);
    meaning::lemma_register(rt, val, program, results, 2);
}

/// A failure of the runtime or of a layer ends a pass with it.
pub proof fn law_pass_ends_on_failure(m: Gemma4Text, run: RunView, code: u64, e: Error)
    ensures
        model::uploaded(m, run, Err(code)) == ForwardStepView::Done(Err(Error::Outside(code))),
        model::ran(m, run, Err(code)) == ForwardStepView::Done(Err(Error::Outside(code))),
        model::layered(m, run, Err(e)) == ForwardStepView::Done(Err(e)),
{
}

/// The last `k` of `seq` positions can be read off exactly where they start inside
/// the prompt.
pub proof fn law_last_positions_lie_inside(k: int, seq: int)
    ensures
        model::in_range(k, seq) <==> 0 <= seq - k < seq,
{
}

/// Ids without an axis cannot be counted: a pass whose layers have inputs of their
/// own ends there.
pub proof fn law_uncounted_ids_end_a_pass(m: Gemma4Text, run: RunView, h: Tensor)
    requires
        mixes_inputs(m),
        run.ids.shape.rank == 0,
    ensures
        model::preparing(m, run, h) == ForwardStepView::Done(
            Err(Error::NoStepAxis { shape: run.ids.shape }),
        ),
{
}

/// A program of a pass that is answered with more or fewer tensors than it has
/// operations ends the pass.
pub proof fn law_pass_counts_its_results(
    m: Gemma4Text,
    run: RunView,
    ids: Tensor,
    h: Tensor,
    results: Seq<Tensor>,
)
    requires
        m.valid(),
    ensures
        model::embedding(m, run, ids) matches ForwardStepView::Run { run: r, program }
            ==> results.len() != program.ops.len() ==> model::ran(m, r, Ok(results))
            == ForwardStepView::Done(Err(Error::Protocol)),
        model::preparing(m, run, h) matches ForwardStepView::Run { run: r, program }
            ==> m.depth() > 0 && results.len() != program.ops.len() ==> model::ran(
            m,
            r,
            Ok(results),
        ) == ForwardStepView::Done(Err(Error::Protocol)),
        model::reading(m, run) matches ForwardStepView::Run { run: r, program } ==> results.len()
            != program.ops.len() ==> model::ran(m, r, Ok(results)) == ForwardStepView::Done(
            Err(Error::Protocol),
        ),
{
}

} // verus!
