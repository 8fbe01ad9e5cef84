//! What a decoder layer computes, for a runtime that makes of every operation a
//! function of its operands.
use vstd::prelude::*;

use crate::error::Error;
use crate::gemma4::decoder_layer::{
    DecoderLayer, LayerCall, LayerRun, LayerStage, LayerStepView,
};
use crate::gemma4::program::{LayerWeight, Op};
use crate::gemma4::{decoder_layer, meaning};
use crate::kvcache::step::SharedKvOut;
use crate::tensor::{Dims, Shape, Tensor};

verus! {

/// The dense network: `down(geglu(gate(x), up(x)))`.
pub open spec fn mlp<V>(rt: spec_fn(Op, Seq<V>) -> V, layer: usize, x: V) -> V {
    let gate = meaning::linear(rt, meaning::of_layer(layer, LayerWeight::GateProj), x);
    let up = meaning::linear(rt, meaning::of_layer(layer, LayerWeight::UpProj), x);
    meaning::linear(
        rt,
        meaning::of_layer(layer, LayerWeight::DownProj),
        rt(Op::Geglu { gate: 0, up: 0 }, seq![gate, up]),
    )
}

/// The dense network behind the norm in front of the feed-forward half.
pub open spec fn normed_mlp<V>(rt: spec_fn(Op, Seq<V>) -> V, layer: usize, h: V) -> V {
    mlp(rt, layer, meaning::norm(rt, meaning::of_layer(layer, LayerWeight::PreFfnNorm), h))
}

/// The experts on the rows of `h`: routed by the rows as they are, run on the rows
/// behind a norm of their own.
pub open spec fn experts<V>(rt: spec_fn(Op, Seq<V>) -> V, layer: usize, shape: Shape, h: V) -> V {
    let rows = Dims::D2((shape.d0 * shape.d1) as i32, shape.d2);
    let routing = rt(Op::Route { layer, x: 0 }, seq![meaning::reshape(rt, rows, h)]);
    let normed = meaning::norm(rt, meaning::of_layer(layer, LayerWeight::PreFfnNorm2), h);
    let out = rt(
        Op::Experts { layer, x: 0, routing: 0 },
        seq![meaning::reshape(rt, rows, normed), routing],
    );
    meaning::reshape(rt, Dims::D3(shape.d0, shape.d1, shape.d2), out)
}

/// The feed-forward half around its residual `h`: the dense network, or the dense
/// network and the experts side by side, each normed.
pub open spec fn feed_forward<V>(
    rt: spec_fn(Op, Seq<V>) -> V,
    layer: DecoderLayer,
    shape: Shape,
    h: V,
) -> V {
    let n = layer.layer;
    let dense = normed_mlp(rt, n, h);
    let inner = if layer.moe_block {
        meaning::sum(
            rt,
            meaning::norm(rt, meaning::of_layer(n, LayerWeight::PostFfnNorm1), dense),
            meaning::norm(
                rt,
                meaning::of_layer(n, LayerWeight::PostFfnNorm2),
                experts(rt, n, shape, h),
            ),
        )
    } else {
        dense
    };
    meaning::sum(
        rt,
        h,
        meaning::norm(rt, meaning::of_layer(n, LayerWeight::PostFfnNorm), inner),
    )
}

/// What a layer makes of the stream behind its attention: the feed-forward half,
/// then the input of the layer itself, gated, then the scalar of the layer, where
/// it has them.
#[verifier::opaque]
pub open spec fn behind_attention<V>(
    rt: spec_fn(Op, Seq<V>) -> V,
    layer: DecoderLayer,
    shape: Shape,
    h: V,
    input: Option<V>,
) -> V {
    let n = layer.layer;
    let f = feed_forward(rt, layer, shape, h);
    let g = match input {
        Some(i) if layer.per_layer => meaning::sum(
            rt,
            f,
            rt(Op::PerLayerInput { layer: n, x: 0, input: 0 }, seq![f, i]),
        ),
        _ => f,
    };
    if layer.layer_scalar {
        rt(Op::LayerScalar { layer: n, x: 0 }, seq![g])
    } else {
        g
    }
}

/// The residual behind the attention: the input, and the output of the attention
/// behind a norm.
pub open spec fn residual<V>(rt: spec_fn(Op, Seq<V>) -> V, layer: usize, x: V, out: V) -> V {
    meaning::sum(
        rt,
        x,
        meaning::norm(rt, meaning::of_layer(layer, LayerWeight::PostAttnNorm), out),
    )
}

/// The attention of a layer sees the input of the layer behind its norm, and
/// everything else of the call as it came.
pub proof fn law_attention_sees_the_normed_input<V>(
    rt: spec_fn(Op, Seq<V>) -> V,
    val: spec_fn(Tensor) -> V,
    layer: DecoderLayer,
    call: LayerCall,
    results: Seq<Tensor>,
)
    requires
        decoder_layer::starting(layer, call) matches LayerStepView::Run { program, .. }
            && meaning::carried_out(rt, val, program, results),
    ensures
        decoder_layer::starting(layer, call) matches LayerStepView::Run { run, .. } && (
        decoder_layer::ran(run, Ok(results)) matches LayerStepView::Attention { run: waiting, call: c }
            && {
            &&& val(c.x) == meaning::norm(
                rt,
                meaning::of_layer(layer.layer, LayerWeight::InputNorm),
                val(call.x),
            )
            &&& c.shared_kv == call.shared_kv
            &&& c.offset == call.offset
            &&& c.cache == call.cache
            &&& c.kv_is_rotating == call.kv_is_rotating
            &&& c.device == call.device
            &&& c.toggles == call.toggles
            &&& waiting.layer == layer
            &&& waiting.call == call
            &&& waiting.stage is Attention
        }),
{
    if let LayerStepView::Run { program, .. } = decoder_layer::starting(layer, call) {
        assert(val(results[0]) == rt(
            meaning::bare(program.ops[0]),
            meaning::read(
                program.ops[0],
                meaning::values_of(val, program.inputs + results),
            ),
        ));
    }
}

/// Behind the attention stands its input, added to its normed output.
pub proof fn law_attention_is_added_to_its_input<V>(
    rt: spec_fn(Op, Seq<V>) -> V,
    val: spec_fn(Tensor) -> V,
    run: LayerRun,
    out: Tensor,
    new_kv: Option<SharedKvOut>,
    results: Seq<Tensor>,
)
    requires
        run.stage is Attention,
        decoder_layer::attended(run, Ok((out, new_kv))) matches LayerStepView::Run { program, .. }
            && meaning::carried_out(rt, val, program, results),
    ensures
        decoder_layer::attended(run, Ok((out, new_kv))) matches LayerStepView::Run { run: after, .. }
            && after.stage == (LayerStage::PostAttention { new_kv }) && after.layer == run.layer
            && after.call == run.call,
        results.len() == 2,
        val(results[1]) == residual(rt, run.layer.layer, val(run.call.x), val(out)),
{
    if let LayerStepView::Run { program, .. } = decoder_layer::attended(run, Ok((out, new_kv))) {
        let regs = meaning::values_of(val, program.inputs + results);
        assert(regs[0] == val(run.call.x) && regs[1] == val(out) && regs[2] == val(results[0]));
        assert(val(results[0]) == rt(
            meaning::bare(program.ops[0]),
            meaning::read(program.ops[0], regs),
        ));
        assert(val(results[1]) == rt(
            meaning::bare(program.ops[1]),
            meaning::read(program.ops[1], regs),
        ));
    }
}

/// The number of inputs of the program behind the attention.
spec fn inputs_of(run: LayerRun) -> int {
    if run.layer.per_layer && run.call.per_layer_input is Some {
        2
    } else {
        1
    }
}

/// The dense network stands behind the norm, four registers on.
proof fn lemma_normed_mlp<V>(
    rt: spec_fn(Op, Seq<V>) -> V,
    val: spec_fn(Tensor) -> V,
    run: LayerRun,
    h: Tensor,
    results: Seq<Tensor>,
)
    requires
        meaning::carried_out(rt, val, decoder_layer::ffn_program(run, h), results),
    ensures
        results.len() > 4,
        val(results[4]) == normed_mlp(rt, run.layer.layer, val(h)),
{
    let p = decoder_layer::ffn_program(run, h);
    let n = inputs_of(run);
    assert(p.inputs.len() == n);
    let regs = meaning::values_of(val, p.inputs + results);
    assert(regs[0] == val(h));
    meaning::lemma_register(rt, val, p, results, 0);
    meaning::lemma_register(rt, val, p, results, 1);
    meaning::lemma_register(rt, val, p, results, 2);
    meaning::lemma_register(rt, val, p, results, 3);
    meaning::lemma_register(rt, val, p, results, 4);
    let layer = run.layer;
    let ops = decoder_layer::normed_mlp_ops(layer, n);
    assert(forall|i: int| 0 <= i < 5 ==> p.ops[i] == #[trigger] ops[i]);
    assert(p.ops[0] == ops[0] && p.ops[1] == ops[1] && p.ops[2] == ops[2] && p.ops[3] == ops[3]
        && p.ops[4] == ops[4]);
}

/// A dense feed-forward half stands six registers behind the inputs.
proof fn lemma_dense<V>(
    rt: spec_fn(Op, Seq<V>) -> V,
    val: spec_fn(Tensor) -> V,
    run: LayerRun,
    h: Tensor,
    results: Seq<Tensor>,
)
    requires
        !run.layer.moe_block,
        meaning::carried_out(rt, val, decoder_layer::ffn_program(run, h), results),
    ensures
        results.len() > 6,
        val(results[6]) == feed_forward(rt, run.layer, h.shape, val(h)),
{
    let p = decoder_layer::ffn_program(run, h);
    let n = inputs_of(run);
    assert(p.inputs.len() == n);
    let regs = meaning::values_of(val, p.inputs + results);
    assert(regs[0] == val(h));
    lemma_normed_mlp(rt, val, run, h, results);
    meaning::lemma_register(rt, val, p, results, 4);
    meaning::lemma_register(rt, val, p, results, 5);
    meaning::lemma_register(rt, val, p, results, 6);
    let ops = decoder_layer::dense_ops(run.layer, n);
    assert(p.ops[5] == ops[5] && p.ops[6] == ops[6]);
}

/// The experts stand twelve registers behind the inputs.
proof fn lemma_experts<V>(
    rt: spec_fn(Op, Seq<V>) -> V,
    val: spec_fn(Tensor) -> V,
    run: LayerRun,
    h: Tensor,
    results: Seq<Tensor>,
)
    requires
        run.layer.moe_block,
        meaning::carried_out(rt, val, decoder_layer::ffn_program(run, h), results),
    ensures
        results.len() > 11,
        val(results[11]) == experts(rt, run.layer.layer, h.shape, val(h)),
{
    let p = decoder_layer::ffn_program(run, h);
    let n = inputs_of(run);
    assert(p.inputs.len() == n);
    let regs = meaning::values_of(val, p.inputs + results);
    assert(regs[0] == val(h));
    meaning::lemma_register(rt, val, p, results, 6);
    meaning::lemma_register(rt, val, p, results, 7);
    meaning::lemma_register(rt, val, p, results, 8);
    meaning::lemma_register(rt, val, p, results, 9);
    meaning::lemma_register(rt, val, p, results, 10);
    meaning::lemma_register(rt, val, p, results, 11);
    let ops = decoder_layer::mixture_ops(run.layer, n, h.shape.d0, h.shape.d1, h.shape.d2);
    assert(p.ops[6] == ops[6] && p.ops[7] == ops[7] && p.ops[8] == ops[8] && p.ops[9] == ops[9]
        && p.ops[10] == ops[10] && p.ops[11] == ops[11]);
}

/// The feed-forward half of a mixture layer stands fifteen registers behind the
/// inputs.
proof fn lemma_mixture<V>(
    rt: spec_fn(Op, Seq<V>) -> V,
    val: spec_fn(Tensor) -> V,
    run: LayerRun,
    h: Tensor,
    results: Seq<Tensor>,
)
    requires
        run.layer.moe_block,
        meaning::carried_out(rt, val, decoder_layer::ffn_program(run, h), results),
    ensures
        results.len() > 15,
        val(results[15]) == feed_forward(rt, run.layer, h.shape, val(h)),
{
    let p = decoder_layer::ffn_program(run, h);
    let n = inputs_of(run);
    assert(p.inputs.len() == n);
    let regs = meaning::values_of(val, p.inputs + results);
    assert(regs[0] == val(h));
    lemma_normed_mlp(rt, val, run, h, results);
    lemma_experts(rt, val, run, h, results);
    meaning::lemma_register(rt, val, p, results, 4);
    meaning::lemma_register(rt, val, p, results, 5);
    meaning::lemma_register(rt, val, p, results, 11);
    meaning::lemma_register(rt, val, p, results, 12);
    meaning::lemma_register(rt, val, p, results, 13);
    meaning::lemma_register(rt, val, p, results, 14);
    meaning::lemma_register(rt, val, p, results, 15);
    let ops = decoder_layer::mixture_ops(run.layer, n, h.shape.d0, h.shape.d1, h.shape.d2);
    assert(p.ops[5] == ops[5] && p.ops[12] == ops[12] && p.ops[13] == ops[13] && p.ops[14]
        == ops[14] && p.ops[15] == ops[15]);
}

/// The program behind the attention comes to what the layer makes of the stream
/// there.
proof fn lemma_behind_attention<V>(
    rt: spec_fn(Op, Seq<V>) -> V,
    val: spec_fn(Tensor) -> V,
    run: LayerRun,
    h: Tensor,
    results: Seq<Tensor>,
)
    requires
        meaning::carried_out(rt, val, decoder_layer::ffn_program(run, h), results),
    ensures
        results.len() > 0,
        val(results.last()) == behind_attention(
            rt,
            run.layer,
            h.shape,
            val(h),
            match run.call.per_layer_input {
                Some(i) => Some(val(i)),
                None => None,
            },
        ),
{
    reveal(behind_attention);
    let p = decoder_layer::ffn_program(run, h);
    let n = inputs_of(run);
    assert(p.inputs.len() == n);
    let regs = meaning::values_of(val, p.inputs + results);
    let f: int = if run.layer.moe_block {
        15
    } else {
        6
    };
    if run.layer.moe_block {
        lemma_mixture(rt, val, run, h, results);
    } else {
        lemma_dense(rt, val, run, h, results);
    }
    meaning::lemma_register(rt, val, p, results, f);
    let gated = decoder_layer::gates(run);
    let more = decoder_layer::tail_ops(run.layer, n + f, gated);
    assert(forall|i: int| 0 <= i < more.len() ==> p.ops[f + 1 + i] == #[trigger] more[i]);
    if gated {
        assert(regs[1] == val(run.call.per_layer_input.unwrap()));
        assert(p.ops[f + 1] == more[0] && p.ops[f + 2] == more[1]);
        meaning::lemma_register(rt, val, p, results, f + 1);
        meaning::lemma_register(rt, val, p, results, f + 2);
        if run.layer.layer_scalar {
            assert(p.ops[f + 3] == more[2]);
            meaning::lemma_register(rt, val, p, results, f + 3);
        }
    } else if run.layer.layer_scalar {
        assert(p.ops[f + 1] == more[0]);
        meaning::lemma_register(rt, val, p, results, f + 1);
    }
}

/// Where the program behind the attention was carried out, the layer ends with
/// what it wrote last.
proof fn lemma_last_register(
    after: LayerRun,
    new_kv: Option<SharedKvOut>,
    first: Seq<Tensor>,
    second: Seq<Tensor>,
)
    requires
        after.stage == (LayerStage::PostAttention { new_kv }),
        first.len() == 2,
        decoder_layer::ran(after, Ok(first)) matches LayerStepView::Run { program, .. }
            && second.len() == program.ops.len(),
    ensures
        decoder_layer::ran(after, Ok(first)) matches LayerStepView::Run { run: last, program }
            && program == decoder_layer::ffn_program(after, first[1]) && decoder_layer::ran(
            last,
            Ok(second),
        ) == LayerStepView::Done(Ok((second.last(), new_kv))),
{
    assert(decoder_layer::ffn_program(after, first[1]).ops.len() >= 7);
    assert(decoder_layer::ffn_program(after, first[1]).ops.len() <= 19);
}

/// Which streams the feed-forward half takes.
proof fn lemma_rows(after: LayerRun, new_kv: Option<SharedKvOut>, first: Seq<Tensor>)
    requires
        after.stage == (LayerStage::PostAttention { new_kv }),
        first.len() == 2,
    ensures
        ({
            let s = first[1].shape;
            let counted = !after.layer.moe_block || (s.rank >= 3 && i32::MIN <= s.d0 * s.d1
                <= i32::MAX);
            match decoder_layer::ran(after, Ok(first)) {
                LayerStepView::Run { .. } => counted,
                LayerStepView::Done(r) => r is Err && !counted,
                LayerStepView::Attention { .. } => false,
            }
        }),
{
}

/// What a layer comes to: from its input `x` and the output `out` of its attention
/// on the normed input, the residual behind the attention, then the feed-forward
/// half, the gated input of the layer itself, and the scalar. What the attention
/// left is left.
pub proof fn law_layer_computes_both_halves<V>(
    rt: spec_fn(Op, Seq<V>) -> V,
    val: spec_fn(Tensor) -> V,
    run: LayerRun,
    out: Tensor,
    new_kv: Option<SharedKvOut>,
    first: Seq<Tensor>,
    second: Seq<Tensor>,
)
    requires
        run.stage is Attention,
        decoder_layer::attended(run, Ok((out, new_kv))) matches LayerStepView::Run { program, .. }
            && meaning::carried_out(rt, val, program, first),
        decoder_layer::attended(run, Ok((out, new_kv))) matches LayerStepView::Run { run: after, .. }
            && (decoder_layer::ran(after, Ok(first)) matches LayerStepView::Run { program, .. }
            ==> meaning::carried_out(rt, val, program, second)),
    ensures
        decoder_layer::attended(run, Ok((out, new_kv))) matches LayerStepView::Run { run: after, .. }
            && match decoder_layer::ran(after, Ok(first)) {
            LayerStepView::Run { run: last, .. } => {
                &&& !run.layer.moe_block || (first[1].shape.rank >= 3 && i32::MIN
                    <= first[1].shape.d0 * first[1].shape.d1 <= i32::MAX)
                &&& decoder_layer::ran(last, Ok(second)) matches LayerStepView::Done(Ok((t, kv)))
                    && kv == new_kv && val(t) == behind_attention(
                    rt,
                    run.layer,
                    first[1].shape,
                    residual(rt, run.layer.layer, val(run.call.x), val(out)),
                    match run.call.per_layer_input {
                        Some(i) => Some(val(i)),
                        None => None,
                    },
                )
            },
            LayerStepView::Done(r) => r is Err && run.layer.moe_block && (first[1].shape.rank < 3
                || !(i32::MIN <= first[1].shape.d0 * first[1].shape.d1 <= i32::MAX)),
            LayerStepView::Attention { .. } => false,
        },
{
    law_attention_is_added_to_its_input(rt, val, run, out, new_kv, first);
    if let LayerStepView::Run { run: after, .. } = decoder_layer::attended(run, Ok((out, new_kv))) {
        lemma_rows(after, new_kv, first);
        if let LayerStepView::Run { program, .. } = decoder_layer::ran(after, Ok(first)) {
            lemma_last_register(after, new_kv, first, second);
            lemma_behind_attention(rt, val, after, first[1], second);
        }
    }
}

/// The dense network, wherever it stands in a program: four operations behind
/// `before` registers, on the rows in one of them.
pub proof fn law_mlp_is_gated<V>(
    rt: spec_fn(Op, Seq<V>) -> V,
    layer: DecoderLayer,
    x: int,
    regs: Seq<V>,
)
    requires
        0 <= x,
        x + 5 <= regs.len(),
        x + 4 <= usize::MAX,
        forall|i: int|
            0 <= i < 4 ==> regs[x + 1 + i] == rt(
                meaning::bare(#[trigger] decoder_layer::mlp_ops(layer, x)[i]),
                meaning::read(decoder_layer::mlp_ops(layer, x)[i], regs),
            ),
    ensures
        decoder_layer::mlp_ops(layer, x).len() == 4,
        regs[x + 4] == mlp(rt, layer.layer, regs[x]),
{
    let ops = decoder_layer::mlp_ops(layer, x);
    assert(regs[x + 1] == rt(meaning::bare(ops[0]), meaning::read(ops[0], regs)));
    assert(regs[x + 2] == rt(meaning::bare(ops[1]), meaning::read(ops[1], regs)));
    assert(regs[x + 3] == rt(meaning::bare(ops[2]), meaning::read(ops[2], regs)));
    assert(regs[x + 4] == rt(meaning::bare(ops[3]), meaning::read(ops[3], regs)));
}

/// A failure of a program or of the attention ends the layer with it, wherever the
/// layer stands.
pub proof fn law_layer_ends_on_failure(run: LayerRun, code: u64, e: Error)
    ensures
        decoder_layer::ran(run, Err(code)) == LayerStepView::Done(Err(Error::Outside(code))),
        decoder_layer::attended(run, Err(e)) == LayerStepView::Done(Err(e)),
{
}

/// The rows of a mixture layer that cannot be told, or cannot be counted, end the
/// layer, and a dense layer does not count them.
pub proof fn law_uncounted_rows_end_a_mixture(
    run: LayerRun,
    new_kv: Option<SharedKvOut>,
    first: Seq<Tensor>,
)
    requires
        run.stage == (LayerStage::PostAttention { new_kv }),
        first.len() == 2,
    ensures
        ({
            let s = first[1].shape;
            let next = decoder_layer::ran(run, Ok(first));
            if !run.layer.moe_block {
                next is Run
            } else if s.rank < 3 {
                next == LayerStepView::Done(Err(Error::Protocol))
            } else if s.d0 * s.d1 < i32::MIN || s.d0 * s.d1 > i32::MAX {
                next == LayerStepView::Done(Err(Error::RowsOverflow { batch: s.d0, seq: s.d1 }))
            } else {
                next is Run
            }
        }),
{
}

} // verus!
