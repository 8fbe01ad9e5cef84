//! A decoder layer: attention and a feed-forward half, each behind a norm and
//! around a residual.
use vstd::prelude::*;

use crate::error::Error;
use crate::gemma4::attention::{AttnCall, Attention};
use crate::gemma4::program::{LayerWeight, Op, Program, ProgramView, Weight};
use crate::gemma4::{attention, program};
use crate::kvcache::request::Toggles;
use crate::kvcache::step::SharedKvOut;
use crate::tensor::{Device, Dims, Tensor};

verus! {

/// What is fixed of a layer.
#[derive(Clone, Copy, PartialEq, Eq, Structural, Debug)]
pub struct DecoderLayer {
    pub layer: usize,
    pub attn: Attention,
    /// Whether experts run beside the dense half.
    pub moe_block: bool,
    /// Whether the layer gates an input of its own.
    pub per_layer: bool,
    pub layer_scalar: bool,
}

/// The inputs of one call.
#[derive(Clone, Copy, PartialEq, Eq, Debug)]
pub struct LayerCall {
    /// `[batch, seq, hidden]`.
    pub x: Tensor,
    pub shared_kv: Option<SharedKvOut>,
    pub per_layer_input: Option<Tensor>,
    pub offset: i32,
    /// The offset of the layer's own cache, where it has one.
    pub cache: Option<i32>,
    pub kv_is_rotating: bool,
    pub device: Device,
    pub toggles: Toggles,
}

/// Where a call stands.
#[derive(Clone, Copy, PartialEq, Eq, Debug)]
pub enum LayerStage {
    /// The normed input.
    Norm,
    /// The attention.
    Attention,
    /// The residual behind the attention.
    PostAttention { new_kv: Option<SharedKvOut> },
    /// The output, at the end of a program.
    Output { last: usize, new_kv: Option<SharedKvOut> },
}

#[derive(Clone, Copy, PartialEq, Eq, Debug)]
pub struct LayerRun {
    pub layer: DecoderLayer,
    pub call: LayerCall,
    pub stage: LayerStage,
}

impl LayerRun {
    /// The same call, waiting elsewhere.
    pub open spec fn at(self, stage: LayerStage) -> LayerRun {
        LayerRun { stage, ..self }
    }
}

/// The next thing that a call does.
#[derive(Debug)]
pub enum LayerStep {
    /// Carry out a program.
    Run { run: LayerRun, program: Program },
    /// Run the attention of the layer.
    Attention { run: LayerRun, call: AttnCall },
    /// The output, and what the layer leaves to others.
    Done(Result<(Tensor, Option<SharedKvOut>), Error>),
}

/// The next thing that a call does, by contents.
pub enum LayerStepView {
    Run { run: LayerRun, program: ProgramView },
    Attention { run: LayerRun, call: AttnCall },
    Done(Result<(Tensor, Option<SharedKvOut>), Error>),
}

impl View for LayerStep {
    type V = LayerStepView;

    open spec fn view(&self) -> LayerStepView {
        match self {
            LayerStep::Run { run, program } => LayerStepView::Run { run: *run, program: program@ },
            LayerStep::Attention { run, call } => LayerStepView::Attention {
                run: *run,
                call: *call,
            },
            LayerStep::Done(result) => LayerStepView::Done(*result),
        }
    }
}

/// A parameter of the layer.
pub open spec fn weight_of(layer: DecoderLayer, which: LayerWeight) -> Weight {
    Weight::Layer { layer: layer.layer, weight: which }
}

fn own_weight(layer: &DecoderLayer, which: LayerWeight) -> (r: Weight)
    ensures
        r == weight_of(*layer, which),
{
    Weight::Layer { layer: layer.layer, weight: which }
}

/// The dense network on the rows in register `x`, its activation in one kernel.
/// Its first operation writes the register behind `x`.
pub open spec fn mlp_ops(layer: DecoderLayer, x: int) -> Seq<Op> {
    seq![
        Op::Linear { weight: weight_of(layer, LayerWeight::GateProj), x: x as usize },
        Op::Linear { weight: weight_of(layer, LayerWeight::UpProj), x: x as usize },
        Op::Geglu { gate: (x + 1) as usize, up: (x + 2) as usize },
        Op::Linear { weight: weight_of(layer, LayerWeight::DownProj), x: (x + 3) as usize },
    ]
}

/// The norm of the rows in register 0, and the dense network on them.
pub open spec fn normed_mlp_ops(layer: DecoderLayer, n: int) -> Seq<Op> {
    seq![Op::Norm { weight: weight_of(layer, LayerWeight::PreFfnNorm), x: 0 }] + mlp_ops(layer, n)
}

/// The feed-forward half of a dense layer, around the residual in register 0.
pub open spec fn dense_ops(layer: DecoderLayer, n: int) -> Seq<Op> {
    normed_mlp_ops(layer, n) + seq![
        Op::Norm { weight: weight_of(layer, LayerWeight::PostFfnNorm), x: (n + 4) as usize },
        Op::Add { a: 0, b: (n + 5) as usize },
    ]
}

/// The feed-forward half of a mixture layer: the dense half and the experts side
/// by side, each normed, then summed and normed. The router sees the rows
/// without a norm; the experts see them behind a norm of their own.
pub open spec fn mixture_ops(
    layer: DecoderLayer,
    n: int,
    batch: i32,
    seq: i32,
    hidden: i32,
) -> Seq<Op> {
    let rows = Dims::D2((batch * seq) as i32, hidden);
    normed_mlp_ops(layer, n) + seq![
        Op::Norm { weight: weight_of(layer, LayerWeight::PostFfnNorm1), x: (n + 4) as usize },
        Op::Reshape { x: 0, dims: rows },
        Op::Route { layer: layer.layer, x: (n + 6) as usize },
        Op::Norm { weight: weight_of(layer, LayerWeight::PreFfnNorm2), x: 0 },
        Op::Reshape { x: (n + 8) as usize, dims: rows },
        Op::Experts { layer: layer.layer, x: (n + 9) as usize, routing: (n + 7) as usize },
        Op::Reshape { x: (n + 10) as usize, dims: Dims::D3(batch, seq, hidden) },
        Op::Norm { weight: weight_of(layer, LayerWeight::PostFfnNorm2), x: (n + 11) as usize },
        Op::Add { a: (n + 5) as usize, b: (n + 12) as usize },
        Op::Norm { weight: weight_of(layer, LayerWeight::PostFfnNorm), x: (n + 13) as usize },
        Op::Add { a: 0, b: (n + 14) as usize },
    ]
}

/// What follows the feed-forward half, whose output is in register `f`: the gating
/// by the input of the layer itself, which is in register 1, and the scalar.
pub open spec fn tail_ops(layer: DecoderLayer, f: int, gated: bool) -> Seq<Op> {
    let gate = if gated {
        seq![
            Op::PerLayerInput { layer: layer.layer, x: f as usize, input: 1 },
            Op::Add { a: f as usize, b: (f + 1) as usize },
        ]
    } else {
        Seq::empty()
    };
    let scalar = if layer.layer_scalar {
        seq![
            Op::LayerScalar {
                layer: layer.layer,
                x: (if gated {
                    f + 2
                } else {
                    f
                }) as usize,
            },
        ]
    } else {
        Seq::empty()
    };
    gate + scalar
}

/// Whether a call gates the layer's own input: the layer has a gate and the call
/// brings an input.
pub open spec fn gates(run: LayerRun) -> bool {
    run.layer.per_layer && run.call.per_layer_input is Some
}

/// The program behind the attention, from the residual stream `h`.
pub open spec fn ffn_program(run: LayerRun, h: Tensor) -> ProgramView {
    let n: int = if gates(run) {
        2
    } else {
        1
    };
    let f: int = if run.layer.moe_block {
        n + 15
    } else {
        n + 6
    };
    ProgramView {
        inputs: if gates(run) {
            seq![h, run.call.per_layer_input.unwrap()]
        } else {
            seq![h]
        },
        ops: (if run.layer.moe_block {
            mixture_ops(run.layer, n, h.shape.d0, h.shape.d1, h.shape.d2)
        } else {
            dense_ops(run.layer, n)
        }) + tail_ops(run.layer, f, gates(run)),
    }
}

/// How a call starts.
pub open spec fn starting(layer: DecoderLayer, call: LayerCall) -> LayerStepView {
    LayerStepView::Run {
        run: LayerRun { layer, call, stage: LayerStage::Norm },
        program: ProgramView {
            inputs: seq![call.x],
            ops: seq![Op::Norm { weight: weight_of(layer, LayerWeight::InputNorm), x: 0 }],
        },
    }
}

/// The attention call of a layer on its normed input.
pub open spec fn attn_call(call: LayerCall, h: Tensor) -> AttnCall {
    AttnCall {
        x: h,
        shared_kv: call.shared_kv,
        offset: call.offset,
        cache: call.cache,
        kv_is_rotating: call.kv_is_rotating,
        device: call.device,
        toggles: call.toggles,
    }
}

/// Behind the attention: its output normed, and added to the input.
pub open spec fn post_attention_program(run: LayerRun, out: Tensor) -> ProgramView {
    ProgramView {
        inputs: seq![run.call.x, out],
        ops: seq![
            Op::Norm { weight: weight_of(run.layer, LayerWeight::PostAttnNorm), x: 1 },
            Op::Add { a: 0, b: 2 },
        ],
    }
}

/// Whether the rows of a mixture layer can be counted.
pub open spec fn rows_counted(run: LayerRun, h: Tensor) -> Result<(), Error> {
    if !run.layer.moe_block {
        Ok(())
    } else if h.shape.rank < 3 {
        Err(Error::Protocol)
    } else if i32::MIN <= h.shape.d0 * h.shape.d1 <= i32::MAX {
        Ok(())
    } else {
        Err(Error::RowsOverflow { batch: h.shape.d0, seq: h.shape.d1 })
    }
}

/// How a call goes on with what a program wrote.
pub open spec fn ran(run: LayerRun, results: Result<Seq<Tensor>, u64>) -> LayerStepView {
    match (run.stage, results) {
        (_, Err(code)) => LayerStepView::Done(Err(Error::Outside(code))),
        (LayerStage::Norm, Ok(r)) if r.len() == 1 => LayerStepView::Attention {
            run: run.at(LayerStage::Attention),
            call: attn_call(run.call, r[0]),
        },
        (LayerStage::PostAttention { new_kv }, Ok(r)) if r.len() == 2 => match rows_counted(
            run,
            r[1],
        ) {
            Err(e) => LayerStepView::Done(Err(e)),
            Ok(_) => LayerStepView::Run {
                run: run.at(
                    LayerStage::Output {
                        last: (ffn_program(run, r[1]).ops.len() - 1) as usize,
                        new_kv,
                    },
                ),
                program: ffn_program(run, r[1]),
            },
        },
        (LayerStage::Output { last, new_kv }, Ok(r)) if r.len() == last + 1 => LayerStepView::Done(
            Ok((r[last as int], new_kv)),
        ),
        _ => LayerStepView::Done(Err(Error::Protocol)),
    }
}

/// How a call goes on with the outcome of its attention.
pub open spec fn attended(
    run: LayerRun,
    outcome: Result<(Tensor, Option<SharedKvOut>), Error>,
) -> LayerStepView {
    match (run.stage, outcome) {
        (_, Err(e)) => LayerStepView::Done(Err(e)),
        (LayerStage::Attention, Ok((out, new_kv))) => LayerStepView::Run {
            run: run.at(LayerStage::PostAttention { new_kv }),
            program: post_attention_program(run, out),
        },
        _ => LayerStepView::Done(Err(Error::Protocol)),
    }
}

fn at(run: &LayerRun, stage: LayerStage) -> (r: LayerRun)
    ensures
        r == run.at(stage),
{
    LayerRun { layer: run.layer, call: run.call, stage }
}

fn fail(e: Error) -> (r: LayerStep)
    ensures
        r@ == LayerStepView::Done(Err(e)),
{
    LayerStep::Done(Err(e))
}

/// Appends the dense network on the rows in register `x`.
pub fn mlp_forward_fused(layer: &DecoderLayer, ops: &mut Vec<Op>, x: usize)
    requires
        x <= usize::MAX - 3,
    ensures
        final(ops)@ == old(ops)@ + mlp_ops(*layer, x as int),
{
    ops.push(Op::Linear { weight: own_weight(layer, LayerWeight::GateProj), x });
    ops.push(Op::Linear { weight: own_weight(layer, LayerWeight::UpProj), x });
    ops.push(Op::Geglu { gate: x + 1, up: x + 2 });
    ops.push(Op::Linear { weight: own_weight(layer, LayerWeight::DownProj), x: x + 3 });
    assert(ops@ =~= old(ops)@ + mlp_ops(*layer, x as int));
}

fn normed_mlp_vec(layer: &DecoderLayer, n: usize) -> (r: Vec<Op>)
    requires
        n <= 2,
    ensures
        r@ == normed_mlp_ops(*layer, n as int),
{
    let mut r: Vec<Op> = vec![
        Op::Norm { weight: own_weight(layer, LayerWeight::PreFfnNorm), x: 0 },
    ];
    mlp_forward_fused(layer, &mut r, n);
    assert(r@ =~= normed_mlp_ops(*layer, n as int));
    r
}

fn dense_vec(layer: &DecoderLayer, n: usize) -> (r: Vec<Op>)
    requires
        n <= 2,
    ensures
        r@ == dense_ops(*layer, n as int),
{
    let mut r: Vec<Op> = normed_mlp_vec(layer, n);
    r.push(Op::Norm { weight: own_weight(layer, LayerWeight::PostFfnNorm), x: n + 4 });
    r.push(Op::Add { a: 0, b: n + 5 });
    assert(r@ =~= dense_ops(*layer, n as int));
    r
}

fn mixture_vec(layer: &DecoderLayer, n: usize, batch: i32, seq: i32, hidden: i32) -> (r: Vec<Op>)
    requires
        n <= 2,
        i32::MIN <= batch * seq <= i32::MAX,
    ensures
        r@ == mixture_ops(*layer, n as int, batch, seq, hidden),
{
    let rows: Dims = Dims::D2(batch * seq, hidden);
    let mut r: Vec<Op> = normed_mlp_vec(layer, n);
    r.push(Op::Norm { weight: own_weight(layer, LayerWeight::PostFfnNorm1), x: n + 4 });
    r.push(Op::Reshape { x: 0, dims: rows });
    r.push(Op::Route { layer: layer.layer, x: n + 6 });
    r.push(Op::Norm { weight: own_weight(layer, LayerWeight::PreFfnNorm2), x: 0 });
    r.push(Op::Reshape { x: n + 8, dims: rows });
    r.push(Op::Experts { layer: layer.layer, x: n + 9, routing: n + 7 });
    r.push(Op::Reshape { x: n + 10, dims: Dims::D3(batch, seq, hidden) });
    r.push(Op::Norm { weight: own_weight(layer, LayerWeight::PostFfnNorm2), x: n + 11 });
    r.push(Op::Add { a: n + 5, b: n + 12 });
    r.push(Op::Norm { weight: own_weight(layer, LayerWeight::PostFfnNorm), x: n + 13 });
    r.push(Op::Add { a: 0, b: n + 14 });
    assert(r@ =~= mixture_ops(*layer, n as int, batch, seq, hidden));
    r
}

fn build_ffn(run: &LayerRun, h: Tensor) -> (r: Program)
    requires
        rows_counted(*run, h) is Ok,
    ensures
        r@ == ffn_program(*run, h),
        r.ops@.len() > 0,
{
    let layer: DecoderLayer = run.layer;
    let mut inputs: Vec<Tensor> = vec![h];
    let mut gated: bool = false;
    if layer.per_layer {
        if let Some(input) = run.call.per_layer_input {
            inputs.push(input);
            gated = true;
        }
    }
    let n: usize = inputs.len();
    let mut ops: Vec<Op> = if layer.moe_block {
        mixture_vec(&layer, n, h.shape.d0, h.shape.d1, h.shape.d2)
    } else {
        dense_vec(&layer, n)
    };
    let ghost front = ops@;
    let mut f: usize = if layer.moe_block {
        n + 15
    } else {
        n + 6
    };
    let ghost base = f as int;
    if gated {
        ops.push(Op::PerLayerInput { layer: layer.layer, x: f, input: 1 });
        ops.push(Op::Add { a: f, b: f + 1 });
        f = f + 2;
    }
    if layer.layer_scalar {
        ops.push(Op::LayerScalar { layer: layer.layer, x: f });
    }
    let r: Program = Program { inputs, ops };
    proof {
        assert(gated == gates(*run));
        assert(r@.ops =~= front + tail_ops(layer, base, gated));
        assert(r@ =~= ffn_program(*run, h));
    }
    r
}

impl DecoderLayer {
    /// Starts the layer.
    pub fn forward(self, call: LayerCall) -> (r: LayerStep)
        ensures
            r@ == starting(self, call),
    {
        let program: Program = Program {
            inputs: vec![call.x],
            ops: vec![Op::Norm { weight: own_weight(&self, LayerWeight::InputNorm), x: 0 }],
        };
        proof {
            assert(program.inputs@ =~= seq![call.x]);
            assert(program.ops@ =~= seq![
                Op::Norm { weight: weight_of(self, LayerWeight::InputNorm), x: 0 },
            ]);
        }
        LayerStep::Run { run: LayerRun { layer: self, call, stage: LayerStage::Norm }, program }
    }
}

impl LayerRun {
    /// Goes on with what the program of the last step wrote.
    pub fn resume_run(self, results: Result<Vec<Tensor>, u64>) -> (r: LayerStep)
        ensures
            r@ == ran(self, attention::results_view(results)),
    {
        let regs: Vec<Tensor> = match results {
            Ok(regs) => regs,
            Err(code) => return fail(Error::Outside(code)),
        };
        match self.stage {
            LayerStage::Norm => if regs.len() == 1 {
                LayerStep::Attention {
                    run: at(&self, LayerStage::Attention),
                    call: AttnCall {
                        x: regs[0],
                        shared_kv: self.call.shared_kv,
                        offset: self.call.offset,
                        cache: self.call.cache,
                        kv_is_rotating: self.call.kv_is_rotating,
                        device: self.call.device,
                        toggles: self.call.toggles,
                    },
                }
            } else {
                fail(Error::Protocol)
            },
            LayerStage::PostAttention { new_kv } => {
                if regs.len() != 2 {
                    return fail(Error::Protocol);
                }
                let h: Tensor = regs[1];
                if self.layer.moe_block {
                    if h.shape.rank < 3 {
                        return fail(Error::Protocol);
                    }
                    if h.shape.d0.checked_mul(h.shape.d1).is_none() {
                        return fail(Error::RowsOverflow { batch: h.shape.d0, seq: h.shape.d1 });
                    }
                }
                let program: Program = build_ffn(&self, h);
                let last: usize = program.ops.len() - 1;
                LayerStep::Run { run: at(&self, LayerStage::Output { last, new_kv }), program }
            },
            LayerStage::Output { last, new_kv } => if last < regs.len() && regs.len() - last == 1 {
                LayerStep::Done(Ok((regs[last], new_kv)))
            } else {
                fail(Error::Protocol)
            },
            LayerStage::Attention => fail(Error::Protocol),
        }
    }

    /// Goes on with the outcome of the attention.
    pub fn resume_attention(
        self,
        outcome: Result<(Tensor, Option<SharedKvOut>), Error>,
    ) -> (r: LayerStep)
        ensures
            r@ == attended(self, outcome),
    {
        match (self.stage, outcome) {
            (_, Err(e)) => fail(e),
            (LayerStage::Attention, Ok((out, new_kv))) => {
                let program: Program = Program {
                    inputs: vec![self.call.x, out],
                    ops: vec![
                        Op::Norm { weight: own_weight(&self.layer, LayerWeight::PostAttnNorm), x: 1 },
                        Op::Add { a: 0, b: 2 },
                    ],
                };
                assert(program@ =~= post_attention_program(self, out));
                LayerStep::Run { run: at(&self, LayerStage::PostAttention { new_kv }), program }
            },
            _ => fail(Error::Protocol),
        }
    }
}

/// Every program of a layer reads only what was written before.
pub proof fn law_programs_are_well_formed(run: LayerRun, h: Tensor, out: Tensor)
    ensures
        program::well_formed(ffn_program(run, h)),
        program::well_formed(post_attention_program(run, out)),
        starting(run.layer, run.call) matches LayerStepView::Run { program, .. }
            && program::well_formed(program),
{
}

/// What the attention of a layer leaves to others is what the layer leaves.
pub proof fn law_layer_leaves_what_its_attention_left(
    run: LayerRun,
    out: Tensor,
    new_kv: Option<SharedKvOut>,
    post: Seq<Tensor>,
    last: Seq<Tensor>,
)
    requires
        run.stage is Attention,
    ensures
        attended(run, Ok((out, new_kv))) matches LayerStepView::Run { run: r1, .. } && (ran(
            r1,
            Ok(post),
        ) matches LayerStepView::Run { run: r2, .. } ==> (ran(r2, Ok(last))
            matches LayerStepView::Done(Ok((_, left))) ==> left == new_kv)),
{
}

} // verus!
