//! The attention of a decoder layer.
//!
//! A layer either projects K and V of its own, which it appends to its cache and
//! leaves to the layers that share them, or attends what another layer left.
use vstd::prelude::*;

use crate::error::{Error, LayerType};
use crate::gemma4::mask;
use crate::gemma4::mask::{
    build_attn_mask, consumer_effective_offset, producer_effective_offset, MaskPlan,
};
use crate::gemma4::program::{LayerWeight, Op, Program, ProgramView, Weight, UNIT_SCALE};
use crate::kvcache::quant::MixedParams;
use crate::kvcache::request::{Call, Toggles};
use crate::kvcache::step::{Attended, Shared, SharedKvOut};
use crate::tensor::{Device, Dims, MaskMode, Tensor};

verus! {

/// What is fixed of the attention of a layer.
#[derive(Clone, Copy, PartialEq, Eq, Structural, Debug)]
pub struct Attention {
    pub layer: usize,
    pub n_heads: usize,
    pub n_kv_heads: usize,
    pub head_dim: usize,
    pub layer_type: LayerType,
    /// Width of the window of a sliding layer, in positions.
    pub sliding_window: usize,
    /// How many elements of a head a sliding layer rotates.
    pub rope_dims: i32,
    /// Base of the rotation of a sliding layer, by bit pattern.
    pub rope_theta: u32,
    pub has_k_proj: bool,
    pub has_v_proj: bool,
}

impl Attention {
    /// The heads together can be counted.
    pub open spec fn valid(self) -> bool {
        self.n_heads * self.head_dim <= usize::MAX
    }
}

/// The inputs of one call.
#[derive(Clone, Copy, PartialEq, Eq, Debug)]
pub struct AttnCall {
    /// `[batch, seq, hidden]`.
    pub x: Tensor,
    /// What another layer left, where this one shares it.
    pub shared_kv: Option<SharedKvOut>,
    /// Position of the first query.
    pub offset: i32,
    /// The offset of the layer's own cache, where it has one.
    pub cache: Option<i32>,
    /// Whether the K attended comes out of a ring.
    pub kv_is_rotating: bool,
    pub device: Device,
    pub toggles: Toggles,
}

impl AttnCall {
    /// The input has a batch and a sequence axis.
    pub open spec fn valid(self) -> bool {
        self.x.shape.rank >= 2 && self.x.shape.d1 >= 0
    }
}

/// Where a call stands: what it waits for, with what it keeps for afterwards.
#[derive(Clone, Copy, PartialEq, Eq, Debug)]
pub enum AttnStage {
    /// The queries, before their norm.
    Query,
    /// The queries of a layer that shares K and V.
    SharedQuery { shared: SharedKvOut },
    /// Queries, K and V of a layer of its own.
    Project,
    /// The mask of a step on the layer's own cache.
    CacheMask { q: Tensor, k: Tensor, v: Tensor, producer_offset: i32 },
    /// A step on the layer's own cache.
    Cached { mask: Option<Tensor>, producer_offset: i32 },
    /// The mask of attention without a cache.
    PlainMask { q: Tensor, k: Tensor, v: Tensor, own: bool },
    /// The output of the layer, at the end of a program.
    Output { last: usize, new_kv: Option<SharedKvOut> },
}

#[derive(Clone, Copy, PartialEq, Eq, Debug)]
pub struct AttnRun {
    pub attn: Attention,
    pub call: AttnCall,
    pub stage: AttnStage,
}

impl AttnRun {
    /// The same call, waiting elsewhere.
    pub open spec fn at(self, stage: AttnStage) -> AttnRun {
        AttnRun { stage, ..self }
    }

    /// The layer and its input are valid, and the window of a ring can be counted.
    pub open spec fn valid(self) -> bool {
        &&& self.attn.valid()
        &&& self.call.valid()
        &&& self.call.kv_is_rotating ==> (self.attn.sliding_window as i32) > i32::MIN
    }
}

/// The next thing that a call does.
#[derive(Debug)]
pub enum AttnStep {
    /// Carry out a program.
    Run { run: AttnRun, program: Program },
    /// Build a mask.
    Mask { run: AttnRun, plan: MaskPlan },
    /// Take a step on the layer's own cache that returns what it shares.
    Cached { run: AttnRun, call: Call },
    /// The output, and what the layer leaves to others.
    Done(Result<(Tensor, Option<SharedKvOut>), Error>),
}

/// The next thing that a call does, by contents.
pub enum AttnStepView {
    Run { run: AttnRun, program: ProgramView },
    Mask { run: AttnRun, plan: MaskPlan },
    Cached { run: AttnRun, call: Call },
    Done(Result<(Tensor, Option<SharedKvOut>), Error>),
}

impl View for AttnStep {
    type V = AttnStepView;

    open spec fn view(&self) -> AttnStepView {
        match self {
            AttnStep::Run { run, program } => AttnStepView::Run { run: *run, program: program@ },
            AttnStep::Mask { run, plan } => AttnStepView::Mask { run: *run, plan: *plan },
            AttnStep::Cached { run, call } => AttnStepView::Cached { run: *run, call: *call },
            AttnStep::Done(result) => AttnStepView::Done(*result),
        }
    }
}

/// A parameter of the layer.
pub open spec fn weight_of(attn: Attention, which: LayerWeight) -> Weight {
    Weight::Layer { layer: attn.layer, weight: which }
}

fn own_weight(attn: &Attention, which: LayerWeight) -> (r: Weight)
    ensures
        r == weight_of(*attn, which),
{
    Weight::Layer { layer: attn.layer, weight: which }
}

/// The rotation of queries or keys: over the rotated part of the head in a
/// sliding layer, by the frequency table over the whole head in a full one.
pub open spec fn rotation(attn: Attention, offset: i32, x: usize) -> Op {
    match attn.layer_type {
        LayerType::SlidingAttention => Op::Rope {
            x,
            dims: attn.rope_dims,
            theta: attn.rope_theta,
            offset,
        },
        LayerType::FullAttention => Op::RopeFreqs {
            x,
            layer: attn.layer,
            dims: attn.head_dim as i32,
            offset,
        },
    }
}

fn rotate(attn: &Attention, offset: i32, x: usize) -> (r: Op)
    ensures
        r == rotation(*attn, offset, x),
{
    match attn.layer_type {
        LayerType::SlidingAttention => Op::Rope {
            x,
            dims: attn.rope_dims,
            theta: attn.rope_theta,
            offset,
        },
        LayerType::FullAttention => Op::RopeFreqs {
            x,
            layer: attn.layer,
            dims: attn.head_dim as i32,
            offset,
        },
    }
}

/// Rows split into heads.
pub open spec fn heads(call: AttnCall, n: usize, attn: Attention) -> Dims {
    Dims::D4(call.x.shape.d0, call.x.shape.d1, n as i32, attn.head_dim as i32)
}

/// The queries: projected and split into heads.
pub open spec fn query_program(attn: Attention, call: AttnCall) -> ProgramView {
    ProgramView {
        inputs: seq![call.x],
        ops: seq![
            Op::Linear { weight: weight_of(attn, LayerWeight::QProj), x: 0 },
            Op::Reshape { x: 1, dims: heads(call, attn.n_heads, attn) },
        ],
    }
}

/// The queries of a layer that shares K and V: normed alone, then rotated.
pub open spec fn shared_query_program(attn: Attention, call: AttnCall, q: Tensor) -> ProgramView {
    ProgramView {
        inputs: seq![q],
        ops: seq![
            Op::Norm { weight: weight_of(attn, LayerWeight::QNorm), x: 0 },
            Op::SwapMiddle { x: 1 },
            rotation(attn, call.offset, 2),
        ],
    }
}

/// Queries, K and V of a layer of its own: queries and keys normed together and
/// rotated, V normed.
pub open spec fn project_program(attn: Attention, call: AttnCall, q: Tensor) -> ProgramView {
    ProgramView {
        inputs: seq![call.x, q],
        ops: seq![
            Op::Linear { weight: weight_of(attn, LayerWeight::KProj), x: 0 },
            Op::Reshape { x: 2, dims: heads(call, attn.n_kv_heads, attn) },
            Op::QkNormQ { layer: attn.layer, q: 1, k: 3 },
            Op::QkNormK { layer: attn.layer, q: 1, k: 3 },
            Op::SwapMiddle { x: 4 },
            rotation(attn, call.offset, 6),
            Op::SwapMiddle { x: 5 },
            rotation(attn, call.offset, 8),
            Op::Linear { weight: weight_of(attn, LayerWeight::VProj), x: 0 },
            Op::Reshape { x: 10, dims: heads(call, attn.n_kv_heads, attn) },
            Op::Norm { weight: weight_of(attn, LayerWeight::VNorm), x: 11 },
            Op::SwapMiddle { x: 12 },
        ],
    }
}

/// From the heads of an attention output back to rows, and projected.
pub open spec fn output_ops(attn: Attention, call: AttnCall, x: int) -> Seq<Op> {
    seq![
        Op::SwapMiddle { x: x as usize },
        Op::Reshape {
            x: (x + 1) as usize,
            dims: Dims::D3(
                call.x.shape.d0,
                call.x.shape.d1,
                (attn.n_heads * attn.head_dim) as i32,
            ),
        },
        Op::Linear { weight: weight_of(attn, LayerWeight::OProj), x: (x + 2) as usize },
    ]
}

/// The output over an attention output that is in hand.
pub open spec fn output_program(attn: Attention, call: AttnCall, out: Tensor) -> ProgramView {
    ProgramView { inputs: seq![out], ops: output_ops(attn, call, 0) }
}

/// The output over plain K and V.
pub open spec fn plain_program(
    attn: Attention,
    call: AttnCall,
    q: Tensor,
    k: Tensor,
    v: Tensor,
    mode: MaskMode,
    built: Option<Tensor>,
) -> ProgramView {
    match built {
        Some(m) => ProgramView {
            inputs: seq![q, k, v, m],
            ops: seq![
                Op::Sdpa { q: 0, k: 1, v: 2, scale: UNIT_SCALE, mode, mask: Some(3) },
            ] + output_ops(attn, call, 4),
        },
        None => ProgramView {
            inputs: seq![q, k, v],
            ops: seq![
                Op::Sdpa { q: 0, k: 1, v: 2, scale: UNIT_SCALE, mode, mask: None },
            ] + output_ops(attn, call, 3),
        },
    }
}

/// The output over the affine tuples that another layer left. A single query
/// attends all of them.
pub open spec fn tuples_program(
    attn: Attention,
    call: AttnCall,
    q: Tensor,
    op: Op,
) -> ProgramView {
    ProgramView { inputs: seq![q], ops: seq![op] + output_ops(attn, call, 1) }
}

fn output_vec(attn: &Attention, call: &AttnCall, x: usize) -> (r: Vec<Op>)
    requires
        attn.valid(),
        x <= 4,
    ensures
        r@ == output_ops(*attn, *call, x as int),
{
    let r: Vec<Op> = vec![
        Op::SwapMiddle { x },
        Op::Reshape {
            x: x + 1,
            dims: Dims::D3(
                call.x.shape.d0,
                call.x.shape.d1,
                (attn.n_heads * attn.head_dim) as i32,
            ),
        },
        Op::Linear { weight: own_weight(attn, LayerWeight::OProj), x: x + 2 },
    ];
    assert(r@ =~= output_ops(*attn, *call, x as int));
    r
}

/// Puts an operation in front of others.
fn prepend(op: Op, rest: Vec<Op>) -> (r: Vec<Op>)
    ensures
        r@ == seq![op] + rest@,
{
    let mut r: Vec<Op> = rest;
    r.insert(0, op);
    assert(r@ =~= seq![op] + rest@);
    r
}

/// How a call starts.
pub open spec fn starting(attn: Attention, call: AttnCall) -> AttnStepView {
    AttnStepView::Run {
        run: AttnRun { attn, call, stage: AttnStage::Query },
        program: query_program(attn, call),
    }
}

/// Attention over plain K and V of `total_kv_len` keys, behind
/// `effective_offset` of which the queries stand. The mask comes first where one
/// is built.
pub open spec fn attending(
    run: AttnRun,
    q: Tensor,
    k: Tensor,
    v: Tensor,
    plan: MaskPlan,
    own: bool,
) -> AttnStepView {
    if plan.is_array() {
        AttnStepView::Mask { run: run.at(AttnStage::PlainMask { q, k, v, own }), plan }
    } else {
        plain(run, q, k, v, plan.spec_mode(), None, own)
    }
}

/// What a layer leaves to others out of K and V of its own.
pub open spec fn left(own: bool, k: Tensor, v: Tensor) -> Option<SharedKvOut> {
    if own {
        Some(SharedKvOut::Bf16(k, v))
    } else {
        None
    }
}

/// The program over plain K and V, and what the layer leaves.
pub open spec fn plain(
    run: AttnRun,
    q: Tensor,
    k: Tensor,
    v: Tensor,
    mode: MaskMode,
    built: Option<Tensor>,
    own: bool,
) -> AttnStepView {
    AttnStepView::Run {
        run: run.at(AttnStage::Output { last: 3, new_kv: left(own, k, v) }),
        program: plain_program(run.attn, run.call, q, k, v, mode, built),
    }
}

/// A layer that shares K and V, once its queries are ready. Shared K decides how
/// many keys are attended, whatever the position of the queries. Affine tuples
/// are shared among single queries only.
pub open spec fn with_shared(run: AttnRun, shared: SharedKvOut, q: Tensor) -> AttnStepView {
    let seq = run.call.x.shape.d1;
    match shared {
        SharedKvOut::Bf16(k, v) => match k.shape.at(2) {
            None => AttnStepView::Done(Err(Error::NoStepAxis { shape: k.shape })),
            Some(total_kv_len) => if total_kv_len < seq {
                AttnStepView::Done(
                    Err(
                        Error::SharedKTooShort {
                            total_kv_len,
                            seq,
                            layer: run.attn.layer_type,
                            offset: run.call.offset,
                        },
                    ),
                )
            } else {
                attending(
                    run,
                    q,
                    k,
                    v,
                    mask::attn_mask(
                        run.attn.layer_type,
                        seq,
                        (total_kv_len - seq) as i32,
                        total_kv_len,
                        run.call.kv_is_rotating,
                        run.attn.sliding_window,
                    ),
                    false,
                )
            },
        },
        SharedKvOut::MixedQuant {
            k,
            v,
            k_rotation,
            k_bits,
            v_bits,
            k_group_size,
            v_group_size,
        } => if seq != 1 {
            AttnStepView::Done(Err(Error::QuantShareNotDecode { seq }))
        } else {
            AttnStepView::Run {
                run: run.at(AttnStage::Output { last: 3, new_kv: None }),
                program: tuples_program(
                    run.attn,
                    run.call,
                    q,
                    Op::MixedSdpa {
                        q: 0,
                        k,
                        v,
                        scale: UNIT_SCALE,
                        params: MixedParams { k_bits, v_bits, k_group_size, v_group_size },
                        rotation: k_rotation,
                    },
                ),
            }
        },
    }
}

/// How many keys precede the queries of a layer of its own, by the offset of its
/// cache where it has one; and how many are attended.
pub open spec fn own_keys(run: AttnRun) -> Result<(i32, i32), Error> {
    let base = match run.call.cache {
        Some(producer_offset) => producer_offset,
        None => run.call.offset,
    };
    let before = mask::keys_before(base, run.call.kv_is_rotating, run.attn.sliding_window);
    let seq = run.call.x.shape.d1;
    if before + seq <= i32::MAX {
        Ok((before as i32, (before + seq) as i32))
    } else {
        Err(Error::OffsetOverflow { offset: before as i32, new_seq: seq })
    }
}

/// A step on the layer's own cache.
pub open spec fn stepping(
    run: AttnRun,
    q: Tensor,
    k: Tensor,
    v: Tensor,
    producer_offset: i32,
    mode: MaskMode,
    built: Option<Tensor>,
) -> AttnStepView {
    AttnStepView::Cached {
        run: run.at(AttnStage::Cached { mask: built, producer_offset }),
        call: Call {
            queries: q,
            new_k: k,
            new_v: v,
            scale: UNIT_SCALE,
            mask_mode: mode,
            mask: match built {
                Some(m) => Some(m.id),
                None => None,
            },
            device: run.call.device,
            toggles: run.call.toggles,
        },
    }
}

/// A layer of its own, once queries, K and V are ready. The mask is sized from
/// the offset of the layer's own cache: that is the K that the step attends.
pub open spec fn with_own(run: AttnRun, q: Tensor, k: Tensor, v: Tensor) -> AttnStepView {
    match own_keys(run) {
        Err(e) => AttnStepView::Done(Err(e)),
        Ok((before, total)) => {
            let plan = mask::attn_mask(
                run.attn.layer_type,
                run.call.x.shape.d1,
                before,
                total,
                run.call.kv_is_rotating,
                run.attn.sliding_window,
            );
            match run.call.cache {
                None => attending(run, q, k, v, plan, true),
                Some(producer_offset) => if plan.is_array() {
                    AttnStepView::Mask {
                        run: run.at(AttnStage::CacheMask { q, k, v, producer_offset }),
                        plan,
                    }
                } else {
                    stepping(run, q, k, v, producer_offset, plan.spec_mode(), None)
                },
            }
        },
    }
}

/// After the queries: a layer that shares goes on with them, one of its own
/// needs both projections.
pub open spec fn after_query(run: AttnRun, q: Tensor) -> AttnStepView {
    match run.call.shared_kv {
        Some(shared) => AttnStepView::Run {
            run: run.at(AttnStage::SharedQuery { shared }),
            program: shared_query_program(run.attn, run.call, q),
        },
        None => if !run.attn.has_k_proj {
            AttnStepView::Done(Err(Error::NoSharedKv))
        } else if !run.attn.has_v_proj {
            AttnStepView::Done(Err(Error::NoValueProjection))
        } else {
            AttnStepView::Run {
                run: run.at(AttnStage::Project),
                program: project_program(run.attn, run.call, q),
            }
        },
    }
}

/// How a call goes on with what a program wrote.
pub open spec fn ran(run: AttnRun, results: Result<Seq<Tensor>, u64>) -> AttnStepView {
    match (run.stage, results) {
        (_, Err(code)) => AttnStepView::Done(Err(Error::Outside(code))),
        (AttnStage::Query, Ok(r)) if r.len() == 2 => after_query(run, r[1]),
        (AttnStage::SharedQuery { shared }, Ok(r)) if r.len() == 3 => with_shared(
            run,
            shared,
            r[2],
        ),
        (AttnStage::Project, Ok(r)) if r.len() == 12 => with_own(run, r[5], r[7], r[11]),
        (AttnStage::Output { last, new_kv }, Ok(r)) if r.len() == last + 1 => AttnStepView::Done(
            Ok((r[last as int], new_kv)),
        ),
        _ => AttnStepView::Done(Err(Error::Protocol)),
    }
}

/// How a call goes on with a mask. A mask over shared K must span it.
pub open spec fn masked(run: AttnRun, built: Result<Tensor, u64>) -> AttnStepView {
    match (run.stage, built) {
        (_, Err(code)) => AttnStepView::Done(Err(Error::Outside(code))),
        (AttnStage::CacheMask { q, k, v, producer_offset }, Ok(m)) => stepping(
            run,
            q,
            k,
            v,
            producer_offset,
            MaskMode::Array,
            Some(m),
        ),
        (AttnStage::PlainMask { q, k, v, own }, Ok(m)) => if own {
            plain(run, q, k, v, MaskMode::Array, Some(m), own)
        } else {
            match (m.shape.at(3), k.shape.at(2)) {
                (Some(mask_kv), Some(total_kv_len)) => if mask_kv == total_kv_len {
                    plain(run, q, k, v, MaskMode::Array, Some(m), own)
                } else {
                    AttnStepView::Done(
                        Err(
                            Error::ConsumerMaskWidth {
                                mask_kv,
                                total_kv_len,
                                layer: run.attn.layer_type,
                                seq: run.call.x.shape.d1,
                                offset: run.call.offset,
                            },
                        ),
                    )
                },
                _ => AttnStepView::Done(Err(Error::Protocol)),
            }
        },
        _ => AttnStepView::Done(Err(Error::Protocol)),
    }
}

/// Whether the mask of a step on the layer's own cache spanned the K that the
/// step attended, as far as the step left that K.
pub open spec fn width_checked(
    run: AttnRun,
    built: Option<Tensor>,
    producer_offset: i32,
    shared: SharedKvOut,
) -> Result<(), Error> {
    match (built, shared) {
        (Some(m), SharedKvOut::Bf16(k_full, _)) => match (m.shape.at(3), k_full.shape.at(2)) {
            (Some(mask_kv), Some(k_seq)) => if mask_kv == k_seq {
                Ok(())
            } else {
                Err(
                    Error::ProducerMaskWidth {
                        mask_kv,
                        k_seq,
                        layer: run.attn.layer_type,
                        seq: run.call.x.shape.d1,
                        producer_offset,
                    },
                )
            },
            _ => Err(Error::Protocol),
        },
        _ => Ok(()),
    }
}

/// How a call goes on with the outcome of the step on its cache.
pub open spec fn stepped(run: AttnRun, outcome: Result<Attended, Error>) -> AttnStepView {
    match (run.stage, outcome) {
        (_, Err(e)) => AttnStepView::Done(Err(e)),
        (
            AttnStage::Cached { mask: built, producer_offset },
            Ok(Attended { out, shared: Shared::Out(shared) }),
        ) => match width_checked(run, built, producer_offset, shared) {
            Err(e) => AttnStepView::Done(Err(e)),
            Ok(_) => AttnStepView::Run {
                run: run.at(AttnStage::Output { last: 2, new_kv: Some(shared) }),
                program: output_program(run.attn, run.call, out),
            },
        },
        _ => AttnStepView::Done(Err(Error::Protocol)),
    }
}

fn at(run: &AttnRun, stage: AttnStage) -> (r: AttnRun)
    ensures
        r == run.at(stage),
{
    AttnRun { attn: run.attn, call: run.call, stage }
}

fn fail(e: Error) -> (r: AttnStep)
    ensures
        r@ == AttnStepView::Done(Err(e)),
{
    AttnStep::Done(Err(e))
}

fn run_plain(
    run: &AttnRun,
    q: Tensor,
    k: Tensor,
    v: Tensor,
    mode: MaskMode,
    built: Option<Tensor>,
    own: bool,
) -> (r: AttnStep)
    requires
        run.valid(),
    ensures
        r@ == plain(*run, q, k, v, mode, built, own),
{
    let program: Program = match built {
        Some(m) => Program {
            inputs: vec![q, k, v, m],
            ops: prepend(
                Op::Sdpa { q: 0, k: 1, v: 2, scale: UNIT_SCALE, mode, mask: Some(3) },
                output_vec(&run.attn, &run.call, 4),
            ),
        },
        None => Program {
            inputs: vec![q, k, v],
            ops: prepend(
                Op::Sdpa { q: 0, k: 1, v: 2, scale: UNIT_SCALE, mode, mask: None },
                output_vec(&run.attn, &run.call, 3),
            ),
        },
    };
    assert(program@ =~= plain_program(run.attn, run.call, q, k, v, mode, built));
    let new_kv: Option<SharedKvOut> = if own {
        Some(SharedKvOut::Bf16(k, v))
    } else {
        None
    };
    AttnStep::Run { run: at(run, AttnStage::Output { last: 3, new_kv }), program }
}

fn attend(run: &AttnRun, q: Tensor, k: Tensor, v: Tensor, plan: MaskPlan, own: bool) -> (r: AttnStep)
    requires
        run.valid(),
    ensures
        r@ == attending(*run, q, k, v, plan, own),
{
    if plan.builds() {
        AttnStep::Mask { run: at(run, AttnStage::PlainMask { q, k, v, own }), plan }
    } else {
        run_plain(run, q, k, v, plan.mode(), None, own)
    }
}

fn go_shared(run: &AttnRun, shared: SharedKvOut, q: Tensor) -> (r: AttnStep)
    requires
        run.valid(),
    ensures
        r@ == with_shared(*run, shared, q),
{
    let seq: i32 = run.call.x.shape.d1;
    match shared {
        SharedKvOut::Bf16(k, v) => {
            let total_kv_len: i32 = match k.shape.dim(2) {
                Some(d) => d,
                None => return fail(Error::NoStepAxis { shape: k.shape }),
            };
            if total_kv_len < seq {
                return fail(
                    Error::SharedKTooShort {
                        total_kv_len,
                        seq,
                        layer: run.attn.layer_type,
                        offset: run.call.offset,
                    },
                );
            }
            let effective_offset: i32 = consumer_effective_offset(total_kv_len, seq);
            let plan: MaskPlan = build_attn_mask(
                run.attn.layer_type,
                seq,
                effective_offset,
                total_kv_len,
                run.call.kv_is_rotating,
                run.attn.sliding_window,
            );
            attend(run, q, k, v, plan, false)
        },
        SharedKvOut::MixedQuant {
            k,
            v,
            k_rotation,
            k_bits,
            v_bits,
            k_group_size,
            v_group_size,
        } => {
            if seq != 1 {
                return fail(Error::QuantShareNotDecode { seq });
            }
            let op: Op = Op::MixedSdpa {
                q: 0,
                k,
                v,
                scale: UNIT_SCALE,
                params: MixedParams { k_bits, v_bits, k_group_size, v_group_size },
                rotation: k_rotation,
            };
            let program: Program = Program {
                inputs: vec![q],
                ops: prepend(op, output_vec(&run.attn, &run.call, 1)),
            };
            assert(program@ =~= tuples_program(run.attn, run.call, q, op));
            AttnStep::Run {
                run: at(run, AttnStage::Output { last: 3, new_kv: None }),
                program,
            }
        },
    }
}

fn step_cache(
    run: &AttnRun,
    q: Tensor,
    k: Tensor,
    v: Tensor,
    producer_offset: i32,
    mode: MaskMode,
    built: Option<Tensor>,
) -> (r: AttnStep)
    ensures
        r@ == stepping(*run, q, k, v, producer_offset, mode, built),
{
    let mask: Option<u64> = match built {
        Some(m) => Some(m.id),
        None => None,
    };
    AttnStep::Cached {
        run: at(run, AttnStage::Cached { mask: built, producer_offset }),
        call: Call {
            queries: q,
            new_k: k,
            new_v: v,
            scale: UNIT_SCALE,
            mask_mode: mode,
            mask,
            device: run.call.device,
            toggles: run.call.toggles,
        },
    }
}

fn go_own(run: &AttnRun, q: Tensor, k: Tensor, v: Tensor) -> (r: AttnStep)
    requires
        run.valid(),
    ensures
        r@ == with_own(*run, q, k, v),
{
    let seq: i32 = run.call.x.shape.d1;
    let base: i32 = match run.call.cache {
        Some(producer_offset) => producer_offset,
        None => run.call.offset,
    };
    let before: i32 = producer_effective_offset(
        base,
        run.call.kv_is_rotating,
        run.attn.sliding_window,
    );
    let total: i32 = match before.checked_add(seq) {
        Some(total) => total,
        None => return fail(Error::OffsetOverflow { offset: before, new_seq: seq }),
    };
    let plan: MaskPlan = build_attn_mask(
        run.attn.layer_type,
        seq,
        before,
        total,
        run.call.kv_is_rotating,
        run.attn.sliding_window,
    );
    match run.call.cache {
        None => attend(run, q, k, v, plan, true),
        Some(producer_offset) => if plan.builds() {
            AttnStep::Mask {
                run: at(run, AttnStage::CacheMask { q, k, v, producer_offset }),
                plan,
            }
        } else {
            step_cache(run, q, k, v, producer_offset, plan.mode(), None)
        },
    }
}

fn follow_query(run: &AttnRun, q: Tensor) -> (r: AttnStep)
    ensures
        r@ == after_query(*run, q),
{
    let attn: Attention = run.attn;
    let call: AttnCall = run.call;
    match call.shared_kv {
        Some(shared) => {
            let program: Program = Program {
                inputs: vec![q],
                ops: vec![
                    Op::Norm { weight: own_weight(&attn, LayerWeight::QNorm), x: 0 },
                    Op::SwapMiddle { x: 1 },
                    rotate(&attn, call.offset, 2),
                ],
            };
            assert(program@ =~= shared_query_program(attn, call, q));
            AttnStep::Run { run: at(run, AttnStage::SharedQuery { shared }), program }
        },
        None => {
            if !attn.has_k_proj {
                return fail(Error::NoSharedKv);
            }
            if !attn.has_v_proj {
                return fail(Error::NoValueProjection);
            }
            let kv_heads: Dims = Dims::D4(
                call.x.shape.d0,
                call.x.shape.d1,
                attn.n_kv_heads as i32,
                attn.head_dim as i32,
            );
            let program: Program = Program {
                inputs: vec![call.x, q],
                ops: vec![
                    Op::Linear { weight: own_weight(&attn, LayerWeight::KProj), x: 0 },
                    Op::Reshape { x: 2, dims: kv_heads },
                    Op::QkNormQ { layer: attn.layer, q: 1, k: 3 },
                    Op::QkNormK { layer: attn.layer, q: 1, k: 3 },
                    Op::SwapMiddle { x: 4 },
                    rotate(&attn, call.offset, 6),
                    Op::SwapMiddle { x: 5 },
                    rotate(&attn, call.offset, 8),
                    Op::Linear { weight: own_weight(&attn, LayerWeight::VProj), x: 0 },
                    Op::Reshape { x: 10, dims: kv_heads },
                    Op::Norm { weight: own_weight(&attn, LayerWeight::VNorm), x: 11 },
                    Op::SwapMiddle { x: 12 },
                ],
            };
            assert(program@ =~= project_program(attn, call, q));
            AttnStep::Run { run: at(run, AttnStage::Project), program }
        },
    }
}

fn check_width(
    run: &AttnRun,
    built: Option<Tensor>,
    producer_offset: i32,
    shared: &SharedKvOut,
) -> (r: Result<(), Error>)
    ensures
        r == width_checked(*run, built, producer_offset, *shared),
{
    match (built, shared) {
        (Some(m), SharedKvOut::Bf16(k_full, _)) => match (m.shape.dim(3), k_full.shape.dim(2)) {
            (Some(mask_kv), Some(k_seq)) => if mask_kv == k_seq {
                Ok(())
            } else {
                Err(
                    Error::ProducerMaskWidth {
                        mask_kv,
                        k_seq,
                        layer: run.attn.layer_type,
                        seq: run.call.x.shape.d1,
                        producer_offset,
                    },
                )
            },
            _ => Err(Error::Protocol),
        },
        _ => Ok(()),
    }
}

/// K or V with every head repeated: spread along an axis of its own, which is
/// then folded into the heads.
pub open spec fn repeat_program(x: Tensor, repeat: usize) -> ProgramView {
    let s = x.shape;
    ProgramView {
        inputs: seq![x],
        ops: if repeat == 1 {
            Seq::empty()
        } else {
            seq![
                Op::ExpandThird { x: 0 },
                Op::Broadcast { x: 1, dims: Dims::D5(s.d0, s.d1, repeat as i32, s.d2, s.d3) },
                Op::Reshape {
                    x: 2,
                    dims: Dims::D4(s.d0, (s.d1 * (repeat as i32)) as i32, s.d2, s.d3),
                },
            ]
        },
    }
}

/// K or V `[B, kv_heads, S, D]` with every head repeated. Nothing is left to do
/// where each head stands once.
pub fn repeat_kv(x: Tensor, repeat: usize) -> (r: Program)
    requires
        repeat != 1 ==> x.shape.rank >= 4 && i32::MIN <= x.shape.d1 * (repeat as i32) <= i32::MAX,
    ensures
        r@ == repeat_program(x, repeat),
{
    let s = x.shape;
    let ops: Vec<Op> = if repeat == 1 {
        Vec::new()
    } else {
        vec![
            Op::ExpandThird { x: 0 },
            Op::Broadcast { x: 1, dims: Dims::D5(s.d0, s.d1, repeat as i32, s.d2, s.d3) },
            Op::Reshape { x: 2, dims: Dims::D4(s.d0, s.d1 * (repeat as i32), s.d2, s.d3) },
        ]
    };
    let r: Program = Program { inputs: vec![x], ops };
    assert(r@ =~= repeat_program(x, repeat));
    r
}

/// What a program wrote, by contents.
pub open spec fn results_view(results: Result<Vec<Tensor>, u64>) -> Result<Seq<Tensor>, u64> {
    match results {
        Ok(r) => Ok(r@),
        Err(code) => Err(code),
    }
}

impl Attention {
    /// Starts the attention of the layer.
    pub fn forward(self, call: AttnCall) -> (r: AttnStep)
        requires
            self.valid(),
            call.valid(),
        ensures
            r@ == starting(self, call),
    {
        let q_heads: Dims = Dims::D4(
            call.x.shape.d0,
            call.x.shape.d1,
            self.n_heads as i32,
            self.head_dim as i32,
        );
        let program: Program = Program {
            inputs: vec![call.x],
            ops: vec![
                Op::Linear { weight: own_weight(&self, LayerWeight::QProj), x: 0 },
                Op::Reshape { x: 1, dims: q_heads },
            ],
        };
        assert(program@ =~= query_program(self, call));
        AttnStep::Run { run: AttnRun { attn: self, call, stage: AttnStage::Query }, program }
    }
}

impl AttnRun {
    /// Goes on with what the program of the last step wrote.
    pub fn resume_run(self, results: Result<Vec<Tensor>, u64>) -> (r: AttnStep)
        requires
            self.valid(),
        ensures
            r@ == ran(self, results_view(results)),
    {
        let regs: Vec<Tensor> = match results {
            Ok(regs) => regs,
            Err(code) => return fail(Error::Outside(code)),
        };
        match self.stage {
            AttnStage::Query => if regs.len() == 2 {
                follow_query(&self, regs[1])
            } else {
                fail(Error::Protocol)
            },
            AttnStage::SharedQuery { shared } => if regs.len() == 3 {
                go_shared(&self, shared, regs[2])
            } else {
                fail(Error::Protocol)
            },
            AttnStage::Project => if regs.len() == 12 {
                go_own(&self, regs[5], regs[7], regs[11])
            } else {
                fail(Error::Protocol)
            },
            AttnStage::Output { last, new_kv } => if last < regs.len() && regs.len() - last == 1 {
                AttnStep::Done(Ok((regs[last], new_kv)))
            } else {
                fail(Error::Protocol)
            },
            _ => fail(Error::Protocol),
        }
    }

    /// Goes on with the mask of the last step.
    pub fn resume_mask(self, built: Result<Tensor, u64>) -> (r: AttnStep)
        requires
            self.valid(),
        ensures
            r@ == masked(self, built),
    {
        let m: Tensor = match built {
            Ok(m) => m,
            Err(code) => return fail(Error::Outside(code)),
        };
        match self.stage {
            AttnStage::CacheMask { q, k, v, producer_offset } => step_cache(
                &self,
                q,
                k,
                v,
                producer_offset,
                MaskMode::Array,
                Some(m),
            ),
            AttnStage::PlainMask { q, k, v, own } => if own {
                run_plain(&self, q, k, v, MaskMode::Array, Some(m), own)
            } else {
                match (m.shape.dim(3), k.shape.dim(2)) {
                    (Some(mask_kv), Some(total_kv_len)) => if mask_kv == total_kv_len {
                        run_plain(&self, q, k, v, MaskMode::Array, Some(m), own)
                    } else {
                        fail(
                            Error::ConsumerMaskWidth {
                                mask_kv,
                                total_kv_len,
                                layer: self.attn.layer_type,
                                seq: self.call.x.shape.d1,
                                offset: self.call.offset,
                            },
                        )
                    },
                    _ => fail(Error::Protocol),
                }
            },
            _ => fail(Error::Protocol),
        }
    }

    /// Goes on with the outcome of the step on the layer's own cache.
    pub fn resume_cached(self, outcome: Result<Attended, Error>) -> (r: AttnStep)
        requires
            self.valid(),
        ensures
            r@ == stepped(self, outcome),
    {
        match (self.stage, outcome) {
            (_, Err(e)) => fail(e),
            (
                AttnStage::Cached { mask: built, producer_offset },
                Ok(Attended { out, shared: Shared::Out(shared) }),
            ) => {
                match check_width(&self, built, producer_offset, &shared) {
                    Ok(_) => {},
                    Err(e) => return fail(e),
                }
                let program: Program = Program {
                    inputs: vec![out],
                    ops: output_vec(&self.attn, &self.call, 0),
                };
                assert(program@ =~= output_program(self.attn, self.call, out));
                AttnStep::Run {
                    run: at(&self, AttnStage::Output { last: 2, new_kv: Some(shared) }),
                    program,
                }
            },
            _ => fail(Error::Protocol),
        }
    }
}

} // verus!
