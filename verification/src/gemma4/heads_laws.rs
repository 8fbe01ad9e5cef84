//! What the attention of a layer computes, for a runtime that makes of every
//! operation a function of its operands.
use vstd::prelude::*;

use crate::error::Error;
use crate::gemma4::attention::{AttnCall, AttnRun, AttnStage, AttnStepView, Attention};
use crate::gemma4::program::{LayerWeight, Op, ProgramView};
use crate::gemma4::{attention, meaning};
use crate::kvcache::quant::MixedParams;
use crate::kvcache::request::MixedTuple;
use crate::kvcache::step::{Attended, Shared, SharedKvOut};
use crate::tensor::{Dims, MaskMode, Tensor};

verus! {

/// A projection of `x`, split into `n` heads.
pub open spec fn projected<V>(
    rt: spec_fn(Op, Seq<V>) -> V,
    attn: Attention,
    call: AttnCall,
    weight: LayerWeight,
    n: usize,
    x: V,
) -> V {
    meaning::reshape(
        rt,
        Dims::D4(call.x.shape.d0, call.x.shape.d1, n as i32, attn.head_dim as i32),
        meaning::linear(rt, meaning::of_layer(attn.layer, weight), x),
    )
}

/// Heads in front of their positions, turned by those positions.
pub open spec fn turned<V>(
    rt: spec_fn(Op, Seq<V>) -> V,
    attn: Attention,
    offset: i32,
    x: V,
) -> V {
    let heads = meaning::swap(rt, x);
    if attn.layer_type is SlidingAttention {
        rt(
            Op::Rope { x: 0, dims: attn.rope_dims, theta: attn.rope_theta, offset },
            seq![heads],
        )
    } else {
        rt(
            Op::RopeFreqs { x: 0, layer: attn.layer, dims: attn.head_dim as i32, offset },
            seq![heads],
        )
    }
}

/// The queries of a layer that shares K and V, from its input.
pub open spec fn shared_queries<V>(
    rt: spec_fn(Op, Seq<V>) -> V,
    attn: Attention,
    call: AttnCall,
    x: V,
) -> V {
    let q = projected(rt, attn, call, LayerWeight::QProj, attn.n_heads, x);
    turned(
        rt,
        attn,
        call.offset,
        meaning::norm(rt, meaning::of_layer(attn.layer, LayerWeight::QNorm), q),
    )
}

/// The queries of a layer of its own, normed together with its keys.
pub open spec fn own_queries<V>(
    rt: spec_fn(Op, Seq<V>) -> V,
    attn: Attention,
    call: AttnCall,
    x: V,
) -> V {
    let q = projected(rt, attn, call, LayerWeight::QProj, attn.n_heads, x);
    let k = projected(rt, attn, call, LayerWeight::KProj, attn.n_kv_heads, x);
    turned(rt, attn, call.offset, rt(Op::QkNormQ { layer: attn.layer, q: 0, k: 0 }, seq![q, k]))
}

/// The keys of a layer of its own, normed together with its queries.
pub open spec fn own_keys<V>(
    rt: spec_fn(Op, Seq<V>) -> V,
    attn: Attention,
    call: AttnCall,
    x: V,
) -> V {
    let q = projected(rt, attn, call, LayerWeight::QProj, attn.n_heads, x);
    let k = projected(rt, attn, call, LayerWeight::KProj, attn.n_kv_heads, x);
    turned(rt, attn, call.offset, rt(Op::QkNormK { layer: attn.layer, q: 0, k: 0 }, seq![q, k]))
}

/// The values of a layer of its own: normed, and not turned.
pub open spec fn own_values<V>(
    rt: spec_fn(Op, Seq<V>) -> V,
    attn: Attention,
    call: AttnCall,
    x: V,
) -> V {
    let v = projected(rt, attn, call, LayerWeight::VProj, attn.n_kv_heads, x);
    meaning::swap(rt, meaning::norm(rt, meaning::of_layer(attn.layer, LayerWeight::VNorm), v))
}

/// The output of a layer from that of its heads: joined again and projected.
pub open spec fn joined<V>(
    rt: spec_fn(Op, Seq<V>) -> V,
    attn: Attention,
    call: AttnCall,
    x: V,
) -> V {
    let rows = meaning::reshape(
        rt,
        Dims::D3(call.x.shape.d0, call.x.shape.d1, (attn.n_heads * attn.head_dim) as i32),
        meaning::swap(rt, x),
    );
    meaning::linear(rt, meaning::of_layer(attn.layer, LayerWeight::OProj), rows)
}

/// Attention over plain K and V, with scores that are not scaled: the bit pattern
/// is that of one.
pub open spec fn over_plain<V>(
    rt: spec_fn(Op, Seq<V>) -> V,
    q: V,
    k: V,
    v: V,
    mode: MaskMode,
    mask: Option<V>,
) -> V {
    let scale: u32 = 1065353216;
    match mask {
        Some(m) => rt(
            Op::Sdpa { q: 0, k: 0, v: 0, scale, mode, mask: Some(0) },
            seq![q, k, v, m],
        ),
        None => rt(Op::Sdpa { q: 0, k: 0, v: 0, scale, mode, mask: None }, seq![q, k, v]),
    }
}

/// A layer projects its queries first, and keeps them for what comes next: the norm
/// and the turn of a layer that shares, all three projections of one of its own. A
/// layer that neither shares nor has both projections of its own ends there.
pub proof fn law_queries_come_first<V>(
    rt: spec_fn(Op, Seq<V>) -> V,
    val: spec_fn(Tensor) -> V,
    attn: Attention,
    call: AttnCall,
    first: Seq<Tensor>,
)
    requires
        attention::starting(attn, call) matches AttnStepView::Run { program, .. }
            && meaning::carried_out(rt, val, program, first),
    ensures
        first.len() == 2,
        val(first[1]) == projected(
            rt,
            attn,
            call,
            LayerWeight::QProj,
            attn.n_heads,
            val(call.x),
        ),
        attention::starting(attn, call) matches AttnStepView::Run { run, .. } && match attention::ran(
            run,
            Ok(first),
        ) {
            AttnStepView::Run { run: r, .. } => {
                &&& r.attn == attn
                &&& r.call == call
                &&& call.shared_kv is Some || (attn.has_k_proj && attn.has_v_proj)
            },
            AttnStepView::Done(r) => {
                &&& call.shared_kv is None
                &&& if !attn.has_k_proj {
                    r matches Err(e) && e == Error::NoSharedKv
                } else {
                    !attn.has_v_proj && (r matches Err(e) && e == Error::NoValueProjection)
                }
            },
            _ => false,
        },
{
    if let AttnStepView::Run { program, .. } = attention::starting(attn, call) {
        let regs = meaning::values_of(val, program.inputs + first);
        assert(regs[0] == val(call.x));
        meaning::lemma_register(rt, val, program, first, 0);
        meaning::lemma_register(rt, val, program, first, 1);
    }
}

/// The turn of a register.
proof fn lemma_turned<V>(
    rt: spec_fn(Op, Seq<V>) -> V,
    attn: Attention,
    offset: i32,
    x: usize,
    regs: Seq<V>,
    before: V,
)
    requires
        regs[x as int] == meaning::swap(rt, before),
    ensures
        ({
            let op = attention::rotation(attn, offset, x);
            rt(meaning::bare(op), meaning::read(op, regs)) == turned(rt, attn, offset, before)
        }),
{
}

/// The queries of a layer that shares K and V are what the program behind the first
/// one comes to.
proof fn lemma_shared_queries<V>(
    rt: spec_fn(Op, Seq<V>) -> V,
    val: spec_fn(Tensor) -> V,
    attn: Attention,
    call: AttnCall,
    q: Tensor,
    results: Seq<Tensor>,
)
    requires
        meaning::carried_out(rt, val, attention::shared_query_program(attn, call, q), results),
        val(q) == projected(rt, attn, call, LayerWeight::QProj, attn.n_heads, val(call.x)),
    ensures
        results.len() == 3,
        val(results[2]) == shared_queries(rt, attn, call, val(call.x)),
{
    let p = attention::shared_query_program(attn, call, q);
    let regs = meaning::values_of(val, p.inputs + results);
    assert(regs[0] == val(q));
    meaning::lemma_register(rt, val, p, results, 0);
    meaning::lemma_register(rt, val, p, results, 1);
    meaning::lemma_register(rt, val, p, results, 2);
    lemma_turned(rt, attn, call.offset, 2, regs, val(results[0]));
}

/// Queries, keys and values of a layer of its own are what the program behind the
/// first one comes to.
proof fn lemma_own<V>(
    rt: spec_fn(Op, Seq<V>) -> V,
    val: spec_fn(Tensor) -> V,
    attn: Attention,
    call: AttnCall,
    q: Tensor,
    results: Seq<Tensor>,
)
    requires
        meaning::carried_out(rt, val, attention::project_program(attn, call, q), results),
        val(q) == projected(rt, attn, call, LayerWeight::QProj, attn.n_heads, val(call.x)),
    ensures
        results.len() == 12,
        val(results[5]) == own_queries(rt, attn, call, val(call.x)),
        val(results[7]) == own_keys(rt, attn, call, val(call.x)),
        val(results[11]) == own_values(rt, attn, call, val(call.x)),
{
    let p = attention::project_program(attn, call, q);
    let regs = meaning::values_of(val, p.inputs + results);
    assert(regs[0] == val(call.x) && regs[1] == val(q));
    meaning::lemma_register(rt, val, p, results, 0);
    meaning::lemma_register(rt, val, p, results, 1);
    meaning::lemma_register(rt, val, p, results, 2);
    meaning::lemma_register(rt, val, p, results, 3);
    meaning::lemma_register(rt, val, p, results, 4);
    meaning::lemma_register(rt, val, p, results, 5);
    meaning::lemma_register(rt, val, p, results, 6);
    meaning::lemma_register(rt, val, p, results, 7);
    meaning::lemma_register(rt, val, p, results, 8);
    meaning::lemma_register(rt, val, p, results, 9);
    meaning::lemma_register(rt, val, p, results, 10);
    meaning::lemma_register(rt, val, p, results, 11);
    lemma_turned(rt, attn, call.offset, 6, regs, val(results[2]));
    lemma_turned(rt, attn, call.offset, 8, regs, val(results[3]));
}

/// The last three operations of a program join the heads of the register in front
/// of them.
proof fn lemma_joined<V>(
    rt: spec_fn(Op, Seq<V>) -> V,
    val: spec_fn(Tensor) -> V,
    attn: Attention,
    call: AttnCall,
    p: ProgramView,
    results: Seq<Tensor>,
    x: int,
)
    requires
        meaning::carried_out(rt, val, p, results),
        p.ops.len() >= 3,
        p.inputs.len() + p.ops.len() == x + 4,
        0 <= x <= 10,
        p.ops.subrange(p.ops.len() - 3, p.ops.len() as int) == attention::output_ops(attn, call, x),
    ensures
        val(results.last()) == joined(
            rt,
            attn,
            call,
            meaning::values_of(val, p.inputs + results)[x],
        ),
{
    let n = p.ops.len() - 3;
    let ops = attention::output_ops(attn, call, x);
    let tail = p.ops.subrange(n as int, p.ops.len() as int);
    assert(p.ops[n as int] == tail[0] && p.ops[n + 1] == tail[1] && p.ops[n + 2] == tail[2]);
    assert(tail[0] == ops[0] && tail[1] == ops[1] && tail[2] == ops[2]);
    meaning::lemma_register(rt, val, p, results, n as int);
    meaning::lemma_register(rt, val, p, results, n + 1);
    meaning::lemma_register(rt, val, p, results, n + 2);
}

/// The program over plain K and V comes to the joined heads of the attention over
/// them.
proof fn lemma_plain<V>(
    rt: spec_fn(Op, Seq<V>) -> V,
    val: spec_fn(Tensor) -> V,
    attn: Attention,
    call: AttnCall,
    q: Tensor,
    k: Tensor,
    v: Tensor,
    mode: MaskMode,
    built: Option<Tensor>,
    results: Seq<Tensor>,
)
    requires
        meaning::carried_out(
            rt,
            val,
            attention::plain_program(attn, call, q, k, v, mode, built),
            results,
        ),
    ensures
        results.len() == 4,
        val(results[3]) == joined(
            rt,
            attn,
            call,
            over_plain(
                rt,
                val(q),
                val(k),
                val(v),
                mode,
                match built {
                    Some(m) => Some(val(m)),
                    None => None,
                },
            ),
        ),
{
    let p = attention::plain_program(attn, call, q, k, v, mode, built);
    let regs = meaning::values_of(val, p.inputs + results);
    let x: int = if built is Some {
        4
    } else {
        3
    };
    assert(regs[0] == val(q) && regs[1] == val(k) && regs[2] == val(v));
    if let Some(m) = built {
        assert(regs[3] == val(m));
    }
    assert(p.ops.subrange(1, 4) =~= attention::output_ops(attn, call, x));
    lemma_joined(rt, val, attn, call, p, results, x);
    meaning::lemma_register(rt, val, p, results, 0);
}

/// Whether the plain attention of a layer needs a mask that is built: over a window,
/// where several positions are queried or the keys outnumber the window; in a full
/// layer, where several positions are queried behind others.
pub open spec fn needs_array(run: AttnRun, total: i32) -> bool {
    let seq = run.call.x.shape.d1;
    if run.attn.layer_type is SlidingAttention {
        seq != 1 || (!run.call.kv_is_rotating && total > run.attn.sliding_window)
    } else {
        seq != 1 && total != seq
    }
}

/// A layer that shares K and V attends those very tensors with queries of its own,
/// normed alone and turned by the offset of the call. Where a mask is built it
/// applies that mask; else a single position is queried without one, and a whole
/// prompt under the causal one. It leaves nothing.
pub proof fn law_sharing_layer_attends<V>(
    rt: spec_fn(Op, Seq<V>) -> V,
    val: spec_fn(Tensor) -> V,
    attn: Attention,
    call: AttnCall,
    k: Tensor,
    v: Tensor,
    total: i32,
    first: Seq<Tensor>,
    second: Seq<Tensor>,
    m: Tensor,
    third: Seq<Tensor>,
)
    requires
        call.valid(),
        call.shared_kv == Some(SharedKvOut::Bf16(k, v)),
        k.shape.at(2) == Some(total),
        total >= call.x.shape.d1,
        m.shape.at(3) == Some(total),
        attention::starting(attn, call) matches AttnStepView::Run { program, .. }
            && meaning::carried_out(rt, val, program, first),
        attention::starting(attn, call) matches AttnStepView::Run { run, .. } && (attention::ran(
            run,
            Ok(first),
        ) matches AttnStepView::Run { program, .. } && meaning::carried_out(
            rt,
            val,
            program,
            second,
        )),
    ensures
        attention::starting(attn, call) matches AttnStepView::Run { run, .. } && (attention::ran(
            run,
            Ok(first),
        ) matches AttnStepView::Run { run: turn, .. } && {
            let now = attention::ran(turn, Ok(second));
            let q = shared_queries(rt, attn, call, val(call.x));
            let then = match now {
                AttnStepView::Mask { run: waiting, .. } => attention::masked(waiting, Ok(m)),
                _ => now,
            };
            let array = needs_array(turn, total);
            let mode = if array {
                MaskMode::Array
            } else if call.x.shape.d1 == 1 {
                MaskMode::Open
            } else {
                MaskMode::Causal
            };
            &&& now is Mask == array
            &&& then matches AttnStepView::Run { run: last, program } && (meaning::carried_out(
                rt,
                val,
                program,
                third,
            ) ==> (attention::ran(last, Ok(third)) matches AttnStepView::Done(Ok((out, left)))
                && left is None && val(out) == joined(
                rt,
                attn,
                call,
                over_plain(
                    rt,
                    q,
                    val(k),
                    val(v),
                    mode,
                    if array {
                        Some(val(m))
                    } else {
                        None
                    },
                ),
            )))
        }),
{
    law_queries_come_first(rt, val, attn, call, first);
    lemma_shared_queries(rt, val, attn, call, first[1], second);
    let q = second[2];
    let turn = AttnRun {
        attn,
        call,
        stage: AttnStage::SharedQuery { shared: SharedKvOut::Bf16(k, v) },
    };
    let array = needs_array(turn, total);
    if array {
        if meaning::carried_out(
            rt,
            val,
            attention::plain_program(attn, call, q, k, v, MaskMode::Array, Some(m)),
            third,
        ) {
            lemma_plain(rt, val, attn, call, q, k, v, MaskMode::Array, Some(m), third);
        }
    } else {
        let mode = if call.x.shape.d1 == 1 {
            MaskMode::Open
        } else {
            MaskMode::Causal
        };
        if meaning::carried_out(
            rt,
            val,
            attention::plain_program(attn, call, q, k, v, mode, None),
            third,
        ) {
            lemma_plain(rt, val, attn, call, q, k, v, mode, None, third);
        }
    }
}

/// A layer that shares affine tuples attends them with a single query of its own,
/// without a mask, by the codec and the rotation that they were shared with.
pub proof fn law_sharing_layer_attends_tuples<V>(
    rt: spec_fn(Op, Seq<V>) -> V,
    val: spec_fn(Tensor) -> V,
    attn: Attention,
    call: AttnCall,
    k: MixedTuple,
    v: MixedTuple,
    rotation: Option<u64>,
    params: MixedParams,
    first: Seq<Tensor>,
    second: Seq<Tensor>,
    third: Seq<Tensor>,
)
    requires
        call.shared_kv == Some(
            SharedKvOut::MixedQuant {
                k,
                v,
                k_rotation: rotation,
                k_bits: params.k_bits,
                v_bits: params.v_bits,
                k_group_size: params.k_group_size,
                v_group_size: params.v_group_size,
            },
        ),
        attention::starting(attn, call) matches AttnStepView::Run { program, .. }
            && meaning::carried_out(rt, val, program, first),
        attention::starting(attn, call) matches AttnStepView::Run { run, .. } && (attention::ran(
            run,
            Ok(first),
        ) matches AttnStepView::Run { program, .. } && meaning::carried_out(
            rt,
            val,
            program,
            second,
        )),
    ensures
        attention::starting(attn, call) matches AttnStepView::Run { run, .. } && (attention::ran(
            run,
            Ok(first),
        ) matches AttnStepView::Run { run: turn, .. } && {
            let q = shared_queries(rt, attn, call, val(call.x));
            let scale: u32 = 1065353216;
            match attention::ran(turn, Ok(second)) {
                AttnStepView::Run { run: last, program } => {
                    &&& call.x.shape.d1 == 1
                    &&& meaning::carried_out(rt, val, program, third) ==> (attention::ran(
                        last,
                        Ok(third),
                    ) matches AttnStepView::Done(Ok((out, left))) && left is None && val(out)
                        == joined(
                        rt,
                        attn,
                        call,
                        rt(Op::MixedSdpa { q: 0, k, v, scale, params, rotation }, seq![q]),
                    ))
                },
                AttnStepView::Done(r) => call.x.shape.d1 != 1 && (r matches Err(e) && e == (
                Error::QuantShareNotDecode { seq: call.x.shape.d1 })),
                _ => false,
            }
        }),
{
    law_queries_come_first(rt, val, attn, call, first);
    lemma_shared_queries(rt, val, attn, call, first[1], second);
    let q = second[2];
    let scale: u32 = 1065353216;
    let op = Op::MixedSdpa { q: 0, k, v, scale, params, rotation };
    let p = attention::tuples_program(attn, call, q, op);
    if meaning::carried_out(rt, val, p, third) {
        let regs = meaning::values_of(val, p.inputs + third);
        assert(regs[0] == val(q));
        assert(p.ops.subrange(1, 4) =~= attention::output_ops(attn, call, 1));
        lemma_joined(rt, val, attn, call, p, third, 1);
        meaning::lemma_register(rt, val, p, third, 0);
    }
}

/// A layer of its own without a cache attends its own K and V, and leaves them.
pub proof fn law_own_layer_attends_without_cache<V>(
    rt: spec_fn(Op, Seq<V>) -> V,
    val: spec_fn(Tensor) -> V,
    attn: Attention,
    call: AttnCall,
    before: i32,
    total: i32,
    first: Seq<Tensor>,
    second: Seq<Tensor>,
    m: Tensor,
    third: Seq<Tensor>,
)
    requires
        call.shared_kv is None,
        call.cache is None,
        attn.has_k_proj,
        attn.has_v_proj,
        before == if call.kv_is_rotating && call.offset > (attn.sliding_window as i32) - 1 {
            (attn.sliding_window as i32) - 1
        } else {
            call.offset as int
        },
        total == before + call.x.shape.d1,
        attention::starting(attn, call) matches AttnStepView::Run { program, .. }
            && meaning::carried_out(rt, val, program, first),
        attention::starting(attn, call) matches AttnStepView::Run { run, .. } && (attention::ran(
            run,
            Ok(first),
        ) matches AttnStepView::Run { program, .. } && meaning::carried_out(
            rt,
            val,
            program,
            second,
        )),
    ensures
        attention::starting(attn, call) matches AttnStepView::Run { run, .. } && (attention::ran(
            run,
            Ok(first),
        ) matches AttnStepView::Run { run: turn, .. } && {
            let now = attention::ran(turn, Ok(second));
            let x = val(call.x);
            let then = match now {
                AttnStepView::Mask { run: waiting, .. } => attention::masked(waiting, Ok(m)),
                _ => now,
            };
            let array = needs_array(turn, total);
            let mode = if array {
                MaskMode::Array
            } else if call.x.shape.d1 == 1 {
                MaskMode::Open
            } else {
                MaskMode::Causal
            };
            &&& now is Mask == array
            &&& then matches AttnStepView::Run { run: last, program } && (meaning::carried_out(
                rt,
                val,
                program,
                third,
            ) ==> (attention::ran(last, Ok(third)) matches AttnStepView::Done(
                Ok((out, Some(SharedKvOut::Bf16(k, v)))),
            ) && {
                &&& val(k) == own_keys(rt, attn, call, x)
                &&& val(v) == own_values(rt, attn, call, x)
                &&& val(out) == joined(
                    rt,
                    attn,
                    call,
                    over_plain(
                        rt,
                        own_queries(rt, attn, call, x),
                        own_keys(rt, attn, call, x),
                        own_values(rt, attn, call, x),
                        mode,
                        if array {
                            Some(val(m))
                        } else {
                            None
                        },
                    ),
                )
            }))
        }),
{
    law_queries_come_first(rt, val, attn, call, first);
    lemma_own(rt, val, attn, call, first[1], second);
    let q = second[5];
    let k = second[7];
    let v = second[11];
    let turn = AttnRun { attn, call, stage: AttnStage::Project };
    let array = needs_array(turn, total);
    if array {
        if meaning::carried_out(
            rt,
            val,
            attention::plain_program(attn, call, q, k, v, MaskMode::Array, Some(m)),
            third,
        ) {
            lemma_plain(rt, val, attn, call, q, k, v, MaskMode::Array, Some(m), third);
        }
    } else {
        let mode = if call.x.shape.d1 == 1 {
            MaskMode::Open
        } else {
            MaskMode::Causal
        };
        if meaning::carried_out(
            rt,
            val,
            attention::plain_program(attn, call, q, k, v, mode, None),
            third,
        ) {
            lemma_plain(rt, val, attn, call, q, k, v, mode, None, third);
        }
    }
}

/// A layer of its own with a cache steps that cache with its queries, keys and
/// values, unscaled, under the mask that was built, or the mode that needs none, on
/// the device and under the switches of the call.
pub proof fn law_own_layer_steps_its_cache<V>(
    rt: spec_fn(Op, Seq<V>) -> V,
    val: spec_fn(Tensor) -> V,
    attn: Attention,
    call: AttnCall,
    producer_offset: i32,
    before: i32,
    total: i32,
    first: Seq<Tensor>,
    second: Seq<Tensor>,
    m: Tensor,
)
    requires
        call.shared_kv is None,
        call.cache == Some(producer_offset),
        attn.has_k_proj,
        attn.has_v_proj,
        before == if call.kv_is_rotating && producer_offset > (attn.sliding_window as i32) - 1 {
            (attn.sliding_window as i32) - 1
        } else {
            producer_offset as int
        },
        total == before + call.x.shape.d1,
        attention::starting(attn, call) matches AttnStepView::Run { program, .. }
            && meaning::carried_out(rt, val, program, first),
        attention::starting(attn, call) matches AttnStepView::Run { run, .. } && (attention::ran(
            run,
            Ok(first),
        ) matches AttnStepView::Run { program, .. } && meaning::carried_out(
            rt,
            val,
            program,
            second,
        )),
    ensures
        attention::starting(attn, call) matches AttnStepView::Run { run, .. } && (attention::ran(
            run,
            Ok(first),
        ) matches AttnStepView::Run { run: turn, .. } && {
            let now = attention::ran(turn, Ok(second));
            let x = val(call.x);
            let then = match now {
                AttnStepView::Mask { run: waiting, .. } => attention::masked(waiting, Ok(m)),
                _ => now,
            };
            let array = needs_array(turn, total);
            &&& now is Mask == array
            &&& then matches AttnStepView::Cached { run: waiting, call: c } && {
                &&& val(c.queries) == own_queries(rt, attn, call, x)
                &&& val(c.new_k) == own_keys(rt, attn, call, x)
                &&& val(c.new_v) == own_values(rt, attn, call, x)
                &&& c.scale == 1065353216
                &&& c.mask == if array {
                    Some(m.id)
                } else {
                    None
                }
                &&& c.mask_mode == if array {
                    MaskMode::Array
                } else if call.x.shape.d1 == 1 {
                    MaskMode::Open
                } else {
                    MaskMode::Causal
                }
                &&& c.device == call.device
                &&& c.toggles == call.toggles
                &&& waiting.attn == attn
                &&& waiting.call == call
                &&& waiting.stage == (AttnStage::Cached {
                    mask: if array {
                        Some(m)
                    } else {
                        None
                    },
                    producer_offset,
                })
            }
        }),
{
    law_queries_come_first(rt, val, attn, call, first);
    lemma_own(rt, val, attn, call, first[1], second);
}

/// Once its cache has taken the step, a layer ends with the joined heads of what
/// the step attended, and leaves what the step shared. A mask that does not span
/// the K that was attended, where the step tells it, ends the layer instead.
pub proof fn law_own_layer_ends_with_its_step<V>(
    rt: spec_fn(Op, Seq<V>) -> V,
    val: spec_fn(Tensor) -> V,
    run: AttnRun,
    built: Option<Tensor>,
    producer_offset: i32,
    out: Tensor,
    shared: SharedKvOut,
    results: Seq<Tensor>,
)
    requires
        run.stage == (AttnStage::Cached { mask: built, producer_offset }),
    ensures
        ({
            let next = attention::stepped(
                run,
                Ok(Attended { out, shared: Shared::Out(shared) }),
            );
            let widths = match (built, shared) {
                (Some(m), SharedKvOut::Bf16(k, _)) => Some((m.shape.at(3), k.shape.at(2))),
                _ => None,
            };
            match widths {
                Some((Some(mask_kv), Some(k_seq))) if mask_kv != k_seq => next
                    == AttnStepView::Done(
                    Err(
                        Error::ProducerMaskWidth {
                            mask_kv,
                            k_seq,
                            layer: run.attn.layer_type,
                            seq: run.call.x.shape.d1,
                            producer_offset,
                        },
                    ),
                ),
                Some((Some(_), None)) => next == AttnStepView::Done(Err(Error::Protocol)),
                Some((None, _)) => next == AttnStepView::Done(Err(Error::Protocol)),
                _ => next matches AttnStepView::Run { run: last, program } && (meaning::carried_out(
                    rt,
                    val,
                    program,
                    results,
                ) ==> (attention::ran(last, Ok(results)) matches AttnStepView::Done(Ok((t, left)))
                    && left == Some(shared) && val(t) == joined(rt, run.attn, run.call, val(out)))),
            }
        }),
{
    let p = attention::output_program(run.attn, run.call, out);
    if meaning::carried_out(rt, val, p, results) {
        assert(p.ops.subrange(0, 3) =~= attention::output_ops(run.attn, run.call, 0));
        lemma_joined(rt, val, run.attn, run.call, p, results, 0);
        assert(meaning::values_of(val, p.inputs + results)[0] == val(out));
    }
}

/// What keeps a layer from attending what it shares: K without a sequence axis, or
/// with fewer positions than are queried, and a mask that does not span K.
pub proof fn law_unfit_share_ends_a_layer(
    run: AttnRun,
    k: Tensor,
    v: Tensor,
    q: Tensor,
    m: Tensor,
)
    requires
        run.stage == (AttnStage::SharedQuery { shared: SharedKvOut::Bf16(k, v) }),
    ensures
        ({
            let now = attention::ran(run, Ok(seq![q, q, q]));
            let seq = run.call.x.shape.d1;
            &&& k.shape.rank < 3 ==> now == AttnStepView::Done(
                Err(Error::NoStepAxis { shape: k.shape }),
            )
            &&& k.shape.rank >= 3 && k.shape.d2 < seq ==> now == AttnStepView::Done(
                Err(
                    Error::SharedKTooShort {
                        total_kv_len: k.shape.d2,
                        seq,
                        layer: run.attn.layer_type,
                        offset: run.call.offset,
                    },
                ),
            )
            &&& k.shape.rank >= 3 && k.shape.d2 >= seq ==> !(now is Done)
            &&& now matches AttnStepView::Mask { run: waiting, .. } ==> m.shape.rank >= 4
                && m.shape.d3 != k.shape.d2 ==> attention::masked(waiting, Ok(m))
                == AttnStepView::Done(
                Err(
                    Error::ConsumerMaskWidth {
                        mask_kv: m.shape.d3,
                        total_kv_len: k.shape.d2,
                        layer: run.attn.layer_type,
                        seq,
                        offset: run.call.offset,
                    },
                ),
            )
        }),
{
}

/// A failing call ends the attention with it, wherever it stands.
pub proof fn law_attention_ends_on_failure(run: AttnRun, code: u64, e: Error)
    ensures
        attention::ran(run, Err(code)) == AttnStepView::Done(Err(Error::Outside(code))),
        attention::masked(run, Err(code)) == AttnStepView::Done(Err(Error::Outside(code))),
        attention::stepped(run, Err(e)) == AttnStepView::Done(Err(e)),
{
}

/// K or V with every head repeated: the copies of a head are spread along an axis
/// right behind the heads, which is then folded into them. A single copy is the
/// tensor itself.
pub proof fn law_repeated_heads<V>(
    rt: spec_fn(Op, Seq<V>) -> V,
    val: spec_fn(Tensor) -> V,
    x: Tensor,
    repeat: usize,
    results: Seq<Tensor>,
)
    requires
        meaning::carried_out(rt, val, attention::repeat_program(x, repeat), results),
        i32::MIN <= x.shape.d1 * (repeat as i32) <= i32::MAX,
    ensures
        repeat == 1 ==> results.len() == 0,
        repeat != 1 ==> results.len() == 3 && val(results[2]) == {
            let s = x.shape;
            let spread = rt(
                Op::Broadcast { x: 0, dims: Dims::D5(s.d0, s.d1, repeat as i32, s.d2, s.d3) },
                seq![rt(Op::ExpandThird { x: 0 }, seq![val(x)])],
            );
            meaning::reshape(
                rt,
                Dims::D4(s.d0, (s.d1 * (repeat as i32)) as i32, s.d2, s.d3),
                spread,
            )
        },
{
    let p = attention::repeat_program(x, repeat);
    if repeat != 1 {
        let regs = meaning::values_of(val, p.inputs + results);
        assert(regs[0] == val(x));
        meaning::lemma_register(rt, val, p, results, 0);
        meaning::lemma_register(rt, val, p, results, 1);
        meaning::lemma_register(rt, val, p, results, 2);
    }
}

/// A layer of its own whose keys cannot be counted ends with that.
pub proof fn law_uncounted_keys_end_a_layer(run: AttnRun, results: Seq<Tensor>, base: i32, before: int)
    requires
        run.stage is Project,
        results.len() == 12,
        base == match run.call.cache {
            Some(offset) => offset,
            None => run.call.offset,
        },
        before == if run.call.kv_is_rotating && base > (run.attn.sliding_window as i32) - 1 {
            (run.attn.sliding_window as i32) - 1
        } else {
            base as int
        },
        i32::MIN <= before,
    ensures
        before + run.call.x.shape.d1 > i32::MAX <==> attention::ran(run, Ok(results))
            == AttnStepView::Done(
            Err(Error::OffsetOverflow { offset: before as i32, new_seq: run.call.x.shape.d1 }),
        ),
{
}

/// Every program of a layer that is answered with more or fewer tensors than it has
/// operations ends the attention, and so does an answer to something else than what
/// the attention waits for.
pub proof fn law_attention_counts_its_results(
    attn: Attention,
    call: AttnCall,
    q: Tensor,
    results: Seq<Tensor>,
    m: Tensor,
    attended: Attended,
)
    ensures
        ({
            let first = AttnRun { attn, call, stage: AttnStage::Query };
            let ended = AttnStepView::Done(Err(Error::Protocol));
            &&& results.len() != attention::query_program(attn, call).ops.len() ==> attention::ran(
                first,
                Ok(results),
            ) == ended
            &&& attention::ran(first, Ok(seq![q, q])) matches AttnStepView::Run { run, program }
                ==> results.len() != program.ops.len() ==> attention::ran(run, Ok(results)) == ended
            &&& attention::masked(first, Ok(m)) == ended
            &&& attention::stepped(first, Ok(attended)) == ended
        }),
{
}

} // verus!
