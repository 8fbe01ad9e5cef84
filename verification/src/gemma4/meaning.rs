//! What a program means: a runtime that makes of every operation a function of
//! its operands gives every register a value.
use vstd::prelude::*;

use crate::gemma4::program::{LayerWeight, Op, ProgramView, Weight};
use crate::tensor::{Dims, Tensor};

verus! {

/// An operation without the registers that it reads.
pub open spec fn bare(op: Op) -> Op {
    match op {
        Op::Embed { weight, .. } => Op::Embed { weight, ids: 0 },
        Op::Linear { weight, .. } => Op::Linear { weight, x: 0 },
        Op::AsLinear { weight, .. } => Op::AsLinear { weight, x: 0 },
        Op::Norm { weight, .. } => Op::Norm { weight, x: 0 },
        Op::QkNormQ { layer, .. } => Op::QkNormQ { layer, q: 0, k: 0 },
        Op::QkNormK { layer, .. } => Op::QkNormK { layer, q: 0, k: 0 },
        Op::Reshape { dims, .. } => Op::Reshape { x: 0, dims },
        Op::ExpandThird { .. } => Op::ExpandThird { x: 0 },
        Op::Broadcast { dims, .. } => Op::Broadcast { x: 0, dims },
        Op::SwapMiddle { .. } => Op::SwapMiddle { x: 0 },
        Op::Rope { dims, theta, offset, .. } => Op::Rope { x: 0, dims, theta, offset },
        Op::RopeFreqs { layer, dims, offset, .. } => Op::RopeFreqs { x: 0, layer, dims, offset },
        Op::Sdpa { scale, mode, mask, .. } => Op::Sdpa {
            q: 0,
            k: 0,
            v: 0,
            scale,
            mode,
            mask: match mask {
                Some(_) => Some(0),
                None => None,
            },
        },
        Op::MixedSdpa { k, v, scale, params, rotation, .. } => Op::MixedSdpa {
            q: 0,
            k,
            v,
            scale,
            params,
            rotation,
        },
        Op::Geglu { .. } => Op::Geglu { gate: 0, up: 0 },
        Op::Route { layer, .. } => Op::Route { layer, x: 0 },
        Op::Experts { layer, .. } => Op::Experts { layer, x: 0, routing: 0 },
        Op::PerLayerInput { layer, .. } => Op::PerLayerInput { layer, x: 0, input: 0 },
        Op::Add { .. } => Op::Add { a: 0, b: 0 },
        Op::LayerScalar { layer, .. } => Op::LayerScalar { layer, x: 0 },
        Op::ScaleLike { by, .. } => Op::ScaleLike { x: 0, by },
        Op::ScaleWide { by, .. } => Op::ScaleWide { x: 0, by },
        Op::Positions { from, to, n, .. } => Op::Positions { x: 0, from, to, n },
        Op::Plane { i, seq, n, .. } => Op::Plane { x: 0, i, seq, n },
        Op::Softcap { cap, .. } => Op::Softcap { x: 0, cap },
    }
}

/// The values that an operation reads, in the order of its operands.
pub open spec fn read<V>(op: Op, regs: Seq<V>) -> Seq<V> {
    match op {
        Op::Embed { ids, .. } => seq![regs[ids as int]],
        Op::Linear { x, .. } => seq![regs[x as int]],
        Op::AsLinear { x, .. } => seq![regs[x as int]],
        Op::Norm { x, .. } => seq![regs[x as int]],
        Op::QkNormQ { q, k, .. } => seq![regs[q as int], regs[k as int]],
        Op::QkNormK { q, k, .. } => seq![regs[q as int], regs[k as int]],
        Op::Reshape { x, .. } => seq![regs[x as int]],
        Op::ExpandThird { x } => seq![regs[x as int]],
        Op::Broadcast { x, .. } => seq![regs[x as int]],
        Op::SwapMiddle { x } => seq![regs[x as int]],
        Op::Rope { x, .. } => seq![regs[x as int]],
        Op::RopeFreqs { x, .. } => seq![regs[x as int]],
        Op::Sdpa { q, k, v, mask, .. } => match mask {
            Some(m) => seq![regs[q as int], regs[k as int], regs[v as int], regs[m as int]],
            None => seq![regs[q as int], regs[k as int], regs[v as int]],
        },
        Op::MixedSdpa { q, .. } => seq![regs[q as int]],
        Op::Geglu { gate, up } => seq![regs[gate as int], regs[up as int]],
        Op::Route { x, .. } => seq![regs[x as int]],
        Op::Experts { x, routing, .. } => seq![regs[x as int], regs[routing as int]],
        Op::PerLayerInput { x, input, .. } => seq![regs[x as int], regs[input as int]],
        Op::Add { a, b } => seq![regs[a as int], regs[b as int]],
        Op::LayerScalar { x, .. } => seq![regs[x as int]],
        Op::ScaleLike { x, .. } => seq![regs[x as int]],
        Op::ScaleWide { x, .. } => seq![regs[x as int]],
        Op::Positions { x, .. } => seq![regs[x as int]],
        Op::Plane { x, .. } => seq![regs[x as int]],
        Op::Softcap { x, .. } => seq![regs[x as int]],
    }
}

/// The values of tensors.
pub open spec fn values_of<V>(val: spec_fn(Tensor) -> V, tensors: Seq<Tensor>) -> Seq<V> {
    Seq::new(tensors.len(), |i: int| val(tensors[i]))
}

/// Whether a program was carried out: one tensor was written per operation, and
/// the value of each is what the runtime makes of the values of its operands.
pub open spec fn carried_out<V>(
    rt: spec_fn(Op, Seq<V>) -> V,
    val: spec_fn(Tensor) -> V,
    program: ProgramView,
    results: Seq<Tensor>,
) -> bool {
    &&& results.len() == program.ops.len()
    &&& forall|i: int|
        0 <= i < program.ops.len() ==> val(#[trigger] results[i]) == rt(
            bare(program.ops[i]),
            read(program.ops[i], values_of(val, program.inputs + results)),
        )
}

/// The value in a register behind the inputs.
pub proof fn lemma_register<V>(
    rt: spec_fn(Op, Seq<V>) -> V,
    val: spec_fn(Tensor) -> V,
    program: ProgramView,
    results: Seq<Tensor>,
    i: int,
)
    requires
        carried_out(rt, val, program, results),
        0 <= i < program.ops.len(),
    ensures
        values_of(val, program.inputs + results)[program.inputs.len() + i] == val(
            results[i],
        ),
        val(results[i]) == rt(
            bare(program.ops[i]),
            read(
                program.ops[i],
                values_of(val, program.inputs + results),
            ),
        ),
{
    assert((program.inputs + results)[program.inputs.len() + i] == results[i]);
}

/// A norm by a weight.
pub open spec fn norm<V>(rt: spec_fn(Op, Seq<V>) -> V, weight: Weight, x: V) -> V {
    rt(Op::Norm { weight, x: 0 }, seq![x])
}

/// A product with a weight.
pub open spec fn linear<V>(rt: spec_fn(Op, Seq<V>) -> V, weight: Weight, x: V) -> V {
    rt(Op::Linear { weight, x: 0 }, seq![x])
}

/// A sum.
pub open spec fn sum<V>(rt: spec_fn(Op, Seq<V>) -> V, a: V, b: V) -> V {
    rt(Op::Add { a: 0, b: 0 }, seq![a, b])
}

/// A change of extents.
pub open spec fn reshape<V>(rt: spec_fn(Op, Seq<V>) -> V, dims: Dims, x: V) -> V {
    rt(Op::Reshape { x: 0, dims }, seq![x])
}

/// The two middle axes the other way round.
pub open spec fn swap<V>(rt: spec_fn(Op, Seq<V>) -> V, x: V) -> V {
    rt(Op::SwapMiddle { x: 0 }, seq![x])
}

/// A parameter of a layer.
pub open spec fn of_layer(layer: usize, weight: LayerWeight) -> Weight {
    Weight::Layer { layer, weight }
}

} // verus!
