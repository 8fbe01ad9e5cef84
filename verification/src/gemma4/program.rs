//! Straight-line programs of tensor operations.
//!
//! A program runs on numbered registers. Its inputs come first, and every
//! operation writes the next register. The runtime carries a program out in
//! order and hands back what was written, one tensor per operation.
use vstd::prelude::*;

use crate::kvcache::quant::MixedParams;
use crate::kvcache::request::MixedTuple;
use crate::tensor::{Dims, MaskMode, Tensor};

verus! {

/// The parameters of a layer.
#[derive(Clone, Copy, PartialEq, Eq, Structural, Debug)]
pub enum LayerWeight {
    InputNorm,
    PostAttnNorm,
    PreFfnNorm,
    PostFfnNorm,
    QProj,
    KProj,
    VProj,
    OProj,
    QNorm,
    VNorm,
    GateProj,
    UpProj,
    DownProj,
    /// Norm over the dense half of a mixture layer.
    PostFfnNorm1,
    /// Norm in front of the experts of a mixture layer.
    PreFfnNorm2,
    /// Norm over the expert half of a mixture layer.
    PostFfnNorm2,
}

/// The parameters of a model.
#[derive(Clone, Copy, PartialEq, Eq, Structural, Debug)]
pub enum Weight {
    EmbedTokens,
    EmbedTokensPerLayer,
    PerLayerModelProj,
    PerLayerProjNorm,
    FinalNorm,
    Layer { layer: usize, weight: LayerWeight },
}

/// A constant factor.
#[derive(Clone, Copy, PartialEq, Eq, Structural, Debug)]
pub enum Factor {
    /// The square root of a number.
    Sqrt(usize),
    /// One over the square root of a number.
    InvSqrt(usize),
}

/// An operation. Operands are registers.
#[derive(Clone, Copy, PartialEq, Eq, Debug)]
#[allow(inconsistent_fields)]
pub enum Op {
    /// Rows of an embedding table.
    Embed { weight: Weight, ids: usize },
    /// Product with a weight.
    Linear { weight: Weight, x: usize },
    /// Product with an embedding table, read as the output head.
    AsLinear { weight: Weight, x: usize },
    Norm { weight: Weight, x: usize },
    /// The queries of a layer out of the kernel that norms queries and keys in
    /// one go.
    QkNormQ { layer: usize, q: usize, k: usize },
    /// The keys out of the same kernel.
    QkNormK { layer: usize, q: usize, k: usize },
    Reshape { x: usize, dims: Dims },
    /// A new axis of extent one in front of the third.
    ExpandThird { x: usize },
    Broadcast { x: usize, dims: Dims },
    /// The two middle axes of four the other way round.
    SwapMiddle { x: usize },
    /// Rotary embedding over the first `dims` elements, base by bit pattern.
    Rope { x: usize, dims: i32, theta: u32, offset: i32 },
    /// Rotary embedding by the frequency table of a layer.
    RopeFreqs { x: usize, layer: usize, dims: i32, offset: i32 },
    /// Attention over plain K and V.
    Sdpa { q: usize, k: usize, v: usize, scale: u32, mode: MaskMode, mask: Option<usize> },
    /// Attention over affine tuples, without a mask.
    MixedSdpa {
        q: usize,
        k: MixedTuple,
        v: MixedTuple,
        scale: u32,
        params: MixedParams,
        rotation: Option<u64>,
    },
    Geglu { gate: usize, up: usize },
    /// The experts that the router of a layer chooses for each row, with their
    /// weights. A choice takes one register.
    Route { layer: usize, x: usize },
    /// The chosen experts of a layer on `x`.
    Experts { layer: usize, x: usize, routing: usize },
    /// The input of a layer itself, gated by `x`.
    PerLayerInput { layer: usize, x: usize, input: usize },
    Add { a: usize, b: usize },
    /// Product with the scalar of a layer.
    LayerScalar { layer: usize, x: usize },
    /// Product with a constant, brought to the element type of the operand.
    ScaleLike { x: usize, by: Factor },
    /// Product with a constant in full precision.
    ScaleWide { x: usize, by: Factor },
    /// Positions `from` to `to` of a `[1, seq, n]` tensor.
    Positions { x: usize, from: i32, to: i32, n: i32 },
    /// Entry `i` of the third axis of a `[1, seq, layers, n]` tensor.
    Plane { x: usize, i: i32, seq: i32, n: i32 },
    /// The capped logits, the cap by bit pattern.
    Softcap { x: usize, cap: u32 },
}

/// Bit pattern of the attention scale of this model.
pub const UNIT_SCALE: u32 = 0x3f80_0000;

/// A program with its inputs.
#[derive(Debug)]
pub struct Program {
    pub inputs: Vec<Tensor>,
    pub ops: Vec<Op>,
}

/// The contents of a program.
#[verifier::ext_equal]
pub struct ProgramView {
    pub inputs: Seq<Tensor>,
    pub ops: Seq<Op>,
}

impl View for Program {
    type V = ProgramView;

    open spec fn view(&self) -> ProgramView {
        ProgramView { inputs: self.inputs@, ops: self.ops@ }
    }
}

/// Whether the operands of an operation lie below a register.
pub open spec fn reads_below(op: Op, n: nat) -> bool {
    match op {
        Op::Embed { ids, .. } => ids < n,
        Op::Linear { x, .. } => x < n,
        Op::AsLinear { x, .. } => x < n,
        Op::Norm { x, .. } => x < n,
        Op::QkNormQ { q, k, .. } => q < n && k < n,
        Op::QkNormK { q, k, .. } => q < n && k < n,
        Op::Reshape { x, .. } => x < n,
        Op::ExpandThird { x } => x < n,
        Op::Broadcast { x, .. } => x < n,
        Op::SwapMiddle { x } => x < n,
        Op::Rope { x, .. } => x < n,
        Op::RopeFreqs { x, .. } => x < n,
        Op::Sdpa { q, k, v, mask, .. } => q < n && k < n && v < n && (mask matches Some(m)
            ==> m < n),
        Op::MixedSdpa { q, .. } => q < n,
        Op::Geglu { gate, up } => gate < n && up < n,
        Op::Route { x, .. } => x < n,
        Op::Experts { x, routing, .. } => x < n && routing < n,
        Op::PerLayerInput { x, input, .. } => x < n && input < n,
        Op::Add { a, b } => a < n && b < n,
        Op::LayerScalar { x, .. } => x < n,
        Op::ScaleLike { x, .. } => x < n,
        Op::ScaleWide { x, .. } => x < n,
        Op::Positions { x, .. } => x < n,
        Op::Plane { x, .. } => x < n,
        Op::Softcap { x, .. } => x < n,
    }
}

/// Whether every operation of a program reads registers that were written
/// before it.
pub open spec fn well_formed(program: ProgramView) -> bool {
    forall|i: int|
        0 <= i < program.ops.len() ==> reads_below(
            #[trigger] program.ops[i],
            (program.inputs.len() + i) as nat,
        )
}

} // verus!
