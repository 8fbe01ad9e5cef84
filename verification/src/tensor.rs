//! Descriptions of device tensors.
//!
//! The numbers inside a tensor live on the device and are never looked at
//! here. What the dispatch rules read of a tensor is its shape and its element
//! type; what they hand on is the number under which the runtime finds the
//! tensor again.
use vstd::prelude::*;

verus! {

/// Element type of a tensor. Only equality of element types is ever decided.
#[derive(Clone, Copy, PartialEq, Eq, Structural, Debug)]
pub enum Dtype {
    F32,
    F16,
    Bf16,
    I32,
    U32,
    /// Any element type that no rule names, told apart by the runtime's own tag.
    Other(u8),
}

/// Where a step runs.
#[derive(Clone, Copy, PartialEq, Eq, Structural, Debug)]
pub enum Device {
    Cpu,
    Gpu,
}

/// The extents of a tensor, as far as the rules read them: the number of axes,
/// the first four extents and the last one. An extent beyond the rank is kept
/// at zero and is never read.
#[derive(Clone, Copy, PartialEq, Eq, Structural, Debug)]
pub struct Shape {
    pub rank: usize,
    pub d0: i32,
    pub d1: i32,
    pub d2: i32,
    pub d3: i32,
    pub last: i32,
}

impl Shape {
    /// The extent of one of the first four axes, where the tensor has it.
    pub open spec fn at(self, axis: int) -> Option<i32> {
        if axis < 0 || axis >= self.rank || axis >= 4 {
            None
        } else if axis == 0 {
            Some(self.d0)
        } else if axis == 1 {
            Some(self.d1)
        } else if axis == 2 {
            Some(self.d2)
        } else {
            Some(self.d3)
        }
    }

    /// The extent of an axis, or zero where the tensor does not have it.
    pub open spec fn at_or_zero(self, axis: int) -> i32 {
        match self.at(axis) {
            Some(d) => d,
            None => 0,
        }
    }

    /// The extent of the last axis, or zero where there is no axis at all.
    pub open spec fn spec_last_or_zero(self) -> i32 {
        if self.rank == 0 {
            0
        } else {
            self.last
        }
    }

    /// The extent of the last axis, or zero where there is no axis at all.
    pub fn last_or_zero(&self) -> (r: i32)
        ensures
            r == self.spec_last_or_zero(),
    {
        if self.rank == 0 {
            0
        } else {
            self.last
        }
    }

    /// Describes the extents `dims`.
    pub fn new(dims: &[i32]) -> (r: Shape)
        ensures
            r.rank == dims@.len(),
            forall|i: int| 0 <= i < dims@.len() && i < 4 ==> #[trigger] r.at(i) == Some(dims@[i]),
            dims@.len() > 0 ==> r.last == dims@.last(),
    {
        let n: usize = dims.len();
        Shape {
            rank: n,
            d0: if n > 0 { dims[0] } else { 0 },
            d1: if n > 1 { dims[1] } else { 0 },
            d2: if n > 2 { dims[2] } else { 0 },
            d3: if n > 3 { dims[3] } else { 0 },
            last: if n > 0 { dims[n - 1] } else { 0 },
        }
    }

    /// The extent of one of the first four axes, where the tensor has it.
    pub fn dim(&self, axis: usize) -> (r: Option<i32>)
        ensures
            r == self.at(axis as int),
    {
        if axis >= self.rank || axis >= 4 {
            None
        } else if axis == 0 {
            Some(self.d0)
        } else if axis == 1 {
            Some(self.d1)
        } else if axis == 2 {
            Some(self.d2)
        } else {
            Some(self.d3)
        }
    }

    /// The extent of an axis, or zero where the tensor does not have it.
    pub fn dim_or_zero(&self, axis: usize) -> (r: i32)
        ensures
            r == self.at_or_zero(axis as int),
    {
        match self.dim(axis) {
            Some(d) => d,
            None => 0,
        }
    }
}

/// A tensor: the number under which the runtime keeps it, its extents and its
/// element type.
#[derive(Clone, Copy, PartialEq, Eq, Structural, Debug)]
pub struct Tensor {
    pub id: u64,
    pub shape: Shape,
    pub dtype: Dtype,
}

/// Which mask an attention call applies on its own.
#[derive(Clone, Copy, PartialEq, Eq, Structural, Debug)]
pub enum MaskMode {
    /// No mask.
    Open,
    /// The causal mask, built by the attention kernel itself.
    Causal,
    /// The additive mask that comes with the call.
    Array,
}

/// Target extents of a reshape, a broadcast or a slice.
#[derive(Clone, Copy, PartialEq, Eq, Structural, Debug)]
pub enum Dims {
    D1(i32),
    D2(i32, i32),
    D3(i32, i32, i32),
    D4(i32, i32, i32, i32),
    D5(i32, i32, i32, i32, i32),
}

} // verus!
