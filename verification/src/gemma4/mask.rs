//! Which mask an attention call needs, and how wide it must be.
use vstd::prelude::*;

use crate::error::LayerType;
use crate::tensor::MaskMode;

verus! {

/// The mask of an attention call.
#[derive(Clone, Copy, PartialEq, Eq, Structural, Debug)]
pub enum MaskPlan {
    /// No mask: the queries may attend everything.
    Open,
    /// The causal mask of the attention kernel itself.
    Causal,
    /// The window of one query over `total_kv_len` keys: `[1, 1, 1, total_kv_len]`.
    SwaDecode { total_kv_len: i32, window: usize },
    /// The causal band of `seq` queries behind `offset` keys:
    /// `[1, 1, seq, offset + seq]`.
    SwaPrefill { offset: i32, seq: i32, window: usize },
    /// The causal mask of `seq` queries behind `offset` keys:
    /// `[1, 1, seq, offset + seq]`.
    Chunked { offset: i32, seq: i32 },
}

impl MaskPlan {
    /// Whether a mask has to be built.
    pub open spec fn is_array(self) -> bool {
        self is SwaDecode || self is SwaPrefill || self is Chunked
    }

    /// How many keys the mask spans, where one is built.
    pub open spec fn keys(self) -> Option<int> {
        match self {
            MaskPlan::SwaDecode { total_kv_len, .. } => Some(total_kv_len as int),
            MaskPlan::SwaPrefill { offset, seq, .. } => Some(offset + seq),
            MaskPlan::Chunked { offset, seq } => Some(offset + seq),
            _ => None,
        }
    }

    /// The mask mode that goes with the mask.
    pub open spec fn spec_mode(self) -> MaskMode {
        match self {
            MaskPlan::Open => MaskMode::Open,
            MaskPlan::Causal => MaskMode::Causal,
            _ => MaskMode::Array,
        }
    }

    /// The mask mode that goes with the mask.
    pub fn mode(&self) -> (r: MaskMode)
        ensures
            r == self.spec_mode(),
            r is Array <==> self.is_array(),
    {
        match self {
            MaskPlan::Open => MaskMode::Open,
            MaskPlan::Causal => MaskMode::Causal,
            _ => MaskMode::Array,
        }
    }

    /// Whether a mask has to be built.
    pub fn builds(&self) -> (r: bool)
        ensures
            r == self.is_array(),
    {
        match self {
            MaskPlan::Open => false,
            MaskPlan::Causal => false,
            _ => true,
        }
    }
}

/// The last key that a ring over a sliding window keeps of the past. The width
/// of the window is read as a signed word.
pub open spec fn ring_limit(sliding_window: usize) -> int {
    (sliding_window as i32) - 1
}

/// How many keys precede the queries of a layer that holds a cache: the offset
/// of that very cache, which a ring caps.
pub open spec fn keys_before(producer_offset: i32, rotating: bool, sliding_window: usize) -> int {
    if rotating && ring_limit(sliding_window) < producer_offset {
        ring_limit(sliding_window)
    } else {
        producer_offset as int
    }
}

/// How many keys precede the queries of a layer that holds a cache.
pub fn producer_effective_offset(
    producer_offset: i32,
    attn_is_rotating: bool,
    sliding_window: usize,
) -> (r: i32)
    requires
        attn_is_rotating ==> (sliding_window as i32) > i32::MIN,
    ensures
        r == keys_before(producer_offset, attn_is_rotating, sliding_window),
{
    if attn_is_rotating {
        let limit: i32 = (sliding_window as i32) - 1;
        if producer_offset < limit {
            producer_offset
        } else {
            limit
        }
    } else {
        producer_offset
    }
}

/// How many keys precede the queries of a layer that attends shared K: all but
/// those of the queries themselves.
pub fn consumer_effective_offset(total_kv_len: i32, seq: i32) -> (r: i32)
    requires
        i32::MIN <= total_kv_len - seq <= i32::MAX,
    ensures
        r == total_kv_len - seq,
{
    total_kv_len - seq
}

/// The mask of a layer. A single query of a sliding layer needs none over a
/// ring, which holds no more than the window, and elsewhere only once there are
/// more keys than the window. Several queries of a sliding layer need the band.
/// A full layer decodes without a mask, starts a prompt under the causal one,
/// and goes on with a prompt under one that is built.
pub open spec fn attn_mask(
    layer_type: LayerType,
    seq: i32,
    effective_offset: i32,
    total_kv_len: i32,
    rotating: bool,
    sliding_window: usize,
) -> MaskPlan {
    match layer_type {
        LayerType::SlidingAttention => if seq != 1 {
            MaskPlan::SwaPrefill { offset: effective_offset, seq, window: sliding_window }
        } else if !rotating && total_kv_len > sliding_window {
            MaskPlan::SwaDecode { total_kv_len, window: sliding_window }
        } else {
            MaskPlan::Open
        },
        LayerType::FullAttention => if seq == 1 {
            MaskPlan::Open
        } else if effective_offset == 0 {
            MaskPlan::Causal
        } else {
            MaskPlan::Chunked { offset: effective_offset, seq }
        },
    }
}

/// The mask of a layer.
pub fn build_attn_mask(
    layer_type: LayerType,
    seq: i32,
    effective_offset: i32,
    total_kv_len: i32,
    attn_is_rotating: bool,
    sliding_window: usize,
) -> (r: MaskPlan)
    ensures
        r == attn_mask(
            layer_type,
            seq,
            effective_offset,
            total_kv_len,
            attn_is_rotating,
            sliding_window,
        ),
{
    match layer_type {
        LayerType::SlidingAttention => if seq != 1 {
            MaskPlan::SwaPrefill { offset: effective_offset, seq, window: sliding_window }
        } else if !attn_is_rotating && total_kv_len > 0 && total_kv_len as usize > sliding_window {
            MaskPlan::SwaDecode { total_kv_len, window: sliding_window }
        } else {
            MaskPlan::Open
        },
        LayerType::FullAttention => if seq == 1 {
            MaskPlan::Open
        } else if effective_offset == 0 {
            MaskPlan::Causal
        } else {
            MaskPlan::Chunked { offset: effective_offset, seq }
        },
    }
}

/// A mask that is built spans exactly the keys that are attended, for every kind
/// of layer, for a producer and for a consumer.
pub proof fn law_mask_spans_the_keys(
    layer_type: LayerType,
    seq: i32,
    effective_offset: i32,
    total_kv_len: i32,
    rotating: bool,
    sliding_window: usize,
)
    requires
        total_kv_len == effective_offset + seq,
    ensures
        attn_mask(
            layer_type,
            seq,
            effective_offset,
            total_kv_len,
            rotating,
            sliding_window,
        ).keys() matches Some(keys) ==> keys == total_kv_len,
{
}

/// Over a ring, a step attends fewer keys of the past than the window is wide.
pub proof fn law_ring_stays_inside_window(producer_offset: i32, sliding_window: usize)
    requires
        1 <= sliding_window <= i32::MAX,
    ensures
        keys_before(producer_offset, true, sliding_window) < sliding_window,
{
}

/// Whether a mask lets query `i` see key `j`: without one everything is seen, the
/// causal one hides what comes later, a window also what lies too far back.
pub open spec fn lets_through(plan: MaskPlan, i: int, j: int) -> bool {
    match plan {
        MaskPlan::Open => true,
        MaskPlan::Causal => j <= i,
        MaskPlan::SwaDecode { total_kv_len, window } => total_kv_len - window <= j,
        MaskPlan::SwaPrefill { offset, window, .. } => offset + i - window < j <= offset + i,
        MaskPlan::Chunked { offset, .. } => j <= offset + i,
    }
}

/// Under the mask of a layer every query sees the keys up to its own position, and
/// in a sliding layer only those inside the window that ends there: for a single
/// query, for a prompt and for its continuation, over a ring, which holds no more
/// keys than the window when a single position is queried, and elsewhere.
pub proof fn law_mask_shows_the_window(
    layer_type: LayerType,
    seq: i32,
    before: i32,
    total: i32,
    rotating: bool,
    window: usize,
    i: int,
    j: int,
)
    requires
        seq >= 1,
        before >= 0,
        total == before + seq,
        rotating && seq == 1 ==> total <= window,
        0 <= i < seq,
        0 <= j < total,
    ensures
        lets_through(attn_mask(layer_type, seq, before, total, rotating, window), i, j) <==> (j
            <= before + i && (layer_type is SlidingAttention ==> before + i - j < window)),
{
}

/// A mask that is built goes with the mode for one, and the two others with their
/// own.
pub proof fn law_mode_goes_with_the_mask(plan: MaskPlan)
    ensures
        plan.spec_mode() is Array <==> plan.keys() is Some,
        plan.is_array() <==> plan.keys() is Some,
        plan.spec_mode() is Open <==> plan is Open,
        plan.spec_mode() is Causal <==> plan is Causal,
{
}

/// The keys before a step are those of the cache, of which a ring keeps at most one
/// fewer than its window is wide.
pub proof fn law_keys_before_are_the_caches(producer_offset: i32, rotating: bool, window: usize)
    requires
        window <= i32::MAX,
    ensures
        ({
            let n = keys_before(producer_offset, rotating, window);
            &&& n <= producer_offset
            &&& !rotating ==> n == producer_offset
            &&& rotating ==> n < window
            &&& n < producer_offset ==> n == window - 1
        }),
{
}

} // verus!
