//! Windows into the unquantized mirrors that a cache keeps beside its store.
use vstd::prelude::*;

use crate::error::{Axis, Error, Side};
use crate::kvcache::request::KvCache;
use crate::tensor::{Dims, Shape, Tensor};

verus! {

/// A leading part of a tensor: which tensor, and where it stops on each axis.
#[derive(Clone, Copy, PartialEq, Eq, Structural, Debug)]
pub struct Window {
    pub x: u64,
    pub stop: Dims,
}

/// The first `seq` positions of a `[B, kv_h, S, D]` tensor.
pub open spec fn prefix(buf: Tensor, seq: i32) -> Window {
    Window { x: buf.id, stop: Dims::D4(buf.shape.d0, buf.shape.d1, seq, buf.shape.d3) }
}

/// The V window of a share that lives in the store: the first `kv_seq`
/// positions of the V mirror.
pub open spec fn value_window(cache: KvCache, kv_seq: i32) -> Result<Window, Error> {
    match cache.decode_fp16_v {
        None => Err(Error::ShareMirrorMissing),
        Some(v) => if v.shape.rank != 4 {
            Err(Error::ShareMirrorRank { shape: v.shape })
        } else if kv_seq > v.shape.d2 {
            Err(Error::ShareExceedsMirror { kv_seq, v_seq: v.shape.d2 })
        } else {
            Ok(prefix(v, kv_seq))
        },
    }
}

/// The V window of a share that lives in the store.
pub fn slice_decode_fp16_v(cache: &KvCache, kv_seq: i32) -> (r: Result<Window, Error>)
    ensures
        r == value_window(*cache, kv_seq),
{
    let v: Tensor = match cache.decode_fp16_v {
        Some(v) => v,
        None => return Err(Error::ShareMirrorMissing),
    };
    if v.shape.rank != 4 {
        return Err(Error::ShareMirrorRank { shape: v.shape });
    }
    if kv_seq > v.shape.d2 {
        return Err(Error::ShareExceedsMirror { kv_seq, v_seq: v.shape.d2 });
    }
    Ok(Window { x: v.id, stop: Dims::D4(v.shape.d0, v.shape.d1, kv_seq, v.shape.d3) })
}

/// A mirror and the tensor of a step agree on batch, heads and head dimension.
/// A step tensor of another rank is not compared.
pub open spec fn axes_agree(side: Side, mirror: Shape, step: Shape) -> Result<(), Error> {
    if step.rank != 4 {
        Ok(())
    } else if mirror.d0 != step.d0 {
        Err(Error::MirrorAxis { side, axis: Axis::Batch, mirror: mirror.d0, step: step.d0 })
    } else if mirror.d1 != step.d1 {
        Err(Error::MirrorAxis { side, axis: Axis::Heads, mirror: mirror.d1, step: step.d1 })
    } else if mirror.d3 != step.d3 {
        Err(Error::MirrorAxis { side, axis: Axis::HeadDim, mirror: mirror.d3, step: step.d3 })
    } else {
        Ok(())
    }
}

fn check_axes(side: Side, mirror: &Shape, step: &Shape) -> (r: Result<(), Error>)
    ensures
        r == axes_agree(side, *mirror, *step),
{
    if step.rank != 4 {
        return Ok(());
    }
    if mirror.d0 != step.d0 {
        return Err(
            Error::MirrorAxis { side, axis: Axis::Batch, mirror: mirror.d0, step: step.d0 },
        );
    }
    if mirror.d1 != step.d1 {
        return Err(
            Error::MirrorAxis { side, axis: Axis::Heads, mirror: mirror.d1, step: step.d1 },
        );
    }
    if mirror.d3 != step.d3 {
        return Err(
            Error::MirrorAxis { side, axis: Axis::HeadDim, mirror: mirror.d3, step: step.d3 },
        );
    }
    Ok(())
}

/// The K and V windows of a share that lives in both mirrors: the positions up
/// to the offset, once the mirrors are found to fit the tensors of the step.
pub open spec fn consumer_windows(
    cache: KvCache,
    new_k: Tensor,
    new_v: Tensor,
) -> Result<(Window, Window), Error> {
    match (cache.decode_fp16_k, cache.decode_fp16_v) {
        (None, _) => Err(Error::MirrorMissing { side: Side::K }),
        (_, None) => Err(Error::MirrorMissing { side: Side::V }),
        (Some(k), Some(v)) => if k.shape.rank != 4 || v.shape.rank != 4 {
            Err(Error::MirrorRank { k: k.shape, v: v.shape })
        } else {
            match axes_agree(Side::K, k.shape, new_k.shape) {
                Err(e) => Err(e),
                Ok(_) => match axes_agree(Side::V, v.shape, new_v.shape) {
                    Err(e) => Err(e),
                    Ok(_) => if cache.offset > k.shape.d2 || cache.offset > v.shape.d2 {
                        Err(
                            Error::OffsetExceedsMirror {
                                offset: cache.offset,
                                k_seq: k.shape.d2,
                                v_seq: v.shape.d2,
                            },
                        )
                    } else {
                        Ok((prefix(k, cache.offset), prefix(v, cache.offset)))
                    },
                },
            }
        },
    }
}

/// The K and V windows of a share that lives in both mirrors.
pub fn slice_decode_fp16_for_consumer(cache: &KvCache, new_k: &Tensor, new_v: &Tensor) -> (r: Result<
    (Window, Window),
    Error,
>)
    ensures
        r == consumer_windows(*cache, *new_k, *new_v),
{
    let k: Tensor = match cache.decode_fp16_k {
        Some(k) => k,
        None => return Err(Error::MirrorMissing { side: Side::K }),
    };
    let v: Tensor = match cache.decode_fp16_v {
        Some(v) => v,
        None => return Err(Error::MirrorMissing { side: Side::V }),
    };
    if k.shape.rank != 4 || v.shape.rank != 4 {
        return Err(Error::MirrorRank { k: k.shape, v: v.shape });
    }
    match check_axes(Side::K, &k.shape, &new_k.shape) {
        Ok(_) => {},
        Err(e) => return Err(e),
    }
    match check_axes(Side::V, &v.shape, &new_v.shape) {
        Ok(_) => {},
        Err(e) => return Err(e),
    }
    let kv_seq: i32 = cache.offset;
    if kv_seq > k.shape.d2 || kv_seq > v.shape.d2 {
        return Err(
            Error::OffsetExceedsMirror { offset: kv_seq, k_seq: k.shape.d2, v_seq: v.shape.d2 },
        );
    }
    Ok(
        (
            Window { x: k.id, stop: Dims::D4(k.shape.d0, k.shape.d1, kv_seq, k.shape.d3) },
            Window { x: v.id, stop: Dims::D4(v.shape.d0, v.shape.d1, kv_seq, v.shape.d3) },
        ),
    )
}

} // verus!
