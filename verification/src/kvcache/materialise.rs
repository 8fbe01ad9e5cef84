//! The K and V of a share that lives in the store, as tensors.
//!
//! This decodes the whole prefix, which the fused kernels exist to avoid. It is
//! for callers that need tensors and not attention over them.
use vstd::prelude::*;

use crate::error::{Error, Fused, Side};
use crate::kvcache::arms::held_by_store;
use crate::kvcache::mirror::slice_decode_fp16_v;
use crate::kvcache::over_store::check_shared_kv_len;
use crate::kvcache::request::{Answer, KvCache, Request};
use crate::kvcache::storage::KvStorage;
use crate::kvcache::{arms, mirror, over_store};
use crate::tensor::{Dtype, Tensor};

verus! {

/// Where a materialisation stands: the call whose answer it waits for.
#[derive(Clone, Copy, PartialEq, Eq, Debug)]
pub enum TensorsRun {
    /// The V window, off its mirror.
    Values { path: Fused },
    /// K off its store, beside a V that is in hand.
    Keys { v: Tensor },
    /// Host rows of K on their way to the device.
    KeyRows { v: Tensor },
    /// K off its store, with V still in its own.
    SymKeys,
    /// V off its store.
    SymValues { k: Tensor },
    /// V in the element type of the stream.
    CastV { k: Tensor, stream: Dtype },
    /// K in the element type of the stream.
    CastK { v: Tensor },
}

/// The next thing that a materialisation does.
#[derive(Clone, Copy, PartialEq, Eq, Debug)]
pub enum TensorsStep {
    Ask { run: TensorsRun, request: Request },
    Done(Result<(Tensor, Tensor), Error>),
}

/// K and V go to one attention, so they must share an element type.
pub open spec fn pairing(k: Tensor, v: Tensor) -> TensorsStep {
    TensorsStep::Done(
        if k.dtype == v.dtype {
            Ok((k, v))
        } else {
            Err(Error::DtypeSplit { k: k.dtype, v: v.dtype })
        },
    )
}

fn pair(k: Tensor, v: Tensor) -> (r: TensorsStep)
    ensures
        r == pairing(k, v),
{
    if k.dtype == v.dtype {
        TensorsStep::Done(Ok((k, v)))
    } else {
        TensorsStep::Done(Err(Error::DtypeSplit { k: k.dtype, v: v.dtype }))
    }
}

/// With V in the element type of the stream, K follows it.
pub open spec fn casting_k(k: Tensor, v: Tensor, stream: Dtype) -> TensorsStep {
    if k.dtype == stream {
        pairing(k, v)
    } else {
        TensorsStep::Ask {
            run: TensorsRun::CastK { v },
            request: Request::Astype { x: k.id, dtype: stream },
        }
    }
}

fn cast_k(k: Tensor, v: Tensor, stream: Dtype) -> (r: TensorsStep)
    ensures
        r == casting_k(k, v, stream),
{
    if k.dtype == stream {
        pair(k, v)
    } else {
        TensorsStep::Ask {
            run: TensorsRun::CastK { v },
            request: Request::Astype { x: k.id, dtype: stream },
        }
    }
}

/// Both come back in the element type of the stream, V first.
pub open spec fn casting(k: Tensor, v: Tensor, stream: Dtype) -> TensorsStep {
    if v.dtype == stream {
        casting_k(k, v, stream)
    } else {
        TensorsStep::Ask {
            run: TensorsRun::CastV { k, stream },
            request: Request::Astype { x: v.id, dtype: stream },
        }
    }
}

fn cast(k: Tensor, v: Tensor, stream: Dtype) -> (r: TensorsStep)
    ensures
        r == casting(k, v, stream),
{
    if v.dtype == stream {
        cast_k(k, v, stream)
    } else {
        TensorsStep::Ask {
            run: TensorsRun::CastV { k, stream },
            request: Request::Astype { x: v.id, dtype: stream },
        }
    }
}

/// The path of a share that lives in the store and whose stores exist.
pub open spec fn live_path(storage: KvStorage) -> Option<Fused> {
    match storage {
        KvStorage::PlanarK { k: Some(_), .. } => Some(Fused::PlanarK),
        KvStorage::RotorKOnly3 { k: Some(_), .. } => Some(Fused::RotorK),
        KvStorage::RotorKOnly4 { k: Some(_), .. } => Some(Fused::RotorK),
        KvStorage::RotorSym3 { k: Some(_), v: Some(_), .. } => Some(Fused::RotorSym),
        KvStorage::RotorSym4 { k: Some(_), v: Some(_), .. } => Some(Fused::RotorSym),
        _ => None,
    }
}

fn live_path_of(storage: &KvStorage) -> (r: Option<Fused>)
    ensures
        r == live_path(*storage),
{
    match storage {
        KvStorage::PlanarK { k: Some(_), .. } => Some(Fused::PlanarK),
        KvStorage::RotorKOnly3 { k: Some(_), .. } => Some(Fused::RotorK),
        KvStorage::RotorKOnly4 { k: Some(_), .. } => Some(Fused::RotorK),
        KvStorage::RotorSym3 { k: Some(_), v: Some(_), .. } => Some(Fused::RotorSym),
        KvStorage::RotorSym4 { k: Some(_), v: Some(_), .. } => Some(Fused::RotorSym),
        _ => None,
    }
}

/// How a materialisation starts. The reported length must be that of the store.
pub open spec fn starting(cache: KvCache, kv_len: i32) -> TensorsStep {
    match live_path(cache.storage) {
        None => TensorsStep::Done(
            Err(Error::NoStoreBackedShare { got: cache.storage.spec_kind() }),
        ),
        Some(path) => match arms::held(path, cache) {
            Err(e) => TensorsStep::Done(Err(e)),
            Ok(kv_seq) => match over_store::len_agrees(kv_len, kv_seq) {
                Err(e) => TensorsStep::Done(Err(e)),
                Ok(_) => if path is RotorSym {
                    TensorsStep::Ask {
                        run: TensorsRun::SymKeys,
                        request: Request::DequantStore { side: Side::K },
                    }
                } else {
                    match mirror::value_window(cache, kv_len) {
                        Err(e) => TensorsStep::Done(Err(e)),
                        Ok(w) => TensorsStep::Ask {
                            run: TensorsRun::Values { path },
                            request: Request::Slice { x: w.x, stop: w.stop },
                        },
                    }
                },
            },
        },
    }
}

/// The element type that the model pushes, which a codec without a mirror
/// records at its append.
pub open spec fn recorded(cache: KvCache) -> Result<Dtype, Error> {
    match cache.stream_dtype {
        Some(dtype) => Ok(dtype),
        None => Err(Error::NoStreamDtype),
    }
}

/// The shape of packed K, which the rows of a host decode are brought back in.
pub open spec fn planar_rows(cache: KvCache, v: Tensor, rows: u64) -> TensorsStep {
    match cache.storage {
        KvStorage::PlanarK { k: Some(shape), .. } => TensorsStep::Ask {
            run: TensorsRun::KeyRows { v },
            request: Request::UploadWide { rows, shape },
        },
        _ => TensorsStep::Done(Err(Error::Protocol)),
    }
}

/// How a materialisation goes on with an answer. Where a V mirror is kept, its
/// element type is that of the stream.
pub open spec fn resumed(cache: KvCache, run: TensorsRun, answer: Answer) -> TensorsStep {
    match (run, answer) {
        (_, Answer::Failed(code)) => TensorsStep::Done(Err(Error::Outside(code))),
        (TensorsRun::Values { path }, Answer::One(v)) => TensorsStep::Ask {
            run: TensorsRun::Keys { v },
            request: if path is PlanarK {
                Request::PlanarDequantK { dtype: v.dtype }
            } else {
                Request::DequantStore { side: Side::K }
            },
        },
        (TensorsRun::Keys { v }, Answer::One(k)) => casting(k, v, v.dtype),
        (TensorsRun::Keys { v }, Answer::Host(rows)) => planar_rows(cache, v, rows),
        (TensorsRun::KeyRows { v }, Answer::One(k)) => casting(k, v, v.dtype),
        (TensorsRun::SymKeys, Answer::One(k)) => TensorsStep::Ask {
            run: TensorsRun::SymValues { k },
            request: Request::DequantStore { side: Side::V },
        },
        (TensorsRun::SymValues { k }, Answer::One(v)) => match recorded(cache) {
            Err(e) => TensorsStep::Done(Err(e)),
            Ok(stream) => casting(k, v, stream),
        },
        (TensorsRun::CastV { k, stream }, Answer::One(v)) => casting_k(k, v, stream),
        (TensorsRun::CastK { v }, Answer::One(k)) => pairing(k, v),
        _ => TensorsStep::Done(Err(Error::Protocol)),
    }
}

impl KvCache {
    /// The element type recorded at the last append of a codec without a mirror.
    pub fn recorded_stream_dtype(&self) -> (r: Result<Dtype, Error>)
        ensures
            r == recorded(*self),
    {
        match self.stream_dtype {
            Some(dtype) => Ok(dtype),
            None => Err(Error::NoStreamDtype),
        }
    }

    /// Starts turning the K and V of a share that lives in the store into
    /// tensors.
    pub fn materialise_shared_kv(&self, kv_len: i32) -> (r: TensorsStep)
        ensures
            r == starting(*self, kv_len),
    {
        let path: Fused = match live_path_of(&self.storage) {
            Some(path) => path,
            None => {
                return TensorsStep::Done(
                    Err(Error::NoStoreBackedShare { got: self.storage.kind() }),
                );
            },
        };
        let kv_seq: i32 = match held_by_store(path, self) {
            Ok(kv_seq) => kv_seq,
            Err(e) => return TensorsStep::Done(Err(e)),
        };
        match check_shared_kv_len(kv_len, kv_seq) {
            Ok(_) => {},
            Err(e) => return TensorsStep::Done(Err(e)),
        }
        match path {
            Fused::RotorSym => TensorsStep::Ask {
                run: TensorsRun::SymKeys,
                request: Request::DequantStore { side: Side::K },
            },
            _ => match slice_decode_fp16_v(self, kv_len) {
                Err(e) => TensorsStep::Done(Err(e)),
                Ok(w) => TensorsStep::Ask {
                    run: TensorsRun::Values { path },
                    request: Request::Slice { x: w.x, stop: w.stop },
                },
            },
        }
    }

    /// Goes on with the answer to the request that a materialisation asked last.
    pub fn resume_materialise(&self, run: TensorsRun, answer: Answer) -> (r: TensorsStep)
        ensures
            r == resumed(*self, run, answer),
    {
        match (run, answer) {
            (_, Answer::Failed(code)) => TensorsStep::Done(Err(Error::Outside(code))),
            (TensorsRun::Values { path }, Answer::One(v)) => {
                let request: Request = match path {
                    Fused::PlanarK => Request::PlanarDequantK { dtype: v.dtype },
                    _ => Request::DequantStore { side: Side::K },
                };
                TensorsStep::Ask { run: TensorsRun::Keys { v }, request }
            },
            (TensorsRun::Keys { v }, Answer::One(k)) => cast(k, v, v.dtype),
            (TensorsRun::Keys { v }, Answer::Host(rows)) => match self.storage {
                KvStorage::PlanarK { k: Some(shape), .. } => TensorsStep::Ask {
                    run: TensorsRun::KeyRows { v },
                    request: Request::UploadWide { rows, shape },
                },
                _ => TensorsStep::Done(Err(Error::Protocol)),
            },
            (TensorsRun::KeyRows { v }, Answer::One(k)) => cast(k, v, v.dtype),
            (TensorsRun::SymKeys, Answer::One(k)) => TensorsStep::Ask {
                run: TensorsRun::SymValues { k },
                request: Request::DequantStore { side: Side::V },
            },
            (TensorsRun::SymValues { k }, Answer::One(v)) => match self.recorded_stream_dtype() {
                Err(e) => TensorsStep::Done(Err(e)),
                Ok(stream) => cast(k, v, stream),
            },
            (TensorsRun::CastV { k, stream }, Answer::One(v)) => cast_k(k, v, stream),
            (TensorsRun::CastK { v }, Answer::One(k)) => pair(k, v),
            _ => TensorsStep::Done(Err(Error::Protocol)),
        }
    }
}

} // verus!
