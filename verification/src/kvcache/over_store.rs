//! Flash-decode over the K (and V) that a store already packs.
//!
//! Nothing is appended here and no position is advanced, so the layer that
//! filled the store and the layers that share it run the very same calls.
use vstd::prelude::*;

use crate::error::{Error, Expected, Fused, Side};
use crate::kvcache::gate::head_dim_is_power_of_two;
use crate::kvcache::request::{Answer, Geometry, KvCache, Packed, Request, Ring};
use crate::kvcache::storage::{rotor_sym_store_shape, KvStorage};
use crate::tensor::{Dims, Shape, Tensor};

verus! {

/// Bit width of the packed K codec.
pub const PLANAR_K_BITS: u8 = 4;

/// What a flash-decode run over a store is given.
#[derive(Clone, Copy, PartialEq, Eq, Debug)]
pub struct StoreCall {
    pub queries: Tensor,
    pub scale: u32,
    pub mask: Option<u64>,
    /// Length that the run attends.
    pub kv_seq: i32,
    /// Whether the single-pass kernel over packed K may run.
    pub planar_flash_decode: bool,
}

/// Where a run stands: the call whose answer it waits for.
#[derive(Clone, Copy, PartialEq, Eq, Debug)]
#[allow(inconsistent_fields)]
pub enum StoreStage {
    PlanarView { shape: Shape, v: Tensor },
    PlanarScores { v: Tensor, g: Geometry },
    PlanarMask { v: Tensor, g: Geometry },
    PlanarSoftmax { v: Tensor, g: Geometry },
    PlanarProbs { v: Tensor, g: Geometry },
    PlanarValues { probs: Tensor, g: Geometry },
    PlanarMatmul { g: Geometry },
    RotorKView { bits: u8, v: Tensor },
    RotorKTable { bits: u8, v: Tensor, k: Ring },
    SymKView { bits: u8, shape: Result<Shape, Error> },
    SymVView { bits: u8, shape: Result<Shape, Error>, k: Option<Ring> },
    SymKTable { bits: u8, shape: Result<Shape, Error>, k: Ring, v: Ring },
    SymVTable { bits: u8, shape: Result<Shape, Error>, k: Packed, v: Ring },
    /// The attention output itself.
    Kernel,
    /// The attention output in the element type of the queries.
    Cast,
}

#[derive(Clone, Copy, PartialEq, Eq, Debug)]
pub struct StoreRun {
    pub call: StoreCall,
    pub stage: StoreStage,
}

/// The next thing that a run does.
#[derive(Clone, Copy, PartialEq, Eq, Debug)]
pub enum StoreStep {
    Ask { run: StoreRun, request: Request },
    Done(Result<Tensor, Error>),
}

/// Asking a request and waiting at `stage` for its answer.
pub open spec fn asking(call: StoreCall, stage: StoreStage, request: Request) -> StoreStep {
    StoreStep::Ask { run: StoreRun { call, stage }, request }
}

fn ask(call: StoreCall, stage: StoreStage, request: Request) -> (r: StoreStep)
    ensures
        r == asking(call, stage, request),
{
    StoreStep::Ask { run: StoreRun { call, stage }, request }
}

/// The extents of a run: decode-only queries of rank four whose heads divide
/// evenly over the K/V heads of the store.
pub open spec fn geometry_of(
    path: Fused,
    call: StoreCall,
    b: i32,
    kv_h: i32,
    head_dim: i32,
) -> Result<Geometry, Error> {
    let q = call.queries.shape;
    if q.rank != 4 {
        Err(Error::QueryRank { path, shape: q })
    } else if q.d2 != 1 {
        Err(Error::NotDecode { path, q_seq: q.d2 })
    } else if kv_h <= 0 || q.d1 < 0 || q.d1 as int % kv_h as int != 0 {
        Err(Error::HeadsNotDivisible { path, n_q_heads: q.d1, kv_h })
    } else {
        Ok(
            Geometry {
                b,
                kv_h,
                kv_seq: call.kv_seq,
                head_dim,
                n_q_heads: q.d1,
                heads_per_kv: (q.d1 as int / kv_h as int) as i32,
            },
        )
    }
}

fn geometry(path: Fused, call: &StoreCall, b: i32, kv_h: i32, head_dim: i32) -> (r: Result<
    Geometry,
    Error,
>)
    ensures
        r == geometry_of(path, *call, b, kv_h, head_dim),
{
    let q: Shape = call.queries.shape;
    if q.rank != 4 {
        return Err(Error::QueryRank { path, shape: q });
    }
    if q.d2 != 1 {
        return Err(Error::NotDecode { path, q_seq: q.d2 });
    }
    if kv_h <= 0 || q.d1 < 0 || q.d1 % kv_h != 0 {
        return Err(Error::HeadsNotDivisible { path, n_q_heads: q.d1, kv_h });
    }
    Ok(
        Geometry {
            b,
            kv_h,
            kv_seq: call.kv_seq,
            head_dim,
            n_q_heads: q.d1,
            heads_per_kv: q.d1 / kv_h,
        },
    )
}

/// A length that was reported is the length that is there.
pub open spec fn len_agrees(reported: i32, actual: i32) -> Result<(), Error> {
    if reported == actual {
        Ok(())
    } else {
        Err(Error::SharedLenDesync { reported, actual })
    }
}

/// Rejects a length that was reported and is not the length that is there.
pub fn check_shared_kv_len(reported: i32, actual: i32) -> (r: Result<(), Error>)
    ensures
        r == len_agrees(reported, actual),
{
    if reported == actual {
        Ok(())
    } else {
        Err(Error::SharedLenDesync { reported, actual })
    }
}

/// Flash-decode over packed K starts with a look at the packed buffers.
pub open spec fn planar_begin(cache: KvCache, call: StoreCall, v: Tensor) -> StoreStep {
    match cache.storage {
        KvStorage::PlanarK { k: Some(shape), .. } => asking(
            call,
            StoreStage::PlanarView { shape, v },
            Request::PlanarView,
        ),
        KvStorage::PlanarK { k: None, .. } => StoreStep::Done(
            Err(Error::StoreAbsent { path: Fused::PlanarK }),
        ),
        _ => StoreStep::Done(
            Err(
                Error::KvStorageMismatch {
                    expected: Expected::PlanarK,
                    got: cache.storage.spec_kind(),
                },
            ),
        ),
    }
}

/// Starts flash-decode over packed K.
pub fn planar_k_flash_over_store(cache: &KvCache, call: StoreCall, v_full: Tensor) -> (r: StoreStep)
    ensures
        r == planar_begin(*cache, call, v_full),
{
    match cache.storage {
        KvStorage::PlanarK { k: Some(shape), .. } => ask(
            call,
            StoreStage::PlanarView { shape, v: v_full },
            Request::PlanarView,
        ),
        KvStorage::PlanarK { k: None, .. } => StoreStep::Done(
            Err(Error::StoreAbsent { path: Fused::PlanarK }),
        ),
        _ => StoreStep::Done(
            Err(
                Error::KvStorageMismatch {
                    expected: Expected::PlanarK,
                    got: cache.storage.kind(),
                },
            ),
        ),
    }
}

/// Flash-decode over a rotor K ring starts with a look at the ring. A store
/// that does not exist yet has no ring.
pub open spec fn rotor_k_begin(cache: KvCache, call: StoreCall, v: Tensor) -> StoreStep {
    let viewing = |bits: u8|
        asking(
            call,
            StoreStage::RotorKView { bits, v },
            Request::RotorView { side: Side::K, kv_seq: call.kv_seq },
        );
    let absent = StoreStep::Done(
        Err(Error::ViewAbsent { path: Fused::RotorK, kv_seq: call.kv_seq }),
    );
    match cache.storage {
        KvStorage::RotorKOnly3 { k: Some(_), .. } => viewing(3),
        KvStorage::RotorKOnly4 { k: Some(_), .. } => viewing(4),
        KvStorage::RotorKOnly3 { k: None, .. } => absent,
        KvStorage::RotorKOnly4 { k: None, .. } => absent,
        _ => StoreStep::Done(
            Err(
                Error::KvStorageMismatch {
                    expected: Expected::RotorKOnly,
                    got: cache.storage.spec_kind(),
                },
            ),
        ),
    }
}

/// Starts flash-decode over a rotor K ring.
pub fn rotor_k_flash_over_store(cache: &KvCache, call: StoreCall, v_full: Tensor) -> (r: StoreStep)
    ensures
        r == rotor_k_begin(*cache, call, v_full),
{
    let (live, bits): (bool, u8) = match cache.storage {
        KvStorage::RotorKOnly3 { k, .. } => (k.is_some(), 3),
        KvStorage::RotorKOnly4 { k, .. } => (k.is_some(), 4),
        _ => {
            return StoreStep::Done(
                Err(
                    Error::KvStorageMismatch {
                        expected: Expected::RotorKOnly,
                        got: cache.storage.kind(),
                    },
                ),
            );
        },
    };
    if live {
        ask(
            call,
            StoreStage::RotorKView { bits, v: v_full },
            Request::RotorView { side: Side::K, kv_seq: call.kv_seq },
        )
    } else {
        StoreStep::Done(Err(Error::ViewAbsent { path: Fused::RotorK, kv_seq: call.kv_seq }))
    }
}

/// Flash-decode over both rotor rings starts with a look at the first. With one
/// of the two stores missing there is no pair of rings.
pub open spec fn rotor_sym_begin(cache: KvCache, call: StoreCall) -> StoreStep {
    let shape = crate::kvcache::storage::spec_rotor_sym_store_shape(cache.storage);
    let viewing = |bits: u8|
        asking(
            call,
            StoreStage::SymKView { bits, shape },
            Request::RotorView { side: Side::K, kv_seq: call.kv_seq },
        );
    let absent = StoreStep::Done(
        Err(Error::ViewAbsent { path: Fused::RotorSym, kv_seq: call.kv_seq }),
    );
    match cache.storage {
        KvStorage::RotorSym3 { k: Some(_), v: Some(_), .. } => viewing(3),
        KvStorage::RotorSym4 { k: Some(_), v: Some(_), .. } => viewing(4),
        KvStorage::RotorSym3 { .. } => absent,
        KvStorage::RotorSym4 { .. } => absent,
        _ => StoreStep::Done(
            Err(
                Error::KvStorageMismatch {
                    expected: Expected::RotorSym,
                    got: cache.storage.spec_kind(),
                },
            ),
        ),
    }
}

/// Starts flash-decode over both rotor rings.
pub fn rotor_sym_flash_over_store(cache: &KvCache, call: StoreCall) -> (r: StoreStep)
    ensures
        r == rotor_sym_begin(*cache, call),
{
    let (live, bits): (bool, u8) = match cache.storage {
        KvStorage::RotorSym3 { k, v, .. } => (k.is_some() && v.is_some(), 3),
        KvStorage::RotorSym4 { k, v, .. } => (k.is_some() && v.is_some(), 4),
        _ => {
            return StoreStep::Done(
                Err(
                    Error::KvStorageMismatch {
                        expected: Expected::RotorSym,
                        got: cache.storage.kind(),
                    },
                ),
            );
        },
    };
    if live {
        let shape = rotor_sym_store_shape(&cache.storage);
        ask(
            call,
            StoreStage::SymKView { bits, shape },
            Request::RotorView { side: Side::K, kv_seq: call.kv_seq },
        )
    } else {
        StoreStep::Done(Err(Error::ViewAbsent { path: Fused::RotorSym, kv_seq: call.kv_seq }))
    }
}

/// The kernel over packed K, once its buffers are in hand. The single-pass
/// kernel runs where it is switched on and the head dimension is a power of
/// two; otherwise the scores come first.
pub open spec fn planar_kernel(
    call: StoreCall,
    shape: Shape,
    v: Tensor,
    codes: Tensor,
    scales: Tensor,
    rot32: Tensor,
) -> StoreStep {
    if shape.rank != 4 {
        StoreStep::Done(Err(Error::StoreRank { path: Fused::PlanarK, shape }))
    } else {
        match len_agrees(call.kv_seq, shape.d2) {
            Err(e) => StoreStep::Done(Err(e)),
            Ok(_) => match geometry_of(Fused::PlanarK, call, shape.d0, shape.d1, shape.d3) {
                Err(e) => StoreStep::Done(Err(e)),
                Ok(g) => if call.planar_flash_decode && crate::kvcache::gate::is_power_of_two(
                    (g.head_dim as u32) as int,
                ) {
                    asking(
                        call,
                        StoreStage::Kernel,
                        Request::PlanarFlash {
                            q: call.queries.id,
                            codes: codes.id,
                            scales: scales.id,
                            rot32: rot32.id,
                            v: v.id,
                            mask: call.mask,
                            geometry: g,
                            bits: PLANAR_K_BITS,
                            scale: call.scale,
                        },
                    )
                } else {
                    asking(
                        call,
                        StoreStage::PlanarScores { v, g },
                        Request::PlanarScores {
                            q: call.queries.id,
                            codes: codes.id,
                            scales: scales.id,
                            rot32: rot32.id,
                            geometry: g,
                            bits: PLANAR_K_BITS,
                            scale: call.scale,
                        },
                    )
                },
            },
        }
    }
}

fn planar_kernel_step(
    call: StoreCall,
    shape: Shape,
    v: Tensor,
    codes: Tensor,
    scales: Tensor,
    rot32: Tensor,
) -> (r: StoreStep)
    ensures
        r == planar_kernel(call, shape, v, codes, scales, rot32),
{
    if shape.rank != 4 {
        return StoreStep::Done(Err(Error::StoreRank { path: Fused::PlanarK, shape }));
    }
    match check_shared_kv_len(call.kv_seq, shape.d2) {
        Ok(_) => {},
        Err(e) => return StoreStep::Done(Err(e)),
    }
    let g: Geometry = match geometry(Fused::PlanarK, &call, shape.d0, shape.d1, shape.d3) {
        Ok(g) => g,
        Err(e) => return StoreStep::Done(Err(e)),
    };
    if call.planar_flash_decode && head_dim_is_power_of_two(g.head_dim) {
        ask(
            call,
            StoreStage::Kernel,
            Request::PlanarFlash {
                q: call.queries.id,
                codes: codes.id,
                scales: scales.id,
                rot32: rot32.id,
                v: v.id,
                mask: call.mask,
                geometry: g,
                bits: PLANAR_K_BITS,
                scale: call.scale,
            },
        )
    } else {
        ask(
            call,
            StoreStage::PlanarScores { v, g },
            Request::PlanarScores {
                q: call.queries.id,
                codes: codes.id,
                scales: scales.id,
                rot32: rot32.id,
                geometry: g,
                bits: PLANAR_K_BITS,
                scale: call.scale,
            },
        )
    }
}

/// The kernel over a rotor K ring, once the ring is in hand. The extents come
/// from the V prefix that is attended with it.
pub open spec fn rotor_k_kernel(call: StoreCall, bits: u8, v: Tensor, k: Packed) -> StoreStep {
    if v.shape.rank != 4 {
        StoreStep::Done(Err(Error::ValueRank { path: Fused::RotorK, shape: v.shape }))
    } else {
        match geometry_of(Fused::RotorK, call, v.shape.d0, v.shape.d1, v.shape.d3) {
            Err(e) => StoreStep::Done(Err(e)),
            Ok(geometry) => asking(
                call,
                StoreStage::Kernel,
                Request::RotorFlash {
                    bits,
                    q: call.queries.id,
                    k,
                    v: v.id,
                    mask: call.mask,
                    geometry,
                    scale: call.scale,
                },
            ),
        }
    }
}

fn rotor_k_kernel_step(call: StoreCall, bits: u8, v: Tensor, k: Packed) -> (r: StoreStep)
    ensures
        r == rotor_k_kernel(call, bits, v, k),
{
    if v.shape.rank != 4 {
        return StoreStep::Done(Err(Error::ValueRank { path: Fused::RotorK, shape: v.shape }));
    }
    match geometry(Fused::RotorK, &call, v.shape.d0, v.shape.d1, v.shape.d3) {
        Err(e) => StoreStep::Done(Err(e)),
        Ok(geometry) => ask(
            call,
            StoreStage::Kernel,
            Request::RotorFlash {
                bits,
                q: call.queries.id,
                k,
                v: v.id,
                mask: call.mask,
                geometry,
                scale: call.scale,
            },
        ),
    }
}

/// The kernel over both rotor rings, once they are in hand. The extents come
/// from the K store.
pub open spec fn rotor_sym_kernel(
    call: StoreCall,
    bits: u8,
    shape: Result<Shape, Error>,
    k: Packed,
    v: Packed,
) -> StoreStep {
    match shape {
        Err(e) => StoreStep::Done(Err(e)),
        Ok(s) => match geometry_of(
            Fused::RotorSym,
            call,
            s.at_or_zero(0),
            s.at_or_zero(1),
            s.at_or_zero(3),
        ) {
            Err(e) => StoreStep::Done(Err(e)),
            Ok(geometry) => asking(
                call,
                StoreStage::Kernel,
                Request::RotorSymFlash {
                    bits,
                    q: call.queries.id,
                    k,
                    v,
                    mask: call.mask,
                    geometry,
                    scale: call.scale,
                },
            ),
        },
    }
}

fn rotor_sym_kernel_step(
    call: StoreCall,
    bits: u8,
    shape: Result<Shape, Error>,
    k: Packed,
    v: Packed,
) -> (r: StoreStep)
    ensures
        r == rotor_sym_kernel(call, bits, shape, k, v),
{
    let s: Shape = match shape {
        Ok(s) => s,
        Err(e) => return StoreStep::Done(Err(e)),
    };
    match geometry(
        Fused::RotorSym,
        &call,
        s.dim_or_zero(0),
        s.dim_or_zero(1),
        s.dim_or_zero(3),
    ) {
        Err(e) => StoreStep::Done(Err(e)),
        Ok(geometry) => ask(
            call,
            StoreStage::Kernel,
            Request::RotorSymFlash {
                bits,
                q: call.queries.id,
                k,
                v,
                mask: call.mask,
                geometry,
                scale: call.scale,
            },
        ),
    }
}

/// A ring with its table.
pub open spec fn with_table(ring: Ring, rotors: Tensor) -> Packed {
    Packed { codes: ring.codes, scales: ring.scales, norms: ring.norms, rotors }
}

fn pack(ring: Ring, rotors: Tensor) -> (r: Packed)
    ensures
        r == with_table(ring, rotors),
{
    Packed { codes: ring.codes, scales: ring.scales, norms: ring.norms, rotors }
}

/// What to do once both rings were looked at. Both are live, or neither is read:
/// with one alone, one side would be attended over nothing. Each ring then gets
/// the table of its own side.
pub open spec fn paired(
    call: StoreCall,
    bits: u8,
    shape: Result<Shape, Error>,
    k: Option<Ring>,
    v: Option<Ring>,
) -> StoreStep {
    match (k, v) {
        (Some(k), Some(v)) => asking(
            call,
            StoreStage::SymKTable { bits, shape, k, v },
            Request::RotorTable { side: Side::K },
        ),
        _ => StoreStep::Done(
            Err(Error::ViewAbsent { path: Fused::RotorSym, kv_seq: call.kv_seq }),
        ),
    }
}

fn pair(
    call: StoreCall,
    bits: u8,
    shape: Result<Shape, Error>,
    k: Option<Ring>,
    v: Option<Ring>,
) -> (r: StoreStep)
    ensures
        r == paired(call, bits, shape, k, v),
{
    match (k, v) {
        (Some(k), Some(v)) => ask(
            call,
            StoreStage::SymKTable { bits, shape, k, v },
            Request::RotorTable { side: Side::K },
        ),
        _ => StoreStep::Done(
            Err(Error::ViewAbsent { path: Fused::RotorSym, kv_seq: call.kv_seq }),
        ),
    }
}

/// The output comes back in the element type of the queries.
pub open spec fn cast_to_queries(call: StoreCall, out: Tensor) -> StoreStep {
    if out.dtype == call.queries.dtype {
        StoreStep::Done(Ok(out))
    } else {
        asking(
            call,
            StoreStage::Cast,
            Request::Astype { x: out.id, dtype: call.queries.dtype },
        )
    }
}

fn cast_step(call: StoreCall, out: Tensor) -> (r: StoreStep)
    ensures
        r == cast_to_queries(call, out),
{
    if out.dtype == call.queries.dtype {
        StoreStep::Done(Ok(out))
    } else {
        ask(call, StoreStage::Cast, Request::Astype { x: out.id, dtype: call.queries.dtype })
    }
}

impl StoreRun {
    /// How a run goes on with an answer. After the scores of packed K come the
    /// mask, the softmax, and the product with V, grouped so that the query
    /// heads of one K/V head meet that head.
    pub open spec fn next(self, answer: Answer) -> StoreStep {
        let call = self.call;
        match (self.stage, answer) {
            (_, Answer::Failed(code)) => StoreStep::Done(Err(Error::Outside(code))),
            (StoreStage::PlanarView { shape, v }, Answer::Three(codes, scales, rot32)) =>
                planar_kernel(call, shape, v, codes, scales, rot32),
            (StoreStage::PlanarView { .. }, Answer::Absent) => StoreStep::Done(
                Err(Error::ViewAbsent { path: Fused::PlanarK, kv_seq: call.kv_seq }),
            ),
            (StoreStage::PlanarScores { v, g }, Answer::One(scores)) => match call.mask {
                Some(m) => asking(
                    call,
                    StoreStage::PlanarMask { v, g },
                    Request::Add { a: scores.id, b: m },
                ),
                None => asking(
                    call,
                    StoreStage::PlanarSoftmax { v, g },
                    Request::SoftmaxPrecise { x: scores.id },
                ),
            },
            (StoreStage::PlanarMask { v, g }, Answer::One(masked)) => asking(
                call,
                StoreStage::PlanarSoftmax { v, g },
                Request::SoftmaxPrecise { x: masked.id },
            ),
            (StoreStage::PlanarSoftmax { v, g }, Answer::One(probs)) => asking(
                call,
                StoreStage::PlanarProbs { v, g },
                Request::Reshape {
                    x: probs.id,
                    dims: Dims::D5(g.b, g.kv_h, g.heads_per_kv, 1, g.kv_seq),
                },
            ),
            (StoreStage::PlanarProbs { v, g }, Answer::One(probs)) => asking(
                call,
                StoreStage::PlanarValues { probs, g },
                Request::Reshape {
                    x: v.id,
                    dims: Dims::D5(g.b, g.kv_h, 1, g.kv_seq, g.head_dim),
                },
            ),
            (StoreStage::PlanarValues { probs, g }, Answer::One(values)) => asking(
                call,
                StoreStage::PlanarMatmul { g },
                Request::Matmul { a: probs.id, b: values.id },
            ),
            (StoreStage::PlanarMatmul { g }, Answer::One(out)) => asking(
                call,
                StoreStage::Kernel,
                Request::Reshape { x: out.id, dims: Dims::D4(g.b, g.n_q_heads, 1, g.head_dim) },
            ),
            (StoreStage::RotorKView { bits, v }, Answer::Three(codes, scales, norms)) => asking(
                call,
                StoreStage::RotorKTable { bits, v, k: Ring { codes, scales, norms } },
                Request::RotorTable { side: Side::K },
            ),
            (StoreStage::RotorKView { .. }, Answer::Absent) => StoreStep::Done(
                Err(Error::ViewAbsent { path: Fused::RotorK, kv_seq: call.kv_seq }),
            ),
            (StoreStage::RotorKTable { bits, v, k }, Answer::One(rotors)) => rotor_k_kernel(
                call,
                bits,
                v,
                with_table(k, rotors),
            ),
            (StoreStage::SymKView { bits, shape }, Answer::Three(codes, scales, norms)) => asking(
                call,
                StoreStage::SymVView { bits, shape, k: Some(Ring { codes, scales, norms }) },
                Request::RotorView { side: Side::V, kv_seq: call.kv_seq },
            ),
            (StoreStage::SymKView { bits, shape }, Answer::Absent) => asking(
                call,
                StoreStage::SymVView { bits, shape, k: None },
                Request::RotorView { side: Side::V, kv_seq: call.kv_seq },
            ),
            (StoreStage::SymVView { bits, shape, k }, Answer::Three(codes, scales, norms)) =>
                paired(call, bits, shape, k, Some(Ring { codes, scales, norms })),
            (StoreStage::SymVView { bits, shape, k }, Answer::Absent) => paired(
                call,
                bits,
                shape,
                k,
                None,
            ),
            (StoreStage::SymKTable { bits, shape, k, v }, Answer::One(rotors)) => asking(
                call,
                StoreStage::SymVTable { bits, shape, k: with_table(k, rotors), v },
                Request::RotorTable { side: Side::V },
            ),
            (StoreStage::SymVTable { bits, shape, k, v }, Answer::One(rotors)) => rotor_sym_kernel(
                call,
                bits,
                shape,
                k,
                with_table(v, rotors),
            ),
            (StoreStage::Kernel, Answer::One(out)) => cast_to_queries(call, out),
            (StoreStage::Cast, Answer::One(out)) => StoreStep::Done(Ok(out)),
            _ => StoreStep::Done(Err(Error::Protocol)),
        }
    }

    /// Goes on with an answer.
    pub fn resume(self, answer: Answer) -> (r: StoreStep)
        ensures
            r == self.next(answer),
    {
        let call: StoreCall = self.call;
        match (self.stage, answer) {
            (_, Answer::Failed(code)) => StoreStep::Done(Err(Error::Outside(code))),
            (StoreStage::PlanarView { shape, v }, Answer::Three(codes, scales, rot32)) =>
                planar_kernel_step(call, shape, v, codes, scales, rot32),
            (StoreStage::PlanarView { .. }, Answer::Absent) => StoreStep::Done(
                Err(Error::ViewAbsent { path: Fused::PlanarK, kv_seq: call.kv_seq }),
            ),
            (StoreStage::PlanarScores { v, g }, Answer::One(scores)) => match call.mask {
                Some(m) => ask(
                    call,
                    StoreStage::PlanarMask { v, g },
                    Request::Add { a: scores.id, b: m },
                ),
                None => ask(
                    call,
                    StoreStage::PlanarSoftmax { v, g },
                    Request::SoftmaxPrecise { x: scores.id },
                ),
            },
            (StoreStage::PlanarMask { v, g }, Answer::One(masked)) => ask(
                call,
                StoreStage::PlanarSoftmax { v, g },
                Request::SoftmaxPrecise { x: masked.id },
            ),
            (StoreStage::PlanarSoftmax { v, g }, Answer::One(probs)) => ask(
                call,
                StoreStage::PlanarProbs { v, g },
                Request::Reshape {
                    x: probs.id,
                    dims: Dims::D5(g.b, g.kv_h, g.heads_per_kv, 1, g.kv_seq),
                },
            ),
            (StoreStage::PlanarProbs { v, g }, Answer::One(probs)) => ask(
                call,
                StoreStage::PlanarValues { probs, g },
                Request::Reshape {
                    x: v.id,
                    dims: Dims::D5(g.b, g.kv_h, 1, g.kv_seq, g.head_dim),
                },
            ),
            (StoreStage::PlanarValues { probs, g }, Answer::One(values)) => ask(
                call,
                StoreStage::PlanarMatmul { g },
                Request::Matmul { a: probs.id, b: values.id },
            ),
            (StoreStage::PlanarMatmul { g }, Answer::One(out)) => ask(
                call,
                StoreStage::Kernel,
                Request::Reshape { x: out.id, dims: Dims::D4(g.b, g.n_q_heads, 1, g.head_dim) },
            ),
            (StoreStage::RotorKView { bits, v }, Answer::Three(codes, scales, norms)) => ask(
                call,
                StoreStage::RotorKTable { bits, v, k: Ring { codes, scales, norms } },
                Request::RotorTable { side: Side::K },
            ),
            (StoreStage::RotorKView { .. }, Answer::Absent) => StoreStep::Done(
                Err(Error::ViewAbsent { path: Fused::RotorK, kv_seq: call.kv_seq }),
            ),
            (StoreStage::RotorKTable { bits, v, k }, Answer::One(rotors)) => rotor_k_kernel_step(
                call,
                bits,
                v,
                pack(k, rotors),
            ),
            (StoreStage::SymKView { bits, shape }, Answer::Three(codes, scales, norms)) => ask(
                call,
                StoreStage::SymVView { bits, shape, k: Some(Ring { codes, scales, norms }) },
                Request::RotorView { side: Side::V, kv_seq: call.kv_seq },
            ),
            (StoreStage::SymKView { bits, shape }, Answer::Absent) => ask(
                call,
                StoreStage::SymVView { bits, shape, k: None },
                Request::RotorView { side: Side::V, kv_seq: call.kv_seq },
            ),
            (StoreStage::SymVView { bits, shape, k }, Answer::Three(codes, scales, norms)) =>
                pair(call, bits, shape, k, Some(Ring { codes, scales, norms })),
            (StoreStage::SymVView { bits, shape, k }, Answer::Absent) => pair(
                call,
                bits,
                shape,
                k,
                None,
            ),
            (StoreStage::SymKTable { bits, shape, k, v }, Answer::One(rotors)) => ask(
                call,
                StoreStage::SymVTable { bits, shape, k: pack(k, rotors), v },
                Request::RotorTable { side: Side::V },
            ),
            (StoreStage::SymVTable { bits, shape, k, v }, Answer::One(rotors)) => rotor_sym_kernel_step(
                call,
                bits,
                shape,
                k,
                pack(v, rotors),
            ),
            (StoreStage::Kernel, Answer::One(out)) => cast_step(call, out),
            (StoreStage::Cast, Answer::One(out)) => StoreStep::Done(Ok(out)),
            _ => StoreStep::Done(Err(Error::Protocol)),
        }
    }
}

/// The kernel over both rings is only ever asked for with both of them, each under
/// the table of its own side: the one that the run kept from before, and the one
/// that was just answered.
pub proof fn law_rings_are_attended_in_pairs(run: StoreRun, answer: Answer)
    ensures
        run.next(answer) matches StoreStep::Ask { request: Request::RotorSymFlash { k, v, .. }, .. }
            ==> (run.stage matches StoreStage::SymVTable { k: kept, v: ring, .. } && (answer
            matches Answer::One(rotors) && k == kept && v == with_table(ring, rotors))),
        run.stage is SymVView && (answer is Absent || run.stage->SymVView_k is None) ==> run.next(
            answer,
        ) is Done,
{
}

} // verus!
