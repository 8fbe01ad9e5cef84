//! The storage variant behind a cache, and what the dispatch rules read of it.
use vstd::prelude::*;

use crate::error::{Error, Expected, Fused, Side};
use crate::kvcache::quant::MixedParams;
use crate::tensor::Shape;

verus! {

/// Name of a storage variant.
#[derive(Clone, Copy, PartialEq, Eq, Structural, Debug)]
pub enum StorageKind {
    /// Unquantized buffers.
    Bf16,
    K8V8,
    K8V4,
    Planar,
    Mixed,
    RotKTq4V,
    K8VTurbo2,
    K8VTurbo2Tcq,
    K8VTurbo3,
    K8VTurbo3Tcq,
    TurboSym3,
    TurboSym4,
    PlanarK,
    IsoV3,
    IsoV4,
    IsoSym3,
    IsoSym4,
    IsoKOnly3,
    IsoKOnly4,
    RotorV3,
    RotorV4,
    RotorSym3,
    RotorSym4,
    RotorKOnly3,
    RotorKOnly4,
    RotorKAsym3,
    RotorKAsym4,
    Paged,
}

/// A rotor-packed K store: the `[B, kv_h, S, D]` it accumulated, and whether it
/// carries the one-bit residual sideband. The sideband is decided at the first
/// append and never changes afterwards.
#[derive(Clone, Copy, PartialEq, Eq, Structural, Debug)]
pub struct RotorKStore {
    pub shape: Shape,
    pub use_qjl: bool,
}

/// The storage variants that the dispatch rules look into. Every other variant
/// is served by the runtime's own update path and is known here by name only.
#[derive(Clone, Copy, PartialEq, Eq, Debug)]
#[allow(inconsistent_fields)]
pub enum KvStorage {
    /// Affine K and V, attended as they are stored.
    Mixed { params: MixedParams, max_seq: i32 },
    /// Rotated K with a codebook V; `v` is the shape of the V buffer once it exists.
    RotKTq4V { v: Option<Shape> },
    /// Packed K; `k` is the shape that its store accumulated once it exists.
    PlanarK { k: Option<Shape>, max_seq: i32 },
    RotorKOnly3 { k: Option<RotorKStore>, max_seq: i32 },
    RotorKOnly4 { k: Option<RotorKStore>, max_seq: i32 },
    RotorSym3 { k: Option<RotorKStore>, v: Option<Shape>, max_seq: i32 },
    RotorSym4 { k: Option<RotorKStore>, v: Option<Shape>, max_seq: i32 },
    Plain(StorageKind),
}

/// The rotor K store of a K-only variant, once it exists.
pub open spec fn rotor_k_store(storage: KvStorage) -> Option<RotorKStore> {
    match storage {
        KvStorage::RotorKOnly3 { k, .. } => k,
        KvStorage::RotorKOnly4 { k, .. } => k,
        _ => None,
    }
}

/// The rotor K store of a symmetric variant, once it exists.
pub open spec fn rotor_sym_k_store(storage: KvStorage) -> Option<RotorKStore> {
    match storage {
        KvStorage::RotorSym3 { k, .. } => k,
        KvStorage::RotorSym4 { k, .. } => k,
        _ => None,
    }
}

/// The shape of the rotor V store of a symmetric variant, once it exists.
pub open spec fn rotor_sym_v_store(storage: KvStorage) -> Option<Shape> {
    match storage {
        KvStorage::RotorSym3 { v, .. } => v,
        KvStorage::RotorSym4 { v, .. } => v,
        _ => None,
    }
}

/// Whether the storage is one of the two rotor K-only variants.
pub open spec fn is_rotor_k_only(storage: KvStorage) -> bool {
    storage is RotorKOnly3 || storage is RotorKOnly4
}

/// Whether the storage is one of the two symmetric rotor variants.
pub open spec fn is_rotor_sym(storage: KvStorage) -> bool {
    storage is RotorSym3 || storage is RotorSym4
}

impl KvStorage {
    /// The name of the variant.
    pub open spec fn spec_kind(self) -> StorageKind {
        match self {
            KvStorage::Mixed { .. } => StorageKind::Mixed,
            KvStorage::RotKTq4V { .. } => StorageKind::RotKTq4V,
            KvStorage::PlanarK { .. } => StorageKind::PlanarK,
            KvStorage::RotorKOnly3 { .. } => StorageKind::RotorKOnly3,
            KvStorage::RotorKOnly4 { .. } => StorageKind::RotorKOnly4,
            KvStorage::RotorSym3 { .. } => StorageKind::RotorSym3,
            KvStorage::RotorSym4 { .. } => StorageKind::RotorSym4,
            KvStorage::Plain(kind) => kind,
        }
    }

    /// The name of the variant.
    pub fn kind(&self) -> (r: StorageKind)
        ensures
            r == self.spec_kind(),
    {
        match self {
            KvStorage::Mixed { .. } => StorageKind::Mixed,
            KvStorage::RotKTq4V { .. } => StorageKind::RotKTq4V,
            KvStorage::PlanarK { .. } => StorageKind::PlanarK,
            KvStorage::RotorKOnly3 { .. } => StorageKind::RotorKOnly3,
            KvStorage::RotorKOnly4 { .. } => StorageKind::RotorKOnly4,
            KvStorage::RotorSym3 { .. } => StorageKind::RotorSym3,
            KvStorage::RotorSym4 { .. } => StorageKind::RotorSym4,
            KvStorage::Plain(kind) => *kind,
        }
    }
}

/// Whether the rotor K store of a K-only variant carries the residual sideband.
/// The store is the authority; before it exists, the toggle that it is about to
/// be built with is the answer.
pub fn rotor_k_store_uses_qjl(storage: &KvStorage, rotor_qjl_enabled: bool) -> (r: bool)
    ensures
        r == spec_rotor_k_store_uses_qjl(*storage, rotor_qjl_enabled),
{
    match storage {
        KvStorage::RotorKOnly3 { k: Some(ks), .. } => ks.use_qjl,
        KvStorage::RotorKOnly4 { k: Some(ks), .. } => ks.use_qjl,
        _ => rotor_qjl_enabled,
    }
}

/// The store's own decision, or the toggle where there is no store yet.
pub open spec fn spec_rotor_k_store_uses_qjl(storage: KvStorage, rotor_qjl_enabled: bool) -> bool {
    match rotor_k_store(storage) {
        Some(ks) => ks.use_qjl,
        None => rotor_qjl_enabled,
    }
}

/// Whether the rotor K store of a symmetric variant carries the residual
/// sideband. The store is the authority; before it exists, the toggle that it
/// is about to be built with is the answer.
pub fn rotor_sym_store_uses_qjl(storage: &KvStorage, rotor_qjl_enabled: bool) -> (r: bool)
    ensures
        r == spec_rotor_sym_store_uses_qjl(*storage, rotor_qjl_enabled),
{
    match storage {
        KvStorage::RotorSym3 { k: Some(ks), .. } => ks.use_qjl,
        KvStorage::RotorSym4 { k: Some(ks), .. } => ks.use_qjl,
        _ => rotor_qjl_enabled,
    }
}

/// The store's own decision, or the toggle where there is no store yet.
pub open spec fn spec_rotor_sym_store_uses_qjl(
    storage: KvStorage,
    rotor_qjl_enabled: bool,
) -> bool {
    match rotor_sym_k_store(storage) {
        Some(ks) => ks.use_qjl,
        None => rotor_qjl_enabled,
    }
}

/// The shape that the K store of a symmetric rotor variant accumulated.
pub fn rotor_sym_store_shape(storage: &KvStorage) -> (r: Result<Shape, Error>)
    ensures
        r == spec_rotor_sym_store_shape(*storage),
{
    match storage {
        KvStorage::RotorSym3 { k: Some(ks), .. } => Ok(ks.shape),
        KvStorage::RotorSym4 { k: Some(ks), .. } => Ok(ks.shape),
        _ => Err(
            Error::KvStorageMismatch { expected: Expected::RotorSymLiveK, got: storage.kind() },
        ),
    }
}

/// The shape of the K store, or the mismatch where there is none.
pub open spec fn spec_rotor_sym_store_shape(storage: KvStorage) -> Result<Shape, Error> {
    match rotor_sym_k_store(storage) {
        Some(ks) => Ok(ks.shape),
        None => Err(
            Error::KvStorageMismatch { expected: Expected::RotorSymLiveK, got: storage.spec_kind() },
        ),
    }
}

/// The sequence extent of a recorded shape.
pub open spec fn spec_seq_axis(path: Fused, side: Side, shape: Shape) -> Result<i32, Error> {
    match shape.at(2) {
        Some(seq) => Ok(seq),
        None => Err(Error::NoSeqAxis { path, side, shape }),
    }
}

/// The sequence extent of a recorded shape.
pub fn seq_axis(path: Fused, side: Side, shape: Shape) -> (r: Result<i32, Error>)
    ensures
        r == spec_seq_axis(path, side, shape),
{
    match shape.dim(2) {
        Some(seq) => Ok(seq),
        None => Err(Error::NoSeqAxis { path, side, shape }),
    }
}

/// The length held by the stores of a symmetric rotor variant: that of K, which
/// that of V must equal. A divergence would attend K over one prefix and V over
/// another.
pub open spec fn spec_rotor_sym_accumulated_seq(storage: KvStorage) -> Result<i32, Error> {
    match (rotor_sym_k_store(storage), rotor_sym_v_store(storage)) {
        (Some(ks), Some(v_shape)) => match spec_seq_axis(Fused::RotorSym, Side::K, ks.shape) {
            Err(e) => Err(e),
            Ok(k_seq) => match spec_seq_axis(Fused::RotorSym, Side::V, v_shape) {
                Err(e) => Err(e),
                Ok(v_seq) => if k_seq == v_seq {
                    Ok(k_seq)
                } else {
                    Err(Error::AxesDiverge { k_seq, v_seq })
                },
            },
        },
        _ => Err(
            Error::KvStorageMismatch {
                expected: Expected::RotorSymLiveKv,
                got: storage.spec_kind(),
            },
        ),
    }
}

/// The length held by the stores of a symmetric rotor variant.
pub fn rotor_sym_accumulated_seq(storage: &KvStorage) -> (r: Result<i32, Error>)
    ensures
        r == spec_rotor_sym_accumulated_seq(*storage),
{
    let (k_shape, v_shape) = match storage {
        KvStorage::RotorSym3 { k: Some(ks), v: Some(vs), .. } => (ks.shape, *vs),
        KvStorage::RotorSym4 { k: Some(ks), v: Some(vs), .. } => (ks.shape, *vs),
        _ => {
            return Err(
                Error::KvStorageMismatch {
                    expected: Expected::RotorSymLiveKv,
                    got: storage.kind(),
                },
            );
        },
    };
    let k_seq: i32 = match seq_axis(Fused::RotorSym, Side::K, k_shape) {
        Ok(seq) => seq,
        Err(e) => return Err(e),
    };
    let v_seq: i32 = match seq_axis(Fused::RotorSym, Side::V, v_shape) {
        Ok(seq) => seq,
        Err(e) => return Err(e),
    };
    if k_seq != v_seq {
        return Err(Error::AxesDiverge { k_seq, v_seq });
    }
    Ok(k_seq)
}

/// The length held by the store of a rotor K-only variant: the length that the
/// packed ring was written against.
pub open spec fn spec_rotor_k_accumulated_seq(storage: KvStorage) -> Result<i32, Error> {
    match rotor_k_store(storage) {
        Some(ks) => spec_seq_axis(Fused::RotorK, Side::K, ks.shape),
        None => Err(
            Error::KvStorageMismatch {
                expected: Expected::RotorKOnlyLive,
                got: storage.spec_kind(),
            },
        ),
    }
}

/// The length held by the store of a rotor K-only variant.
pub fn rotor_k_accumulated_seq(storage: &KvStorage) -> (r: Result<i32, Error>)
    ensures
        r == spec_rotor_k_accumulated_seq(*storage),
{
    match storage {
        KvStorage::RotorKOnly3 { k: Some(ks), .. } => seq_axis(Fused::RotorK, Side::K, ks.shape),
        KvStorage::RotorKOnly4 { k: Some(ks), .. } => seq_axis(Fused::RotorK, Side::K, ks.shape),
        _ => Err(
            Error::KvStorageMismatch { expected: Expected::RotorKOnlyLive, got: storage.kind() },
        ),
    }
}

/// The length held by the packed K store: the length that its buffers were
/// written against.
pub open spec fn spec_planar_k_accumulated_seq(storage: KvStorage) -> Result<i32, Error> {
    match storage {
        KvStorage::PlanarK { k: Some(shape), .. } => spec_seq_axis(Fused::PlanarK, Side::K, shape),
        _ => Err(
            Error::KvStorageMismatch { expected: Expected::PlanarKLive, got: storage.spec_kind() },
        ),
    }
}

/// The length held by the packed K store.
pub fn planar_k_accumulated_seq(storage: &KvStorage) -> (r: Result<i32, Error>)
    ensures
        r == spec_planar_k_accumulated_seq(*storage),
{
    match storage {
        KvStorage::PlanarK { k: Some(shape), .. } => seq_axis(Fused::PlanarK, Side::K, *shape),
        _ => Err(Error::KvStorageMismatch { expected: Expected::PlanarKLive, got: storage.kind() }),
    }
}

/// The sequence length that a rotor K-only variant was provisioned for.
pub open spec fn spec_rotor_k_max_seq(storage: KvStorage) -> Result<i32, Error> {
    match storage {
        KvStorage::RotorKOnly3 { max_seq, .. } => Ok(max_seq),
        KvStorage::RotorKOnly4 { max_seq, .. } => Ok(max_seq),
        _ => Err(
            Error::KvStorageMismatch { expected: Expected::RotorKOnly, got: storage.spec_kind() },
        ),
    }
}

/// The sequence length that a rotor K-only variant was provisioned for.
pub fn rotor_k_max_seq(storage: &KvStorage) -> (r: Result<i32, Error>)
    ensures
        r == spec_rotor_k_max_seq(*storage),
{
    match storage {
        KvStorage::RotorKOnly3 { max_seq, .. } => Ok(*max_seq),
        KvStorage::RotorKOnly4 { max_seq, .. } => Ok(*max_seq),
        _ => Err(Error::KvStorageMismatch { expected: Expected::RotorKOnly, got: storage.kind() }),
    }
}

/// Once a store exists, it alone decides how its bytes are read: flipping the
/// toggle afterwards changes nothing.
pub proof fn law_store_decides_sideband(storage: KvStorage, before: bool, after: bool)
    ensures
        rotor_k_store(storage) is Some ==> spec_rotor_k_store_uses_qjl(storage, before)
            == spec_rotor_k_store_uses_qjl(storage, after),
        rotor_sym_k_store(storage) is Some ==> spec_rotor_sym_store_uses_qjl(storage, before)
            == spec_rotor_sym_store_uses_qjl(storage, after),
{
}

} // verus!
