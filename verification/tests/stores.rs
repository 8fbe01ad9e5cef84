//! What the stores of a cache report of themselves.
use rmlx::error::{Error, Expected, Fused, Side};
use rmlx::kvcache::quant::MixedParams;
use rmlx::kvcache::storage::{
    planar_k_accumulated_seq, rotor_k_accumulated_seq, rotor_k_max_seq, rotor_k_store_uses_qjl,
    rotor_sym_accumulated_seq, rotor_sym_store_shape, rotor_sym_store_uses_qjl, KvStorage,
    RotorKStore, StorageKind,
};
use rmlx::tensor::{Dtype, Shape};
use rmlx::{KvCache, KvQuant};

fn shape(seq: i32) -> Shape {
    Shape::new(&[1, 8, seq, 128])
}

fn rotor(seq: i32, use_qjl: bool) -> Option<RotorKStore> {
    Some(RotorKStore { shape: shape(seq), use_qjl })
}

fn mismatch<T>(expected: Expected, got: StorageKind) -> Result<T, Error> {
    Err(Error::KvStorageMismatch { expected, got })
}

#[test]
fn k_only_store() {
    let live = KvStorage::RotorKOnly4 { k: rotor(9, false), max_seq: 512 };
    let fresh = KvStorage::RotorKOnly4 { k: None, max_seq: 512 };
    assert_eq!(rotor_k_accumulated_seq(&live), Ok(9));
    assert_eq!(rotor_k_max_seq(&live), Ok(512));
    assert_eq!(rotor_k_max_seq(&fresh), Ok(512));
    assert_eq!(
        rotor_k_accumulated_seq(&fresh),
        mismatch(Expected::RotorKOnlyLive, StorageKind::RotorKOnly4)
    );
    let other = KvStorage::Plain(StorageKind::K8V4);
    assert_eq!(rotor_k_max_seq(&other), mismatch(Expected::RotorKOnly, StorageKind::K8V4));
    let flat = KvStorage::RotorKOnly3 {
        k: Some(RotorKStore { shape: Shape::new(&[1, 8]), use_qjl: false }),
        max_seq: 512,
    };
    assert_eq!(
        rotor_k_accumulated_seq(&flat),
        Err(Error::NoSeqAxis {
            path: Fused::RotorK,
            side: Side::K,
            shape: Shape::new(&[1, 8])
        })
    );
}

#[test]
fn packed_store() {
    let live = KvStorage::PlanarK { k: Some(shape(9)), max_seq: 512 };
    assert_eq!(planar_k_accumulated_seq(&live), Ok(9));
    let fresh = KvStorage::PlanarK { k: None, max_seq: 512 };
    assert_eq!(
        planar_k_accumulated_seq(&fresh),
        mismatch(Expected::PlanarKLive, StorageKind::PlanarK)
    );
}

#[test]
fn symmetric_store() {
    let live = KvStorage::RotorSym3 { k: rotor(9, true), v: Some(shape(9)), max_seq: 512 };
    assert_eq!(rotor_sym_store_shape(&live), Ok(shape(9)));
    assert_eq!(rotor_sym_accumulated_seq(&live), Ok(9));
    let half = KvStorage::RotorSym3 { k: rotor(9, true), v: None, max_seq: 512 };
    assert_eq!(
        rotor_sym_accumulated_seq(&half),
        mismatch(Expected::RotorSymLiveKv, StorageKind::RotorSym3)
    );
    let fresh = KvStorage::RotorSym4 { k: None, v: None, max_seq: 512 };
    assert_eq!(
        rotor_sym_store_shape(&fresh),
        mismatch(Expected::RotorSymLiveK, StorageKind::RotorSym4)
    );
    let torn = KvStorage::RotorSym4 { k: rotor(9, true), v: Some(shape(8)), max_seq: 512 };
    assert_eq!(
        rotor_sym_accumulated_seq(&torn),
        Err(Error::AxesDiverge { k_seq: 9, v_seq: 8 })
    );
}

#[test]
fn store_decides_about_its_sideband() {
    for use_qjl in [false, true] {
        let k_only = KvStorage::RotorKOnly3 { k: rotor(9, use_qjl), max_seq: 512 };
        let sym = KvStorage::RotorSym3 { k: rotor(9, use_qjl), v: None, max_seq: 512 };
        for toggle in [false, true] {
            assert_eq!(rotor_k_store_uses_qjl(&k_only, toggle), use_qjl);
            assert_eq!(rotor_sym_store_uses_qjl(&sym, toggle), use_qjl);
            // A store of the other family has no say.
            assert_eq!(rotor_k_store_uses_qjl(&sym, toggle), toggle);
            assert_eq!(rotor_sym_store_uses_qjl(&k_only, toggle), toggle);
        }
    }
}

#[test]
fn codecs_of_the_mixed_path() {
    let mixed = KvQuant::Mixed { k_bits: 4, v_bits: 2, k_group_size: 32, v_group_size: 128 };
    assert_eq!(
        mixed.mixed_params(),
        Some(MixedParams { k_bits: 4, v_bits: 2, k_group_size: 32, v_group_size: 128 })
    );
    let rot_k = KvQuant::RotK { v_bits: 4, v_group_size: 32 };
    assert_eq!(
        rot_k.mixed_params(),
        Some(MixedParams { k_bits: 8, v_bits: 4, k_group_size: 64, v_group_size: 32 })
    );
    assert_eq!(KvQuant::RotKTq4V.mixed_params(), None);
    assert_eq!(KvQuant::Bf16.mixed_params(), None);
}

#[test]
fn what_a_cache_tells() {
    let mut c = KvCache {
        quant: KvQuant::Bf16,
        storage: KvStorage::Plain(StorageKind::Bf16),
        offset: 7,
        in_prefill: false,
        rotating: true,
        persistent: false,
        decode_fp16_k: None,
        decode_fp16_v: None,
        stream_dtype: None,
    };
    assert_eq!(c.offset(), 7);
    assert!(c.is_rotating());
    assert!(!c.has_persistent_cache());
    assert_eq!(c.recorded_stream_dtype(), Err(Error::NoStreamDtype));
    c.stream_dtype = Some(Dtype::F16);
    assert_eq!(c.recorded_stream_dtype(), Ok(Dtype::F16));
    assert_eq!(c.advance(3), Ok(()));
    assert_eq!(c.offset(), 10);
    assert_eq!(
        c.advance(i32::MAX),
        Err(Error::OffsetOverflow { offset: 10, new_seq: i32::MAX })
    );
    assert_eq!(c.offset(), 10);
}
