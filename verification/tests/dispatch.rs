//! Steps of a cache, driven by a scripted runtime.
use rmlx::error::{Axis, Error, Expected, Fused, Side};
use rmlx::kvcache::consumer::ConsumerStep;
use rmlx::kvcache::materialise::TensorsStep;
use rmlx::kvcache::over_store::{check_shared_kv_len, StoreCall};
use rmlx::kvcache::request::{
    Answer, Call, Geometry, MixedTuple, Reply, Request, RotKFetch, Toggles,
};
use rmlx::kvcache::step::{Attended, Shared, Step};
use rmlx::kvcache::storage::{
    rotor_k_store_uses_qjl, rotor_sym_store_uses_qjl, KvStorage, RotorKStore, StorageKind,
};
use rmlx::kvcache::{KvCache, SharedKv, SharedKvOut};
use rmlx::tensor::{Device, Dims, Dtype, MaskMode, Shape, Tensor};
use rmlx::KvQuant;

const ONE: u32 = 0x3f80_0000;

fn shape(seq: i32) -> Shape {
    Shape::new(&[1, 8, seq, 128])
}

fn tensor(id: u64, seq: i32) -> Tensor {
    Tensor { id, shape: shape(seq), dtype: Dtype::Bf16 }
}

fn wide(id: u64, seq: i32) -> Tensor {
    Tensor { dtype: Dtype::F32, ..tensor(id, seq) }
}

fn queries(id: u64, seq: i32) -> Tensor {
    Tensor { id, shape: Shape::new(&[1, 16, seq, 128]), dtype: Dtype::Bf16 }
}

fn toggles() -> Toggles {
    Toggles {
        planar_fused_qk: true,
        planar_flash_decode: true,
        rotor_qjl: false,
        rot_k_fused: true,
    }
}

fn call(seq: i32) -> Call {
    Call {
        queries: queries(1, seq),
        new_k: tensor(2, seq),
        new_v: tensor(3, seq),
        scale: ONE,
        mask_mode: MaskMode::Open,
        mask: None,
        device: Device::Gpu,
        toggles: toggles(),
    }
}

fn cache(quant: KvQuant, storage: KvStorage, offset: i32) -> KvCache {
    KvCache {
        quant,
        storage,
        offset,
        in_prefill: false,
        rotating: false,
        persistent: true,
        decode_fp16_k: None,
        decode_fp16_v: None,
        stream_dtype: None,
    }
}

fn rotor(seq: i32) -> RotorKStore {
    RotorKStore { shape: shape(seq), use_qjl: false }
}

fn rotor_k_cache(seq: i32) -> KvCache {
    let mut c = cache(
        KvQuant::RotorKOnly3,
        KvStorage::RotorKOnly3 { k: Some(rotor(seq)), max_seq: 512 },
        seq,
    );
    c.decode_fp16_v = Some(tensor(40, 512));
    c
}

fn planar_cache(seq: i32) -> KvCache {
    let mut c =
        cache(KvQuant::PlanarK, KvStorage::PlanarK { k: Some(shape(seq)), max_seq: 512 }, seq);
    c.decode_fp16_v = Some(tensor(40, 512));
    c
}

fn sym_cache(seq: i32) -> KvCache {
    cache(
        KvQuant::Rotor4Sym,
        KvStorage::RotorSym4 { k: Some(rotor(seq)), v: Some(shape(seq)), max_seq: 512 },
        seq,
    )
}

/// The storage of a mode on the affine codec.
fn affine(quant: KvQuant) -> KvStorage {
    KvStorage::Mixed { params: quant.mixed_params().expect("an affine mode"), max_seq: 512 }
}

fn tuple(id: u64) -> MixedTuple {
    MixedTuple { codes: tensor(id, 8), scales: tensor(id + 1, 8), biases: tensor(id + 2, 8) }
}

/// Answers a step from a script and keeps what was asked.
fn play(
    cache: &mut KvCache,
    mut step: Step,
    script: Vec<(KvCache, Answer)>,
) -> (Vec<Request>, Step) {
    let mut asked = Vec::new();
    for (after, answer) in script {
        match step {
            Step::Done(_) => panic!("done before the script ended: {step:?} after {asked:?}"),
            Step::Ask { run, request } => {
                asked.push(request);
                step = cache.resume(run, Reply { cache: after, answer });
            }
        }
    }
    (asked, step)
}

fn error_of(step: Step) -> Error {
    match step {
        Step::Done(Err(e)) => e,
        other => panic!("expected an error, got {other:?}"),
    }
}

fn outcome(step: Step) -> Attended {
    match step {
        Step::Done(Ok(a)) => a,
        other => panic!("expected an outcome, got {other:?}"),
    }
}

fn request(step: Step) -> Request {
    match step {
        Step::Ask { request, .. } => request,
        other => panic!("expected a request, got {other:?}"),
    }
}

#[test]
fn ring_is_updated_and_attended_under_the_callers_mask() {
    let mut c = cache(
        KvQuant::Mixed { k_bits: 8, v_bits: 4, k_group_size: 64, v_group_size: 64 },
        KvStorage::Plain(StorageKind::Bf16),
        100,
    );
    c.rotating = true;
    let mut input = call(4);
    input.mask_mode = MaskMode::Array;
    input.mask = Some(77);
    let step = c.update_and_sdpa_shared_source(input);
    let after = KvCache { offset: 104, ..c };
    let (asked, end) = play(
        &mut c,
        step,
        vec![
            (after, Answer::Two(tensor(10, 104), tensor(11, 104))),
            (after, Answer::One(queries(12, 4))),
        ],
    );
    assert_eq!(
        asked,
        vec![
            Request::Update { new_k: 2, new_v: 3 },
            Request::Sdpa {
                q: 1,
                k: 10,
                v: 11,
                scale: ONE,
                mode: MaskMode::Array,
                mask: Some(77)
            },
        ]
    );
    let a = outcome(end);
    assert_eq!(a.out, queries(12, 4));
    assert_eq!(
        a.shared,
        Shared::Source(SharedKv::Bf16(tensor(10, 104), tensor(11, 104)))
    );
    assert_eq!(c.offset(), 104);
    assert!(c.is_rotating());
}

#[test]
fn mixed_prefill_gathers_and_attends_causally() {
    let quant = KvQuant::Mixed { k_bits: 8, v_bits: 4, k_group_size: 64, v_group_size: 64 };
    let mut c = cache(quant, affine(quant), 0);
    c.in_prefill = true;
    let step = c.update_and_sdpa(call(64));
    assert_eq!(c.offset(), 64);
    let after = KvCache { offset: 9999, ..c };
    let (asked, end) = play(
        &mut c,
        step,
        vec![
            (after, Answer::Two(tensor(10, 64), tensor(11, 64))),
            (after, Answer::One(queries(12, 64))),
        ],
    );
    assert_eq!(asked[0], Request::PrefillRaw { new_k: 2, new_v: 3 });
    assert_eq!(
        asked[1],
        Request::Sdpa { q: 1, k: 10, v: 11, scale: ONE, mode: MaskMode::Causal, mask: None }
    );
    assert_eq!(outcome(end).shared, Shared::Nothing);
    // A call that does not advance the offset cannot move it.
    assert_eq!(c.offset(), 64);
}

#[test]
fn mixed_prefill_of_one_position_needs_no_mask() {
    let quant = KvQuant::RotK { v_bits: 4, v_group_size: 64 };
    let mut c = cache(quant, affine(quant), 0);
    c.in_prefill = true;
    let step = c.update_and_sdpa_mixed(call(1));
    let after = c;
    let (_, next) = play(
        &mut c,
        step,
        vec![(after, Answer::Two(tensor(10, 1), tensor(11, 1)))],
    );
    assert_eq!(
        request(next),
        Request::Sdpa { q: 1, k: 10, v: 11, scale: ONE, mode: MaskMode::Open, mask: None }
    );
}

#[test]
fn mixed_decode_shares_the_mirrors_it_appends_to() {
    let quant = KvQuant::RotK { v_bits: 4, v_group_size: 32 };
    let mut c = cache(quant, affine(quant), 7);
    let step = c.update_and_sdpa_shared_source(call(1));
    let after = c;
    let (asked, end) = play(
        &mut c,
        step,
        vec![
            (after, Answer::Mixed { k: tuple(10), v: tuple(20), rotation: Some(30) }),
            (after, Answer::One(queries(12, 1))),
            (after, Answer::Two(tensor(13, 8), tensor(14, 8))),
        ],
    );
    assert_eq!(asked[0], Request::MixedUpdateAndFetch { new_k: 2, new_v: 3 });
    match asked[1] {
        Request::MixedSdpa { q, k, v, params, rotation, .. } => {
            assert_eq!((q, k, v), (1, tuple(10), tuple(20)));
            assert_eq!(rotation, Some(30));
            assert_eq!(
                (params.k_bits, params.k_group_size, params.v_bits, params.v_group_size),
                (8, 64, 4, 32)
            );
        }
        other => panic!("{other:?}"),
    }
    assert_eq!(asked[2], Request::UpdateDecodeFp16 { new_k: 2, new_v: 3, max_seq: 512 });
    assert_eq!(
        outcome(end).shared,
        Shared::Source(SharedKv::Bf16(tensor(13, 8), tensor(14, 8)))
    );
    assert_eq!(c.offset(), 8);
}

#[test]
fn mixed_path_rejects_other_codecs_and_storages() {
    let mut c = cache(KvQuant::K8V4, KvStorage::Plain(StorageKind::K8V4), 7);
    assert_eq!(error_of(c.update_and_sdpa_mixed(call(1))), Error::NotMixedPath);
    assert_eq!(c.offset(), 7);

    let quant = KvQuant::RotK { v_bits: 4, v_group_size: 64 };
    let mut c = cache(quant, KvStorage::Plain(StorageKind::Bf16), 7);
    assert_eq!(
        error_of(c.update_and_sdpa_mixed(call(1))),
        Error::KvStorageMismatch { expected: Expected::Mixed, got: StorageKind::Bf16 }
    );
    // The offset moves before the storage is looked at.
    assert_eq!(c.offset(), 8);
}

#[test]
fn step_is_routed_by_the_storage_and_not_by_the_mode() {
    let quant = KvQuant::RotK { v_bits: 4, v_group_size: 32 };
    // Affine tuples under another mode take the mixed-precision path.
    let mut c = cache(KvQuant::K8V4, affine(quant), 7);
    let mut other = c;
    let step = c.update_and_sdpa(call(1));
    assert_eq!(step, other.update_and_sdpa_mixed(call(1)));
    let after = c;
    let (asked, next) = play(
        &mut c,
        step,
        vec![(after, Answer::Mixed { k: tuple(10), v: tuple(20), rotation: Some(30) })],
    );
    assert_eq!(asked, vec![Request::MixedUpdateAndFetch { new_k: 2, new_v: 3 }]);
    match request(next) {
        Request::MixedSdpa { params, .. } => assert_eq!(Some(params), quant.mixed_params()),
        other => panic!("{other:?}"),
    }
    // So do rotated K and packed K under theirs.
    let mut c = cache(KvQuant::K8V4, KvStorage::RotKTq4V { v: Some(shape(8)) }, 7);
    assert_eq!(request(c.update_and_sdpa(call(1))), Request::RotKUpdateK { new_k: 2 });
    let mut c = cache(quant, planar_cache(7).storage, 7);
    assert!(matches!(request(c.update_and_sdpa(call(1))), Request::PlanarAppend { .. }));
    // An affine mode over another storage goes through the arms.
    for mode in [quant, KvQuant::RotKTq4V] {
        let mut c = cache(mode, KvStorage::Plain(StorageKind::K8V4), 7);
        assert!(matches!(request(c.update_and_sdpa(call(1))), Request::Flash { .. }));
        assert_eq!(c.offset(), 7);
    }
}

#[test]
fn tuples_step_comes_to_the_same_shared_or_not() {
    let quant = KvQuant::Mixed { k_bits: 8, v_bits: 4, k_group_size: 64, v_group_size: 64 };
    let mut before = cache(quant, affine(quant), 7);
    before.decode_fp16_k = Some(tensor(41, 512));
    before.decode_fp16_v = Some(tensor(42, 512));
    let grown = KvCache {
        decode_fp16_k: Some(tensor(43, 512)),
        decode_fp16_v: Some(tensor(44, 512)),
        ..before
    };
    let script = vec![
        (grown, Answer::Mixed { k: tuple(10), v: tuple(20), rotation: None }),
        (grown, Answer::One(queries(12, 1))),
    ];
    let mut plain = before;
    let step = plain.update_and_sdpa(call(1));
    let (_, end) = play(&mut plain, step, script.clone());
    assert_eq!(outcome(end).out, queries(12, 1));
    assert_eq!(plain, KvCache { offset: 8, ..before });
    let mut out = before;
    let step = out.update_and_sdpa_returning_shared_kv(call(1));
    let (_, end) = play(&mut out, step, script.clone());
    assert_eq!(outcome(end).out, queries(12, 1));
    assert_eq!(out, plain);
    let mut source = before;
    let step = source.update_and_sdpa_shared_source(call(1));
    let mut longer = script;
    longer.push((grown, Answer::Two(tensor(13, 8), tensor(14, 8))));
    let (_, end) = play(&mut source, step, longer);
    assert_eq!(outcome(end).out, queries(12, 1));
    assert_eq!(source, KvCache { offset: 8, ..grown });
}

#[test]
fn step_without_a_sequence_axis_or_room_is_refused() {
    let quant = KvQuant::RotK { v_bits: 4, v_group_size: 64 };
    let mut c = cache(quant, affine(quant), 7);
    let mut flat = call(1);
    flat.new_k.shape = Shape::new(&[1, 8]);
    assert_eq!(
        error_of(c.update_and_sdpa(flat)),
        Error::NoStepAxis { shape: Shape::new(&[1, 8]) }
    );
    c.offset = i32::MAX;
    assert_eq!(
        error_of(c.update_and_sdpa(call(1))),
        Error::OffsetOverflow { offset: i32::MAX, new_seq: 1 }
    );
}

fn rot_k_cache() -> KvCache {
    cache(KvQuant::RotKTq4V, KvStorage::RotKTq4V { v: Some(shape(8)) }, 7)
}

fn fetch(rotation: Option<u64>) -> RotKFetch {
    RotKFetch { k: tuple(10), rotation, group_size: 64, bits: 8 }
}

#[test]
fn rotated_k_decodes_on_the_device() {
    let mut c = rot_k_cache();
    let step = c.update_and_sdpa(call(1));
    let after = c;
    let (asked, end) = play(
        &mut c,
        step,
        vec![
            (after, Answer::RotK(fetch(Some(30)))),
            (after, Answer::Done),
            (after, Answer::One(tensor(20, 8))),
            (after, Answer::One(queries(21, 1))),
        ],
    );
    assert_eq!(
        asked,
        vec![
            Request::RotKUpdateK { new_k: 2 },
            Request::RotKAppendV { rows: None, shape: shape(1), new_v: 3 },
            Request::RotKDequantV { dtype: Dtype::Bf16 },
            Request::RotKTq4VSdpa {
                q: 1,
                k: tuple(10),
                v: 20,
                scale: ONE,
                mask: None,
                group_size: 64,
                bits: 8,
                rotation: Some(30),
            },
        ]
    );
    assert_eq!(outcome(end).out, queries(21, 1));
    assert_eq!(c.offset(), 8);
}

#[test]
fn rotated_k_on_the_host_goes_through_rows() {
    let mut c = rot_k_cache();
    let mut input = call(1);
    input.device = Device::Cpu;
    let step = c.update_and_sdpa(input);
    let after = c;
    let (asked, next) = play(
        &mut c,
        step,
        vec![
            (after, Answer::RotK(fetch(None))),
            (after, Answer::Host(50)),
            (after, Answer::Done),
            (after, Answer::Host(51)),
            (after, Answer::One(tensor(20, 8))),
        ],
    );
    assert_eq!(asked[1], Request::HostRows { x: 3 });
    assert_eq!(asked[2], Request::RotKAppendV { rows: Some(50), shape: shape(1), new_v: 3 });
    assert_eq!(asked[4], Request::UploadRows { rows: 51, shape: shape(8) });
    assert!(matches!(request(next), Request::RotKTq4VSdpa { rotation: None, .. }));
}

#[test]
fn sharing_rotated_k_falls_back_to_the_matrix() {
    let mut c = rot_k_cache();
    let step = c.update_and_sdpa_shared_source(call(1));
    let after = c;
    let (asked, end) = play(
        &mut c,
        step,
        vec![
            (after, Answer::RotK(fetch(Some(30)))),
            (after, Answer::Done),
            (after, Answer::One(tensor(20, 8))),
            (after, Answer::One(tensor(21, 8))),
            (after, Answer::Flag(true)),
            (after, Answer::Failed(9)),
            (after, Answer::One(queries(22, 1))),
            (after, Answer::One(queries(23, 1))),
        ],
    );
    assert_eq!(asked[3], Request::Dequantize { tuple: tuple(10), group_size: 64, bits: 8 });
    assert_eq!(asked[4], Request::FwhtSupported { d: 128 });
    assert_eq!(asked[5], Request::FwhtRotate { x: 1 });
    assert_eq!(asked[6], Request::RotateLastAxis { x: 1, rotation: 30 });
    assert_eq!(
        asked[7],
        Request::Sdpa { q: 22, k: 21, v: 20, scale: ONE, mode: MaskMode::Causal, mask: None }
    );
    assert_eq!(
        outcome(end).shared,
        Shared::Source(SharedKv::Bf16(tensor(21, 8), tensor(20, 8)))
    );
}

#[test]
fn sharing_rotated_k_without_the_fused_kernel() {
    let mut c = rot_k_cache();
    let mut input = call(1);
    input.toggles.rot_k_fused = false;
    input.mask = Some(5);
    let step = c.update_and_sdpa_returning_shared_kv(input);
    let after = c;
    let (_, next) = play(
        &mut c,
        step,
        vec![
            (after, Answer::RotK(fetch(Some(30)))),
            (after, Answer::Done),
            (after, Answer::One(tensor(20, 8))),
            (after, Answer::One(tensor(21, 8))),
        ],
    );
    assert_eq!(request(next), Request::RotateLastAxis { x: 1, rotation: 30 });
    let (_, next) = play(&mut c, next, vec![(after, Answer::One(queries(22, 1)))]);
    assert_eq!(
        request(next),
        Request::Sdpa { q: 22, k: 21, v: 20, scale: ONE, mode: MaskMode::Array, mask: Some(5) }
    );
}

#[test]
fn rotated_k_checks_its_storage() {
    let mut c = rot_k_cache();
    let step = c.update_and_sdpa(call(1));
    let torn = KvCache { storage: KvStorage::Plain(StorageKind::K8V4), ..c };
    let (_, end) = play(&mut c, step, vec![(torn, Answer::RotK(fetch(None)))]);
    assert_eq!(error_of(end), Error::RotKStorageMismatch { got: StorageKind::K8V4 });
    let mut c = cache(KvQuant::RotKTq4V, KvStorage::RotKTq4V { v: None }, 7);
    let step = c.update_and_sdpa(call(1));
    let after = c;
    let (_, end) = play(&mut c, step, vec![(after, Answer::RotK(fetch(None)))]);
    assert_eq!(error_of(end), Error::RotKValueBufferMissing);
}

#[test]
fn packed_k_runs_the_single_pass_kernel() {
    let mut c = cache(KvQuant::PlanarK, KvStorage::PlanarK { k: None, max_seq: 512 }, 7);
    let step = c.update_and_sdpa_shared_source(call(1));
    let filled = KvCache {
        storage: KvStorage::PlanarK { k: Some(shape(8)), max_seq: 512 },
        ..c
    };
    let view = Answer::Three(tensor(50, 8), tensor(51, 8), tensor(52, 8));
    let (asked, end) = play(
        &mut c,
        step,
        vec![
            (filled, Answer::Done),
            (filled, view),
            (filled, Answer::One(tensor(53, 8))),
            (filled, view),
            (filled, Answer::One(queries(54, 1))),
        ],
    );
    assert_eq!(
        asked,
        vec![
            Request::PlanarAppend { new_k: 2, shape: shape(1), fresh: true, max_seq: 512 },
            Request::PlanarView,
            Request::UpdateDecodeFp16V { new_v: 3, max_seq: 512 },
            Request::PlanarView,
            Request::PlanarFlash {
                q: 1,
                codes: 50,
                scales: 51,
                rot32: 52,
                v: 53,
                mask: None,
                geometry: Geometry {
                    b: 1,
                    kv_h: 8,
                    kv_seq: 8,
                    head_dim: 128,
                    n_q_heads: 16,
                    heads_per_kv: 2,
                },
                bits: 4,
                scale: ONE,
            },
        ]
    );
    let a = outcome(end);
    assert_eq!(a.out, queries(54, 1));
    assert_eq!(a.shared, Shared::Source(SharedKv::Store { kv_len: 8 }));
    assert_eq!(c.offset(), 8);
}

#[test]
fn packed_k_scores_come_before_the_softmax() {
    let mut c = planar_cache(7);
    let mut input = call(1);
    input.toggles.planar_flash_decode = false;
    input.mask = Some(60);
    let step = c.update_and_sdpa(input);
    let filled = KvCache {
        storage: KvStorage::PlanarK { k: Some(shape(8)), max_seq: 512 },
        ..c
    };
    let view = Answer::Three(tensor(50, 8), tensor(51, 8), tensor(52, 8));
    let (asked, end) = play(
        &mut c,
        step,
        vec![
            (filled, Answer::Done),
            (filled, view),
            (filled, Answer::One(tensor(53, 8))),
            (filled, view),
            (filled, Answer::One(wide(54, 1))),
            (filled, Answer::One(wide(55, 1))),
            (filled, Answer::One(wide(56, 1))),
            (filled, Answer::One(wide(57, 1))),
            (filled, Answer::One(tensor(58, 8))),
            (filled, Answer::One(wide(59, 1))),
            (filled, Answer::One(wide(61, 1))),
            (filled, Answer::One(queries(62, 1))),
        ],
    );
    assert!(matches!(asked[0], Request::PlanarAppend { fresh: false, .. }));
    assert!(matches!(asked[4], Request::PlanarScores { bits: 4, .. }));
    assert_eq!(asked[5], Request::Add { a: 54, b: 60 });
    assert_eq!(asked[6], Request::SoftmaxPrecise { x: 55 });
    assert_eq!(asked[7], Request::Reshape { x: 56, dims: Dims::D5(1, 8, 2, 1, 8) });
    assert_eq!(asked[8], Request::Reshape { x: 53, dims: Dims::D5(1, 8, 1, 8, 128) });
    assert_eq!(asked[9], Request::Matmul { a: 57, b: 58 });
    assert_eq!(asked[10], Request::Reshape { x: 59, dims: Dims::D4(1, 16, 1, 128) });
    assert_eq!(asked[11], Request::Astype { x: 61, dtype: Dtype::Bf16 });
    assert_eq!(outcome(end).out, queries(62, 1));
}

#[test]
fn packed_k_stands_back_while_a_seed_is_live() {
    let mut c = planar_cache(7);
    c.decode_fp16_k = Some(tensor(41, 512));
    assert!(matches!(request(c.update_and_sdpa(call(1))), Request::Flash { .. }));
    assert!(c.seed_bypasses_packed_k(&call(1)));
    assert!(!c.seed_bypasses_packed_k(&call(2)));
    let mut c = planar_cache(7);
    assert!(!c.seed_bypasses_packed_k(&call(1)));
    let mut input = call(1);
    input.device = Device::Cpu;
    assert!(matches!(request(c.update_and_sdpa(input)), Request::Flash { .. }));
    assert!(matches!(request(c.update_and_sdpa(call(2))), Request::Flash { .. }));
    assert!(matches!(
        request(c.update_and_sdpa_returning_shared_kv(call(1))),
        Request::Flash { lock: false, .. }
    ));
}

#[test]
fn packed_k_without_buffers_on_the_device_is_decoded() {
    let mut c = planar_cache(7);
    let mut input = call(1);
    input.mask_mode = MaskMode::Array;
    input.mask = Some(77);
    let step = c.update_and_sdpa_shared_source(input);
    let filled = planar_cache(8);
    let grown = KvCache { decode_fp16_v: Some(tensor(45, 512)), ..filled };
    let (asked, end) = play(
        &mut c,
        step,
        vec![
            (filled, Answer::Done),
            (filled, Answer::Absent),
            (grown, Answer::One(tensor(53, 8))),
            (grown, Answer::One(tensor(54, 8))),
            (grown, Answer::One(queries(55, 1))),
        ],
    );
    assert_eq!(
        asked[1..],
        [
            Request::PlanarView,
            Request::UpdateDecodeFp16V { new_v: 3, max_seq: 512 },
            Request::PlanarDequantK { dtype: Dtype::Bf16 },
            Request::Sdpa {
                q: 1,
                k: 54,
                v: 53,
                scale: ONE,
                mode: MaskMode::Array,
                mask: Some(77),
            },
        ]
    );
    // K is in the store already: no other arm may append it again.
    assert_eq!(asked.iter().filter(|q| appends_k(q)).count(), 1);
    let a = outcome(end);
    assert_eq!(a.out, queries(55, 1));
    assert_eq!(
        a.shared,
        Shared::Source(SharedKv::Bf16(tensor(54, 8), tensor(53, 8)))
    );
    assert_eq!(c, KvCache { offset: 8, ..grown });
}

#[test]
fn packed_k_decoded_on_the_host_comes_back_in_the_type_of_v() {
    let mut c = planar_cache(7);
    let step = c.update_and_sdpa(call(1));
    let filled = planar_cache(8);
    let (asked, end) = play(
        &mut c,
        step,
        vec![
            (filled, Answer::Done),
            (filled, Answer::Absent),
            (filled, Answer::One(tensor(53, 8))),
            (filled, Answer::Host(70)),
            (filled, Answer::One(wide(54, 8))),
            (filled, Answer::One(tensor(55, 8))),
            (filled, Answer::One(queries(56, 1))),
        ],
    );
    assert_eq!(asked[4], Request::UploadWide { rows: 70, shape: shape(8) });
    assert_eq!(asked[5], Request::Astype { x: 54, dtype: Dtype::Bf16 });
    assert!(matches!(asked[6], Request::Sdpa { k: 55, v: 53, mode: MaskMode::Open, .. }));
    assert_eq!(outcome(end).shared, Shared::Nothing);
    assert_eq!(c.offset(), 8);
    // A failure on the way ends the step, and K stays appended once.
    let mut c = planar_cache(7);
    let step = c.update_and_sdpa(call(1));
    let (asked, end) = play(
        &mut c,
        step,
        vec![
            (filled, Answer::Done),
            (filled, Answer::Absent),
            (filled, Answer::One(tensor(53, 8))),
            (filled, Answer::Failed(9)),
        ],
    );
    assert_eq!(error_of(end), Error::Outside(9));
    assert_eq!(asked.iter().filter(|q| appends_k(q)).count(), 1);
}

#[test]
fn rotor_k_attends_the_ring_at_the_stores_length() {
    let mut c = rotor_k_cache(7);
    let step = c.update_and_sdpa_shared_source(call(1));
    let filled = KvCache {
        storage: KvStorage::RotorKOnly3 { k: Some(rotor(8)), max_seq: 512 },
        offset: 500,
        ..c
    };
    let (asked, end) = play(
        &mut c,
        step,
        vec![
            (filled, Answer::Done),
            (filled, Answer::One(tensor(50, 8))),
            (filled, Answer::Three(tensor(51, 8), tensor(52, 8), tensor(53, 8))),
            (filled, Answer::One(wide(54, 1))),
            (filled, Answer::One(queries(55, 1))),
        ],
    );
    assert_eq!(asked[0], Request::RotorKAppend { bits: 3, new_k: 2, shape: shape(1) });
    assert_eq!(asked[1], Request::UpdateDecodeFp16V { new_v: 3, max_seq: 512 });
    assert_eq!(asked[2], Request::RotorView { side: Side::K, kv_seq: 8 });
    assert_eq!(asked[3], Request::RotorTable { side: Side::K });
    match asked[4] {
        Request::RotorFlash { bits, q, k, v, geometry, .. } => {
            assert_eq!((bits, q, v), (3, 1, 50));
            assert_eq!((k.codes.id, k.scales.id, k.norms.id, k.rotors.id), (51, 52, 53, 54));
            assert_eq!(geometry.kv_seq, 8);
        }
        other => panic!("{other:?}"),
    }
    assert_eq!(outcome(end).shared, Shared::Source(SharedKv::Store { kv_len: 8 }));
    assert_eq!(c.offset(), 8);
}

#[test]
fn rotor_k_gates() {
    // A store with the sideband keeps the host decode, whatever the toggle says.
    let mut c = cache(
        KvQuant::RotorKOnly4,
        KvStorage::RotorKOnly4 {
            k: Some(RotorKStore { shape: shape(7), use_qjl: true }),
            max_seq: 512,
        },
        7,
    );
    assert!(matches!(request(c.update_and_sdpa(call(1))), Request::Flash { .. }));
    // Before a store exists, the toggle decides.
    let fresh = KvStorage::RotorKOnly4 { k: None, max_seq: 512 };
    let mut c = cache(KvQuant::RotorKOnly4, fresh, 0);
    assert!(matches!(
        request(c.update_and_sdpa(call(1))),
        Request::RotorKAppend { bits: 4, .. }
    ));
    let mut input = call(1);
    input.toggles.rotor_qjl = true;
    assert!(matches!(request(c.update_and_sdpa(input)), Request::Flash { .. }));
    assert!(rotor_k_store_uses_qjl(&fresh, true));
    assert!(!rotor_k_store_uses_qjl(&fresh, false));
    assert!(!rotor_k_store_uses_qjl(&rotor_k_cache(7).storage, true));
    assert!(!rotor_sym_store_uses_qjl(&sym_cache(7).storage, true));
    // A shape that the kernel does not take falls through untouched.
    let mut input = call(1);
    input.new_k.shape = Shape::new(&[2, 8, 1, 128]);
    assert!(matches!(request(c.update_and_sdpa(input)), Request::Flash { .. }));
    input.new_k.shape = Shape::new(&[8, 1, 128]);
    assert_eq!(
        error_of(c.update_and_sdpa(input)),
        Error::NewKRank { path: Fused::RotorK, shape: Shape::new(&[8, 1, 128]) }
    );
}

#[test]
fn symmetric_rotor_reads_both_rings_under_their_own_tables() {
    let mut c = sym_cache(7);
    let mut input = call(1);
    input.new_v.dtype = Dtype::F16;
    let step = c.update_and_sdpa_shared_source(input);
    assert_eq!(c.stream_dtype, Some(Dtype::F16));
    let filled = KvCache {
        storage: KvStorage::RotorSym4 { k: Some(rotor(8)), v: Some(shape(8)), max_seq: 512 },
        ..c
    };
    let (asked, end) = play(
        &mut c,
        step,
        vec![
            (filled, Answer::Done),
            (filled, Answer::Three(tensor(51, 8), tensor(52, 8), tensor(53, 8))),
            (filled, Answer::Three(tensor(61, 8), tensor(62, 8), tensor(63, 8))),
            (filled, Answer::One(wide(54, 1))),
            (filled, Answer::One(wide(64, 1))),
            (filled, Answer::One(queries(70, 1))),
        ],
    );
    assert_eq!(
        asked[0],
        Request::RotorSymAppend { bits: 4, new_k: 2, new_v: 3, shape: shape(1) }
    );
    assert_eq!(asked[1], Request::RotorView { side: Side::K, kv_seq: 8 });
    assert_eq!(asked[2], Request::RotorView { side: Side::V, kv_seq: 8 });
    assert_eq!(asked[3], Request::RotorTable { side: Side::K });
    assert_eq!(asked[4], Request::RotorTable { side: Side::V });
    match asked[5] {
        Request::RotorSymFlash { bits, k, v, .. } => {
            assert_eq!(bits, 4);
            assert_eq!((k.codes.id, k.rotors.id), (51, 54));
            assert_eq!((v.codes.id, v.rotors.id), (61, 64));
        }
        other => panic!("{other:?}"),
    }
    assert_eq!(outcome(end).shared, Shared::Source(SharedKv::Store { kv_len: 8 }));
    assert_eq!(c.offset(), 8);
}

#[test]
fn one_ring_alone_is_not_read() {
    let mut c = sym_cache(7);
    let step = c.update_and_sdpa(call(1));
    let filled = sym_cache(8);
    let (asked, end) = play(
        &mut c,
        step,
        vec![
            (filled, Answer::Done),
            (filled, Answer::Absent),
            (filled, Answer::Three(tensor(61, 8), tensor(62, 8), tensor(63, 8))),
        ],
    );
    assert_eq!(asked.len(), 3);
    assert_eq!(error_of(end), Error::ViewAbsent { path: Fused::RotorSym, kv_seq: 8 });
}

#[test]
fn symmetric_stores_that_diverge_are_refused() {
    let mut c = sym_cache(7);
    let step = c.update_and_sdpa(call(1));
    let torn = KvCache {
        storage: KvStorage::RotorSym4 { k: Some(rotor(8)), v: Some(shape(7)), max_seq: 512 },
        ..c
    };
    let (_, end) = play(&mut c, step, vec![(torn, Answer::Done)]);
    assert_eq!(error_of(end), Error::AxesDiverge { k_seq: 8, v_seq: 7 });

    let mut c = sym_cache(7);
    let step = c.update_and_sdpa(call(1));
    let flat = KvCache {
        storage: KvStorage::RotorSym4 {
            k: Some(rotor(8)),
            v: Some(Shape::new(&[1, 8])),
            max_seq: 512,
        },
        ..c
    };
    let (_, end) = play(&mut c, step, vec![(flat, Answer::Done)]);
    assert_eq!(
        error_of(end),
        Error::NoSeqAxis { path: Fused::RotorSym, side: Side::V, shape: Shape::new(&[1, 8]) }
    );
}

#[test]
fn flash_then_fused_qk_then_the_codecs_own_update() {
    let mut c = cache(KvQuant::K8V4, KvStorage::Plain(StorageKind::K8V4), 7);
    let step = c.update_and_sdpa(call(1));
    let moved = KvCache { offset: 50, ..c };
    let grown = KvCache { offset: 8, ..c };
    let (asked, end) = play(
        &mut c,
        step,
        vec![
            (moved, Answer::Absent),
            (moved, Answer::Absent),
            (grown, Answer::Two(tensor(10, 8), tensor(11, 8))),
            (grown, Answer::One(queries(12, 1))),
        ],
    );
    assert!(matches!(asked[0], Request::Flash { lock: true, queries: 1, new_k: 2, new_v: 3, .. }));
    assert!(matches!(asked[1], Request::FusedQk { queries: 1, new_k: 2, new_v: 3, .. }));
    assert_eq!(asked[2], Request::Update { new_k: 2, new_v: 3 });
    assert!(matches!(asked[3], Request::Sdpa { k: 10, v: 11, mode: MaskMode::Open, .. }));
    assert_eq!(outcome(end).out, queries(12, 1));
    assert_eq!(c.offset(), 8);
}

#[test]
fn flash_of_a_producer_shares_the_mirrors_up_to_the_offset() {
    let mut c = cache(KvQuant::K8V4, KvStorage::Plain(StorageKind::K8V4), 7);
    let step = c.update_and_sdpa_shared_source(call(1));
    let mirrored = KvCache {
        offset: 8,
        decode_fp16_k: Some(tensor(41, 512)),
        decode_fp16_v: Some(tensor(42, 512)),
        ..c
    };
    let (asked, end) = play(
        &mut c,
        step,
        vec![
            (mirrored, Answer::One(queries(12, 1))),
            (mirrored, Answer::One(tensor(13, 8))),
            (mirrored, Answer::One(tensor(14, 8))),
        ],
    );
    assert!(matches!(asked[0], Request::Flash { lock: false, .. }));
    assert_eq!(asked[1], Request::Slice { x: 41, stop: Dims::D4(1, 8, 8, 128) });
    assert_eq!(asked[2], Request::Slice { x: 42, stop: Dims::D4(1, 8, 8, 128) });
    let a = outcome(end);
    assert_eq!(a.out, queries(12, 1));
    assert_eq!(a.shared, Shared::Source(SharedKv::Bf16(tensor(13, 8), tensor(14, 8))));
}

fn mirrored_end(k: Option<Tensor>, v: Option<Tensor>, offset: i32) -> Error {
    let mut c = cache(KvQuant::K8V4, KvStorage::Plain(StorageKind::K8V4), 7);
    let step = c.update_and_sdpa_returning_shared_kv(call(1));
    let after = KvCache { offset, decode_fp16_k: k, decode_fp16_v: v, ..c };
    let (_, end) = play(
        &mut c,
        step,
        vec![(after, Answer::Absent), (after, Answer::One(queries(12, 1)))],
    );
    error_of(end)
}

#[test]
fn mirrors_are_checked_before_they_are_shared() {
    let good = Some(tensor(41, 512));
    assert_eq!(mirrored_end(None, good, 8), Error::MirrorMissing { side: Side::K });
    assert_eq!(mirrored_end(good, None, 8), Error::MirrorMissing { side: Side::V });
    let flat = Tensor { shape: Shape::new(&[8, 128]), ..tensor(43, 1) };
    assert_eq!(
        mirrored_end(good, Some(flat), 8),
        Error::MirrorRank { k: shape(512), v: Shape::new(&[8, 128]) }
    );
    let batched = Tensor { shape: Shape::new(&[2, 8, 512, 128]), ..tensor(43, 1) };
    assert_eq!(
        mirrored_end(Some(batched), good, 8),
        Error::MirrorAxis { side: Side::K, axis: Axis::Batch, mirror: 2, step: 1 }
    );
    let headed = Tensor { shape: Shape::new(&[1, 4, 512, 128]), ..tensor(43, 1) };
    assert_eq!(
        mirrored_end(good, Some(headed), 8),
        Error::MirrorAxis { side: Side::V, axis: Axis::Heads, mirror: 4, step: 8 }
    );
    let thin = Tensor { shape: Shape::new(&[1, 8, 512, 64]), ..tensor(43, 1) };
    assert_eq!(
        mirrored_end(Some(thin), good, 8),
        Error::MirrorAxis { side: Side::K, axis: Axis::HeadDim, mirror: 64, step: 128 }
    );
    assert_eq!(
        mirrored_end(Some(tensor(41, 8)), good, 9),
        Error::OffsetExceedsMirror { offset: 9, k_seq: 8, v_seq: 512 }
    );
}

#[test]
fn failures_and_strange_answers_end_a_step() {
    let mut c = cache(KvQuant::K8V4, KvStorage::Plain(StorageKind::K8V4), 7);
    let step = c.update_and_sdpa(call(1));
    let after = c;
    let (_, end) = play(&mut c, step, vec![(after, Answer::Failed(31))]);
    assert_eq!(error_of(end), Error::Outside(31));
    let step = c.update_and_sdpa(call(1));
    let (_, end) = play(&mut c, step, vec![(after, Answer::Flag(true))]);
    assert_eq!(error_of(end), Error::Protocol);
}

#[test]
fn producer_asks_what_a_plain_step_asks() {
    for storage in [
        KvStorage::PlanarK { k: Some(shape(7)), max_seq: 512 },
        KvStorage::RotorKOnly3 { k: Some(rotor(7)), max_seq: 512 },
        KvStorage::RotorSym4 { k: Some(rotor(7)), v: Some(shape(7)), max_seq: 512 },
    ] {
        let mut plain = cache(KvQuant::PlanarK, storage, 7);
        let mut producer = plain;
        assert_eq!(
            request(plain.update_and_sdpa(call(1))),
            request(producer.update_and_sdpa_shared_source(call(1)))
        );
        assert_eq!(plain, producer);
    }
}

fn store_call(kv_seq: i32) -> StoreCall {
    StoreCall {
        queries: queries(80, 1),
        scale: ONE,
        mask: None,
        kv_seq,
        planar_flash_decode: true,
    }
}

fn consumer_error(step: ConsumerStep) -> Error {
    match step {
        ConsumerStep::Done(Err(e)) => e,
        other => panic!("{other:?}"),
    }
}

#[test]
fn consumer_attends_the_producers_store() {
    let c = rotor_k_cache(8);
    let before = c;
    let (run, request) = match c.sdpa_shared(store_call(8)) {
        ConsumerStep::Ask { run, request } => (run, request),
        other => panic!("{other:?}"),
    };
    assert_eq!(request, Request::Slice { x: 40, stop: Dims::D4(1, 8, 8, 128) });
    let (run, request) = match c.resume_shared(run, Answer::One(tensor(50, 8))) {
        ConsumerStep::Ask { run, request } => (run, request),
        other => panic!("{other:?}"),
    };
    assert_eq!(request, Request::RotorView { side: Side::K, kv_seq: 8 });
    let ring = Answer::Three(tensor(51, 8), tensor(52, 8), tensor(53, 8));
    let (run, request) = match c.resume_shared(run, ring) {
        ConsumerStep::Ask { run, request } => (run, request),
        other => panic!("{other:?}"),
    };
    assert_eq!(request, Request::RotorTable { side: Side::K });
    let (run, request) = match c.resume_shared(run, Answer::One(wide(54, 1))) {
        ConsumerStep::Ask { run, request } => (run, request),
        other => panic!("{other:?}"),
    };
    assert!(matches!(request, Request::RotorFlash { bits: 3, q: 80, v: 50, .. }));
    match c.resume_shared(run, Answer::One(queries(81, 1))) {
        ConsumerStep::Done(Ok(out)) => assert_eq!(out, queries(81, 1)),
        other => panic!("{other:?}"),
    }
    assert_eq!(c, before);
}

#[test]
fn consumer_of_both_rings_needs_no_mirror() {
    let c = sym_cache(8);
    assert!(matches!(
        c.sdpa_shared(store_call(8)),
        ConsumerStep::Ask { request: Request::RotorView { side: Side::K, kv_seq: 8 }, .. }
    ));
}

#[test]
fn consumer_rejects_what_it_cannot_attend() {
    let c = cache(KvQuant::K8V4, KvStorage::Plain(StorageKind::K8V4), 8);
    assert_eq!(
        consumer_error(c.sdpa_shared(store_call(8))),
        Error::NoConsumerPath { got: StorageKind::K8V4 }
    );
    assert_eq!(
        consumer_error(planar_cache(8).sdpa_shared(store_call(7))),
        Error::SharedLenDesync { reported: 7, actual: 8 }
    );
    let mut c = planar_cache(8);
    c.decode_fp16_v = None;
    assert_eq!(consumer_error(c.sdpa_shared(store_call(8))), Error::ShareMirrorMissing);
    c.decode_fp16_v = Some(Tensor { shape: Shape::new(&[8, 128]), ..tensor(40, 1) });
    assert_eq!(
        consumer_error(c.sdpa_shared(store_call(8))),
        Error::ShareMirrorRank { shape: Shape::new(&[8, 128]) }
    );
    c.decode_fp16_v = Some(tensor(40, 7));
    assert_eq!(
        consumer_error(c.sdpa_shared(store_call(8))),
        Error::ShareExceedsMirror { kv_seq: 8, v_seq: 7 }
    );
    let c = cache(KvQuant::PlanarK, KvStorage::PlanarK { k: None, max_seq: 512 }, 8);
    assert_eq!(
        consumer_error(c.sdpa_shared(store_call(8))),
        Error::KvStorageMismatch { expected: Expected::PlanarKLive, got: StorageKind::PlanarK }
    );
    assert_eq!(check_shared_kv_len(8, 8), Ok(()));
}

/// A step that goes to its packed store with queries and a V of the given shapes.
fn planar_end(q: Shape, store: Shape, view: Answer) -> Error {
    let mut c = cache(KvQuant::PlanarK, KvStorage::PlanarK { k: Some(store), max_seq: 512 }, 8);
    c.decode_fp16_v = Some(tensor(40, 512));
    let call = StoreCall { queries: Tensor { shape: q, ..queries(80, 1) }, ..store_call(8) };
    let run = match c.sdpa_shared(call) {
        ConsumerStep::Ask { run, .. } => run,
        other => panic!("{other:?}"),
    };
    let run = match c.resume_shared(run, Answer::One(tensor(50, 8))) {
        ConsumerStep::Ask { run, .. } => run,
        other => panic!("{other:?}"),
    };
    consumer_error(c.resume_shared(run, view))
}

#[test]
fn queries_must_fit_the_store() {
    let view = Answer::Three(tensor(50, 8), tensor(51, 8), tensor(52, 8));
    let q = Shape::new(&[1, 16, 1, 128]);
    assert_eq!(
        planar_end(Shape::new(&[16, 1, 128]), shape(8), view),
        Error::QueryRank { path: Fused::PlanarK, shape: Shape::new(&[16, 1, 128]) }
    );
    assert_eq!(
        planar_end(Shape::new(&[1, 16, 2, 128]), shape(8), view),
        Error::NotDecode { path: Fused::PlanarK, q_seq: 2 }
    );
    assert_eq!(
        planar_end(Shape::new(&[1, 15, 1, 128]), shape(8), view),
        Error::HeadsNotDivisible { path: Fused::PlanarK, n_q_heads: 15, kv_h: 8 }
    );
    assert_eq!(
        planar_end(q, Shape::new(&[1, 0, 8, 128]), view),
        Error::HeadsNotDivisible { path: Fused::PlanarK, n_q_heads: 16, kv_h: 0 }
    );
    assert_eq!(
        planar_end(q, Shape::new(&[8, 128, 8]), view),
        Error::StoreRank { path: Fused::PlanarK, shape: Shape::new(&[8, 128, 8]) }
    );
    assert_eq!(
        planar_end(q, shape(8), Answer::Absent),
        Error::ViewAbsent { path: Fused::PlanarK, kv_seq: 8 }
    );
}

#[test]
fn values_must_be_of_rank_four() {
    let c = rotor_k_cache(8);
    let run = match c.sdpa_shared(store_call(8)) {
        ConsumerStep::Ask { run, .. } => run,
        other => panic!("{other:?}"),
    };
    let flat = Tensor { shape: Shape::new(&[8, 128]), ..tensor(50, 1) };
    let run = match c.resume_shared(run, Answer::One(flat)) {
        ConsumerStep::Ask { run, .. } => run,
        other => panic!("{other:?}"),
    };
    let ring = Answer::Three(tensor(51, 8), tensor(52, 8), tensor(53, 8));
    let run = match c.resume_shared(run, ring) {
        ConsumerStep::Ask { run, .. } => run,
        other => panic!("{other:?}"),
    };
    assert_eq!(
        consumer_error(c.resume_shared(run, Answer::One(wide(54, 1)))),
        Error::ValueRank { path: Fused::RotorK, shape: Shape::new(&[8, 128]) }
    );
}

#[test]
fn store_that_vanishes_is_noticed() {
    let mut c = planar_cache(7);
    let step = c.update_and_sdpa(call(1));
    let gone = cache(KvQuant::PlanarK, KvStorage::PlanarK { k: None, max_seq: 512 }, 7);
    let view = Answer::Three(tensor(50, 8), tensor(51, 8), tensor(52, 8));
    let (_, end) = play(&mut c, step, vec![(gone, Answer::Done), (gone, view)]);
    assert_eq!(error_of(end), Error::StoreAbsent { path: Fused::PlanarK });
}

fn play_tensors(c: &KvCache, mut step: TensorsStep, answers: Vec<Answer>) -> (Vec<Request>, TensorsStep) {
    let mut asked = Vec::new();
    for answer in answers {
        match step {
            TensorsStep::Ask { run, request } => {
                asked.push(request);
                step = c.resume_materialise(run, answer);
            }
            TensorsStep::Done(_) => panic!("done early: {step:?}"),
        }
    }
    (asked, step)
}

#[test]
fn materialised_k_follows_the_mirrors_type() {
    let c = rotor_k_cache(8);
    let (asked, end) = play_tensors(
        &c,
        c.materialise_shared_kv(8),
        vec![
            Answer::One(tensor(50, 8)),
            Answer::One(wide(51, 8)),
            Answer::One(tensor(52, 8)),
        ],
    );
    assert_eq!(asked[0], Request::Slice { x: 40, stop: Dims::D4(1, 8, 8, 128) });
    assert_eq!(asked[1], Request::DequantStore { side: Side::K });
    assert_eq!(asked[2], Request::Astype { x: 51, dtype: Dtype::Bf16 });
    assert_eq!(end, TensorsStep::Done(Ok((tensor(52, 8), tensor(50, 8)))));
}

#[test]
fn materialised_packed_k_may_come_from_the_host() {
    let c = planar_cache(8);
    let (asked, end) = play_tensors(
        &c,
        c.materialise_shared_kv(8),
        vec![Answer::One(tensor(50, 8)), Answer::Host(9), Answer::One(tensor(51, 8))],
    );
    assert_eq!(asked[1], Request::PlanarDequantK { dtype: Dtype::Bf16 });
    assert_eq!(asked[2], Request::UploadWide { rows: 9, shape: shape(8) });
    assert_eq!(end, TensorsStep::Done(Ok((tensor(51, 8), tensor(50, 8)))));
}

#[test]
fn materialised_pair_of_both_rings_takes_the_recorded_type() {
    let mut c = sym_cache(8);
    c.stream_dtype = Some(Dtype::Bf16);
    let (asked, end) = play_tensors(
        &c,
        c.materialise_shared_kv(8),
        vec![
            Answer::One(wide(50, 8)),
            Answer::One(wide(51, 8)),
            Answer::One(tensor(52, 8)),
            Answer::One(tensor(53, 8)),
        ],
    );
    assert_eq!(asked[2], Request::Astype { x: 51, dtype: Dtype::Bf16 });
    assert_eq!(asked[3], Request::Astype { x: 50, dtype: Dtype::Bf16 });
    assert_eq!(end, TensorsStep::Done(Ok((tensor(53, 8), tensor(52, 8)))));
}

#[test]
fn materialisation_errors() {
    let c = cache(KvQuant::K8V4, KvStorage::Plain(StorageKind::K8V4), 8);
    assert_eq!(
        c.materialise_shared_kv(8),
        TensorsStep::Done(Err(Error::NoStoreBackedShare { got: StorageKind::K8V4 }))
    );
    assert_eq!(
        sym_cache(8).materialise_shared_kv(9),
        TensorsStep::Done(Err(Error::SharedLenDesync { reported: 9, actual: 8 }))
    );
    let c = sym_cache(8);
    let (_, end) = play_tensors(
        &c,
        c.materialise_shared_kv(8),
        vec![Answer::One(wide(50, 8)), Answer::One(wide(51, 8))],
    );
    assert_eq!(end, TensorsStep::Done(Err(Error::NoStreamDtype)));
    // A runtime that casts to the wrong type is caught.
    let c = rotor_k_cache(8);
    let (_, end) = play_tensors(
        &c,
        c.materialise_shared_kv(8),
        vec![Answer::One(tensor(50, 8)), Answer::One(wide(51, 8)), Answer::One(wide(52, 8))],
    );
    assert_eq!(
        end,
        TensorsStep::Done(Err(Error::DtypeSplit { k: Dtype::F32, v: Dtype::Bf16 }))
    );
}

#[test]
fn shares_of_tuples_and_of_stores_do_not_mix() {
    let mut c = rotor_k_cache(7);
    let step = c.update_and_sdpa_returning_shared_kv(call(1));
    let grown = KvCache { offset: 8, ..c };
    let (_, end) = play(
        &mut c,
        step,
        vec![
            (grown, Answer::Absent),
            (grown, Answer::Absent),
            (grown, Answer::Two(tensor(10, 8), tensor(11, 8))),
            (grown, Answer::One(queries(12, 1))),
        ],
    );
    assert_eq!(
        outcome(end).shared,
        Shared::Out(SharedKvOut::Bf16(tensor(10, 8), tensor(11, 8)))
    );
}

fn appends_k(request: &Request) -> bool {
    matches!(
        request,
        Request::Update { .. }
            | Request::PrefillRaw { .. }
            | Request::MixedUpdateAndFetch { .. }
            | Request::RotKUpdateK { .. }
            | Request::PlanarAppend { .. }
            | Request::RotorKAppend { .. }
            | Request::RotorSymAppend { .. }
            | Request::Flash { .. }
            | Request::FusedQk { .. }
    )
}

#[test]
fn step_appends_once_moves_once_and_ends() {
    // The longest way: scores over packed K, a mask, and a cast.
    let mut c = planar_cache(7);
    let mut input = call(1);
    input.toggles.planar_flash_decode = false;
    input.mask = Some(60);
    let step = c.update_and_sdpa_shared_source(input);
    let filled = planar_cache(8);
    let view = Answer::Three(tensor(50, 8), tensor(51, 8), tensor(52, 8));
    let mut script = vec![
        (filled, Answer::Done),
        (filled, view),
        (filled, Answer::One(tensor(53, 8))),
        (filled, view),
    ];
    for id in 54..62 {
        script.push((filled, Answer::One(wide(id, 1))));
    }
    let (asked, end) = play(&mut c, step, script);
    assert_eq!(asked.len(), 12);
    assert_eq!(asked.iter().filter(|q| appends_k(q)).count(), 1);
    assert_eq!(
        asked.iter().filter(|q| matches!(q, Request::UpdateDecodeFp16V { .. })).count(),
        1
    );
    assert_eq!(outcome(end).shared, Shared::Source(SharedKv::Store { kv_len: 8 }));
    assert_eq!(c.offset(), 8);
}

#[test]
fn consumer_accepts_what_the_producer_shared() {
    let mut c = sym_cache(7);
    let step = c.update_and_sdpa_shared_source(call(1));
    let filled = sym_cache(8);
    let ring = Answer::Three(tensor(51, 8), tensor(52, 8), tensor(53, 8));
    let script = vec![
        (filled, Answer::Done),
        (filled, ring),
        (filled, ring),
        (filled, Answer::One(wide(54, 1))),
        (filled, Answer::One(wide(64, 1))),
        (filled, Answer::One(queries(70, 1))),
    ];
    let (asked, end) = play(&mut c, step, script);
    let kv_len = match outcome(end).shared {
        Shared::Source(SharedKv::Store { kv_len }) => kv_len,
        other => panic!("{other:?}"),
    };
    // The consumer asks for what the producer asked for behind its append.
    let mut step = c.sdpa_shared(StoreCall { queries: queries(1, 1), ..store_call(kv_len) });
    for (request, answer) in asked[1..].iter().zip([
        ring,
        ring,
        Answer::One(wide(54, 1)),
        Answer::One(wide(64, 1)),
        Answer::One(queries(70, 1)),
    ]) {
        match step {
            ConsumerStep::Ask { run, request: wanted } => {
                assert_eq!(wanted, *request);
                step = c.resume_shared(run, answer);
            }
            ConsumerStep::Done(_) => panic!("{step:?}"),
        }
    }
    assert_eq!(step, ConsumerStep::Done(Ok(queries(70, 1))));
}

#[test]
fn gates_leave_the_cache_alone() {
    let before = rotor_k_cache(7);
    let mut c = before;
    c.update_and_sdpa(call(1));
    assert_eq!(c, before);
    let before = sym_cache(7);
    let mut c = before;
    c.update_and_sdpa(call(1));
    assert_eq!(c, KvCache { stream_dtype: Some(Dtype::Bf16), ..before });
    let mut c = before;
    let mut input = call(1);
    input.device = Device::Cpu;
    c.update_and_sdpa(input);
    assert_eq!(c, before);
}

#[test]
fn append_takes_over_what_it_wrote_and_nothing_else() {
    // Whatever else a runtime says, the mirrors, the recorded type, the prefill
    // flag and the offset are not for an append to the rings to change.
    let mut c = sym_cache(7);
    c.decode_fp16_v = Some(tensor(42, 512));
    let before = c;
    let mut input = call(1);
    input.new_v.dtype = Dtype::F16;
    let step = c.update_and_sdpa(input);
    let strange = KvCache {
        quant: KvQuant::Bf16,
        offset: 99,
        in_prefill: true,
        rotating: true,
        decode_fp16_k: Some(tensor(43, 512)),
        decode_fp16_v: None,
        stream_dtype: Some(Dtype::F32),
        ..sym_cache(8)
    };
    let ring = Answer::Three(tensor(51, 8), tensor(52, 8), tensor(53, 8));
    let (_, end) = play(
        &mut c,
        step,
        vec![
            (strange, Answer::Done),
            (strange, ring),
            (strange, ring),
            (strange, Answer::One(wide(54, 1))),
            (strange, Answer::One(wide(64, 1))),
            (strange, Answer::One(queries(70, 1))),
        ],
    );
    assert_eq!(outcome(end).out, queries(70, 1));
    assert_eq!(
        c,
        KvCache {
            storage: sym_cache(8).storage,
            offset: 8,
            stream_dtype: Some(Dtype::F16),
            ..before
        }
    );
    // The V mirror alone follows an append to it.
    let mut c = rotor_k_cache(7);
    let before = c;
    let step = c.update_and_sdpa(call(1));
    let strange = KvCache { storage: rotor_k_cache(8).storage, ..strange };
    let grown = KvCache { decode_fp16_v: Some(tensor(44, 512)), ..strange };
    play(
        &mut c,
        step,
        vec![(strange, Answer::Done), (grown, Answer::One(tensor(50, 8)))],
    );
    assert_eq!(
        c,
        KvCache {
            storage: rotor_k_cache(8).storage,
            offset: 8,
            decode_fp16_v: Some(tensor(44, 512)),
            ..before
        }
    );
    // A kernel that turns the step down has written nothing.
    let mut c = cache(KvQuant::K8V4, KvStorage::Plain(StorageKind::K8V4), 7);
    let before = c;
    let step = c.update_and_sdpa(call(1));
    play(&mut c, step, vec![(strange, Answer::Absent), (strange, Answer::Absent)]);
    assert_eq!(c, before);
}

#[test]
fn consumer_answered_as_its_producer_ends_with_the_same_output() {
    let mut c = planar_cache(7);
    let step = c.update_and_sdpa_shared_source(call(1));
    let filled = planar_cache(8);
    let view = Answer::Three(tensor(50, 8), tensor(51, 8), tensor(52, 8));
    let (_, end) = play(
        &mut c,
        step,
        vec![
            (filled, Answer::Done),
            (filled, view),
            (filled, Answer::One(tensor(53, 8))),
            (filled, view),
            (filled, Answer::One(queries(54, 1))),
        ],
    );
    let a = outcome(end);
    assert_eq!(a.shared, Shared::Source(SharedKv::Store { kv_len: 8 }));
    let last = c;
    let mut step = c.sdpa_shared(StoreCall { queries: queries(1, 1), ..store_call(8) });
    for answer in [Answer::One(tensor(53, 8)), view, Answer::One(queries(54, 1))] {
        step = match step {
            ConsumerStep::Ask { run, .. } => c.resume_shared(run, answer),
            ConsumerStep::Done(_) => panic!("{step:?}"),
        };
    }
    assert_eq!(step, ConsumerStep::Done(Ok(a.out)));
    assert_eq!(c, last);
}

#[test]
fn every_arm_moves_the_offset_by_the_step() {
    let ring = Answer::Three(tensor(51, 8), tensor(52, 8), tensor(53, 8));
    let grown = |c: KvCache| KvCache { offset: 8, ..c };
    // The codec's own update, behind two kernels that turned the step down.
    let mut c = cache(KvQuant::K8V4, KvStorage::Plain(StorageKind::K8V4), 7);
    let after = grown(c);
    let step = c.update_and_sdpa(call(1));
    let script = vec![
        (after, Answer::Absent),
        (after, Answer::Absent),
        (after, Answer::Two(tensor(10, 8), tensor(11, 8))),
        (after, Answer::One(queries(12, 1))),
    ];
    let (_, end) = play(&mut c, step, script);
    outcome(end);
    assert_eq!(c.offset(), 8);
    // A store arm.
    let mut c = sym_cache(7);
    let after = sym_cache(8);
    let step = c.update_and_sdpa(call(1));
    let script = vec![
        (after, Answer::Done),
        (after, ring),
        (after, ring),
        (after, Answer::One(wide(54, 1))),
        (after, Answer::One(wide(64, 1))),
        (after, Answer::One(queries(70, 1))),
    ];
    let (_, end) = play(&mut c, step, script);
    outcome(end);
    assert_eq!(c.offset(), 8);
    // The tuples, whose shared pair holds every position.
    let quant = KvQuant::RotK { v_bits: 4, v_group_size: 32 };
    let mut c = cache(quant, affine(quant), 7);
    let step = c.update_and_sdpa_shared_source(call(1));
    let after = c;
    let script = vec![
        (after, Answer::Mixed { k: tuple(10), v: tuple(20), rotation: None }),
        (after, Answer::One(queries(12, 1))),
        (after, Answer::Two(tensor(13, 8), tensor(14, 8))),
    ];
    let (_, end) = play(&mut c, step, script);
    match outcome(end).shared {
        Shared::Source(SharedKv::Bf16(k, v)) => {
            assert_eq!((k.shape.dim(2), v.shape.dim(2)), (Some(c.offset()), Some(c.offset())));
        }
        other => panic!("{other:?}"),
    }
    assert_eq!(c.offset(), 8);
}
