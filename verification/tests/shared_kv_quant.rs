//! What a producer of the mixed-precision path hands to its consumers.
use rmlx::error::Error;
use rmlx::kvcache::request::{Answer, Call, MixedTuple, Reply, Request, Toggles};
use rmlx::kvcache::step::{Attended, Shared, Step};
use rmlx::kvcache::storage::KvStorage;
use rmlx::kvcache::{KvCache, SharedKvOut};
use rmlx::tensor::{Device, Dtype, MaskMode, Shape, Tensor};
use rmlx::KvQuant;

const KV_H: i32 = 8;
const Q_H: i32 = 16;
const HEAD_DIM: i32 = 128;
const MAX_SEQ: i32 = 512;
const PREFILL_SEQ: i32 = 64;

fn f32_arr(id: u64, shape: &[i32]) -> Tensor {
    Tensor { id, shape: Shape::new(shape), dtype: Dtype::F32 }
}

fn toggles() -> Toggles {
    Toggles { planar_fused_qk: true, planar_flash_decode: true, rotor_qjl: true, rot_k_fused: true }
}

fn tuple(id: u64, seq: i32, bits: i32) -> MixedTuple {
    MixedTuple {
        codes: Tensor { id, shape: Shape::new(&[1, KV_H, seq, HEAD_DIM * bits / 32]), dtype: Dtype::U32 },
        scales: f32_arr(id + 1, &[1, KV_H, seq, HEAD_DIM / 64]),
        biases: f32_arr(id + 2, &[1, KV_H, seq, HEAD_DIM / 64]),
    }
}

/// A runtime that keeps the length of the cache and nothing else.
fn drive(cache: &mut KvCache, mut step: Step) -> Result<Attended, Error> {
    loop {
        match step {
            Step::Done(result) => return result,
            Step::Ask { run, request } => {
                let seq = cache.offset();
                let answer = match request {
                    Request::PrefillRaw { .. } => Answer::Two(
                        f32_arr(100, &[1, KV_H, seq, HEAD_DIM]),
                        f32_arr(101, &[1, KV_H, seq, HEAD_DIM]),
                    ),
                    Request::Sdpa { .. } => Answer::One(f32_arr(102, &[1, Q_H, 1, HEAD_DIM])),
                    Request::MixedUpdateAndFetch { .. } => Answer::Mixed {
                        k: tuple(200, seq, 8),
                        v: tuple(210, seq, 4),
                        rotation: None,
                    },
                    Request::MixedSdpa { params, .. } => {
                        assert_eq!(params.k_group_size, 64);
                        assert_eq!(params.v_group_size, 64);
                        Answer::One(f32_arr(220, &[1, Q_H, 1, HEAD_DIM]))
                    }
                    other => panic!("unexpected request {other:?}"),
                };
                let reply = Reply { cache: *cache, answer };
                step = cache.resume(run, reply);
            }
        }
    }
}

/// Producer surfaces `Bf16` at prefill and `MixedQuant` at decode, with the
/// quant 3-tuples spanning the full accumulated prefix+1 and carrying the
/// codec's quant params.
#[test]
fn shared_kv_quant_surfaces_mixedquant_at_decode() {
    let device = Device::Gpu;
    // K8V4 Mixed: K 8-bit, V 4-bit, group size 64.
    let quant = KvQuant::Mixed { k_bits: 8, v_bits: 4, k_group_size: 64, v_group_size: 64 };
    let mut cache = KvCache {
        quant,
        storage: KvStorage::Mixed {
            params: quant.mixed_params().expect("an affine mode"),
            max_seq: MAX_SEQ,
        },
        offset: 0,
        in_prefill: true,
        rotating: false,
        persistent: true,
        decode_fp16_k: None,
        decode_fp16_v: None,
        stream_dtype: None,
    };

    let k_pref = f32_arr(1, &[1, KV_H, PREFILL_SEQ, HEAD_DIM]);
    let v_pref = f32_arr(2, &[1, KV_H, PREFILL_SEQ, HEAD_DIM]);
    let q_pref = f32_arr(3, &[1, Q_H, PREFILL_SEQ, HEAD_DIM]);
    let step = cache.update_and_sdpa_returning_shared_kv(Call {
        queries: q_pref,
        new_k: k_pref,
        new_v: v_pref,
        scale: 1.0_f32.to_bits(),
        mask_mode: MaskMode::Causal,
        mask: None,
        device,
        toggles: toggles(),
    });
    let shared_pref = drive(&mut cache, step).expect("prefill shared-kv").shared;
    assert!(
        matches!(shared_pref, Shared::Out(SharedKvOut::Bf16(_, _))),
        "prefill must surface bf16 (quant store not built until exit_prefill)"
    );
    cache.in_prefill = false;

    // Decode step 1.
    let k_step = f32_arr(4, &[1, KV_H, 1, HEAD_DIM]);
    let v_step = f32_arr(5, &[1, KV_H, 1, HEAD_DIM]);
    let q_step = f32_arr(6, &[1, Q_H, 1, HEAD_DIM]);
    let step = cache.update_and_sdpa_returning_shared_kv(Call {
        queries: q_step,
        new_k: k_step,
        new_v: v_step,
        scale: 1.0_f32.to_bits(),
        mask_mode: MaskMode::Open,
        mask: None,
        device,
        toggles: toggles(),
    });
    let shared_dec = drive(&mut cache, step).expect("decode shared-kv").shared;
    match shared_dec {
        Shared::Out(SharedKvOut::MixedQuant { k, v, k_bits, v_bits, .. }) => {
            // Quant K codes span the full accumulated length (prefix + 1).
            assert_eq!(
                k.codes.shape.dim(2),
                Some(PREFILL_SEQ + 1),
                "quant K codes must span [0:offset] over the full prefix+1"
            );
            assert_eq!(
                v.codes.shape.dim(2),
                Some(PREFILL_SEQ + 1),
                "quant V codes must span [0:offset] over the full prefix+1"
            );
            assert_eq!(k_bits, 8, "K8V4: K is 8-bit");
            assert_eq!(v_bits, 4, "K8V4: V is 4-bit");
        }
        other => panic!("decode must surface MixedQuant (fused-quant share), not {other:?}"),
    }
}
