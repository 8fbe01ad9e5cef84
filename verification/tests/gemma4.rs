//! Masks, layers and forward passes of the text decoder.
use rmlx::error::{Error, LayerType};
use rmlx::gemma4::attention::{repeat_kv, AttnCall, AttnStep, Attention};
use rmlx::gemma4::decoder_layer::{mlp_forward_fused, DecoderLayer, LayerCall, LayerStep};
use rmlx::gemma4::ids::ids_to_bytes;
use rmlx::gemma4::mask::{
    build_attn_mask, consumer_effective_offset, producer_effective_offset, MaskPlan,
};
use rmlx::gemma4::model::{
    apply_softcap, cache_base_offset, Forward, ForwardStep, Gemma4Text, Gemma4TextConfig,
};
use rmlx::gemma4::program::{Factor, LayerWeight, Op, Weight};
use rmlx::gemma4::rope::{build_proportional_rope_freqs, Freq};
use rmlx::kvcache::request::{MixedTuple, Toggles};
use rmlx::kvcache::step::{Attended, Shared};
use rmlx::kvcache::storage::{KvStorage, StorageKind};
use rmlx::kvcache::{KvCache, SharedKvOut};
use rmlx::tensor::{Device, Dims, Dtype, MaskMode, Shape, Tensor};
use rmlx::KvQuant;

const FULL: LayerType = LayerType::FullAttention;
const SLIDING: LayerType = LayerType::SlidingAttention;
const ONE: u32 = 0x3f80_0000;

fn tensor(id: u64, dims: &[i32]) -> Tensor {
    Tensor { id, shape: Shape::new(dims), dtype: Dtype::Bf16 }
}

fn written(n: u64) -> Result<Vec<Tensor>, u64> {
    Ok((0..n).map(|i| tensor(100 + i, &[1, 4, 64])).collect())
}

fn toggles() -> Toggles {
    Toggles {
        planar_fused_qk: false,
        planar_flash_decode: false,
        rotor_qjl: false,
        rot_k_fused: false,
    }
}

fn attention(layer_type: LayerType) -> Attention {
    Attention {
        layer: 3,
        n_heads: 8,
        n_kv_heads: 2,
        head_dim: 16,
        layer_type,
        sliding_window: 512,
        rope_dims: 16,
        rope_theta: 10000.0_f32.to_bits(),
        has_k_proj: true,
        has_v_proj: true,
    }
}

fn attn_call(seq: i32) -> AttnCall {
    AttnCall {
        x: tensor(1, &[1, seq, 64]),
        shared_kv: None,
        offset: 0,
        cache: None,
        kv_is_rotating: false,
        device: Device::Gpu,
        toggles: toggles(),
    }
}

fn kv(id: u64, len: i32) -> Tensor {
    tensor(id, &[1, 2, len, 16])
}

fn tuple(id: u64) -> MixedTuple {
    MixedTuple { codes: kv(id, 9), scales: kv(id + 1, 9), biases: kv(id + 2, 9) }
}

// Masks.

#[test]
fn producer_offset_is_capped_by_a_ring() {
    assert_eq!(producer_effective_offset(100, false, 512), 100);
    assert_eq!(producer_effective_offset(1000, false, 512), 1000);
    assert_eq!(producer_effective_offset(100, true, 512), 100);
    assert_eq!(producer_effective_offset(511, true, 512), 511);
    assert_eq!(producer_effective_offset(512, true, 512), 511);
    assert_eq!(producer_effective_offset(100_000, true, 512), 511);
}

#[test]
fn consumer_offset_comes_from_the_shared_keys() {
    assert_eq!(consumer_effective_offset(105, 5), 100);
    assert_eq!(consumer_effective_offset(5, 5), 0);
    // A cache that was rolled back reports fewer keys than the pass counts.
    assert_eq!(consumer_effective_offset(104, 5), 99);
}

#[test]
fn sliding_masks() {
    assert_eq!(build_attn_mask(SLIDING, 1, 99, 100, true, 512), MaskPlan::Open);
    assert_eq!(build_attn_mask(SLIDING, 1, 511, 512, false, 512), MaskPlan::Open);
    assert_eq!(
        build_attn_mask(SLIDING, 1, 512, 513, false, 512),
        MaskPlan::SwaDecode { total_kv_len: 513, window: 512 }
    );
    assert_eq!(
        build_attn_mask(SLIDING, 5, 100, 105, true, 512),
        MaskPlan::SwaPrefill { offset: 100, seq: 5, window: 512 }
    );
}

#[test]
fn full_masks() {
    assert_eq!(build_attn_mask(FULL, 1, 99, 100, false, 512), MaskPlan::Open);
    assert_eq!(build_attn_mask(FULL, 5, 0, 5, false, 512), MaskPlan::Causal);
    assert_eq!(
        build_attn_mask(FULL, 5, 7, 12, false, 512),
        MaskPlan::Chunked { offset: 7, seq: 5 }
    );
}

#[test]
fn only_arrays_are_built() {
    for (plan, mode) in [
        (MaskPlan::Open, MaskMode::Open),
        (MaskPlan::Causal, MaskMode::Causal),
        (MaskPlan::Chunked { offset: 7, seq: 5 }, MaskMode::Array),
    ] {
        assert_eq!(plan.mode(), mode);
        assert_eq!(plan.builds(), mode == MaskMode::Array);
    }
}

// Tables and ids.

#[test]
fn frequencies_are_taken_over_the_whole_head() {
    assert_eq!(
        build_proportional_rope_freqs(8, 4),
        vec![
            Freq::Power { num: 0, den: 8 },
            Freq::Power { num: 2, den: 8 },
            Freq::Unrotated,
            Freq::Unrotated,
        ]
    );
    assert_eq!(build_proportional_rope_freqs(512, 128).len(), 256);
    assert_eq!(build_proportional_rope_freqs(0, 0), Vec::new());
}

#[test]
fn ids_are_little_endian_words() {
    assert_eq!(
        ids_to_bytes(&[1, 0x0403_0201, u32::MAX]),
        vec![1, 0, 0, 0, 1, 2, 3, 4, 255, 255, 255, 255]
    );
    assert_eq!(ids_to_bytes(&[]), Vec::<u8>::new());
}

#[test]
fn repeated_heads() {
    let once = repeat_kv(kv(9, 4), 1);
    assert!(once.ops.is_empty());
    let program = repeat_kv(kv(9, 4), 4);
    assert_eq!(program.inputs, vec![kv(9, 4)]);
    assert_eq!(
        program.ops,
        vec![
            Op::ExpandThird { x: 0 },
            Op::Broadcast { x: 1, dims: Dims::D5(1, 2, 4, 4, 16) },
            Op::Reshape { x: 2, dims: Dims::D4(1, 8, 4, 16) },
        ]
    );
}

// Attention.

/// Takes a call up to the step behind its queries, K and V.
fn projected(attn: Attention, call: AttnCall) -> AttnStep {
    let run = match attn.forward(call) {
        AttnStep::Run { run, .. } => run,
        other => panic!("{other:?}"),
    };
    let (run, program) = match run.resume_run(written(2)) {
        AttnStep::Run { run, program } => (run, program),
        other => return other,
    };
    run.resume_run(written(program.ops.len() as u64))
}

fn attn_error(step: AttnStep) -> Error {
    match step {
        AttnStep::Done(Err(e)) => e,
        other => panic!("{other:?}"),
    }
}

#[test]
fn projection_of_a_full_layer() {
    let attn = attention(FULL);
    let mut call = attn_call(4);
    call.offset = 7;
    let (run, program) = match attn.forward(call) {
        AttnStep::Run { run, program } => (run, program),
        other => panic!("{other:?}"),
    };
    let own = |weight| Weight::Layer { layer: 3, weight };
    assert_eq!(
        program.ops,
        vec![
            Op::Linear { weight: own(LayerWeight::QProj), x: 0 },
            Op::Reshape { x: 1, dims: Dims::D4(1, 4, 8, 16) },
        ]
    );
    let program = match run.resume_run(written(2)) {
        AttnStep::Run { program, .. } => program,
        other => panic!("{other:?}"),
    };
    assert_eq!(program.inputs, vec![call.x, tensor(101, &[1, 4, 64])]);
    assert_eq!(program.ops.len(), 12);
    assert_eq!(program.ops[0], Op::Linear { weight: own(LayerWeight::KProj), x: 0 });
    assert_eq!(program.ops[1], Op::Reshape { x: 2, dims: Dims::D4(1, 4, 2, 16) });
    assert_eq!(program.ops[5], Op::RopeFreqs { x: 6, layer: 3, dims: 16, offset: 7 });
    assert_eq!(program.ops[7], Op::RopeFreqs { x: 8, layer: 3, dims: 16, offset: 7 });
    assert_eq!(program.ops[10], Op::Norm { weight: own(LayerWeight::VNorm), x: 11 });
}

#[test]
fn sliding_layer_rotates_by_its_base() {
    let mut call = attn_call(1);
    call.offset = 7;
    call.shared_kv = Some(SharedKvOut::Bf16(kv(50, 8), kv(51, 8)));
    let run = match attention(SLIDING).forward(call) {
        AttnStep::Run { run, .. } => run,
        other => panic!("{other:?}"),
    };
    match run.resume_run(written(2)) {
        AttnStep::Run { program, .. } => assert_eq!(
            program.ops[2],
            Op::Rope { x: 2, dims: 16, theta: 10000.0_f32.to_bits(), offset: 7 }
        ),
        other => panic!("{other:?}"),
    }
}

#[test]
fn mask_of_a_step_is_sized_by_the_layers_own_cache() {
    let mut call = attn_call(5);
    call.offset = 101;
    call.cache = Some(100);
    let (run, plan) = match projected(attention(FULL), call) {
        AttnStep::Mask { run, plan } => (run, plan),
        other => panic!("{other:?}"),
    };
    assert_eq!(plan, MaskPlan::Chunked { offset: 100, seq: 5 });
    let mask = tensor(70, &[1, 1, 5, 105]);
    let (run, step) = match run.resume_mask(Ok(mask)) {
        AttnStep::Cached { run, call } => (run, call),
        other => panic!("{other:?}"),
    };
    assert_eq!((step.mask, step.mask_mode, step.scale), (Some(70), MaskMode::Array, ONE));
    assert_eq!((step.queries.id, step.new_k.id, step.new_v.id), (105, 107, 111));
    let shared = SharedKvOut::Bf16(kv(80, 105), kv(81, 105));
    let out = tensor(82, &[1, 8, 5, 16]);
    let (run, program) =
        match run.resume_cached(Ok(Attended { out, shared: Shared::Out(shared) })) {
            AttnStep::Run { run, program } => (run, program),
            other => panic!("{other:?}"),
        };
    assert_eq!(
        program.ops,
        vec![
            Op::SwapMiddle { x: 0 },
            Op::Reshape { x: 1, dims: Dims::D3(1, 5, 128) },
            Op::Linear {
                weight: Weight::Layer { layer: 3, weight: LayerWeight::OProj },
                x: 2
            },
        ]
    );
    match run.resume_run(written(3)) {
        AttnStep::Done(Ok((out, left))) => {
            assert_eq!(out.id, 102);
            assert_eq!(left, Some(shared));
        }
        other => panic!("{other:?}"),
    }
}

#[test]
fn mask_that_missed_the_keys_is_noticed() {
    let mut call = attn_call(5);
    call.cache = Some(100);
    let run = match projected(attention(FULL), call) {
        AttnStep::Mask { run, .. } => run,
        other => panic!("{other:?}"),
    };
    let run = match run.resume_mask(Ok(tensor(70, &[1, 1, 5, 105]))) {
        AttnStep::Cached { run, .. } => run,
        other => panic!("{other:?}"),
    };
    let shared = Shared::Out(SharedKvOut::Bf16(kv(80, 104), kv(81, 104)));
    let out = tensor(82, &[1, 8, 5, 16]);
    assert_eq!(
        attn_error(run.resume_cached(Ok(Attended { out, shared }))),
        Error::ProducerMaskWidth {
            mask_kv: 105,
            k_seq: 104,
            layer: FULL,
            seq: 5,
            producer_offset: 100
        }
    );
    // Tuples expose no length to hold the mask against.
    let tuples = Shared::Out(SharedKvOut::MixedQuant {
        k: tuple(20),
        v: tuple(30),
        k_rotation: None,
        k_bits: 8,
        v_bits: 4,
        k_group_size: 64,
        v_group_size: 64,
    });
    assert!(matches!(
        run.resume_cached(Ok(Attended { out, shared: tuples })),
        AttnStep::Run { .. }
    ));
    assert_eq!(attn_error(run.resume_cached(Err(Error::NotMixedPath))), Error::NotMixedPath);
}

#[test]
fn shared_keys_decide_the_consumers_mask() {
    let mut call = attn_call(5);
    call.offset = 101;
    call.shared_kv = Some(SharedKvOut::Bf16(kv(50, 105), kv(51, 105)));
    let (run, plan) = match projected(attention(FULL), call) {
        AttnStep::Mask { run, plan } => (run, plan),
        other => panic!("{other:?}"),
    };
    assert_eq!(plan, MaskPlan::Chunked { offset: 100, seq: 5 });
    match run.resume_mask(Ok(tensor(70, &[1, 1, 5, 105]))) {
        AttnStep::Run { run, program } => {
            assert_eq!(program.inputs[1..3], [kv(50, 105), kv(51, 105)]);
            assert_eq!(
                program.ops[0],
                Op::Sdpa { q: 0, k: 1, v: 2, scale: ONE, mode: MaskMode::Array, mask: Some(3) }
            );
            match run.resume_run(written(4)) {
                AttnStep::Done(Ok((out, left))) => assert_eq!((out.id, left), (103, None)),
                other => panic!("{other:?}"),
            }
        }
        other => panic!("{other:?}"),
    }
    assert_eq!(
        attn_error(run.resume_mask(Ok(tensor(70, &[1, 1, 5, 106])))),
        Error::ConsumerMaskWidth {
            mask_kv: 106,
            total_kv_len: 105,
            layer: FULL,
            seq: 5,
            offset: 101
        }
    );
}

#[test]
fn consumer_asks_for_the_mask_of_its_producer() {
    for (layer_type, rotating, offset) in
        [(FULL, false, 100), (SLIDING, true, 700), (SLIDING, false, 700), (FULL, false, 0)]
    {
        let mut own = attn_call(5);
        own.cache = Some(offset);
        own.kv_is_rotating = rotating;
        let keys = producer_effective_offset(offset, rotating, 512) + 5;
        let mut sharing = attn_call(5);
        sharing.kv_is_rotating = rotating;
        sharing.shared_kv = Some(SharedKvOut::Bf16(kv(50, keys), kv(51, keys)));
        match (projected(attention(layer_type), own), projected(attention(layer_type), sharing)) {
            (AttnStep::Mask { plan: a, .. }, AttnStep::Mask { plan: b, .. }) => assert_eq!(a, b),
            (AttnStep::Cached { call, .. }, AttnStep::Run { .. }) => assert_eq!(call.mask, None),
            other => panic!("{other:?}"),
        }
    }
}

#[test]
fn tuples_are_shared_with_single_queries() {
    let share = SharedKvOut::MixedQuant {
        k: tuple(20),
        v: tuple(30),
        k_rotation: Some(40),
        k_bits: 8,
        v_bits: 4,
        k_group_size: 64,
        v_group_size: 32,
    };
    let mut call = attn_call(1);
    call.shared_kv = Some(share);
    match projected(attention(FULL), call) {
        AttnStep::Run { program, .. } => match program.ops[0] {
            Op::MixedSdpa { q, k, v, scale, params, rotation } => {
                assert_eq!((q, k, v, scale), (0, tuple(20), tuple(30), ONE));
                assert_eq!(rotation, Some(40));
                assert_eq!(
                    (params.k_bits, params.v_bits, params.k_group_size, params.v_group_size),
                    (8, 4, 64, 32)
                );
            }
            other => panic!("{other:?}"),
        },
        other => panic!("{other:?}"),
    }
    let mut call = attn_call(2);
    call.shared_kv = Some(share);
    assert_eq!(
        attn_error(projected(attention(FULL), call)),
        Error::QuantShareNotDecode { seq: 2 }
    );
}

#[test]
fn attention_errors() {
    let mut attn = attention(FULL);
    attn.has_v_proj = false;
    assert_eq!(attn_error(projected(attn, attn_call(4))), Error::NoValueProjection);
    attn.has_k_proj = false;
    assert_eq!(attn_error(projected(attn, attn_call(4))), Error::NoSharedKv);

    let mut call = attn_call(5);
    call.shared_kv = Some(SharedKvOut::Bf16(kv(50, 4), kv(51, 4)));
    assert_eq!(
        attn_error(projected(attention(FULL), call)),
        Error::SharedKTooShort { total_kv_len: 4, seq: 5, layer: FULL, offset: 0 }
    );
    call.shared_kv = Some(SharedKvOut::Bf16(tensor(50, &[2, 16]), kv(51, 4)));
    assert_eq!(
        attn_error(projected(attention(FULL), call)),
        Error::NoStepAxis { shape: Shape::new(&[2, 16]) }
    );

    let mut call = attn_call(5);
    call.cache = Some(i32::MAX);
    assert_eq!(
        attn_error(projected(attention(FULL), call)),
        Error::OffsetOverflow { offset: i32::MAX, new_seq: 5 }
    );

    let run = match attention(FULL).forward(attn_call(1)) {
        AttnStep::Run { run, .. } => run,
        other => panic!("{other:?}"),
    };
    assert_eq!(attn_error(run.resume_run(Err(6))), Error::Outside(6));
    assert_eq!(attn_error(run.resume_run(written(1))), Error::Protocol);
    assert_eq!(attn_error(run.resume_mask(Ok(kv(1, 1)))), Error::Protocol);
}

#[test]
fn without_a_cache_the_layer_leaves_its_own_keys() {
    match projected(attention(FULL), attn_call(4)) {
        AttnStep::Run { run, program } => {
            assert_eq!(
                program.ops[0],
                Op::Sdpa { q: 0, k: 1, v: 2, scale: ONE, mode: MaskMode::Causal, mask: None }
            );
            match run.resume_run(written(4)) {
                AttnStep::Done(Ok((_, Some(SharedKvOut::Bf16(k, v))))) => {
                    assert_eq!((k.id, v.id), (107, 111));
                }
                other => panic!("{other:?}"),
            }
        }
        other => panic!("{other:?}"),
    }
}

// Decoder layers.

fn decoder_layer(moe_block: bool, per_layer: bool, layer_scalar: bool) -> DecoderLayer {
    DecoderLayer { layer: 3, attn: attention(FULL), moe_block, per_layer, layer_scalar }
}

fn layer_call(per_layer_input: Option<Tensor>) -> LayerCall {
    LayerCall {
        x: tensor(1, &[1, 4, 64]),
        shared_kv: None,
        per_layer_input,
        offset: 7,
        cache: Some(6),
        kv_is_rotating: true,
        device: Device::Gpu,
        toggles: toggles(),
    }
}

/// The program behind the attention of a layer.
fn feed_forward(layer: DecoderLayer, call: LayerCall, h: Tensor) -> LayerStep {
    let run = match layer.forward(call) {
        LayerStep::Run { run, .. } => run,
        other => panic!("{other:?}"),
    };
    let (run, attn) = match run.resume_run(written(1)) {
        LayerStep::Attention { run, call } => (run, call),
        other => panic!("{other:?}"),
    };
    assert_eq!((attn.x.id, attn.offset, attn.cache), (100, 7, Some(6)));
    assert!(attn.kv_is_rotating);
    let left = Some(SharedKvOut::Bf16(kv(50, 4), kv(51, 4)));
    let run = match run.resume_attention(Ok((tensor(60, &[1, 4, 64]), left))) {
        LayerStep::Run { run, program } => {
            assert_eq!(program.inputs, vec![call.x, tensor(60, &[1, 4, 64])]);
            assert_eq!(program.ops[1], Op::Add { a: 0, b: 2 });
            run
        }
        other => panic!("{other:?}"),
    };
    run.resume_run(Ok(vec![tensor(61, &[1, 4, 64]), h]))
}

#[test]
fn dense_layer() {
    let h = tensor(62, &[1, 4, 64]);
    let (run, program) = match feed_forward(decoder_layer(false, false, false), layer_call(None), h)
    {
        LayerStep::Run { run, program } => (run, program),
        other => panic!("{other:?}"),
    };
    let own = |weight| Weight::Layer { layer: 3, weight };
    assert_eq!(program.inputs, vec![h]);
    assert_eq!(
        program.ops,
        vec![
            Op::Norm { weight: own(LayerWeight::PreFfnNorm), x: 0 },
            Op::Linear { weight: own(LayerWeight::GateProj), x: 1 },
            Op::Linear { weight: own(LayerWeight::UpProj), x: 1 },
            Op::Geglu { gate: 2, up: 3 },
            Op::Linear { weight: own(LayerWeight::DownProj), x: 4 },
            Op::Norm { weight: own(LayerWeight::PostFfnNorm), x: 5 },
            Op::Add { a: 0, b: 6 },
        ]
    );
    match run.resume_run(written(7)) {
        LayerStep::Done(Ok((out, left))) => {
            assert_eq!(out.id, 106);
            assert_eq!(left, Some(SharedKvOut::Bf16(kv(50, 4), kv(51, 4))));
        }
        other => panic!("{other:?}"),
    }
}

#[test]
fn layer_with_an_input_of_its_own_and_a_scalar() {
    let h = tensor(62, &[1, 4, 64]);
    let input = tensor(63, &[1, 4, 8]);
    let program =
        match feed_forward(decoder_layer(false, true, true), layer_call(Some(input)), h) {
            LayerStep::Run { program, .. } => program,
            other => panic!("{other:?}"),
        };
    assert_eq!(program.inputs, vec![h, input]);
    assert_eq!(
        program.ops[7..],
        [
            Op::PerLayerInput { layer: 3, x: 8, input: 1 },
            Op::Add { a: 8, b: 9 },
            Op::LayerScalar { layer: 3, x: 10 },
        ]
    );
    // Without an input there is nothing to gate.
    let program = match feed_forward(decoder_layer(false, true, true), layer_call(None), h) {
        LayerStep::Run { program, .. } => program,
        other => panic!("{other:?}"),
    };
    assert_eq!(program.ops[7..], [Op::LayerScalar { layer: 3, x: 7 }]);
}

#[test]
fn mixture_layer() {
    let h = tensor(62, &[2, 4, 64]);
    let program = match feed_forward(decoder_layer(true, false, false), layer_call(None), h) {
        LayerStep::Run { program, .. } => program,
        other => panic!("{other:?}"),
    };
    let own = |weight| Weight::Layer { layer: 3, weight };
    assert_eq!(
        program.ops[5..],
        [
            Op::Norm { weight: own(LayerWeight::PostFfnNorm1), x: 5 },
            Op::Reshape { x: 0, dims: Dims::D2(8, 64) },
            Op::Route { layer: 3, x: 7 },
            Op::Norm { weight: own(LayerWeight::PreFfnNorm2), x: 0 },
            Op::Reshape { x: 9, dims: Dims::D2(8, 64) },
            Op::Experts { layer: 3, x: 10, routing: 8 },
            Op::Reshape { x: 11, dims: Dims::D3(2, 4, 64) },
            Op::Norm { weight: own(LayerWeight::PostFfnNorm2), x: 12 },
            Op::Add { a: 6, b: 13 },
            Op::Norm { weight: own(LayerWeight::PostFfnNorm), x: 14 },
            Op::Add { a: 0, b: 15 },
        ]
    );
    let h = tensor(62, &[70_000, 70_000, 64]);
    assert!(matches!(
        feed_forward(decoder_layer(true, false, false), layer_call(None), h),
        LayerStep::Done(Err(Error::RowsOverflow { batch: 70_000, seq: 70_000 }))
    ));
}

#[test]
fn dense_network_is_appended() {
    let mut ops = vec![Op::SwapMiddle { x: 0 }];
    mlp_forward_fused(&decoder_layer(false, false, false), &mut ops, 1);
    assert_eq!(ops.len(), 5);
    assert_eq!(ops[0], Op::SwapMiddle { x: 0 });
    assert_eq!(ops[3], Op::Geglu { gate: 2, up: 3 });
}

// Forward passes.

/// Three layers: a sliding one, a full one, and a full one that attends the K/V
/// of the second.
fn model(with_inputs: bool) -> Gemma4Text {
    let layer = |layer, layer_type| DecoderLayer {
        layer,
        attn: Attention { layer, ..attention(layer_type) },
        moe_block: false,
        per_layer: false,
        layer_scalar: false,
    };
    Gemma4Text {
        cfg: Gemma4TextConfig {
            hidden_size: 64,
            num_hidden_layers: 3,
            hidden_size_per_layer_input: 8,
            final_logit_softcapping: 30.0_f32.to_bits(),
            layer_types: vec![SLIDING, FULL, FULL],
        },
        has_embed_tokens_per_layer: with_inputs,
        has_per_layer_model_proj: with_inputs,
        has_per_layer_proj_norm: with_inputs,
        layers: vec![layer(0, SLIDING), layer(1, FULL), layer(2, FULL)],
        previous_kvs: vec![0, 1, 1],
    }
}

fn cache(offset: i32, rotating: bool, persistent: bool) -> KvCache {
    KvCache {
        quant: KvQuant::K8V4,
        storage: KvStorage::Plain(StorageKind::K8V4),
        offset,
        in_prefill: false,
        rotating,
        persistent,
        decode_fp16_k: None,
        decode_fp16_v: None,
        stream_dtype: None,
    }
}

fn caches() -> Vec<KvCache> {
    vec![cache(9, true, false), cache(7, false, true), cache(0, false, true)]
}

fn left(id: u64) -> Option<SharedKvOut> {
    Some(SharedKvOut::Bf16(kv(id, 8), kv(id + 1, 8)))
}

/// Brings a pass to its first layer.
fn to_layers(m: &Gemma4Text, mut step: ForwardStep) -> ForwardStep {
    loop {
        step = match step {
            ForwardStep::Upload { run, .. } => m.resume_upload(run, Ok(tensor(5, &[4]))),
            ForwardStep::Run { run, program } => {
                m.resume_run(run, written(program.ops.len() as u64))
            }
            other => return other,
        };
    }
}

fn pass_error(step: ForwardStep) -> Error {
    match step {
        ForwardStep::Done(Err(e)) => e,
        other => panic!("{other:?}"),
    }
}

#[test]
fn positions_are_counted_from_what_survives_a_spill() {
    assert_eq!(cache_base_offset(None), 0);
    assert_eq!(cache_base_offset(Some(&[])), 0);
    assert_eq!(cache_base_offset(Some(&caches())), 7);
    assert_eq!(cache_base_offset(Some(&[cache(9, true, false), cache(4, true, false)])), 9);
}

#[test]
fn prompt_is_uploaded_and_embedded() {
    let m = model(false);
    let step = m.forward_seq(&[1, 2, 3, 258], Device::Gpu, toggles());
    let (run, bytes, len) = match step {
        ForwardStep::Upload { run, bytes, len } => (run, bytes, len),
        other => panic!("{other:?}"),
    };
    assert_eq!(len, 4);
    assert_eq!(bytes, vec![1, 0, 0, 0, 2, 0, 0, 0, 3, 0, 0, 0, 2, 1, 0, 0]);
    match m.resume_upload(run, Ok(tensor(5, &[4]))) {
        ForwardStep::Run { program, .. } => {
            assert_eq!(program.inputs, vec![tensor(5, &[4])]);
            assert_eq!(
                program.ops,
                vec![
                    Op::Embed { weight: Weight::EmbedTokens, ids: 0 },
                    Op::ScaleLike { x: 1, by: Factor::Sqrt(64) },
                    Op::Reshape { x: 2, dims: Dims::D3(1, 4, 64) },
                ]
            );
        }
        other => panic!("{other:?}"),
    }
}

#[test]
fn inputs_of_the_layers() {
    let m = model(true);
    let run = match m.forward_seq(&[1, 2, 3, 4], Device::Gpu, toggles()) {
        ForwardStep::Upload { run, .. } => run,
        other => panic!("{other:?}"),
    };
    let run = match m.resume_upload(run, Ok(tensor(5, &[4]))) {
        ForwardStep::Run { run, .. } => run,
        other => panic!("{other:?}"),
    };
    let (run, program) = match m.resume_run(run, written(3)) {
        ForwardStep::Run { run, program } => (run, program),
        other => panic!("{other:?}"),
    };
    assert_eq!(program.ops.len(), 9 + 2 * 3);
    assert_eq!(program.ops[1], Op::ScaleLike { x: 2, by: Factor::Sqrt(8) });
    assert_eq!(program.ops[2], Op::Reshape { x: 3, dims: Dims::D4(1, 4, 3, 8) });
    assert_eq!(program.ops[4], Op::ScaleLike { x: 5, by: Factor::InvSqrt(64) });
    assert_eq!(program.ops[8], Op::ScaleLike { x: 9, by: Factor::InvSqrt(2) });
    assert_eq!(program.ops[11], Op::Plane { x: 10, i: 1, seq: 4, n: 8 });
    assert_eq!(program.ops[12], Op::Reshape { x: 13, dims: Dims::D3(1, 4, 8) });
    match m.resume_run(run, written(15)) {
        ForwardStep::Layer { layer, call, .. } => {
            assert_eq!(layer, 0);
            assert_eq!(call.per_layer_input.map(|t| t.id), Some(110));
        }
        other => panic!("{other:?}"),
    }
}

#[test]
fn layers_share_what_their_source_left() {
    let m = model(false);
    let caches = caches();
    let step =
        m.forward_seq_with_cache(&[1, 2, 3, 4], Some(&caches), Device::Gpu, toggles());
    let (run, call) = match to_layers(&m, step) {
        ForwardStep::Layer { run, layer: 0, call } => (run, call),
        other => panic!("{other:?}"),
    };
    assert_eq!((call.shared_kv, call.cache, call.offset), (None, Some(9), 7));
    assert!(call.kv_is_rotating);
    let (run, call) = match m.resume_layer(run, Ok((tensor(200, &[1, 4, 64]), left(50)))) {
        ForwardStep::Layer { run, layer: 1, call } => (run, call),
        other => panic!("{other:?}"),
    };
    assert_eq!((call.x.id, call.shared_kv, call.cache), (200, None, Some(7)));
    assert!(!call.kv_is_rotating);
    let (run, call) = match m.resume_layer(run, Ok((tensor(201, &[1, 4, 64]), left(60)))) {
        ForwardStep::Layer { run, layer: 2, call } => (run, call),
        other => panic!("{other:?}"),
    };
    assert_eq!((call.x.id, call.shared_kv, call.cache), (201, left(60), None));
    let (run, program) = match m.resume_layer(run, Ok((tensor(202, &[1, 4, 64]), None))) {
        ForwardStep::Run { run, program } => (run, program),
        other => panic!("{other:?}"),
    };
    assert_eq!(program.inputs, vec![tensor(202, &[1, 4, 64])]);
    assert_eq!(
        program.ops,
        vec![
            Op::Norm { weight: Weight::FinalNorm, x: 0 },
            Op::Positions { x: 1, from: 3, to: 4, n: 64 },
            Op::Reshape { x: 2, dims: Dims::D3(1, 1, 64) },
            Op::AsLinear { weight: Weight::EmbedTokens, x: 3 },
            Op::Softcap { x: 4, cap: 30.0_f32.to_bits() },
        ]
    );
    match m.resume_run(run, written(5)) {
        ForwardStep::Done(Ok(Forward::Logits(t))) => assert_eq!(t.id, 104),
        other => panic!("{other:?}"),
    }
}

/// Runs the layers of a pass, which leave what they are told.
fn through_layers(
    m: &Gemma4Text,
    step: ForwardStep,
    leaves: [Option<SharedKvOut>; 3],
) -> ForwardStep {
    let mut step = to_layers(m, step);
    for leaf in leaves {
        step = match step {
            ForwardStep::Layer { run, .. } => {
                m.resume_layer(run, Ok((tensor(200, &[1, 4, 64]), leaf)))
            }
            other => return other,
        };
    }
    step
}

fn ops_of(step: ForwardStep) -> Vec<Op> {
    match step {
        ForwardStep::Run { program, .. } => program.ops,
        other => panic!("{other:?}"),
    }
}

#[test]
fn tails_of_a_pass() {
    let m = model(false);
    let caches = caches();
    let gpu = Device::Gpu;
    let leaves = [left(50), left(60), None];
    let norm = Op::Norm { weight: Weight::FinalNorm, x: 0 };
    let last = |k, x| {
        vec![
            Op::Positions { x, from: 4 - k, to: 4, n: 64 },
            Op::Reshape { x: x + 1, dims: Dims::D3(1, k, 64) },
        ]
    };
    let head = |x| {
        vec![
            Op::AsLinear { weight: Weight::EmbedTokens, x },
            Op::Softcap { x: x + 1, cap: 30.0_f32.to_bits() },
        ]
    };
    let ids = [1, 2, 3, 4];

    let all = m.forward_seq_logits_all(&ids, gpu, toggles());
    assert_eq!(ops_of(through_layers(&m, all, leaves)), [vec![norm], head(1)].concat());
    let two = m.forward_seq_last_k(&ids, 2, gpu, toggles());
    assert_eq!(
        ops_of(through_layers(&m, two, leaves)),
        [vec![norm], last(2, 1), head(3)].concat()
    );
    let two = m.forward_seq_last_k_with_cache(&ids, 2, &caches, gpu, toggles());
    assert_eq!(
        ops_of(through_layers(&m, two, leaves)),
        [vec![norm], last(2, 1), head(3)].concat()
    );
    let two = m.forward_arr_last_k(tensor(5, &[4]), 4, 2, Some(&caches), gpu, toggles());
    assert_eq!(
        ops_of(through_layers(&m, two, leaves)),
        [vec![norm], last(2, 1), head(3)].concat()
    );
    let one = m.forward_arr(tensor(5, &[4]), 4, None, gpu, toggles());
    assert_eq!(
        ops_of(through_layers(&m, one, leaves)),
        [vec![norm], last(1, 1), head(3)].concat()
    );
    let hidden = m.forward_hidden_states(&ids, 3, Some(&caches), gpu, toggles());
    assert_eq!(ops_of(through_layers(&m, hidden, leaves)), last(3, 0));
    // A pass for the stream leaves off what the head does.
    let head_program = m.logits_from_hidden(tensor(9, &[1, 3, 64]));
    assert_eq!(head_program.ops, [vec![norm], head(1)].concat());
    assert_eq!(m.apply_final_norm(tensor(9, &[1, 3, 64])).ops, vec![norm]);
    assert_eq!(
        apply_softcap(&m, 6),
        Op::Softcap { x: 6, cap: 30.0_f32.to_bits() }
    );
}

#[test]
fn embeddings_may_come_from_outside() {
    let m = model(false);
    let step = m.forward_arr_embeds(
        tensor(8, &[1, 4, 64]),
        tensor(5, &[4]),
        4,
        None,
        Device::Gpu,
        toggles(),
    );
    match step {
        ForwardStep::Layer { layer, call, .. } => {
            assert_eq!((layer, call.x.id, call.cache), (0, 8, None));
        }
        other => panic!("{other:?}"),
    }
    let m = model(true);
    let step = m.forward_arr_embeds(
        tensor(8, &[1, 4, 64]),
        tensor(5, &[]),
        4,
        None,
        Device::Gpu,
        toggles(),
    );
    assert_eq!(pass_error(step), Error::NoStepAxis { shape: Shape::new(&[]) });
}

#[test]
fn drafter_gets_the_last_layer_of_each_kind() {
    let m = model(false);
    let caches = caches();
    let start =
        || m.forward_hidden_states_shared_kv(&[1, 2, 3, 4], 1, &caches, Device::Gpu, toggles());
    let run = match through_layers(&m, start(), [left(50), left(60), left(70)]) {
        ForwardStep::Run { run, .. } => run,
        other => panic!("{other:?}"),
    };
    match m.resume_run(run, written(2)) {
        ForwardStep::Done(Ok(Forward::SharedHidden { hidden, sliding, full, offset })) => {
            assert_eq!((hidden.id, sliding.0.id, full.0.id, offset), (101, 50, 70, 7));
        }
        other => panic!("{other:?}"),
    }
    let run = match through_layers(&m, start(), [left(50), left(60), None]) {
        ForwardStep::Run { run, .. } => run,
        other => panic!("{other:?}"),
    };
    match m.resume_run(run, written(2)) {
        ForwardStep::Done(Ok(Forward::SharedHidden { full, .. })) => assert_eq!(full.0.id, 60),
        other => panic!("{other:?}"),
    }
    assert_eq!(
        pass_error(through_layers(&m, start(), [None, left(60), None])),
        Error::NoLayerKv(SLIDING)
    );
    assert_eq!(
        pass_error(through_layers(&m, start(), [left(50), None, None])),
        Error::NoLayerKv(FULL)
    );
}

#[test]
fn one_token() {
    let m = model(false);
    match m.forward_one(7, Device::Gpu, toggles()) {
        ForwardStep::Upload { bytes, len, .. } => {
            assert_eq!((bytes, len), (vec![7, 0, 0, 0], 1));
        }
        other => panic!("{other:?}"),
    }
    let run = match m.embed_token_raw(7, Device::Gpu, toggles()) {
        ForwardStep::Upload { run, .. } => run,
        other => panic!("{other:?}"),
    };
    let (run, program) = match m.resume_upload(run, Ok(tensor(5, &[1]))) {
        ForwardStep::Run { run, program } => (run, program),
        other => panic!("{other:?}"),
    };
    assert_eq!(program.ops[2], Op::ScaleWide { x: 2, by: Factor::Sqrt(64) });
    match m.resume_run(run, written(3)) {
        ForwardStep::Done(Ok(Forward::Hidden(t))) => assert_eq!(t.id, 102),
        other => panic!("{other:?}"),
    }
}

#[test]
fn pass_errors() {
    let m = model(false);
    let gpu = Device::Gpu;
    assert_eq!(
        pass_error(m.forward_seq_logits_all(&[], gpu, toggles())),
        Error::EmptyPrompt
    );
    assert_eq!(
        pass_error(m.forward_seq_last_k(&[1, 2], 0, gpu, toggles())),
        Error::LastKOutOfRange { k: 0, seq: 2 }
    );
    assert_eq!(
        pass_error(m.forward_hidden_states(&[1, 2], 3, None, gpu, toggles())),
        Error::LastKOutOfRange { k: 3, seq: 2 }
    );
    assert_eq!(
        pass_error(m.forward_arr_last_k(tensor(5, &[2]), 2, 3, None, gpu, toggles())),
        Error::LastKOutOfRangeI32 { k: 3, seq: 2 }
    );
    let run = match m.forward_seq(&[1, 2], gpu, toggles()) {
        ForwardStep::Upload { run, .. } => run,
        other => panic!("{other:?}"),
    };
    assert_eq!(pass_error(m.resume_upload(run, Err(3))), Error::Outside(3));
    let run = match m.forward_arr(tensor(5, &[2]), 2, None, gpu, toggles()) {
        ForwardStep::Run { run, .. } => run,
        other => panic!("{other:?}"),
    };
    assert_eq!(pass_error(m.resume_run(run, written(2))), Error::Protocol);
    let run = match to_layers(&m, m.forward_seq(&[1, 2], gpu, toggles())) {
        ForwardStep::Layer { run, .. } => run,
        other => panic!("{other:?}"),
    };
    assert_eq!(pass_error(m.resume_layer(run, Err(Error::NoSharedKv))), Error::NoSharedKv);
}

#[test]
fn caches_need_only_reach_the_layers_that_hold_one() {
    let m = model(false);
    let two = &caches()[..2];
    let step = m.forward_seq_with_cache(&[1, 2, 3, 4], Some(two), Device::Gpu, toggles());
    let mut step = to_layers(&m, step);
    let mut seen = Vec::new();
    for leaf in [left(50), left(60), None] {
        step = match step {
            ForwardStep::Layer { run, call, .. } => {
                seen.push(call.cache);
                m.resume_layer(run, Ok((tensor(200, &[1, 4, 64]), leaf)))
            }
            other => panic!("{other:?}"),
        };
    }
    assert_eq!(seen, vec![Some(9), Some(7), None]);
}

/// The registers that an operation reads.
fn reads(op: &Op) -> Vec<usize> {
    match *op {
        Op::Embed { ids, .. } => vec![ids],
        Op::QkNormQ { q, k, .. } | Op::QkNormK { q, k, .. } => vec![q, k],
        Op::Sdpa { q, k, v, mask, .. } => [vec![q, k, v], mask.into_iter().collect()].concat(),
        Op::MixedSdpa { q, .. } => vec![q],
        Op::Geglu { gate, up } => vec![gate, up],
        Op::Experts { x, routing, .. } => vec![x, routing],
        Op::PerLayerInput { x, input, .. } => vec![x, input],
        Op::Add { a, b } => vec![a, b],
        Op::Linear { x, .. }
        | Op::AsLinear { x, .. }
        | Op::Norm { x, .. }
        | Op::Reshape { x, .. }
        | Op::ExpandThird { x }
        | Op::Broadcast { x, .. }
        | Op::SwapMiddle { x }
        | Op::Rope { x, .. }
        | Op::RopeFreqs { x, .. }
        | Op::Route { x, .. }
        | Op::LayerScalar { x, .. }
        | Op::ScaleLike { x, .. }
        | Op::ScaleWide { x, .. }
        | Op::Positions { x, .. }
        | Op::Plane { x, .. }
        | Op::Softcap { x, .. } => vec![x],
    }
}

#[test]
fn programs_read_what_was_written_before() {
    let h = tensor(62, &[1, 4, 64]);
    let input = tensor(63, &[1, 4, 8]);
    let mut programs = vec![repeat_kv(kv(9, 4), 4)];
    for moe in [false, true] {
        match feed_forward(decoder_layer(moe, true, true), layer_call(Some(input)), h) {
            LayerStep::Run { program, .. } => programs.push(program),
            other => panic!("{other:?}"),
        }
    }
    let m = model(true);
    let mut step = m.forward_seq(&[1, 2, 3, 4], Device::Gpu, toggles());
    for _ in 0..3 {
        step = match step {
            ForwardStep::Upload { run, .. } => m.resume_upload(run, Ok(tensor(5, &[4]))),
            ForwardStep::Run { run, program } => {
                let n = program.ops.len() as u64;
                programs.push(program);
                m.resume_run(run, written(n))
            }
            other => panic!("{other:?}"),
        };
    }
    assert_eq!(programs.len(), 5);
    for program in programs {
        for (i, op) in program.ops.iter().enumerate() {
            for register in reads(op) {
                assert!(register < program.inputs.len() + i, "{op:?} at {i}");
            }
        }
    }
}

#[test]
fn a_layer_steps_its_cache_once() {
    let mut call = attn_call(1);
    call.cache = Some(100);
    let run = match projected(attention(FULL), call) {
        AttnStep::Cached { run, call } => {
            assert_eq!((call.mask, call.mask_mode), (None, MaskMode::Open));
            run
        }
        other => panic!("{other:?}"),
    };
    let shared = Shared::Out(SharedKvOut::Bf16(kv(80, 101), kv(81, 101)));
    let run = match run.resume_cached(Ok(Attended { out: kv(82, 1), shared })) {
        AttnStep::Run { run, .. } => run,
        other => panic!("{other:?}"),
    };
    // Past its step, the layer does not take the outcome of another.
    assert_eq!(
        attn_error(run.resume_cached(Ok(Attended { out: kv(82, 1), shared }))),
        Error::Protocol
    );
    assert!(matches!(run.resume_run(written(3)), AttnStep::Done(Ok(_))));
}

#[test]
fn layers_do_not_see_what_is_read_off() {
    let m = model(true);
    let caches = caches();
    let ids = [1, 2, 3, 4];
    let gpu = Device::Gpu;
    let passes = vec![
        m.forward_seq_last_k_with_cache(&ids, 2, &caches, gpu, toggles()),
        m.forward_seq_last_k_with_cache(&ids, 3, &caches, gpu, toggles()),
        m.forward_seq_with_cache(&ids, Some(&caches), gpu, toggles()),
        m.forward_hidden_states(&ids, 3, Some(&caches), gpu, toggles()),
    ];
    let mut seen = Vec::new();
    for pass in passes {
        let mut step = to_layers(&m, pass);
        let mut calls = Vec::new();
        for (id, leaf) in [(200, left(50)), (201, left(60)), (202, None)] {
            step = match step {
                ForwardStep::Layer { run, layer, call } => {
                    calls.push((layer, call));
                    m.resume_layer(run, Ok((tensor(id, &[1, 4, 64]), leaf)))
                }
                other => panic!("{other:?}"),
            };
        }
        match step {
            ForwardStep::Run { program, .. } => {
                assert_eq!(program.inputs, vec![tensor(202, &[1, 4, 64])]);
            }
            other => panic!("{other:?}"),
        }
        seen.push(calls);
    }
    assert!(seen.iter().all(|calls| *calls == seen[0]));
}

/// Carries a program behind the last layer out on rows of one number each, with a
/// norm, a head and a cap that work row by row.
fn on_rows(ops: &[Op], rows: &[i64]) -> Vec<i64> {
    let mut regs = vec![rows.to_vec()];
    for op in ops {
        let each = |x: usize, f: fn(i64) -> i64| regs[x].iter().map(|r| f(*r)).collect();
        let wrote: Vec<i64> = match *op {
            Op::Norm { weight: Weight::FinalNorm, x } => each(x, |r| r + 1000),
            Op::AsLinear { weight: Weight::EmbedTokens, x } => each(x, |r| 2 * r),
            Op::Softcap { x, .. } => each(x, |r| r - 3),
            Op::Positions { x, from, to, .. } => regs[x][from as usize..to as usize].to_vec(),
            Op::Reshape { x, .. } => regs[x].clone(),
            ref other => panic!("{other:?}"),
        };
        regs.push(wrote);
    }
    regs.pop().expect("a program")
}

#[test]
fn tails_agree_row_by_row() {
    let m = model(false);
    let caches = caches();
    let gpu = Device::Gpu;
    let ids = [1, 2, 3, 4];
    let leaves = [left(50), left(60), None];
    let rows = [10, 20, 30, 40];
    let read = |pass: ForwardStep| on_rows(&ops_of(through_layers(&m, pass, leaves)), &rows);
    let all = read(m.forward_seq_logits_all(&ids, gpu, toggles()));
    assert_eq!(all, vec![2017, 2037, 2057, 2077]);
    let one = read(m.forward_seq(&ids, gpu, toggles()));
    assert_eq!(one, all[3..]);
    for k in 1..=4 {
        let logits = read(m.forward_seq_last_k(&ids, k, gpu, toggles()));
        assert_eq!(logits, all[4 - k..]);
        let hidden = read(m.forward_hidden_states(&ids, k, Some(&caches), gpu, toggles()));
        assert_eq!(hidden, rows[4 - k..]);
        let shared = read(m.forward_hidden_states_shared_kv(&ids, k, &caches, gpu, toggles()));
        assert_eq!(shared, hidden);
        let head = m.logits_from_hidden(tensor(9, &[1, k as i32, 64]));
        assert_eq!(on_rows(&head.ops, &hidden), logits);
    }
}
