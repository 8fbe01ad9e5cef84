//! The rotor V store and its layouts.
use rmlx::error::Error;
use rmlx::storage::bf16::{bf16_bytes_to_f32_bits, f32_bits_to_bf16_bytes};
use rmlx::storage::quant_rotor_v4::{
    Encoded, QuantRotorV4, RingAt, RingStep, RotorGpuK, TableSeed,
};
use rmlx::storage::rotor_blocks::{
    n_groups_for, RotorBlocks, ROTOR4_V_BITS, ROTOR4_V_GROUP_SIZE,
};
use rmlx::storage::seq_layout::{transpose_heads_seq, transpose_seq_heads};

fn bits(row: &[f32]) -> Vec<u32> {
    row.iter().map(|x| x.to_bits()).collect()
}

/// A codec that keeps every word.
fn keep(rows: &[u32]) -> Encoded {
    Encoded { codes: rows.to_vec(), scales: vec![1], norms: vec![2, 3] }
}

fn table() -> Vec<u32> {
    vec![10, 11, 12, 13, 20, 21, 22, 23]
}

fn append_all(store: &mut QuantRotorV4, data: &[u32], shape: &[i32]) {
    let input = store.append_input(data, shape).expect("rank");
    store.append(shape, table(), Ok(keep(&input.rows))).expect("append");
}

fn ring() -> RotorGpuK {
    RotorGpuK { allocated: true, ring: 7, bytes: 1000 }
}

#[test]
fn bf16_is_the_upper_half_of_f32() {
    assert_eq!(
        bf16_bytes_to_f32_bits(&[0x80, 0x3f, 0x00, 0xc0]),
        bits(&[1.0, -2.0])
    );
    assert_eq!(bf16_bytes_to_f32_bits(&[0x80, 0x3f, 0x11]), bits(&[1.0]));
    assert_eq!(f32_bits_to_bf16_bytes(&bits(&[1.0, -2.0])), vec![0x80, 0x3f, 0x00, 0xc0]);
    // What does not fit is cut off, not rounded.
    assert_eq!(f32_bits_to_bf16_bytes(&[0x3f80_ffff]), vec![0x80, 0x3f]);
}

#[test]
fn bf16_bytes_survive_widening() {
    let bytes: Vec<u8> = (0..=255).collect();
    assert_eq!(f32_bits_to_bf16_bytes(&bf16_bytes_to_f32_bits(&bytes)), bytes);
}

#[test]
fn widening_of_a_narrowed_row_clears_the_lower_half() {
    assert_eq!(
        bf16_bytes_to_f32_bits(&f32_bits_to_bf16_bytes(&[0x1234_5678, 0xffff_ffff])),
        vec![0x1234_0000, 0xffff_0000]
    );
}

#[test]
fn heads_and_positions_change_places() {
    // Two heads of three positions, two elements each.
    let data = [0, 1, 10, 11, 20, 21, 100, 101, 110, 111, 120, 121];
    let swapped = transpose_heads_seq(&data, 1, 2, 3, 2);
    assert_eq!(swapped, vec![0, 1, 100, 101, 10, 11, 110, 111, 20, 21, 120, 121]);
    assert_eq!(transpose_seq_heads(&swapped, 1, 3, 2, 2), data.to_vec());
    // Batch entries stay apart.
    assert_eq!(
        transpose_heads_seq(&[1, 2, 3, 4, 5, 6, 7, 8], 2, 2, 2, 1),
        vec![1, 3, 2, 4, 5, 7, 6, 8]
    );
    assert_eq!(transpose_heads_seq(&[], 1, 0, 3, 2), Vec::<u32>::new());
}

#[test]
fn groups_of_three() {
    assert_eq!(ROTOR4_V_GROUP_SIZE, 3);
    assert_eq!(ROTOR4_V_BITS, 4);
    assert_eq!(n_groups_for(0), 0);
    assert_eq!(n_groups_for(1), 1);
    assert_eq!(n_groups_for(126), 42);
    assert_eq!(n_groups_for(128), 43);
    assert_eq!(n_groups_for(usize::MAX), usize::MAX / 3);
}

#[test]
fn table_is_made_once() {
    let mut store = QuantRotorV4::new(vec![1, 2, 0, 2], 64, 5);
    let data = [1, 2, 3, 4];
    let input = store.append_input(&data, &[1, 2, 1, 2]).expect("rank");
    assert_eq!(input.head_dim, 2);
    assert_eq!(input.table, Some(TableSeed { layer_idx: 5, head_idx: 0, n_groups: 1 }));
    store.append(&[1, 2, 1, 2], table(), Ok(keep(&input.rows))).expect("append");
    assert_eq!(store.rotors, table());
    assert_eq!(store.append_input(&data, &[1, 2, 1, 2]).expect("rank").table, None);
    store.append(&[1, 2, 1, 2], vec![99], Ok(keep(&data))).expect("append");
    assert_eq!(store.rotors, table());
    store.reset();
    assert_eq!(store.rotors, table());
}

#[test]
fn slice_comes_out_as_it_went_in() {
    let mut store = QuantRotorV4::new(vec![1, 2, 0, 2], 64, 0);
    let data = [0, 1, 10, 11, 100, 101, 110, 111];
    append_all(&mut store, &data, &[1, 2, 2, 2]);
    assert_eq!(store.blocks.len(), 1);
    assert_eq!(store.blocks[0].codes, vec![0, 1, 100, 101, 10, 11, 110, 111]);
    assert_eq!(store.blocks[0].n_tokens, 4);
    assert_eq!(store.shape, vec![1, 2, 2, 2]);
    let decoded = vec![Ok(store.blocks[0].codes.clone())];
    assert_eq!(store.dequant(&decoded), Ok(data.to_vec()));
}

#[test]
fn slices_join_along_the_sequence() {
    let mut store = QuantRotorV4::new(Vec::new(), 64, 0);
    append_all(&mut store, &[0, 10, 100, 110], &[1, 2, 2, 1]);
    append_all(&mut store, &[20, 120], &[1, 2, 1, 1]);
    assert_eq!(store.shape, vec![1, 2, 3, 1]);
    let decoded = store.blocks.iter().map(|b| Ok(b.codes.clone())).collect();
    assert_eq!(store.dequant(&decoded), Ok(vec![0, 10, 20, 100, 110, 120]));
    let (codes, scales, norms) = store.flatten_blocks();
    assert_eq!(codes, vec![0, 100, 10, 110, 20, 120]);
    assert_eq!(scales, vec![1, 1]);
    assert_eq!(norms, vec![2, 3, 2, 3]);
}

#[test]
fn decoded_rows_are_cut_or_padded_to_the_shape() {
    let mut store = QuantRotorV4::with_rotors(table(), vec![1, 1, 0, 1], 64, 0);
    append_all(&mut store, &[1, 2], &[1, 1, 2, 1]);
    assert_eq!(store.dequant(&vec![Ok(vec![1, 2, 3])]), Ok(vec![1, 2]));
    assert_eq!(store.dequant(&vec![Ok(vec![1])]), Ok(vec![1, 0]));
    store.reset();
    store.shape[2] = 3;
    assert_eq!(store.dequant(&Vec::new()), Ok(vec![0, 0, 0]));
}

#[test]
fn store_that_was_never_appended_to_has_no_table_to_decode_by() {
    let store = QuantRotorV4::new(vec![1, 1, 0, 2], 64, 0);
    assert_eq!(store.dequant(&Vec::new()), Err(Error::RotorTableEmpty));
    // With a table, an empty store is all zeros.
    let store = QuantRotorV4::with_rotors(table(), vec![1, 1, 2, 1], 64, 0);
    assert_eq!(store.dequant(&Vec::new()), Ok(vec![0, 0]));
}

#[test]
fn truncation_never_lengthens_a_store() {
    let block = || RotorBlocks { codes: vec![1], scales: vec![2], norms: vec![3], n_tokens: 2 };
    let mut store = QuantRotorV4::from_cpu_blocks(
        table(),
        vec![block(), block(), block()],
        vec![1, 1, 6, 3],
        0,
    );
    store.truncate_to(9);
    assert_eq!(store.shape, vec![1, 1, 6, 3]);
    assert_eq!(store.blocks.len(), 3);
    store.truncate_to(5);
    assert_eq!(store.shape, vec![1, 1, 5, 3]);
    assert_eq!(store.blocks.len(), 2);
}

#[test]
fn many_slices_read_back_in_order() {
    let mut store = QuantRotorV4::new(Vec::new(), 64, 0);
    append_all(&mut store, &[0, 100], &[1, 2, 1, 1]);
    append_all(&mut store, &[1, 2, 101, 102], &[1, 2, 2, 1]);
    append_all(&mut store, &[3, 103], &[1, 2, 1, 1]);
    append_all(&mut store, &[4, 104], &[1, 2, 1, 1]);
    let decoded = store.blocks.iter().map(|b| Ok(b.codes.clone())).collect();
    assert_eq!(
        store.dequant(&decoded),
        Ok(vec![0, 1, 2, 3, 4, 100, 101, 102, 103, 104])
    );
}

#[test]
fn store_errors() {
    let mut store = QuantRotorV4::new(vec![1, 1, 0, 2], 64, 0);
    assert_eq!(store.append_input(&[1, 2], &[1, 2]).err(), Some(Error::AppendRank(2)));
    assert_eq!(store.append(&[1, 2], table(), Ok(keep(&[]))), Err(Error::AppendRank(2)));
    assert!(store.rotors.is_empty());
    // A slice that the codec refuses leaves the table behind and nothing else.
    assert_eq!(store.append(&[1, 1, 1, 2], table(), Err(8)), Err(Error::RotorEncode(8)));
    assert_eq!(store.rotors, table());
    assert!(store.blocks.is_empty());
    assert_eq!(store.shape, vec![1, 1, 0, 2]);

    append_all(&mut store, &[1, 2], &[1, 1, 1, 2]);
    append_all(&mut store, &[3, 4], &[1, 1, 1, 2]);
    assert_eq!(
        store.dequant(&vec![Err(4), Err(5)]),
        Err(Error::RotorDecode(4))
    );
    assert_eq!(
        store.dequant(&vec![Ok(vec![1, 2]), Err(5)]),
        Err(Error::RotorDecode(5))
    );
    store.rotors.clear();
    assert_eq!(store.dequant(&Vec::new()), Err(Error::RotorTableEmpty));
    store.shape.truncate(3);
    assert_eq!(store.dequant(&Vec::new()), Err(Error::MalformedShape(3)));
}

#[test]
fn host_append_drops_the_ring() {
    let mut store = QuantRotorV4::with_rotors(table(), vec![1, 1, 0, 1], 64, 0);
    store.gpu = ring();
    append_all(&mut store, &[1], &[1, 1, 1, 1]);
    assert_eq!(store.gpu, RotorGpuK::absent());
    assert_eq!(store.blocks.len(), 1);
}

#[test]
fn truncation_keeps_whole_blocks() {
    let mut store = QuantRotorV4::with_rotors(table(), vec![1, 1, 0, 1], 64, 0);
    append_all(&mut store, &[1, 2], &[1, 1, 2, 1]);
    append_all(&mut store, &[3], &[1, 1, 1, 1]);
    append_all(&mut store, &[4, 5], &[1, 1, 2, 1]);
    store.gpu = ring();
    store.truncate_to(4);
    assert_eq!(store.blocks.len(), 2);
    assert_eq!(store.shape, vec![1, 1, 4, 1]);
    assert!(!store.gpu.allocated);
    store.truncate_to(-1);
    assert_eq!(store.blocks.len(), 0);
    assert_eq!(store.shape, vec![1, 1, -1, 1]);
}

#[test]
fn reset_keeps_the_extents() {
    let mut store = QuantRotorV4::with_rotors(table(), vec![1, 1, 0, 1], 64, 0);
    append_all(&mut store, &[1, 2], &[1, 1, 2, 1]);
    store.gpu = ring();
    store.reset();
    assert!(store.blocks.is_empty());
    assert_eq!(store.shape, vec![1, 1, 0, 1]);
    assert_eq!(store.gpu, RotorGpuK::absent());
}

#[test]
fn copy_starts_without_a_ring() {
    let mut store = QuantRotorV4::with_rotors(table(), vec![1, 1, 0, 1], 64, 3);
    append_all(&mut store, &[1, 2], &[1, 1, 2, 1]);
    store.gpu = ring();
    let mut copy = store.try_deep_clone().expect("copy");
    assert_eq!(copy.gpu, RotorGpuK::absent());
    assert_eq!(copy.rotors, store.rotors);
    assert_eq!(copy.shape, store.shape);
    assert_eq!(copy.blocks[0].codes, store.blocks[0].codes);
    assert_eq!((copy.max_seq, copy.layer_idx, copy.head_idx, copy.bits), (64, 3, 0, 4));
    copy.reset();
    assert_eq!(store.blocks.len(), 1);
}

#[test]
fn hydrated_store_takes_its_length_from_the_shape() {
    let block = RotorBlocks { codes: vec![1], scales: vec![2], norms: vec![3], n_tokens: 1 };
    let store = QuantRotorV4::from_cpu_blocks(table(), vec![block], vec![1, 1, 1, 1], 2);
    assert_eq!(store.max_seq, 1);
    assert_eq!(store.layer_idx, 2);
    assert_eq!(store.blocks.len(), 1);
    assert!(!store.gpu.allocated);
    let flat = QuantRotorV4::from_cpu_blocks(Vec::new(), Vec::new(), vec![1, 1], 2);
    assert_eq!(flat.max_seq, 0);
}

#[test]
fn table_is_counted_once() {
    let mut store = QuantRotorV4::with_rotors(table(), vec![1, 1, 0, 1], 64, 0);
    assert_eq!(store.byte_size(), 32);
    append_all(&mut store, &[1, 2], &[1, 1, 2, 1]);
    append_all(&mut store, &[3], &[1, 1, 1, 1]);
    // Codes, one scale and two norms to each block.
    assert_eq!(store.byte_size(), 32 + 4 * (2 + 1 + 2) + 4 * (1 + 1 + 2));
    store.gpu = ring();
    assert_eq!(store.byte_size(), 32 + 20 + 16 + 1000);
}

#[test]
fn ring_is_seeded_from_the_blocks() {
    let mut store = QuantRotorV4::with_rotors(table(), vec![1, 1, 0, 1], 64, 0);
    append_all(&mut store, &[1, 2], &[1, 1, 2, 1]);
    let at = RingAt { kv_h: 1, head_dim: 1, prev_seq: 2, new_seq: 1, max_seq: 64 };
    match store.gpu_append(1, 1, 2, 1) {
        RingStep::Seed { codes, scales, norms, at: place } => {
            assert_eq!((codes, scales, norms), (vec![1, 2], vec![1], vec![2, 3]));
            assert_eq!(place, at);
        }
        other => panic!("{other:?}"),
    }
    assert_eq!(store.gpu_packed_view(2), None);
    assert!(matches!(store.gpu_seeded(at, ring(), None), RingStep::Append { at: place } if place == at));
    assert!(matches!(store.gpu_appended(ring(), None), RingStep::Done(Ok(()))));
    assert_eq!(store.gpu_packed_view(3).map(|w| (w.ring, w.kv_seq)), Some((7, 3)));
    // A live ring, or nothing before the chunk: no seed.
    assert!(matches!(store.gpu_append(1, 1, 2, 1), RingStep::Append { .. }));
    let empty = QuantRotorV4::new(vec![1, 1, 0, 1], 64, 0);
    assert!(matches!(empty.gpu_append(1, 1, 0, 4), RingStep::Append { .. }));
}

#[test]
fn ring_failures_are_reported() {
    let mut store = QuantRotorV4::with_rotors(table(), vec![1, 1, 0, 1], 64, 0);
    let at = RingAt { kv_h: 1, head_dim: 1, prev_seq: 2, new_seq: 1, max_seq: 64 };
    assert!(matches!(
        store.gpu_seeded(at, RotorGpuK::absent(), Some(3)),
        RingStep::Done(Err(Error::Outside(3)))
    ));
    assert!(matches!(
        store.gpu_appended(ring(), Some(4)),
        RingStep::Done(Err(Error::Outside(4)))
    ));
}

#[test]
fn summary_of_a_store() {
    let mut store = QuantRotorV4::with_rotors(table(), vec![1, 1, 0, 1], 64, 9);
    append_all(&mut store, &[1, 2], &[1, 1, 2, 1]);
    let s = store.summary();
    assert_eq!((s.n_rotors, s.gpu_resident, s.n_blocks), (2, false, 1));
    assert_eq!(s.shape, vec![1, 1, 2, 1]);
    assert_eq!((s.max_seq, s.layer_idx, s.head_idx, s.bits), (64, 9, 0, 4));
}

#[test]
fn lossy_codec_by_rows_does_not_show_the_cuts() {
    // A codec that drops the lowest bit of every element, row by row.
    let lose = |rows: &[u32]| rows.iter().map(|x| x & !1).collect::<Vec<u32>>();
    let append = |store: &mut QuantRotorV4, data: &[u32], shape: &[i32]| {
        let input = store.append_input(data, shape).expect("rank");
        store.append(shape, table(), Ok(keep(&lose(&input.rows)))).expect("append");
    };
    let mut cut = QuantRotorV4::new(vec![1, 2, 0, 2], 64, 0);
    append(&mut cut, &[1, 2, 11, 12], &[1, 2, 1, 2]);
    append(&mut cut, &[3, 4, 5, 6, 13, 14, 15, 16], &[1, 2, 2, 2]);
    let mut whole = QuantRotorV4::new(vec![1, 2, 0, 2], 64, 0);
    let data = [1, 2, 3, 4, 5, 6, 11, 12, 13, 14, 15, 16];
    append(&mut whole, &data, &[1, 2, 3, 2]);
    let decode = |store: &QuantRotorV4| {
        store.dequant(&store.blocks.iter().map(|b| Ok(b.codes.clone())).collect())
    };
    assert_eq!(decode(&cut), decode(&whole));
    assert_eq!(decode(&whole), Ok(lose(&data)));
    assert_eq!((cut.shape, whole.shape), (vec![1, 2, 3, 2], vec![1, 2, 3, 2]));
}
