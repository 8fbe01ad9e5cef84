use rmlx::gates::{reads_on, IsoOverride, Latch};
use rmlx::kvcache::gate::head_dim_is_power_of_two;
use rmlx::tensor::Shape;
use rmlx::{fused_qk_enabled, gpu_resident_iso_enabled, sparse_attn_enabled, KvCache};

#[test]
fn rotor_flash_takes_power_of_two_heads_only() {
    assert!(KvCache::rotor_flash_shape_ok(&Shape::new(&[1, 8, 1, 128])));
    assert!(KvCache::rotor_flash_shape_ok(&Shape::new(&[1, 1, 1, 512])));
    assert!(KvCache::rotor_flash_shape_ok(&Shape::new(&[1, 1, 1, 1])));
    assert!(!KvCache::rotor_flash_shape_ok(&Shape::new(&[1, 8, 1, 96])));
    assert!(!KvCache::rotor_flash_shape_ok(&Shape::new(&[1, 8, 1, 1024])));
    assert!(!KvCache::rotor_flash_shape_ok(&Shape::new(&[1, 8, 1, 0])));
}

#[test]
fn rotor_flash_takes_one_request_with_heads_only() {
    assert!(!KvCache::rotor_flash_shape_ok(&Shape::new(&[2, 8, 1, 128])));
    assert!(!KvCache::rotor_flash_shape_ok(&Shape::new(&[1, 0, 1, 128])));
    assert!(!KvCache::rotor_flash_shape_ok(&Shape::new(&[1, 8, 128])));
}

#[test]
fn power_of_two_reads_a_negative_extent_as_a_word() {
    assert!(head_dim_is_power_of_two(i32::MIN));
    assert!(head_dim_is_power_of_two(64));
    assert!(!head_dim_is_power_of_two(-64));
    assert!(!head_dim_is_power_of_two(0));
}

#[test]
fn only_a_one_switches_on() {
    assert!(reads_on(&Some("1".to_string())));
    assert!(!reads_on(&Some("true".to_string())));
    assert!(!reads_on(&Some("11".to_string())));
    assert!(!reads_on(&Some(String::new())));
    assert!(!reads_on(&None));
}

#[test]
fn first_reading_of_a_switch_stands() {
    let mut latch = Latch::new();
    assert!(fused_qk_enabled(&mut latch, &Some("1".to_string())));
    assert!(fused_qk_enabled(&mut latch, &None));
    let mut latch = Latch::new();
    assert!(!sparse_attn_enabled(&mut latch, &None));
    assert!(!sparse_attn_enabled(&mut latch, &Some("1".to_string())));
}

#[test]
fn iso_mirror_is_off_but_for_the_stand_in() {
    assert!(!gpu_resident_iso_enabled());
    let mut stand_in = IsoOverride::new();
    stand_in.set_gpu_resident_iso_for_test(true);
    assert!(stand_in.gpu_resident_iso_enabled());
    stand_in.set_gpu_resident_iso_for_test(false);
    assert!(stand_in.gpu_resident_iso_enabled());
    let mut untouched = IsoOverride::new();
    assert!(!untouched.gpu_resident_iso_enabled());
}

#[test]
fn shape_keeps_the_extents_that_are_read() {
    let s = Shape::new(&[3, 5, 7, 11, 13]);
    assert_eq!(s.rank, 5);
    assert_eq!(s.dim(0), Some(3));
    assert_eq!(s.dim(3), Some(11));
    assert_eq!(s.dim(4), None);
    assert_eq!(s.last_or_zero(), 13);
    let empty = Shape::new(&[]);
    assert_eq!(empty.dim(0), None);
    assert_eq!(empty.dim_or_zero(0), 0);
    assert_eq!(empty.last_or_zero(), 0);
}
