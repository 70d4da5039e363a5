use nova_core::num::NumExt;
use nova_core::ptr::{Alignable, Alignment};

#[test]
fn align_down_examples() {
    assert_eq!(NumExt::align_down(0x4fffu32, 0x1000), 0x4000);
    assert_eq!(NumExt::align_down(0x4fffu32, 0x0), 0x0);
}

#[test]
fn align_up_examples() {
    assert_eq!(NumExt::align_up(0x4fffu32, 0x1000), 0x5000);
    assert_eq!(NumExt::align_up(0x4000u32, 0x1000), 0x4000);
    assert_eq!(NumExt::align_up(0x0u32, 0x1000), 0x0);
    assert_eq!(NumExt::align_up(0xffffu16, 0x100), 0x0);
    assert_eq!(NumExt::align_up(0x4fffu32, 0x0), 0x0);
}

#[test]
fn fls_examples() {
    assert_eq!(0x0u32.fls(), 0);
    assert_eq!(0x1u32.fls(), 1);
    assert_eq!(0x10u32.fls(), 5);
    assert_eq!(0xffffu32.fls(), 16);
    assert_eq!(0x8000_0000u32.fls(), 32);
}

#[test]
fn every_width_aligns() {
    assert_eq!(NumExt::align_down(0xffu8, 0x10), 0xf0);
    assert_eq!(NumExt::align_up(0xf1u8, 0x10), 0);
    assert_eq!(NumExt::align_up(0xe1u8, 0x10), 0xf0);
    assert_eq!(NumExt::align_down(0x1234u16, 0x100), 0x1200);
    assert_eq!(NumExt::align_up(0x1234u16, 0x100), 0x1300);
    assert_eq!(NumExt::align_down(u64::MAX, 1 << 63), 1 << 63);
    assert_eq!(NumExt::align_up(u64::MAX, 1 << 63), 0);
    assert_eq!(NumExt::align_up(1u64, 1 << 63), 1 << 63);
    assert_eq!(NumExt::align_down(u128::MAX, 1 << 127), 1 << 127);
    assert_eq!(NumExt::align_up((1u128 << 100) + 1, 1 << 100), 1 << 101);
    assert_eq!(NumExt::align_down(0x4fffusize, 0x1000), 0x4000);
    assert_eq!(NumExt::align_up(0x4fffusize, 0x1000), 0x5000);
}

#[test]
fn every_width_finds_last_set_bit() {
    assert_eq!(0u8.fls(), 0);
    assert_eq!(0x80u8.fls(), 8);
    assert_eq!(0x7fu8.fls(), 7);
    assert_eq!(0x8000u16.fls(), 16);
    assert_eq!(u64::MAX.fls(), 64);
    assert_eq!((1u64 << 40).fls(), 41);
    assert_eq!(u128::MAX.fls(), 128);
    assert_eq!((1u128 << 64).fls(), 65);
    assert_eq!((1u128 << 63).fls(), 64);
    assert_eq!(0u128.fls(), 0);
    assert_eq!(0x100usize.fls(), 9);
}

#[test]
fn alignment_that_is_no_power_of_two_masks_bits() {
    assert_eq!(NumExt::align_down(0xffu32, 6), 0xfa);
    assert_eq!(NumExt::align_up(0xffu32, 6), 0x100);
}

#[test]
fn aligned_neighbours() {
    let page = Alignment::new(4096);
    assert_eq!(Alignable::align_down(8191u64, page), 4096);
    assert_eq!(Alignable::align_up(4097u64, page), Some(8192));
    assert_eq!(Alignable::align_down(8192u64, page), 8192);
    assert_eq!(Alignable::align_up(8192u64, page), Some(8192));
}

#[test]
fn align_up_past_the_limit_is_none() {
    let page = Alignment::new(4096);
    assert_eq!(Alignable::align_up(u64::MAX, page), None);
    assert_eq!(Alignable::align_up(u64::MAX - 4095, page), Some(u64::MAX - 4095));
    assert_eq!(Alignable::align_up(u64::MAX - 4094, page), None);
}
