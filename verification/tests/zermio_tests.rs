//! Tests for the register/bitfield runtime: every mutation works on the
//! cache, and hardware words move only through explicit fetch/commit.

use zermiolib::access::ReadWrite;
use zermiolib::zermio::{BitField, Register};

#[test]
fn test_max() {
    let reg = Register::<u32>::new(0);
    assert_eq!(BitField::<10, 1, u32, ReadWrite>::new(reg).max(), 1);
    let reg = Register::<u32>::new(0);
    assert_eq!(BitField::<10, 2, u32, ReadWrite>::new(reg).max(), (1 << 2) - 1);
    let reg = Register::<u32>::new(0);
    assert_eq!(BitField::<0, 10, u32, ReadWrite>::new(reg).max(), (1 << 10) - 1);
    let reg = Register::<u32>::new(0);
    assert_eq!(BitField::<1, 10, u32, ReadWrite>::new(reg).max(), (1 << 10) - 1);
    let reg = Register::<u32>::new(0);
    assert_eq!(BitField::<0, 32, u32, ReadWrite>::new(reg).max(), u32::MAX);

    let reg = Register::<u64>::new(0);
    assert_eq!(BitField::<0, 64, u64, ReadWrite>::new(reg).max(), u64::MAX);
    let reg = Register::<u64>::new(0);
    assert_eq!(BitField::<1, 64, u64, ReadWrite>::new(reg).max(), u64::MAX);
}

#[test]
fn test_mask() {
    let reg = Register::<u32>::new(0);
    assert_eq!(BitField::<10, 1, u32, ReadWrite>::new(reg).mask(), 1 << 10);
    let reg = Register::<u32>::new(0);
    assert_eq!(BitField::<10, 2, u32, ReadWrite>::new(reg).mask(), 3 << 10);
    let reg = Register::<u32>::new(0);
    assert_eq!(BitField::<0, 10, u32, ReadWrite>::new(reg).mask(), (1 << 10) - 1);
    let reg = Register::<u32>::new(0);
    assert_eq!(
        BitField::<1, 10, u32, ReadWrite>::new(reg).mask(),
        ((1 << 10) - 1) << 1
    );
    let reg = Register::<u32>::new(0);
    assert_eq!(BitField::<0, 32, u32, ReadWrite>::new(reg).mask(), u32::MAX);

    let reg = Register::<u64>::new(0);
    assert_eq!(BitField::<0, 64, u64, ReadWrite>::new(reg).mask(), u64::MAX);
}

#[test]
fn test_set_reset() {
    let mut mem = 0u32;
    let reg = Register::<u32>::new(0);
    let mut field = BitField::<10, 1, u32, ReadWrite>::new(reg);
    field.set();
    field.commit(&mut mem);
    assert_eq!(mem, 1 << 10);
    field.reset();
    field.commit(&mut mem);
    assert_eq!(mem, 0);
}

#[test]
fn test_fetch_reset() {
    let mut mem = u32::MAX;
    let mut reg = Register::<u32>::new(0);
    reg.fetch(&mem);
    let mut field = BitField::<15, 1, u32, ReadWrite>::new(reg);
    field.reset();
    field.commit(&mut mem);
    assert_eq!(mem, !(1 << 15));
}

#[test]
fn test_toggle() {
    let mut mem = 0u32;
    let reg = Register::<u32>::new(0);
    let mut field = BitField::<30, 1, u32, ReadWrite>::new(reg);
    field.toggle();
    field.commit(&mut mem);
    assert_eq!(mem, 1 << 30);
    field.toggle();
    field.commit(&mut mem);
    assert_eq!(mem, 0);
    field.toggle();
    field.commit(&mut mem);
    assert_eq!(mem, 1 << 30);

    let reg = field.into_inner();
    let mut field = BitField::<10, 1, u32, ReadWrite>::new(reg);
    field.toggle();
    field.commit(&mut mem);
    assert_eq!(mem, 1 << 30 | 1 << 10);
}

#[test]
fn test_is_set() {
    let mem = 1u32 << 0;
    let reg = Register::<u32>::new(0);
    let mut field = BitField::<0, 1, u32, ReadWrite>::new(reg);
    field.fetch(&mem);
    assert_eq!(field.is_set(), true);

    let mem = 1u32 << 1;
    let reg = Register::<u32>::new(0);
    let mut field = BitField::<1, 1, u32, ReadWrite>::new(reg);
    field.fetch(&mem);
    assert_eq!(field.is_set(), true);

    let mem = 1u32 << 15;
    let reg = Register::<u32>::new(0);
    let mut field = BitField::<15, 1, u32, ReadWrite>::new(reg);
    field.fetch(&mem);
    assert_eq!(field.is_set(), true);

    let mem = 1u32 << 31;
    let reg = Register::<u32>::new(0);
    let mut field = BitField::<31, 1, u32, ReadWrite>::new(reg);
    field.fetch(&mem);
    assert_eq!(field.is_set(), true);

    let mem = 1u32 << 30;
    let reg = Register::<u32>::new(0);
    let mut field = BitField::<30, 1, u32, ReadWrite>::new(reg);
    field.fetch(&mem);
    assert_eq!(field.is_set(), true);
}

#[test]
fn test_reset() {
    let mut mem = u32::MAX;
    let reg = Register::<u32>::new(0);
    let mut field = BitField::<31, 1, u32, ReadWrite>::new(reg);
    field.fetch(&mem);
    field.reset();
    field.commit(&mut mem);
    assert_eq!(mem, !(1 << 31) & u32::MAX);

    let mut mem = u32::MAX;
    let reg = Register::<u32>::new(0);
    let mut field = BitField::<30, 1, u32, ReadWrite>::new(reg);
    field.fetch(&mem);
    field.reset();
    field.commit(&mut mem);
    assert_eq!(mem, !(1 << 30) & u32::MAX);

    let mut mem = u32::MAX;
    let reg = Register::<u32>::new(0);
    let mut field = BitField::<15, 1, u32, ReadWrite>::new(reg);
    field.fetch(&mem);
    field.reset();
    field.commit(&mut mem);
    assert_eq!(mem, !(1 << 15) & u32::MAX);

    let mut mem = u32::MAX;
    let reg = Register::<u32>::new(0);
    let mut field = BitField::<1, 1, u32, ReadWrite>::new(reg);
    field.fetch(&mem);
    field.reset();
    field.commit(&mut mem);
    assert_eq!(mem, !(1 << 1) & u32::MAX);

    let mut mem = u32::MAX;
    let reg = Register::<u32>::new(0);
    let mut field = BitField::<0, 1, u32, ReadWrite>::new(reg);
    field.fetch(&mem);
    field.reset();
    field.commit(&mut mem);
    assert_eq!(mem, !(1 << 0) & u32::MAX);
}

#[test]
fn test_set() {
    let mut mem = 0u32;
    let reg = Register::<u32>::new(0);
    let mut field = BitField::<31, 1, u32, ReadWrite>::new(reg);
    field.fetch(&mem);
    field.set();
    field.commit(&mut mem);
    assert_eq!(mem, 1 << 31);

    let mut mem = 0u32;
    let reg = Register::<u32>::new(0);
    let mut field = BitField::<30, 1, u32, ReadWrite>::new(reg);
    field.fetch(&mem);
    field.set();
    field.commit(&mut mem);
    assert_eq!(mem, 1 << 30);

    let mut mem = 0u32;
    let reg = Register::<u32>::new(0);
    let mut field = BitField::<15, 1, u32, ReadWrite>::new(reg);
    field.fetch(&mem);
    field.set();
    field.commit(&mut mem);
    assert_eq!(mem, 1 << 15);

    let mut mem = 0u32;
    let reg = Register::<u32>::new(0);
    let mut field = BitField::<1, 1, u32, ReadWrite>::new(reg);
    field.fetch(&mem);
    field.set();
    field.commit(&mut mem);
    assert_eq!(mem, 1 << 1);

    let mut mem = 0u32;
    let reg = Register::<u32>::new(0);
    let mut field = BitField::<0, 1, u32, ReadWrite>::new(reg);
    field.fetch(&mem);
    field.set();
    field.commit(&mut mem);
    assert_eq!(mem, 1 << 0);
}

#[test]
fn test_assign_true() {
    let mut mem = 0u32;
    let reg = Register::<u32>::new(0);
    let mut field = BitField::<31, 1, u32, ReadWrite>::new(reg);
    field.fetch(&mem);
    field.assign(true);
    field.commit(&mut mem);
    assert_eq!(mem, 1 << 31);

    let mut mem = 0u32;
    let reg = Register::<u32>::new(0);
    let mut field = BitField::<30, 1, u32, ReadWrite>::new(reg);
    field.fetch(&mem);
    field.assign(true);
    field.commit(&mut mem);
    assert_eq!(mem, 1 << 30);

    let mut mem = 0u32;
    let reg = Register::<u32>::new(0);
    let mut field = BitField::<15, 1, u32, ReadWrite>::new(reg);
    field.fetch(&mem);
    field.assign(true);
    field.commit(&mut mem);
    assert_eq!(mem, 1 << 15);

    let mut mem = 0u32;
    let reg = Register::<u32>::new(0);
    let mut field = BitField::<1, 1, u32, ReadWrite>::new(reg);
    field.fetch(&mem);
    field.assign(true);
    field.commit(&mut mem);
    assert_eq!(mem, 1 << 1);

    let mut mem = 0u32;
    let reg = Register::<u32>::new(0);
    let mut field = BitField::<0, 1, u32, ReadWrite>::new(reg);
    field.fetch(&mem);
    field.assign(true);
    field.commit(&mut mem);
    assert_eq!(mem, 1 << 0);
}

#[test]
fn test_assign_false() {
    let mut mem = u32::MAX;
    let reg = Register::<u32>::new(0);
    let mut field = BitField::<31, 1, u32, ReadWrite>::new(reg);
    field.fetch(&mem);
    field.assign(false);
    field.commit(&mut mem);
    assert_eq!(mem, !(1 << 31) & u32::MAX);

    let mut mem = u32::MAX;
    let reg = Register::<u32>::new(0);
    let mut field = BitField::<30, 1, u32, ReadWrite>::new(reg);
    field.fetch(&mem);
    field.assign(false);
    field.commit(&mut mem);
    assert_eq!(mem, !(1 << 30) & u32::MAX);

    let mut mem = u32::MAX;
    let reg = Register::<u32>::new(0);
    let mut field = BitField::<15, 1, u32, ReadWrite>::new(reg);
    field.fetch(&mem);
    field.assign(false);
    field.commit(&mut mem);
    assert_eq!(mem, !(1 << 15) & u32::MAX);

    let mut mem = u32::MAX;
    let reg = Register::<u32>::new(0);
    let mut field = BitField::<1, 1, u32, ReadWrite>::new(reg);
    field.fetch(&mem);
    field.assign(false);
    field.commit(&mut mem);
    assert_eq!(mem, !(1 << 1) & u32::MAX);

    let mut mem = u32::MAX;
    let reg = Register::<u32>::new(0);
    let mut field = BitField::<0, 1, u32, ReadWrite>::new(reg);
    field.fetch(&mem);
    field.assign(false);
    field.commit(&mut mem);
    assert_eq!(mem, !(1 << 0) & u32::MAX);
}

#[test]
fn test_clear() {
    let mut mem = u32::MAX;
    let mut reg = Register::<u32>::new(0);
    reg.fetch(&mem);
    let mut field = BitField::<5, 8, u32, ReadWrite>::new(reg);
    field.clear();
    field.commit(&mut mem);
    assert_eq!(mem, u32::MAX & !(0xff << 5));
}

#[test]
fn test_write() {
    let mut mem = u32::MAX;
    let reg = Register::<u32>::new(0);
    let mut field = BitField::<5, 8, u32, ReadWrite>::new(reg);

    field.write(0xfa);
    field.commit(&mut mem);
    assert_eq!(mem, 0xfa << 5);

    field.write(0x7a);
    field.commit(&mut mem);
    assert_eq!(mem, 0x7a << 5);

    let mut mem = u32::MAX;
    let reg = Register::<u32>::new(0);
    let mut field = BitField::<5, 8, u32, ReadWrite>::new(reg);
    field.fetch(&mem);
    field.write(0x7a);
    field.commit(&mut mem);
    assert_eq!(mem, (u32::MAX & !(0xff << 5)) | (0x7a << 5));
}

#[test]
fn test_write_mask() {
    let mut mem = u32::MAX;
    let reg = Register::<u32>::new(0);
    let mut field = BitField::<5, 8, u32, ReadWrite>::new(reg);
    field.write_mask(0xfa);
    field.commit(&mut mem);
    assert_eq!(mem, 0xfa << 5);

    let mut mem = 0u32;
    let reg = Register::<u32>::new(0);
    let mut field = BitField::<5, 8, u32, ReadWrite>::new(reg);
    field.fetch(&mem);
    field.write(0x80);
    field.commit(&mut mem);
    field.fetch(&mem);
    field.write_mask(0x1 << 2);
    field.commit(&mut mem);
    assert_eq!(mem, (0x80 | (0x01 << 2)) << 5);
}

#[test]
fn write_then_get_truncates_to_max() {
    let reg = Register::<u32>::new(0);
    let mut field = BitField::<4, 6, u32, ReadWrite>::new(reg);
    field.write(0xfff);
    assert_eq!(field.get(), 0xfff & field.max());
    assert_eq!(field.get(), 0x3f);
}

#[test]
fn write_mask_twice_is_once() {
    let mut once = 0u32;
    let reg = Register::<u32>::new(0);
    let mut field = BitField::<5, 8, u32, ReadWrite>::new(reg);
    field.write_mask(0x5a);
    field.commit(&mut once);

    let mut twice = 0u32;
    let reg = Register::<u32>::new(0);
    let mut field = BitField::<5, 8, u32, ReadWrite>::new(reg);
    field.write_mask(0x5a);
    field.write_mask(0x5a);
    field.commit(&mut twice);

    assert_eq!(once, twice);
    assert_eq!(once, 0x5a << 5);
}

#[test]
fn in_range_compares_against_max() {
    let reg = Register::<u32>::new(0);
    let field = BitField::<5, 8, u32, ReadWrite>::new(reg);
    assert!(field.in_range(0xff));
    assert!(field.in_range(0x1ff));
    assert!(!field.in_range(0xfe));
}
