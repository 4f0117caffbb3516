use ckb_vm_bench::riscv::{div, remw};

fn reg(x: i64) -> u64 {
    x as u64
}

#[test]
fn div_rounds_toward_zero_for_every_sign() {
    assert_eq!(div(7, 2), 3);
    assert_eq!(div(reg(-7), 2), reg(-3));
    assert_eq!(div(7, reg(-2)), reg(-3));
    assert_eq!(div(reg(-7), reg(-2)), 3);
    assert_eq!(div(0, 5), 0);
    assert_eq!(div(reg(-1), 2), 0);
}

#[test]
fn div_by_zero_gives_all_ones() {
    assert_eq!(div(12345, 0), u64::MAX);
    assert_eq!(div(0, 0), u64::MAX);
    assert_eq!(div(0x8000_0000_0000_0000, 0), u64::MAX);
}

#[test]
fn div_overflow_gives_the_dividend() {
    assert_eq!(div(0x8000_0000_0000_0000, u64::MAX), 0x8000_0000_0000_0000);
}

#[test]
fn div_reads_high_registers_as_negative() {
    // -2^63 / 2^24 = -2^39
    assert_eq!(div(0x8000_0000_0000_0000, 0x100_0000), reg(-(1i64 << 39)));
    // u64::MAX is -1: -1 / 7 rounds to 0
    assert_eq!(div(u64::MAX, 7), 0);
    assert_eq!(div(0xFEDC_BA98_7654_3210, 1000), reg((0xFEDC_BA98_7654_3210u64 as i64) / 1000));
    assert_eq!(div(0x7FFF_FFFF_FFFF_FFFF, 10), 0x7FFF_FFFF_FFFF_FFFF / 10);
}

#[test]
fn remw_takes_the_sign_of_the_dividend() {
    assert_eq!(remw(7, 2), 1);
    assert_eq!(remw(-7, 2), -1);
    assert_eq!(remw(7, -2), 1);
    assert_eq!(remw(-7, -2), -1);
    assert_eq!(remw(-6, 3), 0);
    assert_eq!(remw(0x1234_5678, 1000), 0x1234_5678 % 1000);
}

#[test]
fn remw_by_zero_gives_the_dividend() {
    assert_eq!(remw(-42, 0), -42);
    assert_eq!(remw(i32::MIN, 0), i32::MIN);
}

#[test]
fn remw_overflow_gives_zero() {
    assert_eq!(remw(i32::MIN, -1), 0);
}

#[test]
fn remw_rebuilds_the_dividend_with_the_truncated_quotient() {
    for &(a, b) in &[(-2147483647i32, 97i32), (i32::MIN, 65536), (0x7FFF_FFFF, 7), (-1, 2147483647)] {
        let r = remw(a, b);
        assert_eq!(r, a.wrapping_rem(b));
        assert!((r as i64).abs() < (b as i64).abs());
        assert_eq!(a as i64, (b as i64) * ((a as i64) / (b as i64)) + r as i64);
    }
}
