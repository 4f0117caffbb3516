use ckb_vm_bench::bench_div;
use ckb_vm_bench::bench_remw;
use ckb_vm_bench::bench_wide_div;
use ckb_vm_bench::riscv::{div, remw};

#[test]
fn div_benchmark_accumulates_a_nonzero_sum_and_reports_zero() {
    assert_eq!(bench_div::program_entry(), 0);
}

#[test]
fn remw_benchmark_accumulates_a_nonzero_sum_and_reports_zero() {
    assert_eq!(bench_remw::program_entry(), 0);
}

#[test]
fn wide_div_benchmark_reports_one() {
    assert_eq!(bench_wide_div::program_entry(), 1);
}

#[test]
fn div_benchmark_sum_matches_the_wrapped_total() {
    // The accumulator is the sum of all quotients modulo 2^64.
    let mut wide_total: u128 = 0;
    let mut acc: u64 = 0;
    for i in 0..bench_div::ITERATIONS {
        let q = div(
            bench_div::DIVIDENDS[(i % 64) as usize],
            bench_div::DIVISORS[((i / 64) % 32) as usize],
        );
        wide_total += q as u128;
        acc = acc.wrapping_add(q);
    }
    assert_eq!(acc, (wide_total % (1u128 << 64)) as u64);
    assert_eq!(acc, 0x1c57_1c78_185f_9d4a);
}

#[test]
fn remw_benchmark_sum_matches_the_wrapped_total() {
    let mut total: i64 = 0;
    let mut acc: i32 = 0;
    for i in 0..bench_remw::ITERATIONS {
        let r = remw(
            bench_remw::DIVIDENDS[(i % 64) as usize] as i32,
            bench_remw::DIVISORS[((i / 64) % 32) as usize] as i32,
        );
        total += r as i64;
        acc = acc.wrapping_add(r);
    }
    assert_eq!(acc, total as i32);
    assert_eq!(acc, -1534686598);
}

#[test]
fn operand_tables_have_no_zero_divisor() {
    assert!(bench_div::DIVISORS.iter().all(|&d| d != 0));
    assert!(bench_remw::DIVISORS.iter().all(|&d| d != 0));
    assert!(bench_wide_div::DIVISORS.iter().all(|&d| d != 0));
}

#[test]
fn div_benchmark_first_quotients() {
    // iteration 0: 0x123456789ABCDEF0 / 2^24
    assert_eq!(div(bench_div::DIVIDENDS[0], bench_div::DIVISORS[0]), 0x123456789ABCDEF0 >> 24);
    // iteration 2: -2^63 / 2^24
    assert_eq!(div(bench_div::DIVIDENDS[2], bench_div::DIVISORS[0]), (-(1i64 << 39)) as u64);
}
