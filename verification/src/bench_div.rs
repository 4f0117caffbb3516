//! Benchmark of the 64-bit signed `DIV` instruction: one division per iteration over
//! fixed tables of operands with diverse bit patterns, the quotients summed with
//! wrapping addition so that the work cannot be dropped as dead code.
use vstd::prelude::*;

use crate::riscv::{div, spec_div, two_pow_64, wrap_u64};
use vstd::arithmetic::div_mod::{
    lemma_add_mod_noop, lemma_mod_sub_multiples_vanish, lemma_mod_twice, lemma_small_mod,
};

verus! {

/// Number of divisions performed by the benchmark.
pub const ITERATIONS: u64 = 100000;

/// Dividends, chosen for diverse bit patterns.
pub const DIVIDENDS: [u64; 64] = [
    0x123456789ABCDEF0, 0xFEDCBA9876543210, 0x8000000000000000, 0x7FFFFFFFFFFFFFFF,
    0xAAAAAAAAAAAAAAAA, 0x5555555555555555, 0x0F0F0F0F0F0F0F0F, 0xF0F0F0F0F0F0F0F0,
    0x1234567890ABCDEF, 0xDEADBEEFCAFEBABE, 0xBADC0FFEE0DDF00D, 0x1337C0DE5EADBEEF,
    0x9876543210FEDCBA, 0x1111111111111111, 0x2222222222222222, 0x3333333333333333,
    0x4444444444444444, 0x5555555555555555, 0x6666666666666666, 0x7777777777777777,
    0x8888888888888888, 0x9999999999999999, 0xBBBBBBBBBBBBBBBB, 0xCCCCCCCCCCCCCCCC,
    0xDDDDDDDDDDDDDDDD, 0xEEEEEEEEEEEEEEEE, 0xFFFFFFFFFFFFFFFF, 0x123456789ABCDEF,
    0x987654321FEDCBA, 0x1000000000000001, 0x2000000000000002, 0x3000000000000003,
    0x4000000000000004, 0x5000000000000005, 0x6000000000000006, 0x7000000000000007,
    0x8000000000000008, 0x9000000000000009, 0xA00000000000000A, 0xB00000000000000B,
    0xC00000000000000C, 0xD00000000000000D, 0xE00000000000000E, 0xF00000000000000F,
    0x1234567812345678, 0x9ABCDEF09ABCDEF0, 0xFEDCBA98FEDCBA98, 0x7654321076543210,
    0x1357924680ABCDEF, 0x2468ACE1357BDF02, 0x369CF258147AD036, 0x47AD0369CF258147,
    0x58BE1470AD2369CF, 0x69CF25814702AD36, 0x7AE0369258BE1470, 0x8BF147AD0369CF25,
    0x9C0258BE147AE036, 0xAD1369CF258BF047, 0xBE247AD0369C0158, 0xCF358BE147AD0269,
    0xE0469CF258BE137A, 0xF157AD0369CF248B, 0x0268BE147AD0359C, 0x1379CF258BE046AD,
];

/// Divisors: no zero; primes, powers of two and other common patterns.
pub const DIVISORS: [u64; 32] = [
    0x1000000,    // 2^24
    0xFFFFFF,     // 2^24 - 1
    1000000007,   // 10^9 + 7, prime
    2147483647,   // 2^31 - 1, Mersenne prime
    4294967291,   // large 32-bit prime
    1000000,      // 10^6
    1000,         // 10^3
    100,          // 10^2
    10,           // 10^1
    7, 11, 13, 17, 19, 23, 29, 31, 37, 41, 43, 47, 53, 59, 61, 67, 71,
    256,          // 2^8
    65536,        // 2^16
    16777216,     // 2^24
    4294967296,   // 2^32
    0xDEADBEEF,
    0xCAFEBABE,
];

/// Index of the dividend used at iteration `i`: the table is walked cyclically.
pub open spec fn dividend_index(i: int) -> int {
    i % 64
}

/// Index of the divisor used at iteration `i`: it advances once per full pass over
/// the dividends, and cycles too.
pub open spec fn divisor_index(i: int) -> int {
    (i / 64) % 32
}

/// The quotient computed at iteration `i`.
pub open spec fn quotient_at(i: int) -> u64 {
    spec_div(DIVIDENDS@[dividend_index(i)], DIVISORS@[divisor_index(i)])
}

/// The accumulator after the first `n` iterations: the quotients summed with
/// wrapping addition.
pub open spec fn accumulated_quotients(n: nat) -> u64
    decreases n,
{
    if n == 0 {
        0
    } else {
        accumulated_quotients((n - 1) as nat).wrapping_add(quotient_at(n - 1))
    }
}

/// Table indices for iteration `i`, computed with bit masks in place of the
/// modulo operations.
fn operand_indices(i: u64) -> (indices: (usize, usize))
    requires
        i < ITERATIONS,
    ensures
        indices.0 == dividend_index(i as int),
        indices.1 == divisor_index(i as int),
{
    let dividend_idx: usize = (i as usize) & 0x3F;
    let shifted: u64 = i >> 6;
    let divisor_idx: usize = (shifted as usize) & 0x1F;
    proof {
        let wide: usize = i as usize;
        let narrow: usize = shifted as usize;
        assert(wide & 0x3F == wide % 64) by (bit_vector);
        assert(i >> 6 == i / 64) by (bit_vector);
        assert(narrow & 0x1F == narrow % 32) by (bit_vector);
    }
    (dividend_idx, divisor_idx)
}

/// Runs the benchmark: `ITERATIONS` divisions, whose quotients are accumulated with
/// wrapping addition. Returns 1 when the accumulator ends at zero, 0 otherwise.
pub fn program_entry() -> (status: i8)
    ensures
        status == (if accumulated_quotients(ITERATIONS as nat) == 0 {
            1i8
        } else {
            0i8
        }),
{
    let iterations: u64 = ITERATIONS;
    let mut accumulator: u64 = 0;
    let mut i: u64 = 0;
    while i < iterations
        invariant
            iterations == ITERATIONS,
            i <= iterations,
            accumulator == accumulated_quotients(i as nat),
        decreases iterations - i,
    {
        let (dividend_idx, divisor_idx) = operand_indices(i);
        let dividend: u64 = DIVIDENDS[dividend_idx];
        let divisor: u64 = DIVISORS[divisor_idx];
        let result: u64 = div(dividend, divisor);
        accumulator = accumulator.wrapping_add(result);
        i = i + 1;
    }
    if accumulator == 0 {
        return 1;
    }
    0
}

/// The plain sum of the quotients of the first `n` iterations.
pub open spec fn sum_of_quotients(n: nat) -> int
    decreases n,
{
    if n == 0 {
        0
    } else {
        sum_of_quotients((n - 1) as nat) + quotient_at(n - 1)
    }
}

/// The wrapping accumulator holds the sum of the quotients modulo 2^64.
pub proof fn lemma_accumulator_is_sum_mod_2_64(n: nat)
    ensures
        accumulated_quotients(n) == wrap_u64(sum_of_quotients(n)),
    decreases n,
{
    if n == 0 {
        lemma_small_mod(0, two_pow_64() as nat);
    } else {
        let m = (n - 1) as nat;
        lemma_accumulator_is_sum_mod_2_64(m);
        let prev: int = accumulated_quotients(m) as int;
        let q: int = quotient_at(n - 1) as int;
        lemma_add_mod_noop(sum_of_quotients(m), q, two_pow_64());
        lemma_small_mod(q as nat, two_pow_64() as nat);
        lemma_mod_twice(sum_of_quotients(m), two_pow_64());
        if prev + q > u64::MAX {
            lemma_small_mod((prev + q - two_pow_64()) as nat, two_pow_64() as nat);
            lemma_mod_sub_multiples_vanish(prev + q, two_pow_64());
        } else {
            lemma_small_mod((prev + q) as nat, two_pow_64() as nat);
        }
    }
}

/// Every pairing of a dividend with a divisor is exercised: the pass over the
/// dividends for each divisor completes within the benchmark's iterations.
pub proof fn lemma_every_operand_pair_is_used(j: int, k: int)
    requires
        0 <= j < 64,
        0 <= k < 32,
    ensures
        exists|i: int|
            0 <= i < ITERATIONS && dividend_index(i) == j && divisor_index(i) == k,
{
    let i = 64 * k + j;
    assert(dividend_index(i) == j);
    assert(divisor_index(i) == k);
}

} // verus!
