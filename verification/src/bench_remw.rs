//! Benchmark of the 32-bit signed `REMW` instruction: one remainder per iteration
//! over fixed tables of 32-bit operands, the remainders summed with 32-bit wrapping
//! addition so that the work cannot be dropped as dead code.
use vstd::prelude::*;

use crate::riscv::{remw, spec_remw};
use vstd::arithmetic::div_mod::{
    lemma_add_mod_noop, lemma_mod_add_multiples_vanish, lemma_mod_sub_multiples_vanish,
    lemma_mod_twice, lemma_small_mod,
};

verus! {

/// Number of remainders computed by the benchmark.
pub const ITERATIONS: u64 = 100000;

/// Dividends, as 32-bit patterns; each is read as a signed word.
pub const DIVIDENDS: [u32; 64] = [
    0x12345678, 0x9ABCDEF0, 0x80000000, 0x7FFFFFFF,
    0xAAAAAAAA, 0x55555555, 0x0F0F0F0F, 0xF0F0F0F0,
    0xDEADBEEF, 0xCAFEBABE, 0xBADC0FFE, 0x1337C0DE,
    0x98765432, 0x11111111, 0x22222222, 0x33333333,
    0x44444444, 0x55555555, 0x66666666, 0x77777777,
    0x88888888, 0x99999999, 0xAAAAAAAA, 0xBBBBBBBB,
    0xCCCCCCCC, 0xDDDDDDDD, 0xEEEEEEEE, 0xFFFFFFFF,
    0x12345678, 0x87654321, 0x10000001, 0x20000002,
    0x30000003, 0x40000004, 0x50000005, 0x60000006,
    0x70000007, 0x80000008, 0x90000009, 0xA000000A,
    0xB000000B, 0xC000000C, 0xD000000D, 0xE000000E,
    0xF000000F, 0x13579246, 0x2468ACE0, 0x369CF258,
    0x47AD0369, 0x58BE1470, 0x69CF2581, 0x7AE03692,
    0x8BF147AD, 0x9C0258BE, 0xAD1369CF, 0xBE247AD0,
    0xCF358BE1, 0xE0469CF2, 0xF157AD03, 0x0268BE14,
    0x1379CF25, 0x248BE136, 0x359CF247, 0x46AD0358,
];

/// Divisors, as 32-bit patterns; each is read as a signed word.
pub const DIVISORS: [u32; 32] = [
    0x10000,      // 2^16
    0xFFFF,       // 2^16 - 1
    1000007,      // prime
    2147483647,   // 2^31 - 1, Mersenne prime
    1000000,      // 10^6
    1000,         // 10^3
    100,          // 10^2
    10,           // 10^1
    7, 11, 13, 17, 19, 23, 29, 31,
    37, 41, 43, 47, 53, 59, 61, 67,
    71, 73, 79, 83, 89, 97,
    256,          // 2^8
    65536,        // 2^16
];

/// Index of the dividend used at iteration `i`: the table is walked cyclically.
pub open spec fn dividend_index(i: int) -> int {
    i % 64
}

/// Index of the divisor used at iteration `i`: it advances once per full pass over
/// the dividends, and cycles too.
pub open spec fn divisor_index(i: int) -> int {
    (i / 64) % 32
}

/// The remainder computed at iteration `i`, the table entries read as signed words.
pub open spec fn remainder_at(i: int) -> i32 {
    spec_remw(DIVIDENDS@[dividend_index(i)] as i32, DIVISORS@[divisor_index(i)] as i32)
}

/// The accumulator after the first `n` iterations: the remainders summed with
/// 32-bit wrapping addition.
pub open spec fn accumulated_remainders(n: nat) -> i32
    decreases n,
{
    if n == 0 {
        0
    } else {
        accumulated_remainders((n - 1) as nat).wrapping_add(remainder_at(n - 1))
    }
}

/// Table indices for iteration `i`, computed with bit masks in place of the
/// modulo operations.
fn operand_indices(i: u64) -> (indices: (usize, usize))
    requires
        i < ITERATIONS,
    ensures
        indices.0 == dividend_index(i as int),
        indices.1 == divisor_index(i as int),
{
    let dividend_idx: usize = (i as usize) & 0x3F;
    let shifted: u64 = i >> 6;
    let divisor_idx: usize = (shifted as usize) & 0x1F;
    proof {
        let wide: usize = i as usize;
        let narrow: usize = shifted as usize;
        assert(wide & 0x3F == wide % 64) by (bit_vector);
        assert(i >> 6 == i / 64) by (bit_vector);
        assert(narrow & 0x1F == narrow % 32) by (bit_vector);
    }
    (dividend_idx, divisor_idx)
}

/// Runs the benchmark: `ITERATIONS` remainders, accumulated with 32-bit wrapping
/// addition. Returns 1 when the accumulator ends at zero, 0 otherwise.
pub fn program_entry() -> (status: i8)
    ensures
        status == (if accumulated_remainders(ITERATIONS as nat) == 0 {
            1i8
        } else {
            0i8
        }),
{
    let iterations: u64 = ITERATIONS;
    let mut accumulator: i32 = 0;
    let mut i: u64 = 0;
    while i < iterations
        invariant
            iterations == ITERATIONS,
            i <= iterations,
            accumulator == accumulated_remainders(i as nat),
        decreases iterations - i,
    {
        let (dividend_idx, divisor_idx) = operand_indices(i);
        let dividend: i32 = DIVIDENDS[dividend_idx] as i32;
        let divisor: i32 = DIVISORS[divisor_idx] as i32;
        let result: i32 = remw(dividend, divisor);
        accumulator = accumulator.wrapping_add(result);
        i = i + 1;
    }
    if accumulator == 0 {
        return 1;
    }
    0
}

/// Two to the 32nd power.
pub open spec fn two_pow_32() -> int {
    0x1_0000_0000
}

/// The signed 32-bit word congruent to `x` modulo 2^32.
pub open spec fn wrap_i32(x: int) -> i32 {
    let r = x % two_pow_32();
    if r >= 0x8000_0000 {
        (r - two_pow_32()) as i32
    } else {
        r as i32
    }
}

/// The plain sum of the remainders of the first `n` iterations.
pub open spec fn sum_of_remainders(n: nat) -> int
    decreases n,
{
    if n == 0 {
        0
    } else {
        sum_of_remainders((n - 1) as nat) + remainder_at(n - 1)
    }
}

/// The wrapping accumulator holds the signed word congruent to the sum of the
/// remainders modulo 2^32.
pub proof fn lemma_accumulator_is_sum_mod_2_32(n: nat)
    ensures
        accumulated_remainders(n) == wrap_i32(sum_of_remainders(n)),
    decreases n,
{
    if n == 0 {
        lemma_small_mod(0, two_pow_32() as nat);
    } else {
        let m = (n - 1) as nat;
        lemma_accumulator_is_sum_mod_2_32(m);
        let prev: int = accumulated_remainders(m) as int;
        let r: int = remainder_at(n - 1) as int;
        let s: int = sum_of_remainders(m);
        // prev is congruent to s.
        assert(prev % two_pow_32() == s % two_pow_32()) by {
            lemma_mod_twice(s, two_pow_32());
            if s % two_pow_32() >= 0x8000_0000 {
                lemma_mod_add_multiples_vanish(prev, two_pow_32());
                lemma_small_mod((prev + two_pow_32()) as nat, two_pow_32() as nat);
            } else {
                lemma_small_mod((s % two_pow_32()) as nat, two_pow_32() as nat);
            }
        }
        lemma_add_mod_noop(prev, r, two_pow_32());
        lemma_add_mod_noop(s, r, two_pow_32());
        let t: int = prev + r;
        let w: int = if t > i32::MAX {
            t - two_pow_32()
        } else if t < i32::MIN {
            t + two_pow_32()
        } else {
            t
        };
        assert(w % two_pow_32() == t % two_pow_32()) by {
            if t > i32::MAX {
                lemma_mod_sub_multiples_vanish(t, two_pow_32());
            } else if t < i32::MIN {
                lemma_mod_add_multiples_vanish(t, two_pow_32());
            }
        }
        assert(accumulated_remainders(n) == w);
        if w < 0 {
            lemma_mod_add_multiples_vanish(w, two_pow_32());
            lemma_small_mod((w + two_pow_32()) as nat, two_pow_32() as nat);
        } else {
            lemma_small_mod(w as nat, two_pow_32() as nat);
        }
    }
}

/// Every pairing of a dividend with a divisor is exercised: the pass over the
/// dividends for each divisor completes within the benchmark's iterations.
pub proof fn lemma_every_operand_pair_is_used(j: int, k: int)
    requires
        0 <= j < 64,
        0 <= k < 32,
    ensures
        exists|i: int|
            0 <= i < ITERATIONS && dividend_index(i) == j && divisor_index(i) == k,
{
    let i = 64 * k + j;
    assert(dividend_index(i) == j);
    assert(divisor_index(i) == k);
}

} // verus!
