//! Driver of the `WIDE_DIV` benchmark (128-bit by 64-bit division of the CKB-VM MOP
//! extension). The loop walks the operand tables, high and low halves of the
//! dividend and the divisor, but issues no division: the instruction is not
//! executed, so the accumulator stays at zero and the program reports 1.
use vstd::prelude::*;

verus! {

/// Number of iterations of the benchmark loop.
pub const ITERATIONS: u64 = 100000;

/// High halves of the 128-bit dividends.
pub const DIVIDEND_HIGH: [u64; 32] = [
    0x0000000000000000, 0x0000000000000001, 0x00000000FFFFFFFF, 0x0000000100000000,
    0x123456789ABCDEF0, 0xFEDCBA9876543210, 0x0000000000001234, 0x5678901234567890,
    0xAAAAAAAAAAAAAAAA, 0x5555555555555555, 0x0F0F0F0F0F0F0F0F, 0xF0F0F0F0F0F0F0F0,
    0x00000000DEADBEEF, 0x00000000CAFEBABE, 0x1337C0DE5EADBEEF, 0xBADC0FFEE0DDF00D,
    0x0000000000000010, 0x0000000000000100, 0x0000000000001000, 0x0000000000010000,
    0x0000000000100000, 0x0000000001000000, 0x0000000010000000, 0x0000000100000000,
    0x0000001000000000, 0x0000010000000000, 0x0000100000000000, 0x0001000000000000,
    0x0010000000000000, 0x0100000000000000, 0x1000000000000000, 0x7FFFFFFFFFFFFFFF,
];

/// Low halves of the 128-bit dividends.
pub const DIVIDEND_LOW: [u64; 32] = [
    0xFFFFFFFFFFFFFFFF, 0x0000000000000000, 0xFFFFFFFFFFFFFFFF, 0x0000000000000000,
    0xFEDCBA9876543210, 0x123456789ABCDEF0, 0x5678901234567890, 0x1234567890123456,
    0x5555555555555555, 0xAAAAAAAAAAAAAAAA, 0xF0F0F0F0F0F0F0F0, 0x0F0F0F0F0F0F0F0F,
    0xCAFEBABEDEADBEEF, 0xDEADBEEFCAFEBABE, 0xBADDCAFEBADDCAFE, 0xFACEFEEDBEEFCAFE,
    0x123456789ABCDEF0, 0x23456789ABCDEF01, 0x3456789ABCDEF012, 0x456789ABCDEF0123,
    0x56789ABCDEF01234, 0x6789ABCDEF012345, 0x789ABCDEF0123456, 0x89ABCDEF01234567,
    0x9ABCDEF012345678, 0xABCDEF0123456789, 0xBCDEF0123456789A, 0xCDEF0123456789AB,
    0xDEF0123456789ABC, 0xEF0123456789ABCD, 0xF0123456789ABCDE, 0x0123456789ABCDEF,
];

/// 64-bit divisors.
pub const DIVISORS: [u64; 32] = [
    0x1000000,           // 2^24
    0xFFFFFF,            // 2^24 - 1
    1000000007,          // large prime
    2147483647,          // Mersenne prime
    4294967291,          // large 32-bit prime
    1000000,             // 10^6
    10000,               // 10^4
    100,                 // 10^2
    0x100000000,         // 2^32
    0x10000,             // 2^16
    0x100,               // 2^8
    0xFFFFFFFFFFFFFFFF,  // u64::MAX
    0x8000000000000000,  // 2^63
    0x123456789ABCDEF,
    0xFEDCBA987654321,
    0xDEADBEEF,
    0xCAFEBABE,
    0xFFFFFFFF,          // u32::MAX
    7, 11, 13, 17, 19, 23, 29, 31, 37, 41, 43, 47, 53, 59,
];

/// Index of the dividend (both halves) used at iteration `i`: the table is walked
/// cyclically.
pub open spec fn dividend_index(i: int) -> int {
    i % 32
}

/// Index of the divisor used at iteration `i`: it advances once per full pass over
/// the dividends, and cycles too.
pub open spec fn divisor_index(i: int) -> int {
    (i / 32) % 32
}

/// Table indices for iteration `i`, computed with bit masks in place of the
/// modulo operations.
fn operand_indices(i: u64) -> (indices: (usize, usize))
    requires
        i < ITERATIONS,
    ensures
        indices.0 == dividend_index(i as int),
        indices.1 == divisor_index(i as int),
{
    let dividend_idx: usize = (i as usize) & 0x1F;
    let shifted: u64 = i >> 5;
    let divisor_idx: usize = (shifted as usize) & 0x1F;
    proof {
        let wide: usize = i as usize;
        let narrow: usize = shifted as usize;
        assert(wide & 0x1F == wide % 32) by (bit_vector);
        assert(i >> 5 == i / 32) by (bit_vector);
        assert(narrow & 0x1F == narrow % 32) by (bit_vector);
    }
    (dividend_idx, divisor_idx)
}

/// Runs the benchmark loop. No division is issued, so the accumulator stays at zero
/// and the program always reports 1.
pub fn program_entry() -> (status: i8)
    ensures
        status == 1,
{
    let iterations: u64 = ITERATIONS;
    let accumulator: u64 = 0;
    let mut i: u64 = 0;
    while i < iterations
        invariant
            iterations == ITERATIONS,
            i <= iterations,
        decreases iterations - i,
    {
        let (dividend_idx, divisor_idx) = operand_indices(i);
        let _high: u64 = DIVIDEND_HIGH[dividend_idx];
        let _low: u64 = DIVIDEND_LOW[dividend_idx];
        let _divisor: u64 = DIVISORS[divisor_idx];
        i = i + 1;
    }
    if accumulator == 0 {
        return 1;
    }
    0
}

/// Every pairing of a dividend with a divisor is walked: the pass over the dividends
/// for each divisor completes within the benchmark's iterations.
pub proof fn lemma_every_operand_pair_is_used(j: int, k: int)
    requires
        0 <= j < 32,
        0 <= k < 32,
    ensures
        exists|i: int|
            0 <= i < ITERATIONS && dividend_index(i) == j && divisor_index(i) == k,
{
    let i = 32 * k + j;
    assert(dividend_index(i) == j);
    assert(divisor_index(i) == k);
}

} // verus!
