//! Arithmetic micro-benchmarks for the RISC-V M extension, as they run on CKB-VM:
//! the signed 64-bit `DIV` benchmark, the signed 32-bit `REMW` benchmark and the
//! `WIDE_DIV` benchmark driver, together with the instruction semantics they rely on.
pub mod bench_div;
pub mod bench_remw;
pub mod bench_wide_div;
pub mod riscv;
