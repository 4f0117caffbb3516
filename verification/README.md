# ckb_vm_bench

Division micro-benchmarks for CKB-VM scripts, with their semantics verified by Verus.

- `src/riscv.rs`: the RISC-V `DIV` (RV64, signed) and `REMW` (signed word) instructions,
  their specifications, and the laws of division rounded toward zero.
- `src/bench_div.rs`, `src/bench_remw.rs`, `src/bench_wide_div.rs`: the three benchmark
  programs. Each `program_entry` walks its operand tables, accumulates the results with
  wrapping addition and returns 1 when the accumulator ends at zero, 0 otherwise.
- `app/main.rs`: runs one benchmark by name and exits with its status.
