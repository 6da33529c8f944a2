# pc_benchmark

A PC performance benchmark (CPU, memory, storage, GPU) whose workload
kernels and bookkeeping rules are written in Verus and proved against their
contracts.

- `src/` – the verified library:
  - `primes.rs` – the sieve of Eratosthenes behind the prime-counting test,
    proved to return the number of primes up to the limit;
  - `cpu.rs` – the integer workload and the xxHash64 workload;
  - `memory.rs` – the sequential, random-access, bandwidth and latency
    kernels, with the pointer-chasing cycle proved to visit every slot;
  - `gpu.rs` – software-renderer detection and the GPU test's size rules;
  - `storage.rs`, `units.rs`, `rating.rs`, `system_info.rs` – block offsets,
    byte units, rating tiers and labels, and the system report.
- `tests/` – tests of the library on concrete values.
- `app/` – the program: configuration file, timing, threads, file and GPU
  work, floating-point scoring and the console output.
