//! Verified core of a PC performance benchmark: the workload kernels, the
//! bookkeeping around them and the rating rules.

pub mod rating;
pub mod primes;
pub mod memory;
mod random;
pub mod cpu;
pub mod gpu;
pub mod system_info;
pub mod storage;
pub mod units;
