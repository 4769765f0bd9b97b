use crate::metrics::cpu_count_of;
use crate::text::{decimal, labeled_number};
use vstd::prelude::*;

verus! {

/// Bytes in one megabyte, as the memory panel counts them.
pub const BYTES_PER_MB: u64 = 1000000;

/// Memory and swap figures, in whole megabytes.
#[derive(Clone, Copy, Debug, PartialEq, Eq, Structural)]
pub struct MemorySnapshot {
    pub total_mb: u64,
    pub used_mb: u64,
    pub total_swap_mb: u64,
    pub used_swap_mb: u64,
}

/// Whole megabytes in `bytes`, the remainder dropped.
pub open spec fn megabytes(bytes: u64) -> u64 {
    (bytes / BYTES_PER_MB) as u64
}

/// The snapshot of the given byte counts.
pub open spec fn snapshot_of(total: u64, used: u64, total_swap: u64, used_swap: u64) -> MemorySnapshot {
    MemorySnapshot {
        total_mb: megabytes(total),
        used_mb: megabytes(used),
        total_swap_mb: megabytes(total_swap),
        used_swap_mb: megabytes(used_swap),
    }
}

impl MemorySnapshot {
    /// The snapshot of memory and swap figures given in bytes.
    pub fn from_bytes(total: u64, used: u64, total_swap: u64, used_swap: u64) -> (r: MemorySnapshot)
        ensures
            r == snapshot_of(total, used, total_swap, used_swap),
    {
        MemorySnapshot {
            total_mb: total / BYTES_PER_MB,
            used_mb: used / BYTES_PER_MB,
            total_swap_mb: total_swap / BYTES_PER_MB,
            used_swap_mb: used_swap / BYTES_PER_MB,
        }
    }

    /// The snapshot shown before the first figures are in: all zero.
    pub fn zeroed() -> (r: MemorySnapshot)
        ensures
            r == snapshot_of(0, 0, 0, 0),
    {
        MemorySnapshot { total_mb: 0, used_mb: 0, total_swap_mb: 0, used_swap_mb: 0 }
    }
}

/// Number of CPU cores the system reports, or 1 where it reports none.
pub fn get_core_count(sys: &sysinfo::System) -> (r: usize)
    ensures
        r == (if cpu_count_of(*sys) == 0 { 1 } else { cpu_count_of(*sys) }),
{
    let n = sys.cpus().len();
    at_least_one_core(n)
}

/// A core count fit for the CPU grid: `n`, or 1 for a count of zero.
pub fn at_least_one_core(n: usize) -> (r: usize)
    ensures
        r == (if n == 0 { 1 } else { n }),
{
    if n == 0 {
        1
    } else {
        n
    }
}

/// The four lines of the memory panel.
pub open spec fn memory_lines(m: MemorySnapshot) -> Seq<Seq<char>> {
    seq![
        "Total Memory: "@ + decimal(m.total_mb as nat) + " MB"@,
        "Used Memory: "@ + decimal(m.used_mb as nat) + " MB"@,
        "Total Swap: "@ + decimal(m.total_swap_mb as nat) + " MB"@,
        "Used Swap: "@ + decimal(m.used_swap_mb as nat) + " MB"@,
    ]
}

/// Writes the memory panel's lines: total and used memory, then total and
/// used swap, each as `"<label>: <n> MB"`.
pub fn create_mem_lines(m: &MemorySnapshot) -> (r: Vec<String>)
    ensures
        r@.len() == 4,
        forall|i: int| 0 <= i < 4 ==> #[trigger] r@[i]@ == memory_lines(*m)[i],
{
    let mut r: Vec<String> = Vec::new();
    r.push(labeled_number("Total Memory: ", m.total_mb, " MB"));
    r.push(labeled_number("Used Memory: ", m.used_mb, " MB"));
    r.push(labeled_number("Total Swap: ", m.total_swap_mb, " MB"));
    r.push(labeled_number("Used Swap: ", m.used_swap_mb, " MB"));
    r
}

} // verus!
