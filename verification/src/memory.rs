//! Memory figures and the portable fallbacks of the platform operations.

use vstd::prelude::*;

verus! {

/// Number of bytes in one mebibyte.
pub const BYTES_PER_MB: u64 = 1048576;

/// Largest number of mebibytes that a byte count held in a `u64` can amount to.
pub const MAX_MB: u64 = 17592186044415;

/// A snapshot of the machine's physical memory, in mebibytes.
#[derive(Clone, Copy, Debug, PartialEq, Eq, Structural)]
pub struct MemoryStatus {
    pub total_mb: u64,
    pub available_mb: u64,
    pub used_mb: u64,
    pub percent_used: u32,
}

/// `a - b`, or 0 where `b` exceeds `a`.
pub open spec fn saturating_diff(a: int, b: int) -> int {
    if a >= b {
        a - b
    } else {
        0
    }
}

/// The clamped difference is the plain difference where that is not negative, and
/// zero otherwise.
pub proof fn lemma_saturating_diff(a: int, b: int)
    ensures
        a >= b ==> saturating_diff(a, b) == a - b,
        a < b ==> saturating_diff(a, b) == 0,
{
}

impl MemoryStatus {
    /// A status as the engine builds it: sizes come from byte counts, and the used
    /// amount is what is not available.
    pub open spec fn wf(&self) -> bool {
        &&& self.total_mb <= MAX_MB
        &&& self.available_mb <= MAX_MB
        &&& self.used_mb == saturating_diff(self.total_mb as int, self.available_mb as int)
    }
}

/// In a status as the engine builds it, the used memory never exceeds the total,
/// and used and available memory add up to the total whenever the available
/// memory does not exceed it.
pub proof fn lemma_used_within_total(s: MemoryStatus)
    requires
        s.wf(),
    ensures
        s.used_mb <= s.total_mb,
        s.available_mb <= s.total_mb ==> s.used_mb + s.available_mb == s.total_mb,
{
}

/// The summary of one optimisation pass.
#[derive(Clone, Copy, Debug, PartialEq, Eq, Structural)]
pub struct OptimizeResult {
    pub processes_trimmed: u32,
    pub processes_failed: u32,
    pub standby_list_cleared: bool,
    pub freed_mb: i64,
    pub is_admin: bool,
}

/// Builds the status from the raw figures the operating system reports: total and
/// available physical memory in bytes, and the memory load in percent.
pub fn memory_status_from_raw(total_phys: u64, avail_phys: u64, memory_load: u32) -> (s:
    MemoryStatus)
    ensures
        s.total_mb == total_phys / 1024 / 1024,
        s.available_mb == avail_phys / 1024 / 1024,
        s.used_mb == saturating_diff(s.total_mb as int, s.available_mb as int),
        s.total_mb >= s.available_mb ==> s.used_mb == s.total_mb - s.available_mb,
        s.total_mb < s.available_mb ==> s.used_mb == 0,
        s.percent_used == memory_load,
        s.wf(),
{
    let total_mb = total_phys / 1024 / 1024;
    let available_mb = avail_phys / 1024 / 1024;
    let used_mb = total_mb.saturating_sub(available_mb);
    MemoryStatus { total_mb, available_mb, used_mb, percent_used: memory_load }
}

/// The memory status where the platform offers no way to read it: all zeros.
pub fn get_memory_status() -> (s: MemoryStatus)
    ensures
        s == (MemoryStatus { total_mb: 0, available_mb: 0, used_mb: 0, percent_used: 0 }),
        s.wf(),
{
    MemoryStatus { total_mb: 0, available_mb: 0, used_mb: 0, percent_used: 0 }
}

/// Enabling the debug privilege where the platform has none: never succeeds.
pub fn enable_debug_privilege() -> (ok: bool)
    ensures
        !ok,
{
    false
}

/// Whether the process runs elevated, where the platform has no elevation: never.
pub fn is_elevated() -> (elevated: bool)
    ensures
        !elevated,
{
    false
}

/// Trimming a working set where the platform offers no such call: never succeeds.
pub fn trim_process_working_set(pid: u32) -> (ok: bool)
    ensures
        !ok,
{
    false
}

/// Purging the standby list where the platform offers no such call: never succeeds.
pub fn clear_standby_list() -> (ok: bool)
    ensures
        !ok,
{
    false
}

/// Information class of the system call that manages the memory lists.
pub const SYSTEM_MEMORY_LIST_INFORMATION: i32 = 80;

/// Command that flushes modified pages to the standby list.
pub const MEMORY_FLUSH_MODIFIED_LIST: u32 = 3;

/// Command that purges the standby list.
pub const MEMORY_PURGE_STANDBY_LIST: u32 = 4;

/// Whether the status code of the purge call reports success (zero).
pub fn purge_succeeded(status: i32) -> (ok: bool)
    ensures
        ok == (status == 0),
{
    status == 0
}

/// Whether a token query reports elevation: the query must have succeeded and the
/// elevation flag must be set.
pub fn elevation_from_token(query_result: i32, token_is_elevated: u32) -> (elevated: bool)
    ensures
        elevated == (query_result != 0 && token_is_elevated != 0),
{
    query_result != 0 && token_is_elevated != 0
}

} // verus!
