use vstd::prelude::*;

verus! {

/// Traffic counters of one network interface.
#[derive(Debug, Clone)]
pub struct NetworkStats {
    pub name: String,
    pub received: u64,
    pub transmitted: u64,
    pub packets_received: u64,
    pub packets_transmitted: u64,
    pub errors_on_received: u64,
    pub errors_on_transmitted: u64,
}

/// Capacity of one disk.
#[derive(Debug, Clone)]
pub struct DiskStats {
    pub name: String,
    pub total_space: u64,
    pub available_space: u64,
    pub is_removable: bool,
}

/// How long collected system statistics stay fresh: 60 seconds, in nanoseconds.
pub const STATS_MAX_AGE_NANOS: u128 = 60_000_000_000;

/// True when system statistics collected `age_nanos` nanoseconds ago must
/// be collected again: they are older than 60 seconds.
pub fn stats_cache_expired(age_nanos: u128) -> (r: bool)
    ensures
        r == (age_nanos > STATS_MAX_AGE_NANOS),
{
    age_nanos > STATS_MAX_AGE_NANOS
}

} // verus!
