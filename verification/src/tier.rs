use vstd::prelude::*;

verus! {

/// Kilobytes per gigabyte, the unit the memory probe reports.
pub const KB_PER_GB: u64 = 1048576;

/// Discrete memory-capability bucket used to pick model sizes.
///
/// Derived once from total system memory with ascending gigabyte
/// thresholds (`<1`, `<2`, `<4`, `<8`, else) and never re-polled.
#[derive(Clone, Copy, Debug, PartialEq, Eq, Structural)]
pub enum ModelTier {
    Micro,
    Small,
    Medium,
    Large,
    Macro,
}

/// The tier a host with `kb` kilobytes of total memory falls into.
/// Boundaries are exclusive on the upper tier: exactly 1 GB is `Small`.
pub open spec fn tier_of_kb(kb: u64) -> ModelTier {
    if kb < KB_PER_GB {
        ModelTier::Micro
    } else if kb < 2 * KB_PER_GB {
        ModelTier::Small
    } else if kb < 4 * KB_PER_GB {
        ModelTier::Medium
    } else if kb < 8 * KB_PER_GB {
        ModelTier::Large
    } else {
        ModelTier::Macro
    }
}

/// Maps a total-memory measurement in kilobytes to its capability tier.
pub fn tier_from_kb(kb: u64) -> (t: ModelTier)
    ensures
        t == tier_of_kb(kb),
{
    if kb < KB_PER_GB {
        ModelTier::Micro
    } else if kb < 2 * KB_PER_GB {
        ModelTier::Small
    } else if kb < 4 * KB_PER_GB {
        ModelTier::Medium
    } else if kb < 8 * KB_PER_GB {
        ModelTier::Large
    } else {
        ModelTier::Macro
    }
}

/// The tier for a possibly failed memory probe: an unreadable measurement
/// falls back to the smallest tier rather than failing startup.
pub fn tier_or_fallback(probe: Option<u64>) -> (t: ModelTier)
    ensures
        t == match probe {
            Some(kb) => tier_of_kb(kb),
            None => ModelTier::Micro,
        },
{
    match probe {
        Some(kb) => tier_from_kb(kb),
        None => ModelTier::Micro,
    }
}

/// Relies on sys_info::mem_info: reports the host's total physical memory
/// in kilobytes, or fails when the host denies the measurement.
#[verifier::external_body]
fn probe_total_memory_kb() -> (r: Option<u64>) {
    match sys_info::mem_info() {
        Ok(m) => Some(m.total),
        Err(_) => None,
    }
}

/// Reads total physical memory once and maps it to a tier.
///
/// Has no failure path: when the measurement cannot be read the smallest
/// tier is assumed. The result depends on the host, so callers that need
/// a pinned-down tier should go through [`tier_from_kb`].
pub fn detect() -> ModelTier {
    tier_or_fallback(probe_total_memory_kb())
}

} // verus!
