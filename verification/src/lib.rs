//! `sys_metrics` gathers a host's metrics: CPU, disks, memory, host
//! identity and network counters.
//!
//! The operating-system accesses themselves (pseudo-file reads, kernel
//! calls, registry walks) are performed by a thin platform driver outside
//! this crate.  Everything that can be stated and checked lives here: the
//! parsers for the pseudo-file formats, the decoders for fixed-layout
//! kernel buffers, the unit normalizers, and the decision logic that
//! sequences multi-step queries and guarantees resource release.

pub mod cpu;
pub mod disks;
pub mod diskstats;
pub mod error;
pub mod host;
pub mod iostats_walk;
pub mod memory;
pub mod models;
pub mod network;
pub mod text;

use vstd::prelude::*;

verus! {

/// Decides what `clock_ticks` returns once the kernel has answered the
/// ticks-per-second query: a positive answer is the rate, anything else is
/// the OS error that was current at that point.
pub fn clock_ticks(sysconf_ret: i64, os_err: i32) -> (r: Result<u64, error::Error>)
    ensures
        sysconf_ret > 0 ==> r == Ok::<u64, error::Error>(sysconf_ret as u64),
        sysconf_ret <= 0 ==> r == Err::<u64, error::Error>(error::Error::OsError(os_err)),
{
    if sysconf_ret > 0 {
        Ok(sysconf_ret as u64)
    } else {
        Err(error::Error::OsError(os_err))
    }
}

} // verus!
