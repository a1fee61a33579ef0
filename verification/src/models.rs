//! The plain value records every accessor normalizes into.
//!
//! All records are immutable values: they are returned by move to the
//! caller and carry no identity beyond their fields.  Quantities that the
//! kernel reports as floating point (load averages, CPU frequency) are
//! held in fixed-point form, as integer thousandths, so that every field
//! is an exact integer.

use vstd::prelude::*;

verus! {

/// A mounted disk: identity plus its space accounting, in bytes.
#[derive(Clone, Debug, PartialEq)]
pub struct Disks {
    pub name: String,
    pub mount_point: String,
    pub total_space: u64,
    pub avail_space: u64,
}

impl Disks {
    /// Space accounting is coherent: what is available never exceeds
    /// what exists.
    pub open spec fn wf(&self) -> bool {
        self.avail_space <= self.total_space
    }
}

/// Cumulative bytes moved by one block device since boot.
#[derive(Clone, Debug, PartialEq)]
pub struct IoStats {
    pub device_name: String,
    pub bytes_read: i64,
    pub bytes_wrtn: i64,
}

/// Cumulative per-device I/O counters from the disk-statistics table.
#[derive(Clone, Debug, PartialEq)]
pub struct IoBlock {
    pub device_name: String,
    pub read_count: u64,
    pub read_bytes: u64,
    pub write_count: u64,
    pub write_bytes: u64,
    pub busy_time: u64,
}

/// Load averages over the last 1, 5 and 15 minutes, in thousandths
/// (a reported load of 1.250 is stored as 1250).
#[derive(Clone, Copy, Debug, PartialEq, Eq, Structural)]
pub struct LoadAvg {
    pub one: u64,
    pub five: u64,
    pub fifteen: u64,
}

/// Virtual-memory and swap accounting, in bytes.
#[derive(Clone, Copy, Debug, PartialEq, Eq, Structural)]
pub struct Memory {
    pub total_virt: u64,
    pub avail_virt: u64,
    pub total_swap: u64,
    pub avail_swap: u64,
}

impl Memory {
    /// Both pairs are coherent: available never exceeds total.
    pub open spec fn wf(&self) -> bool {
        self.avail_virt <= self.total_virt && self.avail_swap <= self.total_swap
    }
}

/// Cumulative tick counters per CPU state, since boot.  A caller derives
/// rates by differencing two samples.
#[derive(Clone, Copy, Debug, PartialEq, Eq, Structural)]
pub struct CpuStats {
    pub user: u64,
    pub nice: u64,
    pub system: u64,
    pub idle: u64,
    pub iowait: u64,
    pub irq: u64,
    pub softirq: u64,
    pub steal: u64,
    pub guest: u64,
    pub guest_nice: u64,
}

/// A CPU frequency, in thousandths of a MHz (2400.123 MHz is 2400123).
#[derive(Clone, Copy, Debug, PartialEq, Eq, Structural)]
pub struct Frequency {
    pub milli_mhz: u64,
}

/// The combined host record: identity, load, memory and uptime, which
/// either all resolve or the whole query fails.
#[derive(Clone, Debug, PartialEq)]
pub struct HostInfo {
    pub loadavg: LoadAvg,
    pub memory: Memory,
    pub os_version: String,
    pub hostname: String,
    pub uptime: u64,
}

/// Cumulative traffic counters of one network interface since it came up.
#[derive(Clone, Debug, PartialEq)]
pub struct IoCounters {
    pub interface: String,
    pub rx_bytes: u64,
    pub rx_packets: u64,
    pub rx_errs: u64,
    pub rx_drop: u64,
    pub tx_bytes: u64,
    pub tx_packets: u64,
    pub tx_errs: u64,
    pub tx_drop: u64,
}

/// One entry of the mounted-filesystem table, as the enumeration call
/// reports it: filesystem type name, device name, and mount point.
#[derive(Clone, Debug, PartialEq)]
pub struct MountEntry {
    pub fstype: String,
    pub mntfrom: String,
    pub mnton: String,
}

} // verus!
