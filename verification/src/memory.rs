//! Memory accessors: normalizing the kernel's raw page and byte counts
//! into one [`Memory`] record.

use crate::models::Memory;
use vstd::arithmetic::mul::lemma_mul_inequality;
use vstd::prelude::*;

verus! {

/// Builds the [`Memory`] record from the three kernel answers: the
/// virtual-memory statistics (active and free page counts, scaled by the
/// process-wide page size), the total physical memory, and the swap
/// usage.  Whenever the kernel's answers are coherent — the pages it
/// calls available do not outgrow the total it reports, nor available
/// swap its total — the record is well formed.
pub fn get_memory(
    active_count: u32,
    free_count: u32,
    page_size: u64,
    virt_total: u64,
    swap_total: u64,
    swap_avail: u64,
) -> (r: Memory)
    requires
        (active_count + free_count) * page_size <= u64::MAX,
    ensures
        r == (Memory {
            total_virt: virt_total,
            avail_virt: ((active_count + free_count) * page_size) as u64,
            total_swap: swap_total,
            avail_swap: swap_avail,
        }),
        (active_count + free_count) * page_size <= virt_total && swap_avail <= swap_total
            ==> r.wf(),
{
    let pages: u64 = active_count as u64 + free_count as u64;
    Memory {
        total_virt: virt_total,
        avail_virt: pages * page_size,
        total_swap: swap_total,
        avail_swap: swap_avail,
    }
}

/// Repackages the structured memory summary that the OS layer already
/// exposes (total and free memory and swap, counted in units of
/// `mem_unit` bytes) into the [`Memory`] record.  Free never outgrowing
/// total in the summary makes the record well formed.
pub fn memory_from_summary(
    totalram: u64,
    freeram: u64,
    totalswap: u64,
    freeswap: u64,
    mem_unit: u32,
) -> (r: Memory)
    requires
        totalram * mem_unit <= u64::MAX,
        freeram * mem_unit <= u64::MAX,
        totalswap * mem_unit <= u64::MAX,
        freeswap * mem_unit <= u64::MAX,
    ensures
        r == (Memory {
            total_virt: (totalram * mem_unit) as u64,
            avail_virt: (freeram * mem_unit) as u64,
            total_swap: (totalswap * mem_unit) as u64,
            avail_swap: (freeswap * mem_unit) as u64,
        }),
        freeram <= totalram && freeswap <= totalswap ==> r.wf(),
{
    proof {
        if freeram <= totalram {
            lemma_mul_inequality(freeram as int, totalram as int, mem_unit as int);
        }
        if freeswap <= totalswap {
            lemma_mul_inequality(freeswap as int, totalswap as int, mem_unit as int);
        }
    }
    Memory {
        total_virt: totalram * (mem_unit as u64),
        avail_virt: freeram * (mem_unit as u64),
        total_swap: totalswap * (mem_unit as u64),
        avail_swap: freeswap * (mem_unit as u64),
    }
}

} // verus!
