//! The graphics card: the vendor's driver first, the kernel's generic
//! counters second, and nothing where neither has a figure.

use crate::data::{GpuMemory, GpuUsage};
use crate::nvidia::{push_usage, usage_of, usage_views};
use crate::{rendered_all, write_all, SensorData};
use vstd::prelude::*;

verus! {

/// The memory of the card: the vendor's figures where there are some; else
/// the kernel's, with the free bytes as total minus used, where both are
/// known and the used bytes do not exceed the total; else nothing.
pub open spec fn memory_of(vendor: Option<GpuMemory>, used: Option<u64>, total: Option<u64>)
    -> Option<(u64, u64)> {
    match vendor {
        Some(mem) => Some((mem.total, mem.free)),
        None => match (used, total) {
            (Some(u), Some(t)) if u <= t => Some((t, (t - u) as u64)),
            _ => None,
        },
    }
}

/// The memory of the card.
pub fn memory(vendor: Option<GpuMemory>, used: Option<u64>, total: Option<u64>) -> (m: Option<
    GpuMemory,
>)
    ensures
        memory_of(vendor, used, total) == match m {
            Some(mem) => Some((mem.total, mem.free)),
            None => None,
        },
{
    match vendor {
        Some(mem) => Some(mem),
        None => match (used, total) {
            (Some(u), Some(t)) => {
                if u <= t {
                    Some(GpuMemory { total: t, free: t - u })
                } else {
                    None
                }
            },
            _ => None,
        },
    }
}

/// How busy the card is: the kernel's figures for memory and compute, each
/// only where it is known, and then the vendor's readings.
pub fn utilization(
    drm_memory: Option<u32>,
    drm_compute: Option<u32>,
    vendor: Vec<GpuUsage>,
) -> (usages: Vec<GpuUsage>)
    ensures
        usage_views(usages@) == usage_of("memory"@, drm_memory) + usage_of(
            "compute"@,
            drm_compute,
        ) + usage_views(vendor@),
{
    let mut usages: Vec<GpuUsage> = Vec::new();
    let mut vendor = vendor;
    assert(usage_views(usages@) =~= Seq::empty());
    push_usage(&mut usages, "memory", drm_memory);
    push_usage(&mut usages, "compute", drm_compute);
    let ghost head = usages@;
    let ghost tail = vendor@;
    usages.append(&mut vendor);
    assert(usage_views(usages@) =~= usage_views(head) + usage_views(tail));
    usages
}

/// The samples of the card: its memory, where known, and how busy it is.
pub open spec fn gpu_samples(memory: Option<GpuMemory>, usages: Seq<GpuUsage>, hostname: Seq<char>)
    -> Seq<char> {
    memory.rendered(hostname) + rendered_all(usages, hostname)
}

/// Appends the samples of the card to `out`.
pub fn gpu_metrics(
    out: &mut String,
    hostname: &str,
    memory: &Option<GpuMemory>,
    usages: &Vec<GpuUsage>,
)
    ensures
        final(out)@ == old(out)@ + gpu_samples(*memory, usages@, hostname@),
{
    memory.write(out, hostname);
    write_all(usages, out, hostname);
    assert(out@ =~= old(out)@ + gpu_samples(*memory, usages@, hostname@));
}

} // verus!
