//! What the vendor's driver reports for the graphics card, brought to the
//! units of the readings.

use crate::data::{GpuMemory, GpuUsage};
use vstd::prelude::*;

verus! {

/// The temperature in thousandths of a degree, from whole degrees.
pub fn temperature(degrees: Option<u32>) -> (t: Option<i64>)
    ensures
        t == match degrees {
            Some(d) => Some((d * 1000) as i64),
            None => None,
        },
{
    match degrees {
        Some(d) => Some((d as i64) * 1000),
        None => None,
    }
}

/// The energy in microjoules, from millijoules; absent where the driver
/// reports none or the microjoules do not fit in 64 bits.
pub fn power(energy_mj: Option<u64>) -> (uj: Option<u64>)
    ensures
        uj == match energy_mj {
            Some(mj) if mj * 1000 <= u64::MAX => Some((mj * 1000) as u64),
            _ => None,
        },
{
    match energy_mj {
        Some(mj) => mj.checked_mul(1000),
        None => None,
    }
}

/// The memory of the card, from the total and the free bytes.
pub fn memory(info: Option<(u64, u64)>) -> (m: Option<GpuMemory>)
    ensures
        match info {
            Some((total, free)) => m matches Some(mem) && mem.total == total && mem.free == free,
            None => m is None,
        },
{
    match info {
        Some((total, free)) => Some(GpuMemory { total, free }),
        None => None,
    }
}

/// How busy the parts of a card are, in percent; `None` for a figure that
/// the driver does not report.
#[derive(Debug, Clone, Copy)]
pub struct DeviceRates {
    pub compute: Option<u32>,
    pub memory: Option<u32>,
    pub encode: Option<u32>,
    pub decode: Option<u32>,
}

/// The reading of one part, if the driver reports it.
pub open spec fn usage_of(system: Seq<char>, rate: Option<u32>) -> Seq<(Seq<char>, u32)> {
    match rate {
        Some(usage) => seq![(system, usage)],
        None => Seq::empty(),
    }
}

/// The readings of a card: compute, memory, encode and decode, in this
/// order, each only where the driver reports it; none without a card.
pub open spec fn usages_of(rates: Option<DeviceRates>) -> Seq<(Seq<char>, u32)> {
    match rates {
        Some(r) => usage_of("compute"@, r.compute) + usage_of("memory"@, r.memory) + usage_of(
            "encode"@,
            r.encode,
        ) + usage_of("decode"@, r.decode),
        None => Seq::empty(),
    }
}

/// The plain values of a list of readings.
pub open spec fn usage_views(usages: Seq<GpuUsage>) -> Seq<(Seq<char>, u32)> {
    usages.map_values(|u: GpuUsage| (u.system@, u.usage))
}

/// Appends the reading of one part, if there is a figure for it.
pub fn push_usage(usages: &mut Vec<GpuUsage>, system: &str, rate: Option<u32>)
    ensures
        usage_views(final(usages)@) == usage_views(old(usages)@) + usage_of(system@, rate),
{
    match rate {
        Some(usage) => {
            usages.push(GpuUsage { system: system.to_owned(), usage });
            assert(usage_views(usages@) =~= usage_views(old(usages)@) + usage_of(system@, rate));
        },
        None => {
            assert(usage_views(usages@) =~= usage_views(old(usages)@) + usage_of(system@, rate));
        },
    }
}

/// The readings of a card.
pub fn utilization(rates: Option<DeviceRates>) -> (usages: Vec<GpuUsage>)
    ensures
        usage_views(usages@) == usages_of(rates),
{
    let mut usages: Vec<GpuUsage> = Vec::new();
    assert(usage_views(usages@) =~= Seq::empty());
    match rates {
        Some(r) => {
            push_usage(&mut usages, "compute", r.compute);
            push_usage(&mut usages, "memory", r.memory);
            push_usage(&mut usages, "encode", r.encode);
            push_usage(&mut usages, "decode", r.decode);
            assert(usage_views(usages@) =~= usages_of(rates));
        },
        None => {},
    }
    usages
}

} // verus!
