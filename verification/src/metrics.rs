//! The snapshot of one scrape: what every source gave, rendered in a fixed
//! order of families.

use crate::data::{
    CpuPowerUsage, CpuTime, DiskStats, DiskUsage, GpuMemory, GpuPowerUsage, GpuUsage, Memory,
    NetStats, ProcData, Temperatures,
};
use crate::encode::{lemma_concat_whole, whole_lines};
use crate::zfs::{rendered_pools, write_pools, ArcStats};
use crate::{lemma_rendered_all_whole, rendered_all, write_all, Error, SensorData};
use vstd::prelude::*;

verus! {

/// What the sources gave in one scrape. A source that failed stands as an
/// error, a source without a figure as `None`.
#[derive(Debug)]
pub struct Scrape {
    pub cpu: Result<CpuTime, Error>,
    pub memory: Result<Memory, Error>,
    pub pools: Vec<DiskUsage>,
    pub networks: Result<Vec<Result<NetStats, Error>>, Error>,
    pub disks: Result<Vec<Result<DiskStats, Error>>, Error>,
    pub disk_usage: Result<Vec<Result<DiskUsage, Error>>, Error>,
    pub temperatures: Result<Temperatures, Error>,
    pub cpu_power: Result<Option<CpuPowerUsage>, Error>,
    pub gpu_power: Result<GpuPowerUsage, Error>,
    pub arc: Option<ArcStats>,
    pub gpu_memory: Option<GpuMemory>,
    pub gpu_usage: Vec<GpuUsage>,
    pub processes: Result<Vec<Result<ProcData, Error>>, Error>,
}

/// The samples of the cache counters, where there are some.
pub open spec fn arc_samples(arc: Option<ArcStats>, hostname: Seq<char>) -> Seq<char> {
    match arc {
        Some(stats) => stats.rendered(hostname),
        None => Seq::empty(),
    }
}

/// The text of a snapshot: the samples of every source that gave a
/// reading, family after family; a source or a row that failed leaves its
/// samples out.
pub open spec fn metrics_of(scrape: Scrape, hostname: Seq<char>) -> Seq<char> {
    scrape.cpu.rendered(hostname) + scrape.memory.rendered(hostname) + rendered_pools(
        scrape.pools@,
        hostname,
    ) + scrape.networks.rendered(hostname) + scrape.disks.rendered(hostname)
        + scrape.disk_usage.rendered(hostname) + scrape.temperatures.rendered(hostname)
        + scrape.cpu_power.rendered(hostname) + scrape.gpu_power.rendered(hostname) + arc_samples(
        scrape.arc,
        hostname,
    ) + scrape.gpu_memory.rendered(hostname) + rendered_all(scrape.gpu_usage@, hostname)
        + scrape.processes.rendered(hostname)
}

/// The samples of a list of pools are whole lines.
pub proof fn lemma_pools_whole(rows: Seq<DiskUsage>, hostname: Seq<char>)
    ensures
        whole_lines(rendered_pools(rows, hostname)),
    decreases rows.len(),
{
    if rows.len() > 0 {
        lemma_pools_whole(rows.drop_last(), hostname);
        rows.last().lemma_pool_whole(hostname);
        lemma_concat_whole(
            rendered_pools(rows.drop_last(), hostname),
            rows.last().rendered_pool(hostname),
        );
    }
}

/// The samples of the cache counters are whole lines.
pub proof fn lemma_arc_whole(arc: Option<ArcStats>, hostname: Seq<char>)
    ensures
        whole_lines(arc_samples(arc, hostname)),
{
    if let Some(stats) = arc {
        let a = crate::encode::sample(
            "zfs_arc_hits"@,
            hostname,
            Seq::empty(),
            crate::number::decimal(stats.hits as nat),
        );
        let b = crate::encode::sample(
            "zfs_arc_misses"@,
            hostname,
            Seq::empty(),
            crate::number::decimal(stats.misses as nat),
        );
        let c = crate::encode::sample(
            "zfs_arc_size"@,
            hostname,
            Seq::empty(),
            crate::number::decimal(stats.size as nat),
        );
        let d = crate::encode::sample(
            "zfs_arc_prefetch"@,
            hostname,
            Seq::empty(),
            crate::number::decimal(stats.prefetch as nat),
        );
        lemma_concat_whole(a, b);
        lemma_concat_whole(a + b, c);
        lemma_concat_whole(a + b + c, d);
    }
}

/// The text of a snapshot is made of whole lines: no scrape hands out a
/// line that is cut short.
pub proof fn lemma_metrics_whole(scrape: Scrape, hostname: Seq<char>)
    ensures
        whole_lines(metrics_of(scrape, hostname)),
{
    let h = hostname;
    let t1 = scrape.cpu.rendered(h);
    scrape.cpu.lemma_whole_lines(h);
    let t2 = t1 + scrape.memory.rendered(h);
    scrape.memory.lemma_whole_lines(h);
    lemma_concat_whole(t1, scrape.memory.rendered(h));
    let t3 = t2 + rendered_pools(scrape.pools@, h);
    lemma_pools_whole(scrape.pools@, h);
    lemma_concat_whole(t2, rendered_pools(scrape.pools@, h));
    let t4 = t3 + scrape.networks.rendered(h);
    scrape.networks.lemma_whole_lines(h);
    lemma_concat_whole(t3, scrape.networks.rendered(h));
    let t5 = t4 + scrape.disks.rendered(h);
    scrape.disks.lemma_whole_lines(h);
    lemma_concat_whole(t4, scrape.disks.rendered(h));
    let t6 = t5 + scrape.disk_usage.rendered(h);
    scrape.disk_usage.lemma_whole_lines(h);
    lemma_concat_whole(t5, scrape.disk_usage.rendered(h));
    let t7 = t6 + scrape.temperatures.rendered(h);
    scrape.temperatures.lemma_whole_lines(h);
    lemma_concat_whole(t6, scrape.temperatures.rendered(h));
    let t8 = t7 + scrape.cpu_power.rendered(h);
    scrape.cpu_power.lemma_whole_lines(h);
    lemma_concat_whole(t7, scrape.cpu_power.rendered(h));
    let t9 = t8 + scrape.gpu_power.rendered(h);
    scrape.gpu_power.lemma_whole_lines(h);
    lemma_concat_whole(t8, scrape.gpu_power.rendered(h));
    let t10 = t9 + arc_samples(scrape.arc, h);
    lemma_arc_whole(scrape.arc, h);
    lemma_concat_whole(t9, arc_samples(scrape.arc, h));
    let t11 = t10 + scrape.gpu_memory.rendered(h);
    scrape.gpu_memory.lemma_whole_lines(h);
    lemma_concat_whole(t10, scrape.gpu_memory.rendered(h));
    let t12 = t11 + rendered_all(scrape.gpu_usage@, h);
    lemma_rendered_all_whole(scrape.gpu_usage@, h);
    lemma_concat_whole(t11, rendered_all(scrape.gpu_usage@, h));
    scrape.processes.lemma_whole_lines(h);
    lemma_concat_whole(t12, scrape.processes.rendered(h));
}

/// Renders the snapshot of one scrape. The text depends on the readings
/// and the host name alone.
pub fn get_metrics(scrape: &Scrape, hostname: &str) -> (r: Result<String, Error>)
    ensures
        r matches Ok(text) && text@ == metrics_of(*scrape, hostname@),
{
    let mut result = String::with_capacity(256);
    scrape.cpu.write(&mut result, hostname);
    scrape.memory.write(&mut result, hostname);
    write_pools(&scrape.pools, &mut result, hostname);
    scrape.networks.write(&mut result, hostname);
    scrape.disks.write(&mut result, hostname);
    scrape.disk_usage.write(&mut result, hostname);
    scrape.temperatures.write(&mut result, hostname);
    scrape.cpu_power.write(&mut result, hostname);
    scrape.gpu_power.write(&mut result, hostname);
    match &scrape.arc {
        Some(stats) => stats.write(&mut result, hostname),
        None => {},
    }
    scrape.gpu_memory.write(&mut result, hostname);
    write_all(&scrape.gpu_usage, &mut result, hostname);
    scrape.processes.write(&mut result, hostname);
    assert(result@ =~= metrics_of(*scrape, hostname@));
    Ok(result)
}

} // verus!
