use palantir::data::{
    CpuPowerUsage, CpuTime, DiskStats, DiskUsage, GpuMemory, GpuPowerUsage, GpuUsage, Memory,
    NetStats, ProcData, Temperatures,
};
use palantir::metrics::{get_metrics, Scrape};
use palantir::zfs::ArcStats;
use palantir::Error;

fn empty() -> Scrape {
    Scrape {
        cpu: Err(Error::InvalidFloatData),
        memory: Err(Error::InvalidIntData),
        pools: Vec::new(),
        networks: Err(Error::Io("error reading netdev")),
        disks: Err(Error::Io("x")),
        disk_usage: Err(Error::StatVfs),
        temperatures: Err(Error::Io("x")),
        cpu_power: Ok(None),
        gpu_power: Ok(GpuPowerUsage { gpu_uj: 0 }),
        arc: None,
        gpu_memory: None,
        gpu_usage: Vec::new(),
        processes: Err(Error::Proc),
    }
}

fn full() -> Scrape {
    Scrape {
        cpu: Ok(CpuTime(750)),
        memory: Ok(Memory { total: 1000000, free: 200000, available: 500000 }),
        pools: vec![DiskUsage { name: "tank".to_string(), size: 1000, free: 500 }],
        networks: Ok(vec![
            Ok(NetStats { interface: "eth0".to_string(), bytes_sent: 2, bytes_received: 1 }),
            Err(Error::InvalidIntData),
            Ok(NetStats { interface: "eth1".to_string(), bytes_sent: 0, bytes_received: 0 }),
        ]),
        disks: Ok(vec![Ok(DiskStats { interface: "sda".to_string(), bytes_sent: 4, bytes_received: 3 })]),
        disk_usage: Ok(vec![
            Ok(DiskUsage { name: "/".to_string(), size: 100, free: 40 }),
            Err(Error::StatVfs),
        ]),
        temperatures: Ok(Temperatures { cpu: 45500, gpu: 0 }),
        cpu_power: Ok(Some(CpuPowerUsage { cpu_uj: 1_000_000, cpu_packages_uj: vec![1_000_000] })),
        gpu_power: Ok(GpuPowerUsage { gpu_uj: 2_000_000 }),
        arc: Some(ArcStats { hits: 1, misses: 2, prefetch: 3, size: 4 }),
        gpu_memory: Some(GpuMemory { total: 8, free: 3 }),
        gpu_usage: vec![GpuUsage { system: "compute".to_string(), usage: 7 }],
        processes: Ok(vec![Ok(ProcData { pid: 1, name: "init".to_string(), rss_memory: 4096 })]),
    }
}

const FULL: &str = "cpu_time{host=\"h\"} 0.750\n\
memory_total{host=\"h\"} 1000000\n\
memory_available{host=\"h\"} 500000\n\
memory_free{host=\"h\"} 200000\n\
zfs_pool_size{host=\"h\", pool=\"tank\"} 1000\n\
zfs_pool_free{host=\"h\", pool=\"tank\"} 500\n\
net_sent{host=\"h\", network=\"eth0\"} 2\n\
net_received{host=\"h\", network=\"eth0\"} 1\n\
disk_sent{host=\"h\", disk=\"sda\"} 4\n\
disk_received{host=\"h\", disk=\"sda\"} 3\n\
disk_size{host=\"h\", disk=\"/\"} 100\n\
disk_free{host=\"h\", disk=\"/\"} 40\n\
temperature{host=\"h\", sensor=\"cpu\"} 45.5\n\
total_power{host=\"h\", device=\"cpu\"} 1.000\n\
package_power{host=\"h\", package=\"0\", device=\"cpu\"} 1.000\n\
total_power{host=\"h\", device=\"gpu\"} 2.000\n\
zfs_arc_hits{host=\"h\"} 1\n\
zfs_arc_misses{host=\"h\"} 2\n\
zfs_arc_size{host=\"h\"} 4\n\
zfs_arc_prefetch{host=\"h\"} 3\n\
gpu_memory_total{host=\"h\"} 8\n\
gpu_memory_free{host=\"h\"} 3\n\
gpu_usage{host=\"h\", system=\"compute\"} 7\n\
process_memory_rss{host=\"h\", process=\"init\", pid=\"1\"} 4096\n";

#[test]
fn snapshot_renders_every_family_in_order() {
    assert_eq!(get_metrics(&full(), "h").unwrap(), FULL);
}

#[test]
fn snapshot_without_readings_is_empty() {
    assert_eq!(get_metrics(&empty(), "h").unwrap(), "");
}

#[test]
fn snapshot_leaves_out_a_source_that_failed() {
    let mut scrape = full();
    scrape.memory = Err(Error::InvalidIntData);
    scrape.disks = Err(Error::Io("gone"));
    let text = get_metrics(&scrape, "h").unwrap();
    let expected: String = FULL
        .lines()
        .filter(|l| !l.starts_with("memory_") && !l.starts_with("disk_sent") && !l.starts_with("disk_received"))
        .map(|l| format!("{}\n", l))
        .collect();
    assert_eq!(text, expected);
}

#[test]
fn snapshot_is_made_of_whole_lines() {
    for scrape in [full(), empty()] {
        let text = get_metrics(&scrape, "some-host").unwrap();
        assert!(text.is_empty() || text.ends_with('\n'));
        for line in text.lines() {
            assert!(line.contains("{host=\"some-host\""), "{:?}", line);
            let value = line.rsplit("} ").next().unwrap();
            assert!(value.chars().all(|c| c.is_ascii_digit() || c == '.' || c == '-'), "{:?}", line);
        }
    }
}

#[test]
fn snapshot_depends_on_its_readings_alone() {
    let first = get_metrics(&full(), "h").unwrap();
    let other = get_metrics(&empty(), "h").unwrap();
    let second = get_metrics(&full(), "h").unwrap();
    assert_eq!(first, second);
    assert_ne!(first, other);
}
