//! The readings that a scrape collects, and how each one is rendered.

use crate::encode::{
    label, lemma_concat_whole, millionths, push_head, push_label, push_labelled,
    push_sample, push_signed, push_tail, push_tail_ratio, sample, signed_decimal,
    thousandths, whole_lines,
};
use crate::number::{decimal, fixed_point, push_decimal, push_fixed};
use crate::SensorData;
use vstd::prelude::*;
use vstd::string::StringExecFns;

verus! {

/// Temperatures in thousandths of a degree Celsius; 0 stands for "no reading".
#[derive(Debug, Clone, Default)]
pub struct Temperatures {
    pub cpu: i64,
    pub gpu: i64,
}

/// The sample of one temperature sensor; nothing for a reading of 0.
pub open spec fn temperature_sample(hostname: Seq<char>, sensor: Seq<char>, value: int) -> Seq<
    char,
> {
    if value != 0 {
        sample("temperature"@, hostname, label("sensor"@, sensor), thousandths(value))
    } else {
        Seq::empty()
    }
}

/// The sample of a temperature sensor is a whole line, or nothing.
pub proof fn lemma_temperature_whole(hostname: Seq<char>, sensor: Seq<char>, value: int)
    ensures
        whole_lines(temperature_sample(hostname, sensor, value)),
{
}

/// Appends the sample of one temperature sensor.
pub fn write_temperature(w: &mut String, hostname: &str, sensor: &str, value: i64)
    ensures
        final(w)@ == old(w)@ + temperature_sample(hostname@, sensor@, value as int),
{
    if value != 0 {
        push_head(w, "temperature", hostname);
        push_label(w, "sensor", sensor);
        w.append("} ");
        if value < 0 {
            w.push('-');
            let magnitude: u128 = (-(value as i128)) as u128;
            push_fixed(w, (magnitude + 50) / 100, 1);
        } else {
            push_fixed(w, (value as u128 + 50) / 100, 1);
        }
        w.push('\n');
        proof {
            crate::number::lemma_pow10_bound(1);
            reveal_with_fuel(crate::number::pow10, 2);
            let m: nat = if value < 0 {
                (-value) as nat
            } else {
                value as nat
            };
            assert((2 * m * 10 + 1000) / 2000 == (m + 50) / 100);
            assert(w@ =~= old(w)@ + temperature_sample(hostname@, sensor@, value as int));
        }
    } else {
        assert(w@ =~= old(w)@ + temperature_sample(hostname@, sensor@, value as int));
    }
}

impl Temperatures {
    /// The readings by sensor name, in the order in which they are rendered.
    pub fn pairs(&self) -> (r: Vec<(&'static str, i64)>)
        ensures
            r@.len() == 2,
            r@[0].0@ == "cpu"@ && r@[0].1 == self.cpu,
            r@[1].0@ == "gpu"@ && r@[1].1 == self.gpu,
    {
        let mut r: Vec<(&'static str, i64)> = Vec::new();
        r.push(("cpu", self.cpu));
        r.push(("gpu", self.gpu));
        r
    }
}

impl SensorData for Temperatures {
    open spec fn rendered(&self, hostname: Seq<char>) -> Seq<char> {
        temperature_sample(hostname, "cpu"@, self.cpu as int) + temperature_sample(
            hostname,
            "gpu"@,
            self.gpu as int,
        )
    }

    proof fn lemma_whole_lines(&self, hostname: Seq<char>) {
        lemma_temperature_whole(hostname, "cpu"@, self.cpu as int);
        lemma_temperature_whole(hostname, "gpu"@, self.gpu as int);
        lemma_concat_whole(
            temperature_sample(hostname, "cpu"@, self.cpu as int),
            temperature_sample(hostname, "gpu"@, self.gpu as int),
        );
    }

    fn write(&self, w: &mut String, hostname: &str) {
        write_temperature(w, hostname, "cpu", self.cpu);
        write_temperature(w, hostname, "gpu", self.gpu);
        assert(w@ =~= old(w)@ + self.rendered(hostname@));
    }
}

/// Main memory, in bytes.
#[derive(Debug, Clone, Default)]
pub struct Memory {
    pub total: u64,
    pub free: u64,
    pub available: u64,
}

impl Memory {
    /// Neither the free nor the available memory exceeds the total.
    pub open spec fn consistent(&self) -> bool {
        self.total >= self.available && self.total >= self.free
    }
}

impl SensorData for Memory {
    open spec fn rendered(&self, hostname: Seq<char>) -> Seq<char> {
        sample("memory_total"@, hostname, Seq::empty(), decimal(self.total as nat)) + sample(
            "memory_available"@,
            hostname,
            Seq::empty(),
            decimal(self.available as nat),
        ) + sample("memory_free"@, hostname, Seq::empty(), decimal(self.free as nat))
    }

    proof fn lemma_whole_lines(&self, hostname: Seq<char>) {
        let a = sample("memory_total"@, hostname, Seq::empty(), decimal(self.total as nat));
        let b = sample(
            "memory_available"@,
            hostname,
            Seq::empty(),
            decimal(self.available as nat),
        );
        let c = sample("memory_free"@, hostname, Seq::empty(), decimal(self.free as nat));
        lemma_concat_whole(a, b);
        lemma_concat_whole(a + b, c);
    }

    fn write(&self, w: &mut String, hostname: &str) {
        push_sample(w, "memory_total", hostname, self.total);
        push_sample(w, "memory_available", hostname, self.available);
        push_sample(w, "memory_free", hostname, self.free);
        assert(w@ =~= old(w)@ + self.rendered(hostname@));
    }
}

/// Memory of the graphics card, in bytes.
#[derive(Debug, Clone, Default)]
pub struct GpuMemory {
    pub total: u64,
    pub free: u64,
}

impl SensorData for GpuMemory {
    open spec fn rendered(&self, hostname: Seq<char>) -> Seq<char> {
        sample("gpu_memory_total"@, hostname, Seq::empty(), decimal(self.total as nat)) + sample(
            "gpu_memory_free"@,
            hostname,
            Seq::empty(),
            decimal(self.free as nat),
        )
    }

    proof fn lemma_whole_lines(&self, hostname: Seq<char>) {
        lemma_concat_whole(
            sample("gpu_memory_total"@, hostname, Seq::empty(), decimal(self.total as nat)),
            sample("gpu_memory_free"@, hostname, Seq::empty(), decimal(self.free as nat)),
        );
    }

    fn write(&self, w: &mut String, hostname: &str) {
        push_sample(w, "gpu_memory_total", hostname, self.total);
        push_sample(w, "gpu_memory_free", hostname, self.free);
        assert(w@ =~= old(w)@ + self.rendered(hostname@));
    }
}

/// Processor time per core since boot, in thousandths of a second.
#[derive(Debug, Clone)]
pub struct CpuTime(pub u64);

impl SensorData for CpuTime {
    open spec fn rendered(&self, hostname: Seq<char>) -> Seq<char> {
        sample("cpu_time"@, hostname, Seq::empty(), fixed_point(self.0 as nat, 3))
    }

    proof fn lemma_whole_lines(&self, hostname: Seq<char>) {
    }

    fn write(&self, w: &mut String, hostname: &str) {
        push_head(w, "cpu_time", hostname);
        w.append("} ");
        push_fixed(w, self.0 as u128, 3);
        w.push('\n');
        assert(w@ =~= old(w)@ + self.rendered(hostname@));
    }
}

/// The two samples of a pair of byte counters; nothing when both are 0.
pub open spec fn traffic_samples(
    sent_family: Seq<char>,
    received_family: Seq<char>,
    hostname: Seq<char>,
    key: Seq<char>,
    name: Seq<char>,
    sent: nat,
    received: nat,
) -> Seq<char> {
    if received > 0 || sent > 0 {
        sample(sent_family, hostname, label(key, name), decimal(sent)) + sample(
            received_family,
            hostname,
            label(key, name),
            decimal(received),
        )
    } else {
        Seq::empty()
    }
}

/// The samples of a pair of byte counters are whole lines.
pub proof fn lemma_traffic_whole(
    sent_family: Seq<char>,
    received_family: Seq<char>,
    hostname: Seq<char>,
    key: Seq<char>,
    name: Seq<char>,
    sent: nat,
    received: nat,
)
    ensures
        whole_lines(
            traffic_samples(sent_family, received_family, hostname, key, name, sent, received),
        ),
{
    lemma_concat_whole(
        sample(sent_family, hostname, label(key, name), decimal(sent)),
        sample(received_family, hostname, label(key, name), decimal(received)),
    );
}

/// Appends the two samples of a pair of byte counters.
fn write_traffic(
    w: &mut String,
    sent_family: &str,
    received_family: &str,
    hostname: &str,
    key: &str,
    name: &str,
    sent: u64,
    received: u64,
)
    ensures
        final(w)@ == old(w)@ + traffic_samples(
            sent_family@,
            received_family@,
            hostname@,
            key@,
            name@,
            sent as nat,
            received as nat,
        ),
{
    if received > 0 || sent > 0 {
        push_labelled(w, sent_family, hostname, key, name, sent);
        push_labelled(w, received_family, hostname, key, name, received);
    }
    assert(w@ =~= old(w)@ + traffic_samples(
        sent_family@,
        received_family@,
        hostname@,
        key@,
        name@,
        sent as nat,
        received as nat,
    ));
}

/// Bytes that went through one network interface since boot.
#[derive(Debug, Clone, Default)]
pub struct NetStats {
    pub interface: String,
    pub bytes_sent: u64,
    pub bytes_received: u64,
}

impl View for NetStats {
    type V = (Seq<char>, u64, u64);

    /// The interface name, the bytes sent and the bytes received.
    open spec fn view(&self) -> (Seq<char>, u64, u64) {
        (self.interface@, self.bytes_sent, self.bytes_received)
    }
}

impl SensorData for NetStats {
    open spec fn rendered(&self, hostname: Seq<char>) -> Seq<char> {
        traffic_samples(
            "net_sent"@,
            "net_received"@,
            hostname,
            "network"@,
            self.interface@,
            self.bytes_sent as nat,
            self.bytes_received as nat,
        )
    }

    proof fn lemma_whole_lines(&self, hostname: Seq<char>) {
        lemma_traffic_whole(
            "net_sent"@,
            "net_received"@,
            hostname,
            "network"@,
            self.interface@,
            self.bytes_sent as nat,
            self.bytes_received as nat,
        );
    }

    fn write(&self, w: &mut String, hostname: &str) {
        write_traffic(
            w,
            "net_sent",
            "net_received",
            hostname,
            "network",
            self.interface.as_str(),
            self.bytes_sent,
            self.bytes_received,
        );
    }
}

/// How busy one part of the graphics card is, in percent.
#[derive(Debug, Clone)]
pub struct GpuUsage {
    pub system: String,
    pub usage: u32,
}

impl GpuUsage {
    /// The sample of this reading, as it is written for `hostname`.
    pub open spec fn rendered(&self, hostname: Seq<char>) -> Seq<char> {
        sample("gpu_usage"@, hostname, label("system"@, self.system@), decimal(self.usage as nat))
    }

    /// Appends the sample of this reading to `w`.
    pub fn write(&self, w: &mut String, hostname: &str)
        ensures
            final(w)@ == old(w)@ + self.rendered(hostname@),
    {
        push_labelled(w, "gpu_usage", hostname, "system", self.system.as_str(), self.usage as u64);
    }
}

impl SensorData for GpuUsage {
    open spec fn rendered(&self, hostname: Seq<char>) -> Seq<char> {
        GpuUsage::rendered(self, hostname)
    }

    proof fn lemma_whole_lines(&self, hostname: Seq<char>) {
    }

    fn write(&self, w: &mut String, hostname: &str) {
        GpuUsage::write(self, w, hostname)
    }
}

/// Bytes that went to and came from one block device since boot.
#[derive(Debug, Clone, Default)]
pub struct DiskStats {
    pub interface: String,
    pub bytes_sent: u64,
    pub bytes_received: u64,
}

impl SensorData for DiskStats {
    open spec fn rendered(&self, hostname: Seq<char>) -> Seq<char> {
        traffic_samples(
            "disk_sent"@,
            "disk_received"@,
            hostname,
            "disk"@,
            self.interface@,
            self.bytes_sent as nat,
            self.bytes_received as nat,
        )
    }

    proof fn lemma_whole_lines(&self, hostname: Seq<char>) {
        lemma_traffic_whole(
            "disk_sent"@,
            "disk_received"@,
            hostname,
            "disk"@,
            self.interface@,
            self.bytes_sent as nat,
            self.bytes_received as nat,
        );
    }

    fn write(&self, w: &mut String, hostname: &str) {
        write_traffic(
            w,
            "disk_sent",
            "disk_received",
            hostname,
            "disk",
            self.interface.as_str(),
            self.bytes_sent,
            self.bytes_received,
        );
    }
}

/// Size and free space of one file system or storage pool, in bytes.
#[derive(Clone, Debug)]
pub struct DiskUsage {
    pub name: String,
    pub size: u64,
    pub free: u64,
}

impl View for DiskUsage {
    type V = (Seq<char>, u64, u64);

    /// The name, the size and the free space.
    open spec fn view(&self) -> (Seq<char>, u64, u64) {
        (self.name@, self.size, self.free)
    }
}

impl View for DiskStats {
    type V = (Seq<char>, u64, u64);

    /// The device name, the bytes written and the bytes read.
    open spec fn view(&self) -> (Seq<char>, u64, u64) {
        (self.interface@, self.bytes_sent, self.bytes_received)
    }
}

impl DiskUsage {
    /// The samples of a storage pool of this name, size and free space.
    pub open spec fn rendered_pool(&self, hostname: Seq<char>) -> Seq<char> {
        sample("zfs_pool_size"@, hostname, label("pool"@, self.name@), decimal(self.size as nat))
            + sample(
            "zfs_pool_free"@,
            hostname,
            label("pool"@, self.name@),
            decimal(self.free as nat),
        )
    }

    /// The samples of a storage pool are whole lines.
    pub proof fn lemma_pool_whole(&self, hostname: Seq<char>)
        ensures
            whole_lines(self.rendered_pool(hostname)),
    {
        lemma_concat_whole(
            sample(
                "zfs_pool_size"@,
                hostname,
                label("pool"@, self.name@),
                decimal(self.size as nat),
            ),
            sample(
                "zfs_pool_free"@,
                hostname,
                label("pool"@, self.name@),
                decimal(self.free as nat),
            ),
        );
    }

    /// Appends the samples of a storage pool of this name, size and free space.
    pub fn write_pool(&self, w: &mut String, hostname: &str)
        ensures
            final(w)@ == old(w)@ + self.rendered_pool(hostname@),
    {
        push_labelled(w, "zfs_pool_size", hostname, "pool", self.name.as_str(), self.size);
        push_labelled(w, "zfs_pool_free", hostname, "pool", self.name.as_str(), self.free);
        assert(w@ =~= old(w)@ + self.rendered_pool(hostname@));
    }
}

impl SensorData for DiskUsage {
    open spec fn rendered(&self, hostname: Seq<char>) -> Seq<char> {
        if self.size > 0 {
            sample("disk_size"@, hostname, label("disk"@, self.name@), decimal(self.size as nat))
                + sample(
                "disk_free"@,
                hostname,
                label("disk"@, self.name@),
                decimal(self.free as nat),
            )
        } else {
            Seq::empty()
        }
    }

    proof fn lemma_whole_lines(&self, hostname: Seq<char>) {
        lemma_concat_whole(
            sample("disk_size"@, hostname, label("disk"@, self.name@), decimal(self.size as nat)),
            sample("disk_free"@, hostname, label("disk"@, self.name@), decimal(self.free as nat)),
        );
    }

    fn write(&self, w: &mut String, hostname: &str) {
        if self.size > 0 {
            push_labelled(w, "disk_size", hostname, "disk", self.name.as_str(), self.size);
            push_labelled(w, "disk_free", hostname, "disk", self.name.as_str(), self.free);
        }
        assert(w@ =~= old(w)@ + self.rendered(hostname@));
    }
}

/// The sample of the energy that one kind of device has used, in joules.
pub open spec fn total_power_sample(hostname: Seq<char>, device: Seq<char>, uj: nat) -> Seq<char> {
    sample("total_power"@, hostname, label("device"@, device), millionths(uj))
}

/// Appends the sample of the energy that one kind of device has used.
pub fn write_total_power(w: &mut String, hostname: &str, device: &str, uj: u64)
    ensures
        final(w)@ == old(w)@ + total_power_sample(hostname@, device@, uj as nat),
{
    push_head(w, "total_power", hostname);
    push_label(w, "device", device);
    push_tail_ratio(w, uj, 1_000_000, 3);
    assert(w@ =~= old(w)@ + total_power_sample(hostname@, device@, uj as nat));
}

/// The sample of the energy that processor package `index` has used, in joules.
pub open spec fn package_power_sample(hostname: Seq<char>, index: nat, uj: nat) -> Seq<char> {
    sample(
        "package_power"@,
        hostname,
        label("package"@, decimal(index)) + label("device"@, "cpu"@),
        millionths(uj),
    )
}

/// The samples of the packages `0..packages.len()`, in order.
pub open spec fn package_power_samples(hostname: Seq<char>, packages: Seq<u64>) -> Seq<char>
    decreases packages.len(),
{
    if packages.len() == 0 {
        Seq::empty()
    } else {
        package_power_samples(hostname, packages.drop_last()) + package_power_sample(
            hostname,
            (packages.len() - 1) as nat,
            packages.last() as nat,
        )
    }
}

/// The samples of the packages are whole lines.
pub proof fn lemma_package_power_whole(hostname: Seq<char>, packages: Seq<u64>)
    ensures
        whole_lines(package_power_samples(hostname, packages)),
    decreases packages.len(),
{
    if packages.len() > 0 {
        lemma_package_power_whole(hostname, packages.drop_last());
        lemma_concat_whole(
            package_power_samples(hostname, packages.drop_last()),
            package_power_sample(
                hostname,
                (packages.len() - 1) as nat,
                packages.last() as nat,
            ),
        );
    }
}

/// Appends the samples of the packages, in order.
pub fn write_package_power(w: &mut String, hostname: &str, packages: &Vec<u64>)
    ensures
        final(w)@ == old(w)@ + package_power_samples(hostname@, packages@),
{
    let mut i: usize = 0;
    assert(packages@.take(0) == Seq::<u64>::empty());
    assert(w@ =~= old(w)@ + package_power_samples(hostname@, packages@.take(0)));
    while i < packages.len()
        invariant
            i <= packages.len(),
            w@ == old(w)@ + package_power_samples(hostname@, packages@.take(i as int)),
        decreases packages.len() - i,
    {
        let ghost before = w@;
        push_head(w, "package_power", hostname);
        w.append(", package=\"");
        push_decimal(w, i as u128);
        w.push('"');
        push_label(w, "device", "cpu");
        push_tail_ratio(w, packages[i], 1_000_000, 3);
        proof {
            let next = packages@.take(i + 1);
            assert(next.drop_last() == packages@.take(i as int));
            assert(next.last() == packages@[i as int]);
            assert(", package=\""@ =~= ", "@ + "package"@ + "=\""@) by {
                reveal_strlit(", package=\"");
                reveal_strlit(", ");
                reveal_strlit("package");
                reveal_strlit("=\"");
            }
            assert(w@ =~= before + package_power_sample(
                hostname@,
                i as nat,
                packages@[i as int] as nat,
            ));
            assert(w@ =~= old(w)@ + package_power_samples(hostname@, next));
        }
        i += 1;
    }
    assert(packages@.take(i as int) == packages@);
}

/// Energy that the processor has used, in microjoules: in total and by package.
#[derive(Debug, Default)]
pub struct CpuPowerUsage {
    pub cpu_uj: u64,
    pub cpu_packages_uj: Vec<u64>,
}

impl SensorData for CpuPowerUsage {
    open spec fn rendered(&self, hostname: Seq<char>) -> Seq<char> {
        total_power_sample(hostname, "cpu"@, self.cpu_uj as nat) + package_power_samples(
            hostname,
            self.cpu_packages_uj@,
        )
    }

    proof fn lemma_whole_lines(&self, hostname: Seq<char>) {
        lemma_package_power_whole(hostname, self.cpu_packages_uj@);
        lemma_concat_whole(
            total_power_sample(hostname, "cpu"@, self.cpu_uj as nat),
            package_power_samples(hostname, self.cpu_packages_uj@),
        );
    }

    fn write(&self, w: &mut String, hostname: &str) {
        write_total_power(w, hostname, "cpu", self.cpu_uj);
        write_package_power(w, hostname, &self.cpu_packages_uj);
        assert(w@ =~= old(w)@ + self.rendered(hostname@));
    }
}

/// Energy that the graphics card has used, in microjoules; 0 stands for "no reading".
#[derive(Debug, Default)]
pub struct GpuPowerUsage {
    pub gpu_uj: u64,
}

impl SensorData for GpuPowerUsage {
    open spec fn rendered(&self, hostname: Seq<char>) -> Seq<char> {
        if self.gpu_uj > 0 {
            total_power_sample(hostname, "gpu"@, self.gpu_uj as nat)
        } else {
            Seq::empty()
        }
    }

    proof fn lemma_whole_lines(&self, hostname: Seq<char>) {
    }

    fn write(&self, w: &mut String, hostname: &str) {
        if self.gpu_uj > 0 {
            write_total_power(w, hostname, "gpu", self.gpu_uj);
        }
        assert(w@ =~= old(w)@ + self.rendered(hostname@));
    }
}

/// Resident memory of one process, in bytes.
#[derive(Debug, Clone)]
pub struct ProcData {
    pub pid: i32,
    pub name: String,
    pub rss_memory: u64,
}

impl SensorData for ProcData {
    open spec fn rendered(&self, hostname: Seq<char>) -> Seq<char> {
        sample(
            "process_memory_rss"@,
            hostname,
            label("process"@, self.name@) + label("pid"@, signed_decimal(self.pid as int)),
            decimal(self.rss_memory as nat),
        )
    }

    proof fn lemma_whole_lines(&self, hostname: Seq<char>) {
    }

    fn write(&self, w: &mut String, hostname: &str) {
        push_head(w, "process_memory_rss", hostname);
        push_label(w, "process", self.name.as_str());
        w.append(", pid=\"");
        push_signed(w, self.pid as i64);
        w.push('"');
        push_tail(w, self.rss_memory);
        proof {
            assert(", pid=\""@ =~= ", "@ + "pid"@ + "=\""@) by {
                reveal_strlit(", pid=\"");
                reveal_strlit(", ");
                reveal_strlit("pid");
                reveal_strlit("=\"");
            }
            assert(w@ =~= old(w)@ + self.rendered(hostname@));
        }
    }
}

/// A reading of exactly 0 on both temperature sensors renders as nothing.
pub proof fn lemma_zero_temperatures_are_silent(t: Temperatures, hostname: Seq<char>)
    requires
        t.cpu == 0,
        t.gpu == 0,
    ensures
        t.rendered(hostname) == Seq::<char>::empty(),
{
}

/// A network reading of exactly 0 on both counters renders as nothing.
pub proof fn lemma_zero_net_stats_are_silent(n: NetStats, hostname: Seq<char>)
    requires
        n.bytes_sent == 0,
        n.bytes_received == 0,
    ensures
        n.rendered(hostname) == Seq::<char>::empty(),
{
}

/// A disk reading of exactly 0 on both counters renders as nothing.
pub proof fn lemma_zero_disk_stats_are_silent(d: DiskStats, hostname: Seq<char>)
    requires
        d.bytes_sent == 0,
        d.bytes_received == 0,
    ensures
        d.rendered(hostname) == Seq::<char>::empty(),
{
}

} // verus!
