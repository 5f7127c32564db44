//! Readings of a machine that is asked through a management interface:
//! what the answers of its queries amount to.

use crate::data::{
    CpuPowerUsage, CpuTime, DiskStats, DiskUsage, GpuMemory, GpuPowerUsage, GpuUsage, Memory,
    NetStats, Temperatures,
};
use crate::number::{round_ratio, rounded_ratio};
use crate::nvidia::usage_views;
use crate::power::{capped_sum, cpu_power, gpu_power, Integrator};
use crate::temperature::{average_sensors, temperature_of, ChannelReading, Role};
use crate::text::{
    chars_of, contains, find, find_from, has_infix, has_prefix, is_text, starts_with, string_of,
};
use crate::{rendered_all, write_all, Error, SensorData};
use vstd::prelude::*;
use vstd::slice::slice_subrange;

verus! {

/// The memory that one graphics adapter has in use, in bytes.
#[derive(Debug, Clone)]
pub struct GpuAdapterMemory {
    pub dedicated_usage: u64,
}

/// How busy one engine of a graphics adapter is, in percent. The name of
/// the engine holds its type behind the mark `_engtype_`.
#[derive(Debug, Clone)]
pub struct GpuEngine {
    pub name: String,
    pub usage: u32,
}

/// The bytes read from and written to one file system; the one named
/// `_Total` sums up all of them.
#[derive(Debug, Clone)]
pub struct FileSystemDiskActivity {
    pub name: String,
    pub read: u64,
    pub written: u64,
}

/// One value of the hardware monitor, in thousandths of its unit.
#[derive(Debug, Clone)]
pub struct Sensor {
    pub identifier: String,
    pub name: String,
    pub sensor_type: String,
    pub value: i64,
}

/// What the hardware monitor gives for one scrape.
#[derive(Debug)]
pub struct HwMonData {
    pub temperature: Temperatures,
    pub cpu_power: CpuPowerUsage,
    pub gpu_power: GpuPowerUsage,
}

/// The memory in use over all adapters, which stops at the largest 64-bit value.
pub open spec fn memory_in_use(adapters: Seq<GpuAdapterMemory>) -> u64
    decreases adapters.len(),
{
    if adapters.len() == 0 {
        0
    } else {
        capped_sum(memory_in_use(adapters.drop_last()), adapters.last().dedicated_usage as nat)
    }
}

/// The type of an engine: what stands in its name between the first mark
/// `_engtype_` and the next one, or the end. `None` for a name without mark.
pub open spec fn engine_type(name: Seq<char>) -> Option<Seq<char>> {
    let mark = "_engtype_"@;
    let first = find_from(name, mark, 0);
    if first < 0 {
        None
    } else {
        let rest = name.subrange(first + mark.len(), name.len() as int);
        let next = find_from(rest, mark, 0);
        if next < 0 {
            Some(rest)
        } else {
            Some(rest.subrange(0, next))
        }
    }
}

/// The sum of two percentages, which stops at the largest 32-bit value.
pub open spec fn capped_percent(a: u32, b: u32) -> u32 {
    if a + b > u32::MAX {
        u32::MAX
    } else {
        (a + b) as u32
    }
}

/// The totals by engine type after one more engine of type `key`: its usage
/// is added to the total of its type, or opens a new total at the end.
pub open spec fn add_usage(totals: Seq<(Seq<char>, u32)>, key: Seq<char>, usage: u32) -> Seq<
    (Seq<char>, u32),
>
    decreases totals.len(),
{
    if totals.len() == 0 {
        seq![(key, usage)]
    } else if totals[0].0 == key {
        seq![(key, capped_percent(totals[0].1, usage))] + totals.drop_first()
    } else {
        seq![totals[0]] + add_usage(totals.drop_first(), key, usage)
    }
}

/// The usage by engine type: one total for each type, in the order in
/// which the types first occur; engines without a type are left out.
pub open spec fn engine_totals(engines: Seq<GpuEngine>) -> Seq<(Seq<char>, u32)>
    decreases engines.len(),
{
    if engines.len() == 0 {
        Seq::empty()
    } else {
        let rest = engine_totals(engines.drop_last());
        match engine_type(engines.last().name@) {
            Some(key) => add_usage(rest, key, engines.last().usage),
            None => rest,
        }
    }
}

/// Whether one of the totals is that of the engine type `key`.
pub open spec fn has_type(totals: Seq<(Seq<char>, u32)>, key: Seq<char>) -> bool
    decreases totals.len(),
{
    totals.len() > 0 && (totals[0].0 == key || has_type(totals.drop_first(), key))
}

/// Whether no engine type has two totals.
pub open spec fn one_total_per_type(totals: Seq<(Seq<char>, u32)>) -> bool
    decreases totals.len(),
{
    totals.len() == 0 || (!has_type(totals.drop_first(), totals[0].0) && one_total_per_type(
        totals.drop_first(),
    ))
}

/// One more engine adds its own type to the types that have a total, and
/// no other; where no type had two totals before, none has two after.
pub proof fn lemma_add_usage_types(
    totals: Seq<(Seq<char>, u32)>,
    key: Seq<char>,
    usage: u32,
    other: Seq<char>,
)
    ensures
        has_type(add_usage(totals, key, usage), other) <==> (other == key || has_type(
            totals,
            other,
        )),
        one_total_per_type(totals) ==> one_total_per_type(add_usage(totals, key, usage)),
    decreases totals.len(),
{
    let after = add_usage(totals, key, usage);
    if totals.len() == 0 {
        assert(after =~= seq![(key, usage)]);
        assert(after.drop_first() =~= Seq::<(Seq<char>, u32)>::empty());
        assert(!has_type(after.drop_first(), other));
        assert(!has_type(after.drop_first(), key));
        assert(one_total_per_type(after.drop_first()));
        assert(has_type(after, other) <==> other == key);
        assert(one_total_per_type(after));
    } else if totals[0].0 == key {
        assert(after =~= seq![(key, capped_percent(totals[0].1, usage))] + totals.drop_first());
        assert(after[0].0 == key);
        assert(after.drop_first() =~= totals.drop_first());
        assert(has_type(after, other) <==> (other == key || has_type(totals.drop_first(), other)));
        if one_total_per_type(totals) {
            assert(one_total_per_type(after));
        }
    } else {
        let rest = add_usage(totals.drop_first(), key, usage);
        assert(after =~= seq![totals[0]] + rest);
        assert(after[0] == totals[0]);
        assert(after.drop_first() =~= rest);
        lemma_add_usage_types(totals.drop_first(), key, usage, other);
        lemma_add_usage_types(totals.drop_first(), key, usage, totals[0].0);
        assert(has_type(after, other) <==> (other == totals[0].0 || has_type(rest, other)));
        if one_total_per_type(totals) {
            assert(!has_type(rest, totals[0].0));
            assert(one_total_per_type(rest));
            assert(one_total_per_type(after));
        }
    }
}

/// A type that has a total stands at some index of the totals.
pub proof fn lemma_has_type_at(totals: Seq<(Seq<char>, u32)>, j: int)
    requires
        0 <= j < totals.len(),
    ensures
        has_type(totals, totals[j].0),
    decreases j,
{
    if j > 0 {
        assert(totals.drop_first()[j - 1] == totals[j]);
        lemma_has_type_at(totals.drop_first(), j - 1);
    }
}

/// Totals of which no type has two hold a different type at every index.
pub proof fn lemma_types_differ(totals: Seq<(Seq<char>, u32)>, i: int, j: int)
    requires
        one_total_per_type(totals),
        0 <= i < j < totals.len(),
    ensures
        totals[i].0 != totals[j].0,
    decreases i,
{
    assert(totals.drop_first()[j - 1] == totals[j]);
    if i == 0 {
        lemma_has_type_at(totals.drop_first(), j - 1);
    } else {
        assert(totals.drop_first()[i - 1] == totals[i]);
        lemma_types_differ(totals.drop_first(), i - 1, j - 1);
    }
}

/// No engine type occurs twice in the usage by engine type: the totals are
/// a map from type to usage, written down in the order of first occurrence.
pub proof fn lemma_engine_types_occur_once(engines: Seq<GpuEngine>)
    ensures
        one_total_per_type(engine_totals(engines)),
        forall|i: int, j: int|
            0 <= i < j < engine_totals(engines).len() ==> engine_totals(engines)[i].0
                != engine_totals(engines)[j].0,
    decreases engines.len(),
{
    if engines.len() > 0 {
        lemma_engine_types_occur_once(engines.drop_last());
        let rest = engine_totals(engines.drop_last());
        match engine_type(engines.last().name@) {
            Some(key) => {
                lemma_add_usage_types(rest, key, engines.last().usage, key);
            },
            None => {},
        }
    }
    let totals = engine_totals(engines);
    assert forall|i: int, j: int| 0 <= i < j < totals.len() implies totals[i].0
        != totals[j].0 by {
        lemma_types_differ(totals, i, j);
    }
}

/// Finds the type of an engine in its name.
pub fn parse_engine_type(name: &str) -> (r: Option<String>)
    ensures
        match r {
            Some(key) => engine_type(name@) == Some(key@),
            None => engine_type(name@) is None,
        },
{
    let chars = chars_of(name);
    let mark = chars_of("_engtype_");
    let first = match find(chars.as_slice(), mark.as_slice(), 0) {
        Some(first) => first,
        None => {
            return None;
        },
    };
    let rest = slice_subrange(chars.as_slice(), first + mark.len(), chars.len());
    match find(rest, mark.as_slice(), 0) {
        Some(next) => Some(string_of(rest, 0, next)),
        None => {
            assert(rest@.subrange(0, rest@.len() as int) == rest@);
            Some(string_of(rest, 0, rest.len()))
        },
    }
}

/// Adds the usage of one engine to the totals.
fn add_to_totals(totals: &mut Vec<GpuUsage>, key: String, usage: u32)
    ensures
        usage_views(final(totals)@) == add_usage(usage_views(old(totals)@), key@, usage),
{
    let ghost before = usage_views(totals@);
    let mut j: usize = 0;
    assert(before.skip(0) =~= before);
    assert(before.take(0) + add_usage(before.skip(0), key@, usage) =~= add_usage(
        before,
        key@,
        usage,
    ));
    while j < totals.len()
        invariant
            j <= totals.len(),
            totals@ == old(totals)@,
            before == usage_views(old(totals)@),
            add_usage(before, key@, usage) == before.take(j as int) + add_usage(
                before.skip(j as int),
                key@,
                usage,
            ),
        decreases totals.len() - j,
    {
        let ghost tail = before.skip(j as int);
        proof {
            assert(tail[0] == before[j as int]);
            assert(tail.drop_first() =~= before.skip(j + 1));
            assert(before[j as int] == (totals@[j as int].system@, totals@[j as int].usage));
        }
        if totals[j].system == key {
            let sum = totals[j].usage.saturating_add(usage);
            let updated = GpuUsage { system: key, usage: sum };
            totals.set(j, updated);
            proof {
                assert(usage_views(totals@) =~= before.take(j as int) + (seq![
                    (updated.system@, sum),
                ] + before.skip(j + 1)));
            }
            return ;
        }
        proof {
            assert(before.take(j as int) + (seq![before[j as int]] + add_usage(
                before.skip(j + 1),
                key@,
                usage,
            )) =~= before.take(j + 1) + add_usage(before.skip(j + 1), key@, usage));
        }
        j += 1;
    }
    proof {
        assert(before.skip(j as int) =~= Seq::<(Seq<char>, u32)>::empty());
        assert(before.take(j as int) =~= before);
    }
    let added = GpuUsage { system: key, usage };
    totals.push(added);
    assert(usage_views(totals@) =~= before + seq![(added.system@, usage)]);
}

/// Which sensors of the hardware monitor a temperature is averaged over.
#[derive(Debug, Clone, Copy, PartialEq, Eq)]
pub enum SensorGroup {
    /// The temperatures of the processor's cores.
    CpuCores,
    /// The temperature of the graphics chip.
    GpuCore,
}

/// Whether a sensor belongs to a group: a temperature whose name starts
/// with `CPU Core` and does not hold `Distance`, or one named `GPU Core`.
pub open spec fn in_group(sensor: Sensor, group: SensorGroup) -> bool {
    sensor.sensor_type@ == "Temperature"@ && match group {
        SensorGroup::CpuCores => has_prefix(sensor.name@, "CPU Core"@) && !has_infix(
            sensor.name@,
            "Distance"@,
        ),
        SensorGroup::GpuCore => sensor.name@ == "GPU Core"@,
    }
}

/// Computes [`in_group`].
pub fn belongs_to(sensor: &Sensor, group: SensorGroup) -> (b: bool)
    ensures
        b == in_group(*sensor, group),
{
    let kind = chars_of(sensor.sensor_type.as_str());
    if !is_text(kind.as_slice(), "Temperature") {
        return false;
    }
    let name = chars_of(sensor.name.as_str());
    match group {
        SensorGroup::CpuCores => {
            let prefix = chars_of("CPU Core");
            let distance = chars_of("Distance");
            starts_with(name.as_slice(), prefix.as_slice()) && !contains(
                name.as_slice(),
                distance.as_slice(),
            )
        },
        SensorGroup::GpuCore => is_text(name.as_slice(), "GPU Core"),
    }
}

/// The values of the sensors of a group, as readings of equal weight.
pub open spec fn group_readings(sensors: Seq<Sensor>, group: SensorGroup) -> Seq<ChannelReading>
    decreases sensors.len(),
{
    if sensors.len() == 0 {
        Seq::empty()
    } else if in_group(sensors.last(), group) {
        group_readings(sensors.drop_last(), group).push(
            ChannelReading { role: Role::Core, value: Some(sensors.last().value) },
        )
    } else {
        group_readings(sensors.drop_last(), group)
    }
}

/// Averages the values of the sensors of a group; 0 for a group without
/// sensors.
pub fn avg_sensors(sensors: &Vec<Sensor>, group: SensorGroup) -> (t: i64)
    ensures
        t == temperature_of(group_readings(sensors@, group)),
{
    let mut readings: Vec<ChannelReading> = Vec::new();
    let mut i: usize = 0;
    assert(sensors@.take(0) =~= Seq::<Sensor>::empty());
    while i < sensors.len()
        invariant
            i <= sensors.len(),
            readings@ == group_readings(sensors@.take(i as int), group),
        decreases sensors.len() - i,
    {
        proof {
            let next = sensors@.take(i + 1);
            assert(next.drop_last() =~= sensors@.take(i as int));
            assert(next.last() == sensors@[i as int]);
        }
        if belongs_to(&sensors[i], group) {
            readings.push(ChannelReading { role: Role::Core, value: Some(sensors[i].value) });
        }
        i += 1;
    }
    assert(sensors@.take(i as int) =~= sensors@);
    average_sensors(&readings)
}

/// The value of the first sensor of the type `ty` that is named `name`.
pub open spec fn sensor_value(sensors: Seq<Sensor>, ty: Seq<char>, name: Seq<char>) -> Option<i64>
    decreases sensors.len(),
{
    if sensors.len() == 0 {
        None
    } else if sensors[0].sensor_type@ == ty && sensors[0].name@ == name {
        Some(sensors[0].value)
    } else {
        sensor_value(sensors.drop_first(), ty, name)
    }
}

/// Finds the value of the first sensor of the type `ty` that is named `name`.
pub fn get_sensor(sensors: &Vec<Sensor>, ty: &str, name: &str) -> (r: Option<i64>)
    ensures
        r == sensor_value(sensors@, ty@, name@),
{
    let ty_chars = chars_of(ty);
    let name_chars = chars_of(name);
    let mut i: usize = 0;
    assert(sensors@.skip(0) =~= sensors@);
    while i < sensors.len()
        invariant
            i <= sensors.len(),
            ty_chars@ == ty@,
            name_chars@ == name@,
            sensor_value(sensors@, ty@, name@) == sensor_value(sensors@.skip(i as int), ty@, name@),
        decreases sensors.len() - i,
    {
        proof {
            let tail = sensors@.skip(i as int);
            assert(tail[0] == sensors@[i as int]);
            assert(tail.drop_first() =~= sensors@.skip(i + 1));
        }
        let kind = chars_of(sensors[i].sensor_type.as_str());
        let label = chars_of(sensors[i].name.as_str());
        if is_text(kind.as_slice(), ty) && is_text(label.as_slice(), name) {
            return Some(sensors[i].value);
        }
        i += 1;
    }
    assert(sensors@.skip(i as int) =~= Seq::<Sensor>::empty());
    None
}

/// The power of a sensor in microwatts, from thousandths of a watt; `None`
/// for a negative value and for one beyond 64 bits.
pub open spec fn microwatts(milliwatts: Option<i64>) -> Option<u64> {
    match milliwatts {
        Some(mw) if 0 <= mw && mw * 1000 <= u64::MAX => Some((mw * 1000) as u64),
        _ => None,
    }
}

/// Computes [`microwatts`].
pub fn to_microwatts(milliwatts: Option<i64>) -> (r: Option<u64>)
    ensures
        r == microwatts(milliwatts),
{
    match milliwatts {
        Some(mw) => {
            if mw < 0 {
                None
            } else {
                (mw as u64).checked_mul(1000)
            }
        },
        None => None,
    }
}

/// The power readings that one look at the hardware monitor gives for the
/// processor and for the graphics card: both, or none where the monitor
/// cannot be asked or lacks one of the two package sensors.
pub open spec fn package_powers(sensors: Option<Seq<Sensor>>) -> Option<(u64, u64)> {
    match sensors {
        Some(list) => match (
            microwatts(sensor_value(list, "Power"@, "CPU Package"@)),
            microwatts(sensor_value(list, "Power"@, "GPU Package"@)),
        ) {
            (Some(cpu), Some(gpu)) => Some((cpu, gpu)),
            _ => None,
        },
        None => None,
    }
}

/// The reading that a pair of powers holds for one of the two devices.
pub open spec fn power_of(powers: Option<(u64, u64)>, gpu: bool) -> Option<u64> {
    match powers {
        Some((c, g)) => Some(
            if gpu {
                g
            } else {
                c
            },
        ),
        None => None,
    }
}

/// One tick of the two integrators at `now`, with what a look at the
/// hardware monitor gave; `None` stands for a monitor that cannot be asked.
/// Both integrators take their package's power, or both stop.
pub fn update_power(
    cpu: &mut Integrator,
    gpu: &mut Integrator,
    now: u64,
    sensors: Option<&Vec<Sensor>>,
)
    ensures
        final(cpu)@ == old(cpu)@.step(
            now,
            power_of(
                package_powers(
                    match sensors {
                        Some(list) => Some(list@),
                        None => None,
                    },
                ),
                false,
            ),
        ),
        final(gpu)@ == old(gpu)@.step(
            now,
            power_of(
                package_powers(
                    match sensors {
                        Some(list) => Some(list@),
                        None => None,
                    },
                ),
                true,
            ),
        ),
{
    let powers = match sensors {
        Some(list) => {
            let c = to_microwatts(get_sensor(list, "Power", "CPU Package"));
            let g = to_microwatts(get_sensor(list, "Power", "GPU Package"));
            match (c, g) {
                (Some(c), Some(g)) => Some((c, g)),
                _ => None,
            }
        },
        None => None,
    };
    match powers {
        Some((c, g)) => {
            cpu.advance(now, Some(c));
            gpu.advance(now, Some(g));
        },
        None => {
            cpu.advance(now, None);
            gpu.advance(now, None);
        },
    }
}

/// The memory of all graphics adapters, from the sizes that the registry
/// holds for them; an adapter without a size counts as 0, and the sum stops
/// at the largest 64-bit value.
pub open spec fn total_memory(sizes: Seq<Option<u64>>) -> u64
    decreases sizes.len(),
{
    if sizes.len() == 0 {
        0
    } else {
        capped_sum(
            total_memory(sizes.drop_last()),
            match sizes.last() {
                Some(size) => size as nat,
                None => 0,
            },
        )
    }
}

/// Computes [`total_memory`].
pub fn total_gpu_memory(sizes: &Vec<Option<u64>>) -> (mem: u64)
    ensures
        mem == total_memory(sizes@),
{
    let mut mem: u64 = 0;
    let mut i: usize = 0;
    assert(sizes@.take(0) =~= Seq::<Option<u64>>::empty());
    while i < sizes.len()
        invariant
            i <= sizes.len(),
            mem == total_memory(sizes@.take(i as int)),
        decreases sizes.len() - i,
    {
        proof {
            let next = sizes@.take(i + 1);
            assert(next.drop_last() =~= sizes@.take(i as int));
            assert(next.last() == sizes@[i as int]);
        }
        let size = match sizes[i] {
            Some(size) => size,
            None => 0,
        };
        mem = mem.saturating_add(size);
        i += 1;
    }
    assert(sizes@.take(i as int) =~= sizes@);
    mem
}

/// The total of the file system activity: the first row named `_Total`.
pub open spec fn total_activity(rows: Seq<FileSystemDiskActivity>) -> Option<(u64, u64)>
    decreases rows.len(),
{
    if rows.len() == 0 {
        None
    } else if rows[0].name@ == "_Total"@ {
        Some((rows[0].written, rows[0].read))
    } else {
        total_activity(rows.drop_first())
    }
}

/// The busy time of the processor per core in thousandths of a second,
/// from system times in units of 100 nanoseconds. The kernel time includes
/// the idle time, which is taken off.
pub open spec fn busy_time(user: u64, kernel: u64, idle: u64, cpu_count: u32) -> Result<
    CpuTime,
    Error,
> {
    let value = rounded_ratio((user + kernel - idle) as nat, (10_000_000 * cpu_count) as nat, 3);
    if cpu_count > 0 && kernel >= idle && value <= u64::MAX {
        Ok(CpuTime(value as u64))
    } else {
        Err(Error::InvalidFloatData)
    }
}

/// Computes [`busy_time`].
pub fn system_cpu_time(user: u64, kernel: u64, idle: u64, cpu_count: u32) -> (r: Result<
    CpuTime,
    Error,
>)
    ensures
        r == busy_time(user, kernel, idle, cpu_count),
{
    if cpu_count == 0 || kernel < idle {
        return Err(Error::InvalidFloatData);
    }
    let busy: u128 = user as u128 + (kernel - idle) as u128;
    assert(10_000_000 * cpu_count <= 10_000_000 * 0xffff_ffff) by (nonlinear_arith)
        requires
            cpu_count <= 0xffff_ffff,
    ;
    let rate: u128 = 10_000_000 * (cpu_count as u128);
    let value = round_ratio(busy, rate, 3);
    if value <= 0xffff_ffff_ffff_ffff {
        Ok(CpuTime(value as u64))
    } else {
        Err(Error::InvalidFloatData)
    }
}

/// The queries of the management interface, answered outside.
#[derive(Debug, Default)]
pub struct WmiSensor {}

impl WmiSensor {
    /// A sensor for the management interface.
    pub fn new() -> Self {
        WmiSensor {  }
    }

    /// The memory in use over all graphics adapters.
    pub fn gpu_mem(&self, adapters: &Vec<GpuAdapterMemory>) -> (used: u64)
        ensures
            used == memory_in_use(adapters@),
    {
        let mut used: u64 = 0;
        let mut i: usize = 0;
        assert(adapters@.take(0) =~= Seq::<GpuAdapterMemory>::empty());
        while i < adapters.len()
            invariant
                i <= adapters.len(),
                used == memory_in_use(adapters@.take(i as int)),
            decreases adapters.len() - i,
        {
            proof {
                let next = adapters@.take(i + 1);
                assert(next.drop_last() =~= adapters@.take(i as int));
                assert(next.last() == adapters@[i as int]);
            }
            used = used.saturating_add(adapters[i].dedicated_usage);
            i += 1;
        }
        assert(adapters@.take(i as int) =~= adapters@);
        used
    }

    /// The usage by engine type.
    pub fn gpu_usage(&self, engines: &Vec<GpuEngine>) -> (totals: Vec<GpuUsage>)
        ensures
            usage_views(totals@) == engine_totals(engines@),
    {
        let mut totals: Vec<GpuUsage> = Vec::new();
        let mut i: usize = 0;
        assert(engines@.take(0) =~= Seq::<GpuEngine>::empty());
        assert(usage_views(totals@) =~= Seq::empty());
        while i < engines.len()
            invariant
                i <= engines.len(),
                usage_views(totals@) == engine_totals(engines@.take(i as int)),
            decreases engines.len() - i,
        {
            proof {
                let next = engines@.take(i + 1);
                assert(next.drop_last() =~= engines@.take(i as int));
                assert(next.last() == engines@[i as int]);
            }
            match parse_engine_type(engines[i].name.as_str()) {
                Some(key) => add_to_totals(&mut totals, key, engines[i].usage),
                None => {},
            }
            i += 1;
        }
        assert(engines@.take(i as int) =~= engines@);
        totals
    }

    /// The total of the file system activity, as the reading of a disk
    /// named `Total`.
    pub fn disk_usage(&self, rows: &Vec<FileSystemDiskActivity>) -> (r: Option<DiskStats>)
        ensures
            match r {
                Some(stats) => stats.interface@ == "Total"@ && total_activity(rows@) == Some(
                    (stats.bytes_sent, stats.bytes_received),
                ),
                None => total_activity(rows@) is None,
            },
    {
        let mut i: usize = 0;
        assert(rows@.skip(0) =~= rows@);
        while i < rows.len()
            invariant
                i <= rows.len(),
                total_activity(rows@) == total_activity(rows@.skip(i as int)),
            decreases rows.len() - i,
        {
            proof {
                let tail = rows@.skip(i as int);
                assert(tail[0] == rows@[i as int]);
                assert(tail.drop_first() =~= rows@.skip(i + 1));
            }
            let name = chars_of(rows[i].name.as_str());
            if is_text(name.as_slice(), "_Total") {
                return Some(
                    DiskStats {
                        interface: "Total".to_owned(),
                        bytes_sent: rows[i].written,
                        bytes_received: rows[i].read,
                    },
                );
            }
            i += 1;
        }
        assert(rows@.skip(i as int) =~= Seq::<FileSystemDiskActivity>::empty());
        None
    }

    /// The temperatures that the hardware monitor shows, and the energy
    /// that the two integrators have summed up.
    pub fn hwmon(&self, sensors: &Vec<Sensor>, cpu: &Integrator, gpu: &Integrator) -> (data:
        HwMonData)
        ensures
            data.temperature.cpu == temperature_of(
                group_readings(sensors@, SensorGroup::CpuCores),
            ),
            data.temperature.gpu == temperature_of(group_readings(sensors@, SensorGroup::GpuCore)),
            data.cpu_power.cpu_uj == cpu@.energy_uj,
            data.cpu_power.cpu_packages_uj@ == Seq::<u64>::empty(),
            data.gpu_power.gpu_uj == gpu@.energy_uj,
    {
        HwMonData {
            temperature: Temperatures {
                cpu: avg_sensors(sensors, SensorGroup::CpuCores),
                gpu: avg_sensors(sensors, SensorGroup::GpuCore),
            },
            cpu_power: cpu_power(cpu),
            gpu_power: gpu_power(gpu),
        }
    }
}

/// The memory of the graphics adapters as a reading: the free bytes are
/// the total minus the bytes in use, and 0 where more is in use than there is.
pub open spec fn adapter_memory(total: u64, used: u64) -> (u64, u64) {
    (
        total,
        if used <= total {
            (total - used) as u64
        } else {
            0
        },
    )
}

/// Computes [`adapter_memory`].
pub fn gpu_memory(total: u64, used: u64) -> (mem: GpuMemory)
    ensures
        (mem.total, mem.free) == adapter_memory(total, used),
{
    GpuMemory {
        total,
        free: if used <= total {
            total - used
        } else {
            0
        },
    }
}

/// What the queries gave in one scrape. A query that failed stands as an
/// error.
#[derive(Debug)]
pub struct Scrape {
    pub memory: Memory,
    pub disks: Vec<DiskUsage>,
    pub networks: Vec<NetStats>,
    pub cpu: Result<CpuTime, Error>,
    pub gpu_memory: Result<GpuMemory, Error>,
    pub gpu_engines: Result<Vec<GpuUsage>, Error>,
    pub disk_usage: Result<Option<DiskStats>, Error>,
    pub hwmon: Result<HwMonData, Error>,
}

impl SensorData for HwMonData {
    /// The temperatures, the processor's energy and the graphics card's.
    open spec fn rendered(&self, hostname: Seq<char>) -> Seq<char> {
        self.temperature.rendered(hostname) + self.cpu_power.rendered(hostname)
            + self.gpu_power.rendered(hostname)
    }

    proof fn lemma_whole_lines(&self, hostname: Seq<char>) {
        self.temperature.lemma_whole_lines(hostname);
        self.cpu_power.lemma_whole_lines(hostname);
        self.gpu_power.lemma_whole_lines(hostname);
        crate::encode::lemma_concat_whole(
            self.temperature.rendered(hostname),
            self.cpu_power.rendered(hostname),
        );
        crate::encode::lemma_concat_whole(
            self.temperature.rendered(hostname) + self.cpu_power.rendered(hostname),
            self.gpu_power.rendered(hostname),
        );
    }

    fn write(&self, w: &mut String, hostname: &str) {
        self.temperature.write(w, hostname);
        self.cpu_power.write(w, hostname);
        self.gpu_power.write(w, hostname);
        assert(w@ =~= old(w)@ + self.rendered(hostname@));
    }
}

/// The text of a snapshot: the samples of every query that gave an
/// answer, family after family; a query that failed leaves its samples out.
pub open spec fn metrics_of(scrape: Scrape, hostname: Seq<char>) -> Seq<char> {
    scrape.memory.rendered(hostname) + rendered_all(scrape.disks@, hostname) + rendered_all(
        scrape.networks@,
        hostname,
    ) + scrape.cpu.rendered(hostname) + scrape.gpu_memory.rendered(hostname)
        + scrape.gpu_engines.rendered(hostname) + scrape.disk_usage.rendered(hostname)
        + scrape.hwmon.rendered(hostname)
}

/// Renders the snapshot of one scrape. The text depends on the answers and
/// the host name alone.
pub fn get_metrics(scrape: &Scrape, hostname: &str) -> (r: Result<String, Error>)
    ensures
        r matches Ok(text) && text@ == metrics_of(*scrape, hostname@),
{
    let mut result = String::with_capacity(256);
    scrape.memory.write(&mut result, hostname);
    write_all(&scrape.disks, &mut result, hostname);
    write_all(&scrape.networks, &mut result, hostname);
    scrape.cpu.write(&mut result, hostname);
    scrape.gpu_memory.write(&mut result, hostname);
    scrape.gpu_engines.write(&mut result, hostname);
    scrape.disk_usage.write(&mut result, hostname);
    scrape.hwmon.write(&mut result, hostname);
    assert(result@ =~= metrics_of(*scrape, hostname@));
    Ok(result)
}

} // verus!
