//! Temperatures: which channels of which devices count for the processor
//! and for the graphics card, and how their readings are averaged.

use crate::data::Temperatures;
use crate::hwmon::{Device, Sensor};
use crate::text::{chars_of, has_prefix, is_text, starts_with};
use crate::{Error, SensorSource};
use vstd::prelude::*;

verus! {

/// What a hardware-monitor device measures.
#[derive(Debug, Clone, Copy, PartialEq, Eq)]
pub enum DeviceClass {
    /// The processor.
    Cpu,
    /// The graphics card.
    Gpu,
    /// Anything else; its channels are not read.
    Ignored,
}

/// What a channel measures.
#[derive(Debug, Clone, Copy, PartialEq, Eq)]
pub enum Role {
    /// The processor die as a whole.
    Die,
    /// One core of the processor.
    Core,
    /// The edge of the graphics chip.
    Edge,
}

/// The class of the device that declares the name `name`.
pub open spec fn device_class(name: Seq<char>) -> DeviceClass {
    if name == "k10temp"@ || name == "coretemp"@ || name == "cpu_thermal"@ || name
        == "soc_thermal"@ {
        DeviceClass::Cpu
    } else if name == "amdgpu"@ || name == "gpu_thermal"@ {
        DeviceClass::Gpu
    } else {
        DeviceClass::Ignored
    }
}

/// The role of the channel with the label `label` on a device of class
/// `class`; `None` for a channel that is not read.
pub open spec fn channel_role(class: DeviceClass, label: Seq<char>) -> Option<Role> {
    match class {
        DeviceClass::Cpu => if label == "Tdie"@ {
            Some(Role::Die)
        } else if has_prefix(label, "Core "@) {
            Some(Role::Core)
        } else {
            None
        },
        DeviceClass::Gpu => if label == "edge"@ {
            Some(Role::Edge)
        } else {
            None
        },
        DeviceClass::Ignored => None,
    }
}

/// Computes [`device_class`].
pub fn classify_device(name: &str) -> (class: DeviceClass)
    ensures
        class == device_class(name@),
{
    let chars = chars_of(name);
    let n = chars.as_slice();
    if is_text(n, "k10temp") || is_text(n, "coretemp") || is_text(n, "cpu_thermal") || is_text(
        n,
        "soc_thermal",
    ) {
        DeviceClass::Cpu
    } else if is_text(n, "amdgpu") || is_text(n, "gpu_thermal") {
        DeviceClass::Gpu
    } else {
        DeviceClass::Ignored
    }
}

/// Computes [`channel_role`].
pub fn classify_channel(class: DeviceClass, label: &str) -> (role: Option<Role>)
    ensures
        role == channel_role(class, label@),
{
    let chars = chars_of(label);
    let l = chars.as_slice();
    match class {
        DeviceClass::Cpu => {
            let core = chars_of("Core ");
            if is_text(l, "Tdie") {
                Some(Role::Die)
            } else if starts_with(l, core.as_slice()) {
                Some(Role::Core)
            } else {
                None
            }
        },
        DeviceClass::Gpu => {
            if is_text(l, "edge") {
                Some(Role::Edge)
            } else {
                None
            }
        },
        DeviceClass::Ignored => None,
    }
}

/// What one channel gave in one scrape: its role and its reading in
/// thousandths of a degree, `None` where the read failed.
#[derive(Debug, Clone, Copy)]
pub struct ChannelReading {
    pub role: Role,
    pub value: Option<i64>,
}

/// Whether a reading counts: it succeeded and, where only the die is asked
/// for, it is a die reading.
pub open spec fn counts(r: ChannelReading, die_only: bool) -> bool {
    r.value is Some && (!die_only || r.role == Role::Die)
}

/// The number of readings that count.
pub open spec fn count_of(readings: Seq<ChannelReading>, die_only: bool) -> nat
    decreases readings.len(),
{
    if readings.len() == 0 {
        0
    } else {
        count_of(readings.drop_last(), die_only) + if counts(readings.last(), die_only) {
            1nat
        } else {
            0nat
        }
    }
}

/// The sum of the readings that count.
pub open spec fn sum_of(readings: Seq<ChannelReading>, die_only: bool) -> int
    decreases readings.len(),
{
    if readings.len() == 0 {
        0
    } else {
        sum_of(readings.drop_last(), die_only) + if counts(readings.last(), die_only) {
            readings.last().value.unwrap() as int
        } else {
            0
        }
    }
}

/// The arithmetic mean, rounded towards zero; 0 for a count of 0.
pub open spec fn mean(sum: int, count: nat) -> int {
    if count == 0 {
        0
    } else if sum >= 0 {
        sum / (count as int)
    } else {
        -((-sum) / (count as int))
    }
}

/// The mean of the readings that count.
pub open spec fn mean_of(readings: Seq<ChannelReading>, die_only: bool) -> int {
    mean(sum_of(readings, die_only), count_of(readings, die_only))
}

/// The temperature that a group of channels shows: the mean of the die
/// readings where one succeeded, else the mean of all readings that
/// succeeded, else 0.
pub open spec fn temperature_of(readings: Seq<ChannelReading>) -> int {
    if count_of(readings, true) > 0 {
        mean_of(readings, true)
    } else {
        mean_of(readings, false)
    }
}

/// The sums of the positive and of the negative readings that count, and
/// their number.
struct Tally {
    positive: u128,
    negative: u128,
    count: u64,
}

impl Tally {
    spec fn wf(&self) -> bool {
        &&& self.positive <= self.count * 0x7fff_ffff_ffff_ffff
        &&& self.negative <= self.count * 0x8000_0000_0000_0000
    }

    spec fn matches(&self, readings: Seq<ChannelReading>, die_only: bool) -> bool {
        &&& self.wf()
        &&& self.count == count_of(readings, die_only)
        &&& self.positive - self.negative == sum_of(readings, die_only)
    }

    fn add(&mut self, value: i64)
        requires
            old(self).wf(),
            old(self).count < u64::MAX,
        ensures
            final(self).wf(),
            final(self).count == old(self).count + 1,
            final(self).positive - final(self).negative == old(self).positive - old(
                self,
            ).negative + value,
    {
        assert(self.count * 0x8000_0000_0000_0000 <= 0xffff_ffff_ffff_ffff * 0x8000_0000_0000_0000)
            by (nonlinear_arith)
            requires
                self.count <= 0xffff_ffff_ffff_ffff,
        ;
        assert((self.count + 1) * 0x7fff_ffff_ffff_ffff == self.count * 0x7fff_ffff_ffff_ffff
            + 0x7fff_ffff_ffff_ffff) by (nonlinear_arith);
        assert((self.count + 1) * 0x8000_0000_0000_0000 == self.count * 0x8000_0000_0000_0000
            + 0x8000_0000_0000_0000) by (nonlinear_arith);
        assert(self.count * 0x7fff_ffff_ffff_ffff <= self.count * 0x8000_0000_0000_0000)
            by (nonlinear_arith);
        if value >= 0 {
            self.positive = self.positive + value as u128;
        } else {
            self.negative = self.negative + (-(value as i128)) as u128;
        }
        self.count = self.count + 1;
    }

    fn mean(&self) -> (m: i64)
        requires
            self.wf(),
        ensures
            m == mean(self.positive - self.negative, self.count as nat),
    {
        if self.count == 0 {
            return 0;
        }
        let n: u128 = self.count as u128;
        if self.positive >= self.negative {
            let sum: u128 = self.positive - self.negative;
            assert(sum / n <= 0x7fff_ffff_ffff_ffff) by (nonlinear_arith)
                requires
                    n > 0,
                    sum <= n * 0x7fff_ffff_ffff_ffff,
            ;
            (sum / n) as i64
        } else {
            let sum: u128 = self.negative - self.positive;
            assert(sum / n <= 0x8000_0000_0000_0000) by (nonlinear_arith)
                requires
                    n > 0,
                    sum <= n * 0x8000_0000_0000_0000,
            ;
            let q: u128 = sum / n;
            if q == 0x8000_0000_0000_0000 {
                i64::MIN
            } else {
                -(q as i64)
            }
        }
    }
}

/// Averages the readings of one group of channels, in thousandths of a
/// degree: the mean of the die readings where one succeeded, else the mean
/// of all readings that succeeded, else 0.
pub fn average_sensors(readings: &Vec<ChannelReading>) -> (t: i64)
    ensures
        t == temperature_of(readings@),
{
    let mut die = Tally { positive: 0, negative: 0, count: 0 };
    let mut all = Tally { positive: 0, negative: 0, count: 0 };
    let mut i: usize = 0;
    assert(readings@.take(0) =~= Seq::<ChannelReading>::empty());
    while i < readings.len()
        invariant
            i <= readings.len(),
            die.matches(readings@.take(i as int), true),
            all.matches(readings@.take(i as int), false),
            die.count <= i,
            all.count <= i,
        decreases readings.len() - i,
    {
        proof {
            let next = readings@.take(i + 1);
            assert(next.drop_last() =~= readings@.take(i as int));
            assert(next.last() == readings@[i as int]);
        }
        let reading = readings[i];
        match reading.value {
            Some(value) => {
                all.add(value);
                match reading.role {
                    Role::Die => {
                        die.add(value);
                    },
                    _ => {},
                }
            },
            None => {},
        }
        i += 1;
    }
    assert(readings@.take(i as int) =~= readings@);
    if die.count > 0 {
        die.mean()
    } else {
        all.mean()
    }
}

/// What the temperature channels gave in one scrape.
#[derive(Debug)]
pub struct TemperatureReadings {
    /// The readings of the processor's channels.
    pub cpu: Vec<ChannelReading>,
    /// The readings of the graphics card's channels.
    pub gpu: Vec<ChannelReading>,
    /// The temperature that the vendor's driver reports for the graphics
    /// card, in whole degrees.
    pub vendor_gpu: Option<u32>,
}

/// The temperatures that the readings of one scrape amount to. The vendor's
/// figure for the graphics card, where there is one, goes before the
/// channels.
pub open spec fn temperatures_of(raw: TemperatureReadings) -> (int, int) {
    (
        temperature_of(raw.cpu@),
        match raw.vendor_gpu {
            Some(degrees) => degrees * 1000,
            None => temperature_of(raw.gpu@),
        },
    )
}

/// An input file to read for a temperature, and what it measures.
#[derive(Debug)]
pub struct Probe {
    pub role: Role,
    pub input_path: String,
}

/// The temperature channels of the machine.
#[derive(Debug)]
pub struct TemperatureSource {
    cpu_sensors: Vec<Probe>,
    gpu_sensors: Vec<Probe>,
}

impl TemperatureSource {
    /// The roles and input files of the processor's channels, in the order
    /// in which they were found.
    pub closed spec fn cpu_probes(&self) -> Seq<(Role, Seq<char>)> {
        self.cpu_sensors@.map_values(|p: Probe| (p.role, p.input_path@))
    }

    /// The roles and input files of the graphics card's channels, in the
    /// order in which they were found.
    pub closed spec fn gpu_probes(&self) -> Seq<(Role, Seq<char>)> {
        self.gpu_sensors@.map_values(|p: Probe| (p.role, p.input_path@))
    }

    /// A source without channels.
    pub fn new() -> (s: Self)
        ensures
            s.cpu_probes() == Seq::<(Role, Seq<char>)>::empty(),
            s.gpu_probes() == Seq::<(Role, Seq<char>)>::empty(),
    {
        let s = TemperatureSource { cpu_sensors: Vec::new(), gpu_sensors: Vec::new() };
        assert(s.cpu_probes() =~= Seq::empty());
        assert(s.gpu_probes() =~= Seq::empty());
        s
    }

    /// Takes the channel `sensor` of `device` in where it has a role, and
    /// says whether it did.
    pub fn add(&mut self, device: &Device, sensor: &Sensor) -> (taken: bool)
        ensures
            match channel_role(device_class(device.name_text()), sensor.name_text()) {
                Some(Role::Edge) => {
                    &&& taken
                    &&& final(self).cpu_probes() == old(self).cpu_probes()
                    &&& final(self).gpu_probes() == old(self).gpu_probes().push(
                        (Role::Edge, sensor.path_text()),
                    )
                },
                Some(role) => {
                    &&& taken
                    &&& final(self).cpu_probes() == old(self).cpu_probes().push(
                        (role, sensor.path_text()),
                    )
                    &&& final(self).gpu_probes() == old(self).gpu_probes()
                },
                None => {
                    &&& !taken
                    &&& final(self).cpu_probes() == old(self).cpu_probes()
                    &&& final(self).gpu_probes() == old(self).gpu_probes()
                },
            },
    {
        let class = classify_device(device.name());
        match classify_channel(class, sensor.name()) {
            Some(Role::Edge) => {
                let probe = Probe { role: Role::Edge, input_path: sensor.input_path().to_owned() };
                self.gpu_sensors.push(probe);
                assert(self.gpu_probes() =~= old(self).gpu_probes().push(
                    (Role::Edge, sensor.path_text()),
                ));
                true
            },
            Some(role) => {
                let probe = Probe { role, input_path: sensor.input_path().to_owned() };
                self.cpu_sensors.push(probe);
                assert(self.cpu_probes() =~= old(self).cpu_probes().push(
                    (role, sensor.path_text()),
                ));
                true
            },
            None => false,
        }
    }

    /// The processor's channels.
    pub fn cpu_sensors(&self) -> (probes: &Vec<Probe>)
        ensures
            probes@.map_values(|p: Probe| (p.role, p.input_path@)) == self.cpu_probes(),
    {
        &self.cpu_sensors
    }

    /// The graphics card's channels.
    pub fn gpu_sensors(&self) -> (probes: &Vec<Probe>)
        ensures
            probes@.map_values(|p: Probe| (p.role, p.input_path@)) == self.gpu_probes(),
    {
        &self.gpu_sensors
    }
}

impl SensorSource for TemperatureSource {
    type Data = Temperatures;

    type Raw = TemperatureReadings;

    fn read(&mut self, raw: &TemperatureReadings) -> (r: Result<Temperatures, Error>)
        ensures
            final(self).cpu_probes() == old(self).cpu_probes(),
            final(self).gpu_probes() == old(self).gpu_probes(),
            r is Ok,
            (r->Ok_0.cpu as int, r->Ok_0.gpu as int) == temperatures_of(*raw),
    {
        let cpu = average_sensors(&raw.cpu);
        let gpu = match raw.vendor_gpu {
            Some(degrees) => (degrees as i64) * 1000,
            None => average_sensors(&raw.gpu),
        };
        Ok(Temperatures { cpu, gpu })
    }
}

} // verus!
