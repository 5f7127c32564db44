//! Power and energy: the integrator that turns power samples into energy,
//! the processor's energy counters with their stop-on-denial rule, and the
//! readings that both are rendered from.

use crate::data::{write_package_power, write_total_power, CpuPowerUsage, GpuPowerUsage};
use crate::data::{package_power_samples, total_power_sample};
use crate::{Error, SensorSource};
use vstd::prelude::*;

verus! {

/// What an integrator knows between two ticks.
#[derive(Debug, Clone, Copy)]
pub struct IntegratorState {
    /// The time of the last tick in milliseconds; `None` before the first tick.
    pub last_tick: Option<u64>,
    /// The energy summed up so far, in microjoules.
    pub energy_uj: u64,
    /// Whether a failed reading has stopped the integrator for good.
    pub stopped: bool,
}

/// The energy in microjoules that `power_uw` microwatts deliver in `elapsed_ms` milliseconds.
pub open spec fn energy_delta(power_uw: u64, elapsed_ms: u64) -> nat {
    (power_uw * elapsed_ms / 1000) as nat
}

/// The milliseconds from `last` to `now`; 0 where the clock did not advance.
pub open spec fn elapsed_between(last: u64, now: u64) -> u64 {
    if now >= last {
        (now - last) as u64
    } else {
        0
    }
}

/// A counter plus an increment, which stops at the largest 64-bit value.
pub open spec fn capped_sum(counter: u64, increment: nat) -> u64 {
    if counter + increment > u64::MAX {
        u64::MAX
    } else {
        (counter + increment) as u64
    }
}

impl IntegratorState {
    /// The state before the first tick.
    pub open spec fn initial() -> IntegratorState {
        IntegratorState { last_tick: None, energy_uj: 0, stopped: false }
    }

    /// Whether the next tick needs a power reading: the integrator has a
    /// previous tick to measure from and has not stopped.
    pub open spec fn due(self) -> bool {
        !self.stopped && self.last_tick is Some
    }

    /// The state after a tick at `now` with the power `reading`. A stopped
    /// integrator stays as it is. The first tick only notes the time. Every
    /// later tick adds the energy of the elapsed time, or stops the
    /// integrator where the reading failed.
    pub open spec fn step(self, now: u64, reading: Option<u64>) -> IntegratorState {
        if self.stopped {
            self
        } else {
            match self.last_tick {
                None => IntegratorState { last_tick: Some(now), ..self },
                Some(last) => match reading {
                    None => IntegratorState { last_tick: Some(now), stopped: true, ..self },
                    Some(power) => IntegratorState {
                        last_tick: Some(now),
                        energy_uj: capped_sum(
                            self.energy_uj,
                            energy_delta(power, elapsed_between(last, now)),
                        ),
                        ..self
                    },
                },
            }
        }
    }

    /// The state after a run of ticks, each with its time and reading.
    pub open spec fn run(self, ticks: Seq<(u64, Option<u64>)>) -> IntegratorState
        decreases ticks.len(),
    {
        if ticks.len() == 0 {
            self
        } else {
            self.run(ticks.drop_last()).step(ticks.last().0, ticks.last().1)
        }
    }
}

/// A tick never lowers the energy, and changes nothing once the integrator
/// has stopped.
pub proof fn lemma_step_monotone(s: IntegratorState, now: u64, reading: Option<u64>)
    ensures
        s.step(now, reading).energy_uj >= s.energy_uj,
        s.stopped ==> s.step(now, reading) == s,
        s.step(now, reading).stopped == (s.stopped || (s.last_tick is Some && reading is None)),
{
}

/// Over any run of ticks the energy never decreases, and it stays constant
/// from the moment the integrator stops.
pub proof fn lemma_energy_never_decreases(s: IntegratorState, ticks: Seq<(u64, Option<u64>)>)
    ensures
        s.run(ticks).energy_uj >= s.energy_uj,
        s.stopped ==> s.run(ticks) == s,
    decreases ticks.len(),
{
    if ticks.len() > 0 {
        lemma_energy_never_decreases(s, ticks.drop_last());
        lemma_step_monotone(s.run(ticks.drop_last()), ticks.last().0, ticks.last().1);
    }
}

/// A longer run never shows less energy than a run it extends: what one
/// request reads from the counter, no later request reads less.
pub proof fn lemma_energy_grows_with_run(
    s: IntegratorState,
    earlier: Seq<(u64, Option<u64>)>,
    later: Seq<(u64, Option<u64>)>,
)
    ensures
        s.run(earlier + later).energy_uj >= s.run(earlier).energy_uj,
        s.run(earlier).stopped ==> s.run(earlier + later) == s.run(earlier),
    decreases later.len(),
{
    if later.len() == 0 {
        assert(earlier + later =~= earlier);
    } else {
        let all = earlier + later;
        assert(all.drop_last() =~= earlier + later.drop_last());
        assert(all.last() == later.last());
        lemma_energy_grows_with_run(s, earlier, later.drop_last());
        lemma_step_monotone(s.run(all.drop_last()), later.last().0, later.last().1);
    }
}

/// No energy without time: a second tick at the very time of the first adds
/// nothing, whatever the two readings are.
pub proof fn lemma_no_time_no_energy(
    s: IntegratorState,
    now: u64,
    first: Option<u64>,
    second: Option<u64>,
)
    ensures
        s.step(now, first).step(now, second).energy_uj == s.step(now, first).energy_uj,
{
    let mid = s.step(now, first);
    if !mid.stopped {
        assert(mid.last_tick == Some(now));
        if let Some(power) = second {
            assert(elapsed_between(now, now) == 0);
            assert(power * 0 == 0) by (nonlinear_arith);
            assert(energy_delta(power, 0) == 0);
        }
    }
}

/// Computes [`capped_sum`] of a counter and [`energy_delta`].
pub fn add_energy(counter: u64, power_uw: u64, elapsed_ms: u64) -> (sum: u64)
    ensures
        sum == capped_sum(counter, energy_delta(power_uw, elapsed_ms)),
        sum >= counter,
        elapsed_ms == 0 ==> sum == counter,
{
    assert(power_uw * elapsed_ms <= 0xffff_ffff_ffff_ffff * 0xffff_ffff_ffff_ffff)
        by (nonlinear_arith)
        requires
            power_uw <= 0xffff_ffff_ffff_ffff,
            elapsed_ms <= 0xffff_ffff_ffff_ffff,
    ;
    assert(elapsed_ms == 0 ==> power_uw * elapsed_ms == 0) by (nonlinear_arith);
    let delta: u128 = (power_uw as u128) * (elapsed_ms as u128) / 1000;
    let sum: u128 = counter as u128 + delta;
    if sum > 0xffff_ffff_ffff_ffff {
        0xffff_ffff_ffff_ffff
    } else {
        sum as u64
    }
}

/// Sums up energy from power samples, one tick at a time.
#[derive(Debug, Clone, Copy)]
pub struct Integrator {
    state: IntegratorState,
}

impl View for Integrator {
    type V = IntegratorState;

    closed spec fn view(&self) -> IntegratorState {
        self.state
    }
}

impl Integrator {
    /// An integrator before its first tick.
    pub fn new() -> (i: Self)
        ensures
            i@ == IntegratorState::initial(),
    {
        Integrator { state: IntegratorState { last_tick: None, energy_uj: 0, stopped: false } }
    }

    /// Whether the next tick needs a power reading.
    pub fn due(&self) -> (b: bool)
        ensures
            b == self@.due(),
    {
        !self.state.stopped && self.state.last_tick.is_some()
    }

    /// Whether a failed reading has stopped the integrator.
    pub fn stopped(&self) -> (b: bool)
        ensures
            b == self@.stopped,
    {
        self.state.stopped
    }

    /// The energy summed up so far, in microjoules.
    pub fn energy(&self) -> (uj: u64)
        ensures
            uj == self@.energy_uj,
    {
        self.state.energy_uj
    }

    /// Notes the time `now` and hands out the time since the previous tick;
    /// `None` at the first tick.
    pub fn elapsed(&mut self, now: u64) -> (elapsed_ms: Option<u64>)
        ensures
            final(self)@ == (IntegratorState { last_tick: Some(now), ..old(self)@ }),
            elapsed_ms == match old(self)@.last_tick {
                Some(last) => Some(elapsed_between(last, now)),
                None => None,
            },
    {
        let elapsed_ms = match self.state.last_tick {
            Some(last) => Some(
                if now >= last {
                    now - last
                } else {
                    0
                },
            ),
            None => None,
        };
        self.state.last_tick = Some(now);
        elapsed_ms
    }

    /// One tick at `now` with the power `reading` in microwatts, which is
    /// looked at only where a reading is due.
    pub fn advance(&mut self, now: u64, reading: Option<u64>)
        ensures
            final(self)@ == old(self)@.step(now, reading),
            final(self)@.energy_uj >= old(self)@.energy_uj,
    {
        if self.state.stopped {
            return ;
        }
        match self.elapsed(now) {
            None => {},
            Some(elapsed_ms) => match reading {
                None => {
                    self.state.stopped = true;
                },
                Some(power) => {
                    self.state.energy_uj = add_energy(self.state.energy_uj, power, elapsed_ms);
                },
            },
        }
    }
}

/// The energy of the graphics card as a reading.
pub fn gpu_power(integrator: &Integrator) -> (usage: GpuPowerUsage)
    ensures
        usage.gpu_uj == integrator@.energy_uj,
{
    GpuPowerUsage { gpu_uj: integrator.energy() }
}

/// The energy of the processor as a reading, without packages.
pub fn cpu_power(integrator: &Integrator) -> (usage: CpuPowerUsage)
    ensures
        usage.cpu_uj == integrator@.energy_uj,
        usage.cpu_packages_uj@ == Seq::<u64>::empty(),
{
    CpuPowerUsage { cpu_uj: integrator.energy(), cpu_packages_uj: Vec::new() }
}

/// The energy counter of the graphics card: that of the vendor's driver
/// where it has one, else the integrated one.
pub open spec fn gpu_energy(vendor_uj: Option<u64>, integrated_uj: u64) -> u64 {
    match vendor_uj {
        Some(uj) => uj,
        None => integrated_uj,
    }
}

/// The graphics card's energy as a source of readings.
#[derive(Debug, Default)]
pub struct GpuPowerSource {}

impl GpuPowerSource {
    /// A source for the graphics card's energy.
    pub fn new() -> Self {
        GpuPowerSource {  }
    }
}

impl SensorSource for GpuPowerSource {
    type Data = GpuPowerUsage;

    /// The vendor's energy counter, if any, and the integrated one.
    type Raw = (Option<u64>, u64);

    fn read(&mut self, raw: &(Option<u64>, u64)) -> (r: Result<GpuPowerUsage, Error>)
        ensures
            r matches Ok(usage) && usage.gpu_uj == gpu_energy(raw.0, raw.1),
    {
        let gpu_uj = match raw.0 {
            Some(uj) => uj,
            None => raw.1,
        };
        Ok(GpuPowerUsage { gpu_uj })
    }
}

/// How reading the energy counter of one processor package ended.
#[derive(Debug, Clone, Copy)]
pub enum PackageRead {
    /// The counter, in microjoules.
    Value(u64),
    /// The operating system denied access.
    Denied,
    /// The read failed in another way.
    Failed,
}

/// What one look at the processor's energy counters found.
#[derive(Debug)]
pub enum PowerProbe {
    /// The counters could not be listed.
    Missing,
    /// One outcome per package, in the order of the packages.
    Packages(Vec<PackageRead>),
}

/// Whether one of the reads was denied.
pub open spec fn any_denied(reads: Seq<PackageRead>) -> bool {
    exists|i: int| 0 <= i < reads.len() && #[trigger] reads[i] is Denied
}

/// Whether every read gave a value.
pub open spec fn all_values(reads: Seq<PackageRead>) -> bool {
    forall|i: int| 0 <= i < reads.len() ==> #[trigger] reads[i] is Value
}

/// The values of the reads, in order.
pub open spec fn package_values(reads: Seq<PackageRead>) -> Seq<u64> {
    reads.map_values(
        |r: PackageRead|
            match r {
                PackageRead::Value(uj) => uj,
                _ => 0,
            },
    )
}

/// The sum of the counters, which stops at the largest 64-bit value.
pub open spec fn capped_total(values: Seq<u64>) -> u64
    decreases values.len(),
{
    if values.len() == 0 {
        0
    } else {
        capped_sum(capped_total(values.drop_last()), values.last() as nat)
    }
}

/// What a source knows between two scrapes.
#[derive(Debug, Clone, Copy)]
pub struct PowerSourceState {
    /// Whether the source has given up for good.
    pub disabled: bool,
    /// Whether the counters were looked at before.
    pub probed: bool,
}

/// Whether a probe disables the source: the counters are missing or denied
/// at the very first look.
pub open spec fn disables(state: PowerSourceState, probe: PowerProbe) -> bool {
    !state.probed && match probe {
        PowerProbe::Missing => true,
        PowerProbe::Packages(reads) => any_denied(reads@),
    }
}

/// The state after a probe.
pub open spec fn after_probe(state: PowerSourceState, probe: PowerProbe) -> PowerSourceState {
    if state.disabled {
        state
    } else {
        PowerSourceState { disabled: disables(state, probe), probed: true }
    }
}

/// What a probe yields: nothing from a disabled source or from the probe
/// that disables it; a failure where the counters cannot be listed or read;
/// else the counters with their total.
pub open spec fn probe_result(state: PowerSourceState, probe: PowerProbe) -> Result<
    Option<(u64, Seq<u64>)>,
    Error,
> {
    if state.disabled || disables(state, probe) {
        Ok(None)
    } else {
        match probe {
            PowerProbe::Missing => Err(Error::Io("error listing power devices")),
            PowerProbe::Packages(reads) => if all_values(reads@) {
                Ok(Some((capped_total(package_values(reads@)), package_values(reads@))))
            } else {
                Err(Error::Io("error reading power source"))
            },
        }
    }
}

/// A reading or a failure as a plain value.
pub open spec fn cpu_power_view(r: Result<Option<CpuPowerUsage>, Error>) -> Result<
    Option<(u64, Seq<u64>)>,
    Error,
> {
    match r {
        Ok(Some(usage)) => Ok(Some((usage.cpu_uj, usage.cpu_packages_uj@))),
        Ok(None) => Ok(None),
        Err(e) => Err(e),
    }
}

/// The processor's energy counters as a source of readings.
#[derive(Debug, Default)]
pub struct CpuPowerSource {
    disabled: bool,
    probed: bool,
}

impl View for CpuPowerSource {
    type V = PowerSourceState;

    closed spec fn view(&self) -> PowerSourceState {
        PowerSourceState { disabled: self.disabled, probed: self.probed }
    }
}

impl CpuPowerSource {
    /// A source that has not looked at the counters yet.
    pub fn new() -> (s: Self)
        ensures
            s@ == (PowerSourceState { disabled: false, probed: false }),
    {
        CpuPowerSource { disabled: false, probed: false }
    }

    /// Whether the counters are to be looked at for the next scrape. A
    /// disabled source asks for nothing.
    pub fn wants_probe(&self) -> (b: bool)
        ensures
            b == !self@.disabled,
    {
        !self.disabled
    }

    /// Takes what a look at the counters found.
    pub fn accept(&mut self, probe: &PowerProbe) -> (r: Result<Option<CpuPowerUsage>, Error>)
        ensures
            final(self)@ == after_probe(old(self)@, *probe),
            cpu_power_view(r) == probe_result(old(self)@, *probe),
    {
        if self.disabled {
            return Ok(None);
        }
        let first = !self.probed;
        self.probed = true;
        match probe {
            PowerProbe::Missing => {
                if first {
                    self.disabled = true;
                    Ok(None)
                } else {
                    Err(Error::Io("error listing power devices"))
                }
            },
            PowerProbe::Packages(reads) => {
                let mut usage = CpuPowerUsage { cpu_uj: 0, cpu_packages_uj: Vec::new() };
                let mut denied = false;
                let mut failed = false;
                let mut i: usize = 0;
                assert(reads@.take(0) =~= Seq::<PackageRead>::empty());
                assert(package_values(reads@.take(0)) =~= Seq::<u64>::empty());
                while i < reads.len()
                    invariant
                        i <= reads.len(),
                        denied == any_denied(reads@.take(i as int)),
                        failed == !all_values(reads@.take(i as int)),
                        usage.cpu_packages_uj@ == package_values(reads@.take(i as int)),
                        usage.cpu_uj == capped_total(package_values(reads@.take(i as int))),
                    decreases reads.len() - i,
                {
                    let ghost before = reads@.take(i as int);
                    let ghost next = reads@.take(i + 1);
                    proof {
                        assert(next.drop_last() =~= before);
                        assert(next.last() == reads@[i as int]);
                        assert(package_values(next).drop_last() =~= package_values(before));
                        assert(forall|k: int| 0 <= k < before.len() ==> before[k] == next[k]);
                        if any_denied(before) {
                            let k = choose|k: int|
                                0 <= k < before.len() && #[trigger] before[k] is Denied;
                            assert(next[k] is Denied);
                        }
                        if !all_values(before) {
                            let k = choose|k: int|
                                0 <= k < before.len() && !(#[trigger] before[k] is Value);
                            assert(!(next[k] is Value));
                        }
                    }
                    let value: u64 = match reads[i] {
                        PackageRead::Value(uj) => uj,
                        PackageRead::Denied => {
                            denied = true;
                            failed = true;
                            0
                        },
                        PackageRead::Failed => {
                            failed = true;
                            0
                        },
                    };
                    usage.cpu_uj = usage.cpu_uj.saturating_add(value);
                    usage.cpu_packages_uj.push(value);
                    proof {
                        assert(next[i as int] == reads@[i as int]);
                        assert(usage.cpu_packages_uj@ =~= package_values(next));
                        if any_denied(next) && !denied {
                            let k = choose|k: int|
                                0 <= k < next.len() && #[trigger] next[k] is Denied;
                            if k < i {
                                assert(before[k] is Denied);
                            }
                        }
                        if !failed {
                            assert forall|k: int| 0 <= k < next.len() implies #[trigger] next[k] is Value by {
                                if k < i {
                                    assert(before[k] is Value);
                                }
                            }
                        }
                    }
                    i += 1;
                }
                assert(reads@.take(i as int) =~= reads@);
                if first && denied {
                    self.disabled = true;
                    Ok(None)
                } else if failed {
                    Err(Error::Io("error reading power source"))
                } else {
                    Ok(Some(usage))
                }
            },
        }
    }
}

/// A source that was denied at its first look asks for no further look and
/// yields nothing, whatever it is given afterwards.
pub proof fn lemma_denied_source_stays_silent(first: PowerProbe, later: PowerProbe)
    requires
        disables(PowerSourceState { disabled: false, probed: false }, first),
    ensures
        after_probe(PowerSourceState { disabled: false, probed: false }, first).disabled,
        after_probe(
            after_probe(PowerSourceState { disabled: false, probed: false }, first),
            later,
        ).disabled,
        probe_result(
            after_probe(PowerSourceState { disabled: false, probed: false }, first),
            later,
        ) == Ok::<Option<(u64, Seq<u64>)>, Error>(None),
{
}

/// A disabled source stays disabled and yields nothing.
pub proof fn lemma_disabled_source_stays_disabled(state: PowerSourceState, probe: PowerProbe)
    requires
        state.disabled,
    ensures
        after_probe(state, probe) == state,
        probe_result(state, probe) == Ok::<Option<(u64, Seq<u64>)>, Error>(None),
{
}

impl SensorSource for CpuPowerSource {
    type Data = Option<CpuPowerUsage>;

    type Raw = PowerProbe;

    fn read(&mut self, raw: &PowerProbe) -> (r: Result<Option<CpuPowerUsage>, Error>)
        ensures
            final(self)@ == after_probe(old(self)@, *raw),
            cpu_power_view(r) == probe_result(old(self)@, *raw),
    {
        self.accept(raw)
    }
}

/// Energy used by the processor and by the graphics card, in microjoules.
#[derive(Debug, Default)]
pub struct PowerUsage {
    pub cpu_uj: u64,
    pub cpu_packages_uj: Vec<u64>,
    pub gpu_uj: u64,
}

impl PowerUsage {
    /// The samples of this reading: the processor's total, its packages, and
    /// the graphics card's total unless that is 0.
    pub open spec fn rendered(&self, hostname: Seq<char>) -> Seq<char> {
        total_power_sample(hostname, "cpu"@, self.cpu_uj as nat) + package_power_samples(
            hostname,
            self.cpu_packages_uj@,
        ) + if self.gpu_uj > 0 {
            total_power_sample(hostname, "gpu"@, self.gpu_uj as nat)
        } else {
            Seq::empty()
        }
    }

    /// Appends the samples of this reading to `w`.
    pub fn write(&self, w: &mut String, hostname: &str)
        ensures
            final(w)@ == old(w)@ + self.rendered(hostname@),
    {
        write_total_power(w, hostname, "cpu", self.cpu_uj);
        write_package_power(w, hostname, &self.cpu_packages_uj);
        if self.gpu_uj > 0 {
            write_total_power(w, hostname, "gpu", self.gpu_uj);
        }
        assert(w@ =~= old(w)@ + self.rendered(hostname@));
    }
}

/// One look at the power of the machine: the processor's counters through
/// `source`, and the vendor's energy counter of the graphics card, if any.
pub fn power_usage(source: &mut CpuPowerSource, probe: &PowerProbe, vendor_uj: Option<u64>) -> (r:
    Result<Option<PowerUsage>, Error>)
    ensures
        final(source)@ == after_probe(old(source)@, *probe),
        match probe_result(old(source)@, *probe) {
            Ok(Some((total, packages))) => r matches Ok(Some(usage)) && usage.cpu_uj == total
                && usage.cpu_packages_uj@ == packages && usage.gpu_uj == gpu_energy(vendor_uj, 0),
            Ok(None) => r matches Ok(None),
            Err(e) => r matches Err(f) && f == e,
        },
{
    match source.accept(probe) {
        Ok(Some(cpu)) => {
            let gpu_uj = match vendor_uj {
                Some(uj) => uj,
                None => 0,
            };
            Ok(
                Some(
                    PowerUsage {
                        cpu_uj: cpu.cpu_uj,
                        cpu_packages_uj: cpu.cpu_packages_uj,
                        gpu_uj,
                    },
                ),
            )
        },
        Ok(None) => Ok(None),
        Err(e) => Err(e),
    }
}

} // verus!
