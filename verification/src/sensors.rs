//! Decoders for the kernel's memory, processor-time and network tables.

use crate::data::{CpuTime, Memory, NetStats};
use crate::number::{parse_u64, round_ratio, rounded_ratio, u64_of};
use crate::text::{
    chars_of, ends_with, fields, has_prefix, has_suffix, lines, next_line,
    split_fields, starts_with, string_of, strip_trailing, strip_trailing_len, trim,
    trim_bounds, trim_start, trim_start_index, LineCursor,
};
use crate::{Error, MultiSensorSource, SensorSource};
use vstd::prelude::*;
use vstd::slice::slice_subrange;

verus! {

/// The value text of a memory table line for `key`: what stands between the
/// key and the unit ` kB`, trimmed. `None` for a line of another shape.
pub open spec fn entry(line: Seq<char>, key: Seq<char>) -> Option<Seq<char>> {
    let body = line.subrange(0, line.len() - " kB"@.len());
    if has_suffix(line, " kB"@) && has_prefix(body, key) {
        Some(trim(body.subrange(key.len() as int, body.len() as int)))
    } else {
        None
    }
}

/// The bytes that a value text stands for: its kilobytes times 1000. `None`
/// where the text is no number or the bytes do not fit in 64 bits.
pub open spec fn bytes_of(value: Seq<char>) -> Option<u64> {
    match u64_of(value) {
        Some(kb) if kb * 1000 <= u64::MAX => Some((kb * 1000) as u64),
        _ => None,
    }
}

/// What a memory table line says for `key`: nothing (`None`), a count of
/// bytes, or a value that cannot be read (`Some(None)`).
pub open spec fn entry_bytes(line: Seq<char>, key: Seq<char>) -> Option<Option<u64>> {
    match entry(line, key) {
        Some(value) => Some(bytes_of(value)),
        None => None,
    }
}

/// Whether a line names one of the three keys with a value that cannot be read.
pub open spec fn bad_memory_line(line: Seq<char>) -> bool {
    ||| entry_bytes(line, "MemTotal: "@) == Some(None::<u64>)
    ||| entry_bytes(line, "MemFree: "@) == Some(None::<u64>)
    ||| entry_bytes(line, "MemAvailable: "@) == Some(None::<u64>)
}

/// The bytes that the last line for `key` gives; 0 when no line does.
pub open spec fn latest_bytes(table: Seq<Seq<char>>, key: Seq<char>) -> u64
    decreases table.len(),
{
    if table.len() == 0 {
        0
    } else {
        match entry_bytes(table.last(), key) {
            Some(Some(bytes)) => bytes,
            _ => latest_bytes(table.drop_last(), key),
        }
    }
}

/// What a memory table decodes to. Each of the three figures comes from the
/// last line of its key and is 0 without one; lines of other keys or without
/// the unit are passed over. One unreadable value fails the whole table, and
/// so do figures in which the free or the available memory exceeds the total.
pub open spec fn memory_of(table: Seq<Seq<char>>) -> Result<Memory, Error> {
    let mem = Memory {
        total: latest_bytes(table, "MemTotal: "@),
        free: latest_bytes(table, "MemFree: "@),
        available: latest_bytes(table, "MemAvailable: "@),
    };
    if (exists|i: int| 0 <= i < table.len() && bad_memory_line(#[trigger] table[i]))
        || !mem.consistent() {
        Err(Error::InvalidIntData)
    } else {
        Ok(mem)
    }
}

/// Every memory table that decodes gives a snapshot in which neither the
/// free nor the available memory exceeds the total.
pub proof fn lemma_memory_consistent(table: Seq<Seq<char>>)
    ensures
        memory_of(table) matches Ok(mem) ==> mem.consistent(),
{
}

/// Reads what `line` says for `key`.
fn read_entry(line: &[char], unit: &[char], key: &[char]) -> (r: Option<Option<u64>>)
    requires
        unit@ == " kB"@,
    ensures
        r == entry_bytes(line@, key@),
{
    if !ends_with(line, unit) {
        return None;
    }
    let body = slice_subrange(line, 0, line.len() - unit.len());
    if !starts_with(body, key) {
        return None;
    }
    let value = slice_subrange(body, key.len(), body.len());
    let (from, to) = trim_bounds(value);
    match parse_u64(slice_subrange(value, from, to)) {
        Some(kb) => Some(kb.checked_mul(1000)),
        None => Some(None),
    }
}

/// Decodes the memory table `text`.
pub fn memory(text: &str) -> (r: Result<Memory, Error>)
    ensures
        r == memory_of(lines(text@)),
        r matches Ok(mem) ==> mem.consistent(),
{
    let chars = chars_of(text);
    let unit = chars_of(" kB");
    let total_key = chars_of("MemTotal: ");
    let free_key = chars_of("MemFree: ");
    let available_key = chars_of("MemAvailable: ");
    let mut mem = Memory { total: 0, free: 0, available: 0 };
    let mut cursor = LineCursor::new(chars.as_slice());
    loop
        invariant
            cursor.wf(),
            cursor.source() == text@,
            unit@ == " kB"@,
            total_key@ == "MemTotal: "@,
            free_key@ == "MemFree: "@,
            available_key@ == "MemAvailable: "@,
            forall|i: int| 0 <= i < cursor.seen().len() ==> !bad_memory_line(#[trigger] cursor.seen()[i]),
            mem.total == latest_bytes(cursor.seen(), "MemTotal: "@),
            mem.free == latest_bytes(cursor.seen(), "MemFree: "@),
            mem.available == latest_bytes(cursor.seen(), "MemAvailable: "@),
        ensures
            cursor.seen() == lines(text@),
            forall|i: int| 0 <= i < cursor.seen().len() ==> !bad_memory_line(#[trigger] cursor.seen()[i]),
            mem.total == latest_bytes(cursor.seen(), "MemTotal: "@),
            mem.free == latest_bytes(cursor.seen(), "MemFree: "@),
            mem.available == latest_bytes(cursor.seen(), "MemAvailable: "@),
        decreases lines(text@).len() - cursor.seen().len(),
    {
        let ghost before = cursor.seen();
        let line = match cursor.next() {
            Some(line) => line,
            None => {
                break ;
            },
        };
        proof {
            assert(cursor.seen().drop_last() == before);
            assert(cursor.seen().last() == line@);
            cursor.lemma_prefix();
        }
        let total = read_entry(line, unit.as_slice(), total_key.as_slice());
        let free = read_entry(line, unit.as_slice(), free_key.as_slice());
        let available = read_entry(line, unit.as_slice(), available_key.as_slice());
        match total {
            Some(Some(bytes)) => {
                mem.total = bytes;
            },
            Some(None) => {
                assert(bad_memory_line(lines(text@)[cursor.seen().len() - 1]));
                return Err(Error::InvalidIntData);
            },
            None => {},
        }
        match free {
            Some(Some(bytes)) => {
                mem.free = bytes;
            },
            Some(None) => {
                assert(bad_memory_line(lines(text@)[cursor.seen().len() - 1]));
                return Err(Error::InvalidIntData);
            },
            None => {},
        }
        match available {
            Some(Some(bytes)) => {
                mem.available = bytes;
            },
            Some(None) => {
                assert(bad_memory_line(lines(text@)[cursor.seen().len() - 1]));
                return Err(Error::InvalidIntData);
            },
            None => {},
        }
        assert forall|i: int| 0 <= i < cursor.seen().len() implies !bad_memory_line(
            #[trigger] cursor.seen()[i],
        ) by {
            if i < before.len() {
                assert(cursor.seen()[i] == before[i]);
            }
        }
    }
    if mem.total >= mem.available && mem.total >= mem.free {
        Ok(mem)
    } else {
        Err(Error::InvalidIntData)
    }
}

/// The memory table as a source of readings.
#[derive(Debug, Default)]
pub struct MemorySource {}

impl MemorySource {
    /// A source for the memory table.
    pub fn new() -> Self {
        MemorySource {  }
    }
}

impl SensorSource for MemorySource {
    type Data = Memory;

    type Raw = String;

    fn read(&mut self, raw: &String) -> (r: Result<Memory, Error>)
        ensures
            r == memory_of(lines(raw@)),
            r matches Ok(mem) ==> mem.consistent(),
    {
        memory(raw.as_str())
    }
}

/// A system limit that the operating system reports.
#[derive(Debug, Clone, Copy)]
pub enum Limit {
    /// Clock ticks per second.
    ClockTicks,
    /// Processors that are online.
    Processors,
}

#[verifier::external_type_specification]
#[verifier::external_body]
pub struct ExSysconfError(sysconf::SysconfError);

/// `sysconf::sysconf` asks the operating system for a limit. It reports an
/// unsupported limit as an error, and never hands out -1 as a value.
#[verifier::external_body]
fn system_limit(which: Limit) -> (r: Result<isize, sysconf::SysconfError>)
    ensures
        r matches Ok(v) ==> v != -1,
{
    match which {
        Limit::ClockTicks => sysconf::sysconf(sysconf::SysconfVariable::ScClkTck),
        Limit::Processors => sysconf::sysconf(sysconf::SysconfVariable::ScNprocessorsOnln),
    }
}

/// Whether an error says that the operating system does not report a limit.
pub open spec fn is_unsupported(e: Error) -> bool {
    e matches Error::Other(m) && m@ == "Unsupported sysconf"@
}

/// The first line of `text`, without its terminator.
pub open spec fn first_line(text: Seq<char>) -> Seq<char> {
    if lines(text).len() > 0 {
        lines(text)[0]
    } else {
        Seq::empty()
    }
}

/// The busy time per core in thousandths of a second: `busy` ticks at
/// `clock_ticks` per second, shared among `cpu_count` cores.
pub open spec fn busy_thousandths(busy: nat, clock_ticks: nat, cpu_count: nat) -> nat {
    rounded_ratio(busy, clock_ticks * cpu_count, 3)
}

/// What the aggregate line of the processor table decodes to. The second
/// and the fourth field count the ticks spent in user and in system mode.
/// A line with fewer than four fields is invalid data; a count that is no
/// number, a clock rate or core count that is not positive, and a result
/// that does not fit in 64 bits are reported as an unreadable fraction.
pub open spec fn cpu_time_of(line: Seq<char>, clock_ticks: int, cpu_count: int) -> Result<
    CpuTime,
    Error,
> {
    let f = fields(line, false);
    if f.len() < 4 {
        Err(Error::Io("invalid proc data"))
    } else {
        match (u64_of(f[1]), u64_of(f[3])) {
            (Some(user), Some(system)) => {
                let value = busy_thousandths(
                    (user + system) as nat,
                    clock_ticks as nat,
                    cpu_count as nat,
                );
                if clock_ticks > 0 && cpu_count > 0 && value <= u64::MAX {
                    Ok(CpuTime(value as u64))
                } else {
                    Err(Error::InvalidFloatData)
                }
            },
            _ => Err(Error::InvalidFloatData),
        }
    }
}

/// Decodes the aggregate line of the processor table.
pub fn cpu_time(line: &[char], clock_ticks: i64, cpu_count: i64) -> (r: Result<CpuTime, Error>)
    ensures
        r == cpu_time_of(line@, clock_ticks as int, cpu_count as int),
{
    let parts = split_fields(line, false);
    if parts.len() < 4 {
        return Err(Error::Io("invalid proc data"));
    }
    let user = parse_u64(slice_subrange(line, parts[1].0, parts[1].1));
    let system = parse_u64(slice_subrange(line, parts[3].0, parts[3].1));
    match (user, system) {
        (Some(user), Some(system)) => {
            if clock_ticks <= 0 || cpu_count <= 0 {
                return Err(Error::InvalidFloatData);
            }
            let busy: u128 = user as u128 + system as u128;
            assert(clock_ticks * cpu_count <= 0x7fff_ffff_ffff_ffff * 0x7fff_ffff_ffff_ffff)
                by (nonlinear_arith)
                requires
                    0 < clock_ticks <= 0x7fff_ffff_ffff_ffff,
                    0 < cpu_count <= 0x7fff_ffff_ffff_ffff,
            ;
            assert(clock_ticks * cpu_count > 0) by (nonlinear_arith)
                requires
                    0 < clock_ticks,
                    0 < cpu_count,
            ;
            let rate: u128 = (clock_ticks as u128) * (cpu_count as u128);
            let value = round_ratio(busy, rate, 3);
            if value <= 0xffff_ffff_ffff_ffff {
                Ok(CpuTime(value as u64))
            } else {
                Err(Error::InvalidFloatData)
            }
        },
        _ => Err(Error::InvalidFloatData),
    }
}

/// The processor table as a source of readings.
#[derive(Debug)]
pub struct CpuTimeSource {
    cpu_count: i64,
}

impl CpuTimeSource {
    /// The number of cores that the source divides by.
    pub closed spec fn cores(&self) -> int {
        self.cpu_count as int
    }

    /// A source for a machine with `cpu_count` cores.
    pub fn with_cores(cpu_count: i64) -> (s: Self)
        ensures
            s.cores() == cpu_count,
    {
        CpuTimeSource { cpu_count }
    }

    /// A source for this machine, with as many cores as the operating system
    /// reports to be online, which is never -1; fails where the operating
    /// system does not report them.
    pub fn new() -> (r: Result<CpuTimeSource, Error>)
        ensures
            match r {
                Ok(source) => source.cores() != -1,
                Err(e) => is_unsupported(e),
            },
    {
        match system_limit(Limit::Processors) {
            Ok(count) => Ok(CpuTimeSource { cpu_count: count as i64 }),
            Err(_) => Err(Error::Other("Unsupported sysconf".to_owned())),
        }
    }

    /// Decodes the first line of the processor table for a clock that runs
    /// at `clock_ticks` per second.
    pub fn decode(&self, raw: &str, clock_ticks: i64) -> (r: Result<CpuTime, Error>)
        ensures
            r == cpu_time_of(first_line(raw@), clock_ticks as int, self.cores()),
    {
        let chars = chars_of(raw);
        if chars.len() == 0 {
            assert(lines(raw@).len() == 0);
            assert(fields(Seq::<char>::empty(), false).len() == 0);
            return cpu_time(slice_subrange(chars.as_slice(), 0, 0), clock_ticks, self.cpu_count);
        }
        let (stop, _next) = next_line(chars.as_slice(), 0);
        cpu_time(slice_subrange(chars.as_slice(), 0, stop), clock_ticks, self.cpu_count)
    }
}

impl SensorSource for CpuTimeSource {
    type Data = CpuTime;

    type Raw = String;

    /// Decodes the first line of the processor table, with the clock rate
    /// that the operating system reports. Where the operating system reports
    /// none, the read fails as unsupported; else the result is what
    /// [`cpu_time_of`] gives for the reported rate, which is never -1.
    fn read(&mut self, raw: &String) -> (r: Result<CpuTime, Error>)
        ensures
            final(self).cores() == old(self).cores(),
            (r matches Err(e) && is_unsupported(e)) || exists|clock_ticks: int|
                clock_ticks != -1 && r == #[trigger] cpu_time_of(
                    first_line(raw@),
                    clock_ticks,
                    old(self).cores(),
                ),
    {
        match system_limit(Limit::ClockTicks) {
            Ok(ticks) => {
                let r = self.decode(raw.as_str(), ticks as i64);
                r
            },
            Err(_) => Err(Error::Other("Unsupported sysconf".to_owned())),
        }
    }
}

/// Whether a line of the network table belongs to a wired or wireless
/// interface: after leading whitespace it starts with `en`, `eth` or `wlp`.
pub open spec fn is_network_line(line: Seq<char>) -> bool {
    let t = trim_start(line, true);
    has_prefix(t, "en"@) || has_prefix(t, "eth"@) || has_prefix(t, "wlp"@)
}

/// What one line of the network table decodes to: the interface name is the
/// first field without trailing colons, the bytes received the second field
/// and the bytes sent the tenth.
pub open spec fn net_row(line: Seq<char>) -> Result<(Seq<char>, u64, u64), Error> {
    let f = fields(trim_start(line, true), false);
    if f.len() < 10 {
        Err(Error::Io("error reading netdev"))
    } else {
        match (u64_of(f[9]), u64_of(f[1])) {
            (Some(sent), Some(received)) => Ok((strip_trailing(f[0], seq![':']), sent, received)),
            _ => Err(Error::InvalidIntData),
        }
    }
}

/// The rows of a network table: one for each line of a wired or wireless
/// interface, in order.
pub open spec fn net_rows(table: Seq<Seq<char>>) -> Seq<Result<(Seq<char>, u64, u64), Error>>
    decreases table.len(),
{
    if table.len() == 0 {
        Seq::empty()
    } else if is_network_line(table.last()) {
        net_rows(table.drop_last()).push(net_row(trim_start(table.last(), true)))
    } else {
        net_rows(table.drop_last())
    }
}

/// A decoded row as a plain value.
pub open spec fn net_view(r: Result<NetStats, Error>) -> Result<(Seq<char>, u64, u64), Error> {
    match r {
        Ok(stats) => Ok(stats@),
        Err(e) => Err(e),
    }
}

/// The network table as a source of readings.
#[derive(Debug, Default)]
pub struct NetworkSource {}

impl NetworkSource {
    /// A source for the network table.
    pub fn new() -> Self {
        NetworkSource {  }
    }

    /// Decodes one line of the network table.
    pub fn parse_line(line: &[char]) -> (r: Result<NetStats, Error>)
        ensures
            net_view(r) == net_row(line@),
    {
        let colon: [char; 1] = [':'];
        let start = trim_start_index(line, true);
        let t = slice_subrange(line, start, line.len());
        let parts = split_fields(t, false);
        if parts.len() < 10 {
            return Err(Error::Io("error reading netdev"));
        }
        let name = slice_subrange(t, parts[0].0, parts[0].1);
        let sent = parse_u64(slice_subrange(t, parts[9].0, parts[9].1));
        let received = parse_u64(slice_subrange(t, parts[1].0, parts[1].1));
        match (sent, received) {
            (Some(sent), Some(received)) => {
                assert(colon@ =~= seq![':']);
                let keep = strip_trailing_len(name, colon.as_slice());
                Ok(
                    NetStats {
                        interface: string_of(name, 0, keep),
                        bytes_sent: sent,
                        bytes_received: received,
                    },
                )
            },
            _ => Err(Error::InvalidIntData),
        }
    }
}

/// A walk over the rows of a network table.
pub struct NetworkStatParser<'a> {
    lines: LineCursor<'a>,
}

impl<'a> NetworkStatParser<'a> {
    /// The parser's cursor is sound.
    pub closed spec fn wf(&self) -> bool {
        self.lines.wf()
    }

    /// The text that is walked.
    pub closed spec fn source(&self) -> Seq<char> {
        self.lines.source()
    }

    /// The rows handed out so far.
    pub closed spec fn emitted(&self) -> Seq<Result<(Seq<char>, u64, u64), Error>> {
        net_rows(self.lines.seen())
    }

    /// The number of lines walked so far.
    pub closed spec fn progress(&self) -> nat {
        self.lines.seen().len()
    }

    /// A parser before the first line of `text`.
    pub fn new(text: &'a [char]) -> (p: Self)
        ensures
            p.wf(),
            p.source() == text@,
            p.emitted() == Seq::<Result<(Seq<char>, u64, u64), Error>>::empty(),
    {
        NetworkStatParser { lines: LineCursor::new(text) }
    }

    /// Hands out the next row, or `None` once the table is used up.
    pub fn next(&mut self) -> (r: Option<Result<NetStats, Error>>)
        requires
            old(self).wf(),
        ensures
            final(self).wf(),
            final(self).source() == old(self).source(),
            r is Some ==> old(self).progress() < final(self).progress() <= lines(
                final(self).source(),
            ).len(),
            match r {
                Some(row) => final(self).emitted() == old(self).emitted().push(net_view(row)),
                None => final(self).emitted() == old(self).emitted() && final(self).emitted()
                    == net_rows(lines(final(self).source())),
            },
    {
        let en = ['e', 'n'];
        let eth = ['e', 't', 'h'];
        let wlp = ['w', 'l', 'p'];
        proof {
            reveal_strlit("en");
            reveal_strlit("eth");
            reveal_strlit("wlp");
            assert(en@ =~= "en"@);
            assert(eth@ =~= "eth"@);
            assert(wlp@ =~= "wlp"@);
        }
        loop
            invariant
                self.lines.wf(),
                self.lines.source() == old(self).lines.source(),
                net_rows(self.lines.seen()) == net_rows(old(self).lines.seen()),
                old(self).lines.seen().len() <= self.lines.seen().len(),
                en@ == "en"@,
                eth@ == "eth"@,
                wlp@ == "wlp"@,
            decreases lines(self.lines.source()).len() - self.lines.seen().len(),
        {
            let ghost before = self.lines.seen();
            let line = match self.lines.next() {
                Some(line) => line,
                None => {
                    return None;
                },
            };
            proof {
                assert(self.lines.seen().drop_last() == before);
                assert(self.lines.seen().last() == line@);
                self.lines.lemma_prefix();
            }
            let start = trim_start_index(line, true);
            let t = slice_subrange(line, start, line.len());
            if starts_with(t, en.as_slice()) || starts_with(t, eth.as_slice()) || starts_with(
                t,
                wlp.as_slice(),
            ) {
                return Some(NetworkSource::parse_line(t));
            }
        }
    }
}

impl MultiSensorSource for NetworkSource {
    type Data = NetStats;

    type Raw = String;

    fn read(&mut self, raw: &String) -> (r: Result<Vec<Result<NetStats, Error>>, Error>)
        ensures
            r is Ok,
            r->Ok_0@.map_values(|row: Result<NetStats, Error>| net_view(row)) == net_rows(
                lines(raw@),
            ),
    {
        let chars = chars_of(raw.as_str());
        let mut parser = NetworkStatParser::new(chars.as_slice());
        let mut rows: Vec<Result<NetStats, Error>> = Vec::new();
        loop
            invariant
                parser.wf(),
                parser.source() == raw@,
                rows@.map_values(|row: Result<NetStats, Error>| net_view(row))
                    == parser.emitted(),
            ensures
                rows@.map_values(|row: Result<NetStats, Error>| net_view(row)) == net_rows(
                    lines(raw@),
                ),
            decreases lines(raw@).len() - parser.progress(),
        {
            let ghost before = rows@;
            match parser.next() {
                Some(row) => {
                    rows.push(row);
                    assert(rows@.map_values(|row: Result<NetStats, Error>| net_view(row))
                        =~= before.map_values(|row: Result<NetStats, Error>| net_view(row)).push(
                        net_view(row),
                    ));
                },
                None => {
                    break ;
                },
            }
        }
        Ok(rows)
    }
}

} // verus!
