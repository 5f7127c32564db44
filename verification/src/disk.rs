//! Block devices and mounted file systems: the rows of the disk activity
//! table, the mount points worth a statistics query, and the usage that the
//! statistics of one mount point amount to.

use crate::data::{DiskStats, DiskUsage};
use crate::number::{parse_u64, u64_of};
use crate::text::{
    chars_of, contains, fields, has_infix, has_prefix, lines, split_fields, starts_with,
    string_of, LineCursor,
};
use crate::{Error, MultiSensorSource};
use vstd::prelude::*;
use vstd::slice::slice_subrange;

verus! {

/// An expression of the `regex` crate, compiled from a pattern text with
/// the crate's own settings. [`Pattern::new`] is the only way to one, so
/// that the text alone decides what the expression matches.
#[verifier::external_body]
pub struct Pattern {
    re: regex::Regex,
}

/// The pattern text that an expression was compiled from.
pub uninterp spec fn pattern_text(p: Pattern) -> Seq<char>;

/// Whether `regex::Regex::new` accepts the pattern text `pattern`.
pub uninterp spec fn pattern_accepted(pattern: Seq<char>) -> bool;

/// Whether the expression that `regex::Regex::new` compiles from `pattern`
/// matches somewhere in `haystack`, as `regex::Regex::is_match` decides it.
pub uninterp spec fn pattern_found(pattern: Seq<char>, haystack: Seq<char>) -> bool;

/// `regex::Regex::new` compiles a pattern text, or refuses it; which of the
/// two depends on the text alone. The expression stands for its text.
#[verifier::external_body]
fn compile(pattern: &str) -> (r: Option<Pattern>)
    ensures
        r is Some <==> pattern_accepted(pattern@),
        r matches Some(p) ==> pattern_text(p) == pattern@,
{
    regex::Regex::new(pattern).ok().map(|re| Pattern { re })
}

/// `regex::Regex::is_match` is true exactly when the expression matches
/// somewhere in the haystack.
#[verifier::external_body]
fn is_match(p: &Pattern, haystack: &str) -> (found: bool)
    ensures
        found == pattern_found(pattern_text(*p), haystack@),
{
    p.re.is_match(haystack)
}

impl Pattern {
    /// Compiles the pattern text `pattern`; `None` where it is refused.
    pub fn new(pattern: &str) -> (r: Option<Pattern>)
        ensures
            r is Some <==> pattern_accepted(pattern@),
            r matches Some(p) ==> pattern_text(p) == pattern@,
    {
        compile(pattern)
    }

    /// Whether the expression matches somewhere in `line`.
    pub fn found_in(&self, line: &[char]) -> (found: bool)
        ensures
            found == pattern_found(pattern_text(*self), line@),
    {
        assert(line@.subrange(0, line@.len() as int) == line@);
        let owned = string_of(line, 0, line.len());
        is_match(self, owned.as_str())
    }
}

/// The pattern of the devices whose activity is reported: SCSI and virtual
/// disks, NVMe namespaces and eMMC cards, as a whole field between spaces.
pub open spec fn disk_pattern() -> Seq<char> {
    " ([sv]d[a-z]+|nvme[0-9]n[0-9]|mmcblk[0-9]) "@
}

/// What a line of the disk activity table decodes to: the device name is
/// the third field, the sectors read the sixth and the sectors written the
/// tenth; a sector has 512 bytes. `None` where a field is missing or no
/// number, or a byte count does not fit in 64 bits.
pub open spec fn disk_row(line: Seq<char>) -> Option<(Seq<char>, u64, u64)> {
    let f = fields(line, true);
    if f.len() < 10 {
        None
    } else {
        match (u64_of(f[5]), u64_of(f[9])) {
            (Some(read), Some(written)) if read * 512 <= u64::MAX && written * 512 <= u64::MAX => {
                Some((f[2], (written * 512) as u64, (read * 512) as u64))
            },
            _ => None,
        }
    }
}

/// What becomes of one line of the disk activity table.
pub enum DiskLine {
    /// The line names no reported device and is passed over.
    Skip,
    /// The line names a reported device but cannot be decoded: it is dropped.
    Unreadable,
    /// The line decodes to a row.
    Row(DiskStats),
}

/// A line's fate as a plain value.
pub open spec fn disk_line_view(l: DiskLine) -> Option<Option<(Seq<char>, u64, u64)>> {
    match l {
        DiskLine::Skip => None,
        DiskLine::Unreadable => Some(None),
        DiskLine::Row(stats) => Some(Some(stats@)),
    }
}

/// The fate of a line, given whether the device pattern matched it.
pub open spec fn disk_line_of(line: Seq<char>, matched: bool) -> Option<
    Option<(Seq<char>, u64, u64)>,
> {
    if matched {
        Some(disk_row(line))
    } else {
        None
    }
}

/// Decides the fate of a line, given whether the device pattern matched it.
pub fn select_disk_line(line: &[char], matched: bool) -> (r: DiskLine)
    ensures
        disk_line_view(r) == disk_line_of(line@, matched),
{
    if !matched {
        return DiskLine::Skip;
    }
    let parts = split_fields(line, true);
    if parts.len() < 10 {
        return DiskLine::Unreadable;
    }
    let read = parse_u64(slice_subrange(line, parts[5].0, parts[5].1));
    let written = parse_u64(slice_subrange(line, parts[9].0, parts[9].1));
    match (read, written) {
        (Some(read), Some(written)) => {
            match (read.checked_mul(512), written.checked_mul(512)) {
                (Some(received), Some(sent)) => DiskLine::Row(
                    DiskStats {
                        interface: string_of(line, parts[2].0, parts[2].1),
                        bytes_sent: sent,
                        bytes_received: received,
                    },
                ),
                _ => DiskLine::Unreadable,
            }
        },
        _ => DiskLine::Unreadable,
    }
}

/// The rows of a disk activity table under a device pattern: one for each
/// line that the pattern matches and that can be decoded, in order. A line
/// that cannot be decoded loses its own row only.
pub open spec fn disk_rows(table: Seq<Seq<char>>, pattern: Seq<char>) -> Seq<
    (Seq<char>, u64, u64),
>
    decreases table.len(),
{
    if table.len() == 0 {
        Seq::empty()
    } else {
        match disk_line_of(table[0], pattern_found(pattern, table[0])) {
            None => disk_rows(table.drop_first(), pattern),
            Some(None) => disk_rows(table.drop_first(), pattern),
            Some(Some(row)) => seq![row] + disk_rows(table.drop_first(), pattern),
        }
    }
}

/// The plain values of a list of rows.
pub open spec fn disk_views(rows: Seq<DiskStats>) -> Seq<(Seq<char>, u64, u64)> {
    rows.map_values(|stats: DiskStats| stats@)
}

/// The plain values of a list of rows that all succeeded.
pub open spec fn disk_result_views(rows: Seq<Result<DiskStats, Error>>) -> Seq<
    Result<(Seq<char>, u64, u64), Error>,
> {
    rows.map_values(
        |row: Result<DiskStats, Error>|
            match row {
                Ok(stats) => Ok(stats@),
                Err(e) => Err(e),
            },
    )
}

/// A walk over the rows of a disk activity table.
pub struct DiskStatParser<'a> {
    lines: LineCursor<'a>,
    regex: &'a Pattern,
}

impl<'a> DiskStatParser<'a> {
    /// The parser's cursor is sound.
    pub closed spec fn wf(&self) -> bool {
        self.lines.wf()
    }

    /// The text that is walked.
    pub closed spec fn source(&self) -> Seq<char> {
        self.lines.source()
    }

    /// The device pattern.
    pub closed spec fn pattern(&self) -> Seq<char> {
        pattern_text(*self.regex)
    }

    /// The rows that are still ahead.
    pub closed spec fn pending(&self) -> Seq<(Seq<char>, u64, u64)> {
        disk_rows(self.lines.ahead(), pattern_text(*self.regex))
    }

    /// The number of lines that are still ahead.
    pub closed spec fn lines_left(&self) -> nat {
        self.lines.ahead().len()
    }

    /// A parser before the first line of `text`.
    pub fn new(text: &'a [char], regex: &'a Pattern) -> (p: Self)
        ensures
            p.wf(),
            p.source() == text@,
            p.pattern() == pattern_text(*regex),
            p.pending() == disk_rows(lines(text@), pattern_text(*regex)),
    {
        DiskStatParser { lines: LineCursor::new(text), regex }
    }

    /// Hands out the next row, or `None` where no row is ahead.
    pub fn next(&mut self) -> (r: Option<DiskStats>)
        requires
            old(self).wf(),
        ensures
            final(self).wf(),
            final(self).source() == old(self).source(),
            final(self).pattern() == old(self).pattern(),
            match r {
                Some(stats) => {
                    &&& old(self).pending() == seq![stats@] + final(self).pending()
                    &&& final(self).lines_left() < old(self).lines_left()
                },
                None => old(self).pending() == Seq::<(Seq<char>, u64, u64)>::empty(),
            },
    {
        loop
            invariant
                self.lines.wf(),
                self.lines.source() == old(self).lines.source(),
                self.regex == old(self).regex,
                self.pending() == old(self).pending(),
                self.lines.ahead().len() <= old(self).lines.ahead().len(),
            decreases self.lines.ahead().len(),
        {
            let ghost ahead = self.lines.ahead();
            let line = match self.lines.next() {
                Some(line) => line,
                None => {
                    return None;
                },
            };
            proof {
                assert(ahead[0] == line@);
                assert(ahead.drop_first() =~= self.lines.ahead());
            }
            let matched = self.regex.found_in(line);
            match select_disk_line(line, matched) {
                DiskLine::Skip => {},
                DiskLine::Unreadable => {},
                DiskLine::Row(stats) => {
                    return Some(stats);
                },
            }
        }
    }
}

/// The disk activity table as a source of readings.
pub struct DiskStatSource {
    regex: Pattern,
}

impl DiskStatSource {
    /// The device pattern of the source.
    pub closed spec fn pattern(&self) -> Seq<char> {
        pattern_text(self.regex)
    }

    /// A source with the device pattern [`disk_pattern`]; fails exactly
    /// where that pattern is refused.
    pub fn new() -> (r: Result<DiskStatSource, Error>)
        ensures
            r is Ok <==> pattern_accepted(disk_pattern()),
            r matches Ok(source) ==> source.pattern() == disk_pattern(),
            r matches Err(e) ==> e == Error::Io("invalid disk pattern"),
    {
        match compile(" ([sv]d[a-z]+|nvme[0-9]n[0-9]|mmcblk[0-9]) ") {
            Some(regex) => Ok(DiskStatSource { regex }),
            None => Err(Error::Io("invalid disk pattern")),
        }
    }

    /// Decodes the disk activity table `text`.
    pub fn rows(&self, text: &str) -> (rows: Vec<DiskStats>)
        ensures
            disk_views(rows@) == disk_rows(lines(text@), self.pattern()),
    {
        let chars = chars_of(text);
        let mut parser = DiskStatParser::new(chars.as_slice(), &self.regex);
        let mut rows: Vec<DiskStats> = Vec::new();
        assert(disk_views(rows@) + parser.pending() =~= disk_rows(lines(text@), self.pattern()));
        loop
            invariant_except_break
                parser.wf(),
                parser.pattern() == self.pattern(),
                disk_views(rows@) + parser.pending() == disk_rows(lines(text@), self.pattern()),
            ensures
                disk_views(rows@) == disk_rows(lines(text@), self.pattern()),
            decreases parser.lines_left(),
        {
            let ghost before = rows@;
            let ghost pending = parser.pending();
            match parser.next() {
                Some(stats) => {
                    rows.push(stats);
                    assert(disk_views(rows@) =~= disk_views(before).push(stats@));
                    assert(disk_views(before) + (seq![stats@] + parser.pending()) =~= disk_views(
                        rows@,
                    ) + parser.pending());
                },
                None => {
                    assert(disk_views(rows@) + Seq::<(Seq<char>, u64, u64)>::empty()
                        =~= disk_views(rows@));
                    break ;
                },
            }
        }
        rows
    }
}

impl MultiSensorSource for DiskStatSource {
    type Data = DiskStats;

    type Raw = String;

    fn read(&mut self, raw: &String) -> (r: Result<Vec<Result<DiskStats, Error>>, Error>)
        ensures
            final(self).pattern() == old(self).pattern(),
            r is Ok,
            disk_result_views(r->Ok_0@) == disk_rows(lines(raw@), old(self).pattern()).map_values(
                |row: (Seq<char>, u64, u64)| Ok::<(Seq<char>, u64, u64), Error>(row),
            ),
    {
        let mut found = self.rows(raw.as_str());
        let mut rows: Vec<Result<DiskStats, Error>> = Vec::new();
        let ghost all = found@;
        let ghost target = disk_views(all).map_values(
            |row: (Seq<char>, u64, u64)| Ok::<(Seq<char>, u64, u64), Error>(row),
        );
        let mut moved: Vec<DiskStats> = Vec::new();
        while found.len() > 0
            invariant
                moved@.len() + found@.len() == all.len(),
                found@ == all.take(found@.len() as int),
                forall|k: int|
                    0 <= k < moved@.len() ==> #[trigger] moved@[k] == all[all.len() - 1 - k],
            decreases found.len(),
        {
            let last = found.pop().unwrap();
            moved.push(last);
        }
        while moved.len() > 0
            invariant
                rows@.len() + moved@.len() == all.len(),
                forall|k: int|
                    0 <= k < moved@.len() ==> #[trigger] moved@[k] == all[all.len() - 1 - k],
                forall|k: int| 0 <= k < rows@.len() ==> #[trigger] rows@[k] == Ok::<
                    DiskStats,
                    Error,
                >(all[k]),
            decreases moved.len(),
        {
            let next = moved.pop().unwrap();
            rows.push(Ok(next));
        }
        assert(disk_result_views(rows@) =~= target);
        Ok(rows)
    }
}

/// A line of the mount table that names a device and, if the line is
/// complete, where it is mounted.
#[derive(Debug, Clone)]
pub struct Mount {
    pub device: String,
    pub mount_point: Option<String>,
}

impl View for Mount {
    type V = (Seq<char>, Option<Seq<char>>);

    /// The device and the mount point.
    open spec fn view(&self) -> (Seq<char>, Option<Seq<char>>) {
        (
            self.device@,
            match self.mount_point {
                Some(point) => Some(point@),
                None => None,
            },
        )
    }
}

/// Whether a line of the mount table is looked at: it names a device by
/// path, and neither a loop device nor a user-space file system.
pub open spec fn is_mount_line(line: Seq<char>) -> bool {
    has_prefix(line, seq!['/']) && !has_infix(line, "/dev/loop"@) && !has_infix(line, "fuse"@)
}

/// The device and the mount point of a line: its first two fields.
pub open spec fn mount_of(line: Seq<char>) -> (Seq<char>, Option<Seq<char>>) {
    let f = fields(line, false);
    (
        if f.len() >= 1 {
            f[0]
        } else {
            Seq::empty()
        },
        if f.len() >= 2 {
            Some(f[1])
        } else {
            None
        },
    )
}

/// The mounts of a table: one for each line that is looked at, in order.
pub open spec fn mounts_of(table: Seq<Seq<char>>) -> Seq<(Seq<char>, Option<Seq<char>>)>
    decreases table.len(),
{
    if table.len() == 0 {
        Seq::empty()
    } else if is_mount_line(table[0]) {
        seq![mount_of(table[0])] + mounts_of(table.drop_first())
    } else {
        mounts_of(table.drop_first())
    }
}

/// The plain values of a list of mounts.
pub open spec fn mount_views(mounts: Seq<Mount>) -> Seq<(Seq<char>, Option<Seq<char>>)> {
    mounts.map_values(|m: Mount| m@)
}

/// Decodes one line of the mount table that is looked at.
fn parse_mount(line: &[char]) -> (m: Mount)
    ensures
        m@ == mount_of(line@),
{
    let parts = split_fields(line, false);
    let device = if parts.len() >= 1 {
        string_of(line, parts[0].0, parts[0].1)
    } else {
        String::new()
    };
    let mount_point = if parts.len() >= 2 {
        Some(string_of(line, parts[1].0, parts[1].1))
    } else {
        None
    };
    Mount { device, mount_point }
}

/// Decodes the mount table `text`.
pub fn mounts(text: &str) -> (found: Vec<Mount>)
    ensures
        mount_views(found@) == mounts_of(lines(text@)),
{
    let chars = chars_of(text);
    let slash = ['/'];
    let loop_device = chars_of("/dev/loop");
    let fuse = chars_of("fuse");
    assert(slash@ =~= seq!['/']);
    let mut cursor = LineCursor::new(chars.as_slice());
    let mut found: Vec<Mount> = Vec::new();
    assert(mount_views(found@) + mounts_of(cursor.ahead()) =~= mounts_of(lines(text@)));
    loop
        invariant_except_break
            cursor.wf(),
            slash@ == seq!['/'],
            loop_device@ == "/dev/loop"@,
            fuse@ == "fuse"@,
            mount_views(found@) + mounts_of(cursor.ahead()) == mounts_of(lines(text@)),
        ensures
            mount_views(found@) == mounts_of(lines(text@)),
        decreases cursor.ahead().len(),
    {
        let ghost before = found@;
        let ghost ahead = cursor.ahead();
        let line = match cursor.next() {
            Some(line) => line,
            None => {
                assert(mount_views(found@) + Seq::<(Seq<char>, Option<Seq<char>>)>::empty()
                    =~= mount_views(found@));
                break ;
            },
        };
        proof {
            assert(ahead[0] == line@);
            assert(ahead.drop_first() =~= cursor.ahead());
        }
        if starts_with(line, slash.as_slice()) && !contains(line, loop_device.as_slice())
            && !contains(line, fuse.as_slice()) {
            let m = parse_mount(line);
            found.push(m);
            assert(mount_views(found@) =~= mount_views(before).push(m@));
            assert(mount_views(before) + (seq![m@] + mounts_of(cursor.ahead())) =~= mount_views(
                found@,
            ) + mounts_of(cursor.ahead()));
        }
    }
    found
}

#[verifier::external_type_specification]
#[verifier::external_body]
pub struct ExRandomState(ahash::RandomState);

#[verifier::external_type_specification]
#[verifier::external_body]
#[verifier::reject_recursive_types(T)]
#[verifier::reject_recursive_types(S)]
pub struct ExAHashSet<T, S>(ahash::AHashSet<T, S>);

/// The keys that a set holds.
pub uninterp spec fn key_set(set: ahash::AHashSet<u64>) -> Set<u64>;

/// `ahash::AHashSet::with_capacity` makes an empty set.
#[verifier::external_body]
fn new_key_set(capacity: usize) -> (set: ahash::AHashSet<u64>)
    ensures
        key_set(set) == Set::<u64>::empty(),
{
    ahash::AHashSet::with_capacity(capacity)
}

/// `insert` on an `ahash::AHashSet` adds the key to the set and says
/// whether the set did not hold it before.
#[verifier::external_body]
fn insert_key(set: &mut ahash::AHashSet<u64>, key: u64) -> (fresh: bool)
    ensures
        key_set(*final(set)) == key_set(*old(set)).insert(key),
        fresh == !key_set(*old(set)).contains(key),
{
    set.insert(key)
}

/// `ahash::AHasher::default` with `Hash::hash` and `Hasher::finish` gives
/// the hash of a string. The hasher is keyed once per process, so nothing
/// is promised of the value.
#[verifier::external_body]
fn hash_str(s: &str) -> u64 {
    let mut hasher = ahash::AHasher::default();
    std::hash::Hash::hash(s, &mut hasher);
    std::hash::Hasher::finish(&hasher)
}

/// Whether mounts of one device share their key.
pub open spec fn keys_follow_devices(mounts: Seq<Mount>, keys: Seq<u64>) -> bool {
    &&& keys.len() == mounts.len()
    &&& forall|i: int, j: int|
        0 <= i < j < mounts.len() && mounts[i]@.0 == mounts[j]@.0 ==> keys[i] == keys[j]
}

/// A key for the device of each mount, in order: the hash of the device,
/// taken once per device, so that mounts of one device share their key.
pub fn device_keys(mounts: &Vec<Mount>) -> (keys: Vec<u64>)
    ensures
        keys_follow_devices(mounts@, keys@),
{
    let mut keys: Vec<u64> = Vec::new();
    let mut i: usize = 0;
    while i < mounts.len()
        invariant
            i <= mounts.len(),
            keys@.len() == i,
            forall|a: int, b: int|
                0 <= a < b < i && mounts@[a]@.0 == mounts@[b]@.0 ==> keys@[a] == keys@[b],
        decreases mounts.len() - i,
    {
        let mut known: Option<u64> = None;
        let mut j: usize = 0;
        while j < i && known.is_none()
            invariant
                j <= i < mounts.len(),
                keys@.len() == i,
                known is None ==> forall|a: int|
                    0 <= a < j ==> mounts@[a]@.0 != mounts@[i as int]@.0,
                known matches Some(k) ==> exists|a: int|
                    0 <= a < i && mounts@[a]@.0 == mounts@[i as int]@.0 && keys@[a] == k,
            decreases i - j + if known is None {
                1int
            } else {
                0int
            },
        {
            if mounts[j].device == mounts[i].device {
                known = Some(keys[j]);
            } else {
                j += 1;
            }
        }
        let key = match known {
            Some(key) => key,
            None => hash_str(mounts[i].device.as_str()),
        };
        let ghost before = keys@;
        keys.push(key);
        proof {
            assert forall|a: int, b: int|
                0 <= a < b < i + 1 && mounts@[a]@.0 == mounts@[b]@.0 implies keys@[a]
                == keys@[b] by {
                if b < i {
                    assert(keys@[a] == before[a] && keys@[b] == before[b]);
                } else {
                    match known {
                        Some(k) => {
                            let w = choose|w: int|
                                0 <= w < i && mounts@[w]@.0 == mounts@[i as int]@.0 && before[w]
                                    == k;
                            if a < w {
                                assert(before[a] == before[w]);
                            } else if w < a {
                                assert(before[w] == before[a]);
                            }
                        },
                        None => {
                            assert(mounts@[a]@.0 != mounts@[i as int]@.0);
                        },
                    }
                }
            }
        }
        i += 1;
    }
    keys
}

/// Whether no earlier row has the key of row `j`.
pub open spec fn first_of_key(keys: Seq<u64>, j: int) -> bool {
    forall|i: int| 0 <= i < j ==> keys[i] != keys[j]
}

/// The rows at or after `j` whose file system is queried: each row that is
/// the first of its device key and has a mount point. A row without mount
/// point loses its own query only.
pub open spec fn picked_from(points: Seq<Option<Seq<char>>>, keys: Seq<u64>, j: int) -> Seq<int>
    decreases points.len() - j,
{
    if j < 0 || j >= points.len() {
        Seq::empty()
    } else if !first_of_key(keys, j) || points[j] is None {
        picked_from(points, keys, j + 1)
    } else {
        seq![j] + picked_from(points, keys, j + 1)
    }
}

/// The mount points of a list of mounts.
pub open spec fn mount_points(mounts: Seq<Mount>) -> Seq<Option<Seq<char>>> {
    mounts.map_values(|m: Mount| m@.1)
}

/// The mount points that are queried, in order.
pub open spec fn selected(mounts: Seq<Mount>, keys: Seq<u64>) -> Seq<Seq<char>> {
    picked_from(mount_points(mounts), keys, 0).map_values(
        |j: int| mount_points(mounts)[j].unwrap(),
    )
}

/// Every row that is picked at or after `j` lies in range, has a mount
/// point and is the first of its key.
pub proof fn lemma_picked_are_first(points: Seq<Option<Seq<char>>>, keys: Seq<u64>, j: int)
    requires
        0 <= j,
    ensures
        forall|k: int|
            0 <= k < picked_from(points, keys, j).len() ==> {
                let row = #[trigger] picked_from(points, keys, j)[k];
                &&& j <= row < points.len()
                &&& points[row] is Some
                &&& first_of_key(keys, row)
            },
    decreases points.len() - j,
{
    if j < points.len() {
        lemma_picked_are_first(points, keys, j + 1);
    }
}

/// Of two rows with the same device key the later one is never queried.
pub proof fn lemma_one_usage_per_key(
    points: Seq<Option<Seq<char>>>,
    keys: Seq<u64>,
    i: int,
    j: int,
)
    requires
        0 <= i < j < keys.len(),
        keys[i] == keys[j],
    ensures
        !picked_from(points, keys, 0).contains(j),
{
    lemma_picked_are_first(points, keys, 0);
}

/// Of two mounts that name the same device the later one is never queried:
/// the output holds at most one usage per device, that of its first mount.
pub proof fn lemma_one_usage_per_device(mounts: Seq<Mount>, keys: Seq<u64>, i: int, j: int)
    requires
        keys_follow_devices(mounts, keys),
        0 <= i < j < mounts.len(),
        mounts[i]@.0 == mounts[j]@.0,
    ensures
        !picked_from(mount_points(mounts), keys, 0).contains(j),
{
    lemma_one_usage_per_key(mount_points(mounts), keys, i, j);
}

/// Two rows that are both queried have different device keys.
pub proof fn lemma_picked_keys_differ(
    points: Seq<Option<Seq<char>>>,
    keys: Seq<u64>,
    a: int,
    b: int,
)
    requires
        points.len() == keys.len(),
        picked_from(points, keys, 0).contains(a),
        picked_from(points, keys, 0).contains(b),
        a != b,
    ensures
        keys[a] != keys[b],
{
    lemma_picked_are_first(points, keys, 0);
}

/// Picks the mount points to query: that of each mount whose device key was
/// not seen before, where the mount has one. The
/// keys stand for the devices of the mounts, one for one; where their
/// number differs from that of the mounts, nothing is picked.
pub fn select_mounts(mounts: &Vec<Mount>, keys: &Vec<u64>) -> (picked: Vec<String>)
    ensures
        keys@.len() == mounts@.len() ==> picked@.map_values(|p: String| p@) == selected(
            mounts@,
            keys@,
        ),
        keys@.len() != mounts@.len() ==> picked@.len() == 0,
{
    if keys.len() != mounts.len() {
        return Vec::new();
    }
    let ghost points = mount_points(mounts@);
    let mut seen = new_key_set(16);
    let mut picked: Vec<String> = Vec::new();
    let ghost mut rows: Seq<int> = Seq::empty();
    let mut j: usize = 0;
    assert(rows + picked_from(points, keys@, 0) =~= picked_from(points, keys@, 0));
    loop
        invariant_except_break
            j <= mounts.len(),
            keys@.len() == mounts@.len(),
            points == mount_points(mounts@),
            forall|k: u64| key_set(seen).contains(k) <==> exists|i: int|
                0 <= i < j && #[trigger] keys@[i] == k,
            picked_from(points, keys@, 0) == rows + picked_from(points, keys@, j as int),
            picked@.map_values(|p: String| p@) == rows.map_values(|r: int| points[r].unwrap()),
        ensures
            picked_from(points, keys@, 0) == rows,
            picked@.map_values(|p: String| p@) == rows.map_values(|r: int| points[r].unwrap()),
        decreases mounts.len() - j,
    {
        if j >= mounts.len() {
            assert(rows + Seq::<int>::empty() =~= rows);
            break ;
        }
        let ghost before = key_set(seen);
        let fresh = insert_key(&mut seen, keys[j]);
        proof {
            assert(fresh == first_of_key(keys@, j as int)) by {
                if !fresh {
                    let i = choose|i: int| 0 <= i < j && #[trigger] keys@[i] == keys@[j as int];
                    assert(keys@[i] == keys@[j as int]);
                }
            }
            assert forall|k: u64| key_set(seen).contains(k) <==> exists|i: int|
                0 <= i < j + 1 && #[trigger] keys@[i] == k by {
                if key_set(seen).contains(k) {
                    if k == keys@[j as int] {
                        assert(keys@[j as int] == k);
                    } else {
                        assert(before.contains(k));
                        let i = choose|i: int| 0 <= i < j && #[trigger] keys@[i] == k;
                        assert(0 <= i < j + 1 && keys@[i] == k);
                    }
                }
                if exists|i: int| 0 <= i < j + 1 && #[trigger] keys@[i] == k {
                    let i = choose|i: int| 0 <= i < j + 1 && #[trigger] keys@[i] == k;
                    if i < j {
                        assert(before.contains(k));
                    }
                }
            }
        }
        if fresh {
            match &mounts[j].mount_point {
                Some(point) => {
                    let ghost old_picked = picked@;
                    picked.push(point.clone());
                    proof {
                        assert(points[j as int] == Some(point@));
                        assert(rows + (seq![j as int] + picked_from(points, keys@, j + 1))
                            =~= rows.push(j as int) + picked_from(points, keys@, j + 1));
                        assert(picked@.map_values(|p: String| p@) =~= old_picked.map_values(
                            |p: String| p@,
                        ).push(point@));
                        assert(rows.push(j as int).map_values(|r: int| points[r].unwrap())
                            =~= rows.map_values(|r: int| points[r].unwrap()).push(point@));
                        rows = rows.push(j as int);
                    }
                },
                None => {
                    assert(points[j as int] is None);
                },
            }
        }
        j += 1;
    }
    picked
}

/// The mount points to query for the mount table `text`: those that
/// [`selected`] gives for the keys that the devices hash to, which mounts
/// of one device share.
pub fn unique_mounts(text: &str) -> (picked: Vec<String>)
    ensures
        exists|found: Seq<Mount>, keys: Seq<u64>|
            {
                &&& mount_views(found) == mounts_of(lines(text@))
                &&& keys_follow_devices(found, keys)
                &&& #[trigger] selected(found, keys) == picked@.map_values(|p: String| p@)
            },
{
    let found = mounts(text);
    let keys = device_keys(&found);
    let picked = select_mounts(&found, &keys);
    assert(selected(found@, keys@) == picked@.map_values(|p: String| p@));
    picked
}

/// A row that is the first of its device key and has a mount point is
/// queried, wherever it stands.
pub proof fn lemma_first_mount_is_picked(
    points: Seq<Option<Seq<char>>>,
    keys: Seq<u64>,
    j: int,
    i: int,
)
    requires
        0 <= j <= i < points.len(),
        first_of_key(keys, i),
        points[i] is Some,
    ensures
        picked_from(points, keys, j).contains(i),
    decreases i - j,
{
    if j < i {
        lemma_first_mount_is_picked(points, keys, j + 1, i);
        let rest = picked_from(points, keys, j + 1);
        let k = choose|k: int| 0 <= k < rest.len() && rest[k] == i;
        if first_of_key(keys, j) && points[j] is Some {
            assert((seq![j] + rest)[k + 1] == i);
        }
    } else {
        assert(picked_from(points, keys, j)[0] == i);
    }
}

/// A walk over the mount points to query for a mount table.
pub struct DiskUsageParser {
    found: Vec<Mount>,
    keys: Vec<u64>,
    picked: Vec<String>,
    pos: usize,
}

impl DiskUsageParser {
    /// The mounts of one device share their key, the mount points to hand
    /// out are those that the keys select, and the walk stands among them.
    pub closed spec fn wf(&self) -> bool {
        &&& keys_follow_devices(self.found@, self.keys@)
        &&& self.picked@.map_values(|p: String| p@) == selected(self.found@, self.keys@)
        &&& self.pos <= self.picked@.len()
    }

    /// The mounts of the table.
    pub closed spec fn mounts(&self) -> Seq<Mount> {
        self.found@
    }

    /// The device keys of the mounts.
    pub closed spec fn keys(&self) -> Seq<u64> {
        self.keys@
    }

    /// The mount points that are still ahead.
    pub closed spec fn pending(&self) -> Seq<Seq<char>> {
        self.picked@.map_values(|p: String| p@).skip(self.pos as int)
    }

    /// A parser before the first mount point to query for the mount table
    /// `text`.
    pub fn new(text: &str) -> (p: Self)
        ensures
            p.wf(),
            mount_views(p.mounts()) == mounts_of(lines(text@)),
            keys_follow_devices(p.mounts(), p.keys()),
            p.pending() == selected(p.mounts(), p.keys()),
    {
        let found = mounts(text);
        let keys = device_keys(&found);
        let picked = select_mounts(&found, &keys);
        assert(picked@.map_values(|p: String| p@).skip(0) =~= picked@.map_values(
            |p: String| p@,
        ));
        DiskUsageParser { found, keys, picked, pos: 0 }
    }

    /// Hands out the next mount point to query, or `None` where none is
    /// ahead.
    pub fn next(&mut self) -> (r: Option<String>)
        requires
            old(self).wf(),
        ensures
            final(self).wf(),
            final(self).mounts() == old(self).mounts(),
            final(self).keys() == old(self).keys(),
            match r {
                Some(point) => old(self).pending() == seq![point@] + final(self).pending(),
                None => {
                    &&& old(self).pending() == Seq::<Seq<char>>::empty()
                    &&& final(self).pending() == old(self).pending()
                },
            },
    {
        let ghost views = self.picked@.map_values(|p: String| p@);
        if self.pos >= self.picked.len() {
            assert(views.skip(self.pos as int) =~= Seq::<Seq<char>>::empty());
            return None;
        }
        let point = self.picked[self.pos].clone();
        assert(views.skip(self.pos as int) =~= seq![point@] + views.skip(self.pos + 1));
        self.pos = self.pos + 1;
        Some(point)
    }
}

/// The statistics of one file system: its blocks, the blocks that are free
/// to unprivileged users, and the size of a block in bytes.
#[derive(Debug, Clone, Copy)]
pub struct VfsStat {
    pub blocks: u64,
    pub blocks_available: u64,
    pub fragment_size: u64,
}

/// The usage that the statistics of a mount point amount to: blocks times
/// block size. Figures that do not fit in 64 bits are a failed query.
pub open spec fn usage_of(name: Seq<char>, stat: VfsStat) -> Result<(Seq<char>, u64, u64), Error> {
    if stat.blocks * stat.fragment_size <= u64::MAX && stat.blocks_available * stat.fragment_size
        <= u64::MAX {
        Ok(
            (
                name,
                (stat.blocks * stat.fragment_size) as u64,
                (stat.blocks_available * stat.fragment_size) as u64,
            ),
        )
    } else {
        Err(Error::StatVfs)
    }
}

/// A usage or a failure as a plain value.
pub open spec fn usage_view(r: Result<DiskUsage, Error>) -> Result<(Seq<char>, u64, u64), Error> {
    match r {
        Ok(usage) => Ok(usage@),
        Err(e) => Err(e),
    }
}

/// Computes the usage of the file system mounted at `name`.
pub fn disk_usage(name: String, stat: VfsStat) -> (r: Result<DiskUsage, Error>)
    ensures
        usage_view(r) == usage_of(name@, stat),
{
    match (
        stat.blocks.checked_mul(stat.fragment_size),
        stat.blocks_available.checked_mul(stat.fragment_size),
    ) {
        (Some(size), Some(free)) => Ok(DiskUsage { name, size, free }),
        _ => Err(Error::StatVfs),
    }
}

/// What the statistics query of one mount point gave.
#[derive(Debug, Clone)]
pub struct MountStat {
    pub mount_point: String,
    pub stat: Option<VfsStat>,
}

/// The usage that one answered or failed query amounts to.
pub open spec fn mount_usage(m: MountStat) -> Result<(Seq<char>, u64, u64), Error> {
    match m.stat {
        Some(stat) => usage_of(m.mount_point@, stat),
        None => Err(Error::StatVfs),
    }
}

/// The mount table as a source of readings.
#[derive(Debug, Default)]
pub struct DiskUsageSource {}

impl DiskUsageSource {
    /// A source for the mount table.
    pub fn new() -> Self {
        DiskUsageSource {  }
    }
}

impl MultiSensorSource for DiskUsageSource {
    type Data = DiskUsage;

    type Raw = Vec<MountStat>;

    /// Turns the answers of the statistics queries into usages, in order.
    fn read(&mut self, raw: &Vec<MountStat>) -> (r: Result<Vec<Result<DiskUsage, Error>>, Error>)
        ensures
            r is Ok,
            r->Ok_0@.map_values(|u: Result<DiskUsage, Error>| usage_view(u)) == raw@.map_values(
                |m: MountStat| mount_usage(m),
            ),
    {
        let mut rows: Vec<Result<DiskUsage, Error>> = Vec::new();
        let mut i: usize = 0;
        while i < raw.len()
            invariant
                i <= raw.len(),
                rows@.len() == i,
                forall|k: int|
                    0 <= k < i ==> usage_view(#[trigger] rows@[k]) == mount_usage(raw@[k]),
            decreases raw.len() - i,
        {
            let row = match raw[i].stat {
                Some(stat) => disk_usage(raw[i].mount_point.clone(), stat),
                None => Err(Error::StatVfs),
            };
            rows.push(row);
            i += 1;
        }
        assert(rows@.map_values(|u: Result<DiskUsage, Error>| usage_view(u)) =~= raw@.map_values(
            |m: MountStat| mount_usage(m),
        ));
        Ok(rows)
    }
}

} // verus!
