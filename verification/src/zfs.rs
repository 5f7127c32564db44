//! Storage pools: the rows of the pool listing, the source that stops asking
//! for it once it fails, and the counters of the pool cache.

use crate::data::DiskUsage;
use crate::encode::{push_sample, sample};
use crate::number::{decimal, parse_u64, u64_of};
use crate::text::{chars_of, fields, is_text, lines, split_fields, string_of, LineCursor};
use vstd::prelude::*;
use vstd::slice::slice_subrange;

verus! {

/// What one line of the pool listing decodes to: name, size and free space
/// are its first three fields.
pub open spec fn pool_row(line: Seq<char>) -> Option<(Seq<char>, u64, u64)> {
    let f = fields(line, false);
    if f.len() < 3 {
        None
    } else {
        match (u64_of(f[1]), u64_of(f[2])) {
            (Some(size), Some(free)) => Some((f[0], size, free)),
            _ => None,
        }
    }
}

/// The rows of a pool listing: those of its leading lines, up to the first
/// line that is no row.
pub open spec fn pool_rows(table: Seq<Seq<char>>) -> Seq<(Seq<char>, u64, u64)>
    decreases table.len(),
{
    if table.len() == 0 {
        Seq::empty()
    } else {
        match pool_row(table[0]) {
            Some(row) => seq![row] + pool_rows(table.drop_first()),
            None => Seq::empty(),
        }
    }
}

/// Whether every line of a pool listing is a row.
pub open spec fn is_pool_listing(table: Seq<Seq<char>>) -> bool {
    pool_rows(table).len() == table.len()
}

/// A decoded row as a plain value.
pub open spec fn pool_view(r: Option<DiskUsage>) -> Option<(Seq<char>, u64, u64)> {
    match r {
        Some(usage) => Some(usage@),
        None => None,
    }
}

/// The plain values of a list of rows.
pub open spec fn pool_views(rows: Seq<DiskUsage>) -> Seq<(Seq<char>, u64, u64)> {
    rows.map_values(|usage: DiskUsage| usage@)
}

/// Decodes one line of the pool listing.
pub fn parse_line(line: &[char]) -> (r: Option<DiskUsage>)
    ensures
        pool_view(r) == pool_row(line@),
{
    let parts = split_fields(line, false);
    if parts.len() < 3 {
        return None;
    }
    let size = parse_u64(slice_subrange(line, parts[1].0, parts[1].1));
    let free = parse_u64(slice_subrange(line, parts[2].0, parts[2].1));
    match (size, free) {
        (Some(size), Some(free)) => Some(
            DiskUsage { name: string_of(line, parts[0].0, parts[0].1), size, free },
        ),
        _ => None,
    }
}

/// Decodes a pool listing; the flag says whether every line was a row.
pub fn parse_listing(text: &str) -> (r: (Vec<DiskUsage>, bool))
    ensures
        pool_views(r.0@) == pool_rows(lines(text@)),
        r.1 == is_pool_listing(lines(text@)),
{
    let chars = chars_of(text);
    let mut cursor = LineCursor::new(chars.as_slice());
    let mut rows: Vec<DiskUsage> = Vec::new();
    let mut complete = true;
    assert(pool_views(rows@) + pool_rows(cursor.ahead()) =~= pool_rows(lines(text@)));
    loop
        invariant_except_break
            cursor.wf(),
            cursor.source() == text@,
            complete,
            pool_rows(lines(text@)) == pool_views(rows@) + pool_rows(cursor.ahead()),
            lines(text@) == cursor.seen() + cursor.ahead(),
            rows@.len() == cursor.seen().len(),
        ensures
            pool_rows(lines(text@)) == pool_views(rows@),
            complete == is_pool_listing(lines(text@)),
        decreases lines(text@).len() - cursor.seen().len(),
    {
        let ghost before = rows@;
        let ghost ahead = cursor.ahead();
        let line = match cursor.next() {
            Some(line) => line,
            None => {
                assert(pool_views(rows@) + Seq::<(Seq<char>, u64, u64)>::empty() =~= pool_views(
                    rows@,
                ));
                assert(cursor.seen() + Seq::<Seq<char>>::empty() =~= cursor.seen());
                break ;
            },
        };
        proof {
            cursor.lemma_prefix();
            cursor.lemma_split();
            assert(ahead[0] == line@);
            assert(ahead.drop_first() =~= cursor.ahead());
        }
        match parse_line(line) {
            Some(usage) => {
                rows.push(usage);
                assert(pool_views(rows@) =~= pool_views(before).push(usage@));
                assert(pool_views(before) + (seq![usage@] + pool_rows(cursor.ahead()))
                    =~= pool_views(rows@) + pool_rows(cursor.ahead()));
            },
            None => {
                complete = false;
                proof {
                    assert(pool_views(rows@) + Seq::<(Seq<char>, u64, u64)>::empty()
                        =~= pool_views(rows@));
                    assert(rows@.len() < lines(text@).len());
                }
                break ;
            },
        }
    }
    (rows, complete)
}

/// Decodes a pool listing: the rows up to the first line that is none.
pub fn pools(text: &str) -> (rows: Vec<DiskUsage>)
    ensures
        pool_views(rows@) == pool_rows(lines(text@)),
{
    parse_listing(text).0
}

/// How an attempt to list the pools ended.
#[derive(Debug)]
pub enum PoolListing {
    /// The listing command could not be started.
    Unavailable,
    /// The listing command ended with a failure status.
    Failed,
    /// The listing command succeeded and wrote this text.
    Output(String),
}

/// The pool listing as a source that stops for good on its first failure.
#[derive(Debug)]
pub struct PoolSource {
    enabled: bool,
}

impl PoolSource {
    /// Whether the source still asks for listings.
    pub closed spec fn enabled(&self) -> bool {
        self.enabled
    }

    /// A source that asks for listings.
    pub fn new() -> (s: Self)
        ensures
            s.enabled(),
    {
        PoolSource { enabled: true }
    }

    /// Whether the listing command should be run for the next scrape.
    pub fn wants_listing(&self) -> (b: bool)
        ensures
            b == self.enabled(),
    {
        self.enabled
    }

    /// The pools that a listing yields for the source in state `enabled`:
    /// those of a wholly readable listing while the source is enabled, none
    /// otherwise.
    pub open spec fn yields(enabled: bool, listing: PoolListing) -> Seq<(Seq<char>, u64, u64)> {
        match listing {
            PoolListing::Output(text) if enabled && is_pool_listing(lines(text@)) => pool_rows(
                lines(text@),
            ),
            _ => Seq::empty(),
        }
    }

    /// Whether the source stays enabled after a listing.
    pub open spec fn survives(enabled: bool, listing: PoolListing) -> bool {
        match listing {
            PoolListing::Output(text) => enabled && is_pool_listing(lines(text@)),
            _ => false,
        }
    }

    /// Takes the outcome of a listing attempt. A command that could not be
    /// started or that failed, and output that is no listing, disable the
    /// source for good.
    pub fn accept(&mut self, listing: PoolListing) -> (rows: Vec<DiskUsage>)
        ensures
            final(self).enabled() == Self::survives(old(self).enabled(), listing),
            pool_views(rows@) == Self::yields(old(self).enabled(), listing),
            rows@.len() == Self::yields(old(self).enabled(), listing).len(),
    {
        if !self.enabled {
            let rows: Vec<DiskUsage> = Vec::new();
            assert(pool_views(rows@) =~= Seq::empty());
            return rows;
        }
        match listing {
            PoolListing::Output(text) => {
                let (rows, complete) = parse_listing(text.as_str());
                if complete {
                    rows
                } else {
                    self.enabled = false;
                    let rows: Vec<DiskUsage> = Vec::new();
                    assert(pool_views(rows@) =~= Seq::empty());
                    rows
                }
            },
            _ => {
                self.enabled = false;
                let rows: Vec<DiskUsage> = Vec::new();
                assert(pool_views(rows@) =~= Seq::empty());
                rows
            },
        }
    }
}

/// A source that is disabled stays disabled and yields nothing, whatever
/// listing it is given.
pub proof fn lemma_pool_source_stays_disabled(listing: PoolListing)
    ensures
        !PoolSource::survives(false, listing),
        PoolSource::yields(false, listing) == Seq::<(Seq<char>, u64, u64)>::empty(),
{
}

/// The samples of a list of pools, in order.
pub open spec fn rendered_pools(rows: Seq<DiskUsage>, hostname: Seq<char>) -> Seq<char>
    decreases rows.len(),
{
    if rows.len() == 0 {
        Seq::empty()
    } else {
        rendered_pools(rows.drop_last(), hostname) + rows.last().rendered_pool(hostname)
    }
}

/// Appends the samples of a list of pools, in order.
pub fn write_pools(rows: &Vec<DiskUsage>, w: &mut String, hostname: &str)
    ensures
        final(w)@ == old(w)@ + rendered_pools(rows@, hostname@),
{
    let mut i: usize = 0;
    assert(rows@.take(0) == Seq::<DiskUsage>::empty());
    assert(w@ =~= old(w)@ + rendered_pools(rows@.take(0), hostname@));
    while i < rows.len()
        invariant
            i <= rows.len(),
            w@ == old(w)@ + rendered_pools(rows@.take(i as int), hostname@),
        decreases rows.len() - i,
    {
        rows[i].write_pool(w, hostname);
        proof {
            let next = rows@.take(i + 1);
            assert(next.drop_last() == rows@.take(i as int));
            assert(next.last() == rows@[i as int]);
            assert(w@ =~= old(w)@ + rendered_pools(next, hostname@));
        }
        i += 1;
    }
    assert(rows@.take(i as int) == rows@);
}

/// Counters of the pool cache.
#[derive(Debug, Default, Clone, Copy)]
pub struct ArcStats {
    pub hits: u64,
    pub misses: u64,
    pub prefetch: u64,
    pub size: u64,
}

/// The sum of two counters, which stops at the largest 64-bit value.
pub open spec fn counter_sum(a: u64, b: u64) -> u64 {
    if a + b > u64::MAX {
        u64::MAX
    } else {
        (a + b) as u64
    }
}

/// The counters after one more line of the cache table. A line counts when
/// its third field is a number: by the name in its first field it adds to
/// the hits, the misses and the prefetches, or sets the size.
pub open spec fn arc_step(stats: ArcStats, line: Seq<char>) -> ArcStats {
    let f = fields(line, false);
    if f.len() < 3 || u64_of(f[2]) is None {
        stats
    } else {
        let value = u64_of(f[2]).unwrap();
        let name = f[0];
        if name == "demand_data_hits"@ || name == "demand_metadata_hits"@ {
            ArcStats { hits: counter_sum(stats.hits, value), ..stats }
        } else if name == "prefetch_data_hits"@ || name == "prefetch_metadata_hits"@ {
            ArcStats {
                hits: counter_sum(stats.hits, value),
                prefetch: counter_sum(stats.prefetch, value),
                ..stats
            }
        } else if name == "demand_data_misses"@ || name == "demand_metadata_misses"@ {
            ArcStats { misses: counter_sum(stats.misses, value), ..stats }
        } else if name == "prefetch_data_misses"@ || name == "prefetch_metadata_misses"@ {
            ArcStats {
                misses: counter_sum(stats.misses, value),
                prefetch: counter_sum(stats.prefetch, value),
                ..stats
            }
        } else if name == "size"@ {
            ArcStats { size: value, ..stats }
        } else {
            stats
        }
    }
}

/// The counters after all lines of `table`, starting from zero.
pub open spec fn arc_fold(table: Seq<Seq<char>>) -> ArcStats
    decreases table.len(),
{
    if table.len() == 0 {
        ArcStats { hits: 0, misses: 0, prefetch: 0, size: 0 }
    } else {
        arc_step(arc_fold(table.drop_last()), table.last())
    }
}

/// What a cache table decodes to: its first two lines are a heading.
pub open spec fn arc_of(table: Seq<Seq<char>>) -> ArcStats {
    if table.len() <= 2 {
        arc_fold(Seq::empty())
    } else {
        arc_fold(table.subrange(2, table.len() as int))
    }
}

/// Applies one line of the cache table.
fn apply_arc_line(stats: ArcStats, line: &[char]) -> (r: ArcStats)
    ensures
        r == arc_step(stats, line@),
{
    let parts = split_fields(line, false);
    if parts.len() < 3 {
        return stats;
    }
    let value = match parse_u64(slice_subrange(line, parts[2].0, parts[2].1)) {
        Some(value) => value,
        None => {
            return stats;
        },
    };
    let name = slice_subrange(line, parts[0].0, parts[0].1);
    let mut r = stats;
    if is_text(name, "demand_data_hits") || is_text(name, "demand_metadata_hits") {
        r.hits = stats.hits.saturating_add(value);
    } else if is_text(name, "prefetch_data_hits") || is_text(name, "prefetch_metadata_hits") {
        r.hits = stats.hits.saturating_add(value);
        r.prefetch = stats.prefetch.saturating_add(value);
    } else if is_text(name, "demand_data_misses") || is_text(name, "demand_metadata_misses") {
        r.misses = stats.misses.saturating_add(value);
    } else if is_text(name, "prefetch_data_misses") || is_text(name, "prefetch_metadata_misses") {
        r.misses = stats.misses.saturating_add(value);
        r.prefetch = stats.prefetch.saturating_add(value);
    } else if is_text(name, "size") {
        r.size = value;
    }
    r
}

/// Decodes the cache table `text`.
pub fn arcstats(text: &str) -> (stats: ArcStats)
    ensures
        stats == arc_of(lines(text@)),
{
    let chars = chars_of(text);
    let mut cursor = LineCursor::new(chars.as_slice());
    let mut stats = ArcStats { hits: 0, misses: 0, prefetch: 0, size: 0 };
    if cursor.next().is_none() {
        return stats;
    }
    if cursor.next().is_none() {
        return stats;
    }
    assert(cursor.seen().subrange(2, cursor.seen().len() as int) =~= Seq::<Seq<char>>::empty());
    loop
        invariant
            cursor.wf(),
            cursor.source() == text@,
            cursor.seen().len() >= 2,
            stats == arc_fold(cursor.seen().subrange(2, cursor.seen().len() as int)),
        ensures
            cursor.seen() == lines(text@),
            cursor.seen().len() >= 2,
            stats == arc_fold(cursor.seen().subrange(2, cursor.seen().len() as int)),
        decreases lines(text@).len() - cursor.seen().len(),
    {
        let ghost before = cursor.seen();
        let line = match cursor.next() {
            Some(line) => line,
            None => {
                break ;
            },
        };
        proof {
            cursor.lemma_prefix();
            let now = cursor.seen().subrange(2, cursor.seen().len() as int);
            assert(now.drop_last() =~= before.subrange(2, before.len() as int));
            assert(now.last() == line@);
        }
        stats = apply_arc_line(stats, line);
    }
    stats
}

impl ArcStats {
    /// The samples of the counters, as they are written for `hostname`.
    pub open spec fn rendered(&self, hostname: Seq<char>) -> Seq<char> {
        sample("zfs_arc_hits"@, hostname, Seq::empty(), decimal(self.hits as nat)) + sample(
            "zfs_arc_misses"@,
            hostname,
            Seq::empty(),
            decimal(self.misses as nat),
        ) + sample("zfs_arc_size"@, hostname, Seq::empty(), decimal(self.size as nat)) + sample(
            "zfs_arc_prefetch"@,
            hostname,
            Seq::empty(),
            decimal(self.prefetch as nat),
        )
    }

    /// Appends the samples of the counters to `w`.
    pub fn write(&self, w: &mut String, hostname: &str)
        ensures
            final(w)@ == old(w)@ + self.rendered(hostname@),
    {
        push_sample(w, "zfs_arc_hits", hostname, self.hits);
        push_sample(w, "zfs_arc_misses", hostname, self.misses);
        push_sample(w, "zfs_arc_size", hostname, self.size);
        push_sample(w, "zfs_arc_prefetch", hostname, self.prefetch);
        assert(w@ =~= old(w)@ + self.rendered(hostname@));
    }
}

} // verus!
