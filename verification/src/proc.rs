//! Processes: which of them hold enough memory to be reported.

use crate::data::ProcData;
use crate::{Error, MultiSensorSource};
use vstd::prelude::*;

verus! {

/// `procfs::page_size` asks the operating system for the size of a memory
/// page in bytes. Nothing is promised of the answer.
#[verifier::external_body]
fn page_size() -> u64 {
    procfs::page_size()
}

/// One line of the process table: the process, its command and the pages it
/// holds in memory.
#[derive(Debug, Clone)]
pub struct ProcStat {
    pub pid: i32,
    pub comm: String,
    pub rss: u64,
}

/// The processes that hold more than a hundredth of the memory.
#[derive(Debug, Default)]
pub struct ProcSource {
    page_size: u64,
    page_cutoff: u64,
}

/// The number of pages above which a process is reported: a hundredth of
/// the memory, in pages.
pub open spec fn cutoff_of(total_memory: u64, page_size: u64) -> int {
    (total_memory as int / 100) / (page_size as int)
}

/// The reading of a process that is reported; a failure where its bytes do
/// not fit in 64 bits.
pub open spec fn proc_row(stat: ProcStat, page_size: u64) -> Result<(int, Seq<char>, u64), Error> {
    if stat.rss * page_size <= u64::MAX {
        Ok((stat.pid as int, stat.comm@, (stat.rss * page_size) as u64))
    } else {
        Err(Error::Proc)
    }
}

/// The readings of a process table: one for each process above the cutoff,
/// in order.
pub open spec fn proc_rows(stats: Seq<ProcStat>, page_size: u64, cutoff: u64) -> Seq<
    Result<(int, Seq<char>, u64), Error>,
>
    decreases stats.len(),
{
    if stats.len() == 0 {
        Seq::empty()
    } else if stats.last().rss > cutoff {
        proc_rows(stats.drop_last(), page_size, cutoff).push(proc_row(stats.last(), page_size))
    } else {
        proc_rows(stats.drop_last(), page_size, cutoff)
    }
}

/// A reading or a failure as a plain value.
pub open spec fn proc_view(r: Result<ProcData, Error>) -> Result<(int, Seq<char>, u64), Error> {
    match r {
        Ok(data) => Ok((data.pid as int, data.name@, data.rss_memory)),
        Err(e) => Err(e),
    }
}

impl ProcSource {
    /// The size of a memory page in bytes.
    pub closed spec fn page_bytes(&self) -> u64 {
        self.page_size
    }

    /// The number of pages above which a process is reported.
    pub closed spec fn cutoff(&self) -> u64 {
        self.page_cutoff
    }

    /// A source for a machine with `total_memory` bytes of memory in pages
    /// of `page_size` bytes; fails for a page size of 0.
    pub fn with_page_size(total_memory: u64, page_size: u64) -> (r: Result<ProcSource, Error>)
        ensures
            match r {
                Ok(source) => page_size > 0 && source.page_bytes() == page_size && source.cutoff()
                    == cutoff_of(total_memory, page_size),
                Err(e) => page_size == 0 && e == Error::Proc,
            },
    {
        if page_size == 0 {
            return Err(Error::Proc);
        }
        Ok(ProcSource { page_size, page_cutoff: (total_memory / 100) / page_size })
    }

    /// A source for this machine, which has `total_memory` bytes of memory.
    pub fn new(total_memory: u64) -> (r: Result<ProcSource, Error>)
        ensures
            match r {
                Ok(source) => source.page_bytes() > 0 && source.cutoff() == cutoff_of(
                    total_memory,
                    source.page_bytes(),
                ),
                Err(e) => e == Error::Proc,
            },
    {
        ProcSource::with_page_size(total_memory, page_size())
    }
}

impl MultiSensorSource for ProcSource {
    type Data = ProcData;

    type Raw = Vec<ProcStat>;

    fn read(&mut self, raw: &Vec<ProcStat>) -> (r: Result<Vec<Result<ProcData, Error>>, Error>)
        ensures
            final(self).page_bytes() == old(self).page_bytes(),
            final(self).cutoff() == old(self).cutoff(),
            r is Ok,
            r->Ok_0@.map_values(|row: Result<ProcData, Error>| proc_view(row)) == proc_rows(
                raw@,
                old(self).page_bytes(),
                old(self).cutoff(),
            ),
    {
        let mut rows: Vec<Result<ProcData, Error>> = Vec::new();
        let mut i: usize = 0;
        assert(raw@.take(0) =~= Seq::<ProcStat>::empty());
        assert(rows@.map_values(|row: Result<ProcData, Error>| proc_view(row)) =~= Seq::empty());
        while i < raw.len()
            invariant
                i <= raw.len(),
                rows@.map_values(|row: Result<ProcData, Error>| proc_view(row)) == proc_rows(
                    raw@.take(i as int),
                    self.page_size,
                    self.page_cutoff,
                ),
            decreases raw.len() - i,
        {
            proof {
                let next = raw@.take(i + 1);
                assert(next.drop_last() =~= raw@.take(i as int));
                assert(next.last() == raw@[i as int]);
            }
            let ghost before = rows@;
            if raw[i].rss > self.page_cutoff {
                let row = match raw[i].rss.checked_mul(self.page_size) {
                    Some(bytes) => Ok(
                        ProcData { pid: raw[i].pid, name: raw[i].comm.clone(), rss_memory: bytes },
                    ),
                    None => Err(Error::Proc),
                };
                rows.push(row);
                assert(rows@.map_values(|row: Result<ProcData, Error>| proc_view(row))
                    =~= before.map_values(|row: Result<ProcData, Error>| proc_view(row)).push(
                    proc_view(row),
                ));
            }
            i += 1;
        }
        assert(raw@.take(i as int) =~= raw@);
        Ok(rows)
    }
}

} // verus!
