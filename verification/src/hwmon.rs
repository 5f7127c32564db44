//! Hardware-monitor devices and their channels, and the reader that asks
//! for one reopen before it gives a read up.

use crate::number::{i64_of, parse_i64, parse_u64, u64_of};
use crate::text::{
    chars_of, ends_with, has_suffix, is_text, string_of, strip_trailing, strip_trailing_len,
    trim, trim_bounds,
};
use vstd::prelude::*;
use vstd::slice::slice_subrange;
use vstd::string::StringExecFns;

verus! {

/// The unsigned number that the contents of a sensor file hold, whitespace aside.
pub open spec fn reading_of(contents: Seq<char>) -> Option<u64> {
    u64_of(trim(contents))
}

/// The signed number that the contents of a sensor file hold, whitespace aside.
pub open spec fn signed_reading_of(contents: Seq<char>) -> Option<i64> {
    i64_of(trim(contents))
}

/// Reads the unsigned number that the contents of a sensor file hold.
pub fn parse_reading(contents: &str) -> (r: Option<u64>)
    ensures
        r == reading_of(contents@),
{
    let chars = chars_of(contents);
    let (from, to) = trim_bounds(chars.as_slice());
    parse_u64(slice_subrange(chars.as_slice(), from, to))
}

/// Reads the signed number that the contents of a sensor file hold.
pub fn parse_signed_reading(contents: &str) -> (r: Option<i64>)
    ensures
        r == signed_reading_of(contents@),
{
    let chars = chars_of(contents);
    let (from, to) = trim_bounds(chars.as_slice());
    parse_i64(slice_subrange(chars.as_slice(), from, to))
}

/// What to do after one attempt to read a sensor file.
#[derive(Debug, Clone, Copy, PartialEq, Eq)]
pub enum ReadStep<T> {
    /// The attempt gave a value: the read is done.
    Deliver(T),
    /// The attempt failed for the first time: open the file anew and try once more.
    Reopen,
    /// The attempt after the reopen failed too: the read has failed.
    GiveUp,
}

/// The step after an attempt: a value is delivered; a failure asks for one
/// reopen, and after that reopen gives the read up.
pub open spec fn step_after<T>(retried: bool, value: Option<T>) -> ReadStep<T> {
    match value {
        Some(v) => ReadStep::Deliver(v),
        None => if retried {
            ReadStep::GiveUp
        } else {
            ReadStep::Reopen
        },
    }
}

/// The reader of one sensor file: where the file lives, and whether the
/// read under way has used up its reopen.
#[derive(Debug)]
pub struct FileSource {
    path: String,
    retried: bool,
}

impl FileSource {
    /// The path of the file.
    pub closed spec fn path_text(&self) -> Seq<char> {
        self.path@
    }

    /// Whether the read under way has used up its reopen.
    pub closed spec fn retried(&self) -> bool {
        self.retried
    }

    /// A reader for the file at `path`, with no read under way.
    pub fn open(path: String) -> (source: Self)
        ensures
            source.path_text() == path@,
            !source.retried(),
    {
        FileSource { path, retried: false }
    }

    /// The path of the file.
    pub fn path(&self) -> (p: &str)
        ensures
            p@ == self.path_text(),
    {
        self.path.as_str()
    }

    /// Takes the outcome of one attempt, `None` standing for an attempt
    /// that failed, and says how the read goes on. The read is under way
    /// exactly as long as the answer is to reopen.
    pub fn after_attempt<T>(&mut self, value: Option<T>) -> (step: ReadStep<T>)
        ensures
            step == step_after(old(self).retried(), value),
            final(self).retried() == (step is Reopen),
            final(self).path_text() == old(self).path_text(),
    {
        match value {
            Some(v) => {
                self.retried = false;
                ReadStep::Deliver(v)
            },
            None => {
                if self.retried {
                    self.retried = false;
                    ReadStep::GiveUp
                } else {
                    self.retried = true;
                    ReadStep::Reopen
                }
            },
        }
    }

    /// Takes the contents that one attempt read, `None` standing for a
    /// failed attempt, decodes them as an unsigned number and says how the
    /// read goes on.
    pub fn read(&mut self, contents: Option<&str>) -> (step: ReadStep<u64>)
        ensures
            step == step_after(
                old(self).retried(),
                match contents {
                    Some(text) => reading_of(text@),
                    None => None,
                },
            ),
            final(self).retried() == (step is Reopen),
            final(self).path_text() == old(self).path_text(),
    {
        let value = match contents {
            Some(text) => parse_reading(text),
            None => None,
        };
        self.after_attempt(value)
    }

    /// As [`FileSource::read`], for a signed number.
    pub fn read_signed(&mut self, contents: Option<&str>) -> (step: ReadStep<i64>)
        ensures
            step == step_after(
                old(self).retried(),
                match contents {
                    Some(text) => signed_reading_of(text@),
                    None => None,
                },
            ),
            final(self).retried() == (step is Reopen),
            final(self).path_text() == old(self).path_text(),
    {
        let value = match contents {
            Some(text) => parse_signed_reading(text),
            None => None,
        };
        self.after_attempt(value)
    }

    /// Notes that the file could not be opened anew: the read has failed.
    pub fn reopen_failed(&mut self)
        ensures
            !final(self).retried(),
            final(self).path_text() == old(self).path_text(),
    {
        self.retried = false;
    }
}

/// A read never asks for a second reopen: after the answer to reopen, the
/// next attempt ends the read.
pub proof fn lemma_one_reopen<T>(first: Option<T>, second: Option<T>)
    requires
        step_after(false, first) is Reopen,
    ensures
        !(step_after(true, second) is Reopen),
{
}

/// Where the label of a channel comes from.
#[derive(Debug)]
pub enum Channel {
    /// The channel has this fixed label.
    Named(String),
    /// The label is the trimmed contents of the file of this name, beside
    /// the channel's input file.
    Labelled(String),
}

/// Where the label of a channel comes from, as a plain value: `Ok` holds a
/// fixed label, `Err` the name of the label file.
pub open spec fn channel_view(c: Option<Channel>) -> Option<Result<Seq<char>, Seq<char>>> {
    match c {
        Some(Channel::Named(label)) => Some(Ok(label@)),
        Some(Channel::Labelled(file)) => Some(Err(file@)),
        None => None,
    }
}

/// The channel that a file of a device stands for. Only files whose name
/// ends in `_input` are channels. The first temperature input of the
/// devices `cpu_thermal` and `soc_thermal` is the die, that of `gpu_thermal`
/// the edge; every other channel has a label file, named like the input
/// with `_label` in place of `_input`.
pub open spec fn channel_of(device: Seq<char>, file: Seq<char>) -> Option<
    Result<Seq<char>, Seq<char>>,
> {
    if !has_suffix(file, "_input"@) {
        None
    } else if (device == "cpu_thermal"@ || device == "soc_thermal"@) && file == "temp1_input"@ {
        Some(Ok("Tdie"@))
    } else if device == "gpu_thermal"@ && file == "temp1_input"@ {
        Some(Ok("edge"@))
    } else {
        Some(Err(strip_trailing(file, "_input"@) + "_label"@))
    }
}

/// A hardware-monitor device.
#[derive(Debug)]
pub struct Device {
    base_path: String,
    name: String,
}

impl Device {
    /// The directory of the device.
    pub closed spec fn path_text(&self) -> Seq<char> {
        self.base_path@
    }

    /// The name that the device declares.
    pub closed spec fn name_text(&self) -> Seq<char> {
        self.name@
    }

    /// The device in the directory `path` whose name file holds `name_file`:
    /// its name is what the file holds, whitespace aside.
    pub fn new(path: String, name_file: &str) -> (device: Device)
        ensures
            device.path_text() == path@,
            device.name_text() == trim(name_file@),
    {
        let chars = chars_of(name_file);
        let (from, to) = trim_bounds(chars.as_slice());
        Device { base_path: path, name: string_of(chars.as_slice(), from, to) }
    }

    /// The name that the device declares.
    pub fn name(&self) -> (n: &str)
        ensures
            n@ == self.name_text(),
    {
        self.name.as_str()
    }

    /// The directory of the device.
    pub fn base_path(&self) -> (p: &str)
        ensures
            p@ == self.path_text(),
    {
        self.base_path.as_str()
    }

    /// The channel that the file `file_name` of this device stands for.
    pub fn channel(&self, file_name: &str) -> (c: Option<Channel>)
        ensures
            channel_view(c) == channel_of(self.name_text(), file_name@),
    {
        let file = chars_of(file_name);
        let name = chars_of(self.name.as_str());
        let suffix = chars_of("_input");
        if !ends_with(file.as_slice(), suffix.as_slice()) {
            return None;
        }
        let first_input = is_text(file.as_slice(), "temp1_input");
        if first_input && (is_text(name.as_slice(), "cpu_thermal") || is_text(
            name.as_slice(),
            "soc_thermal",
        )) {
            return Some(Channel::Named("Tdie".to_owned()));
        }
        if first_input && is_text(name.as_slice(), "gpu_thermal") {
            return Some(Channel::Named("edge".to_owned()));
        }
        let keep = strip_trailing_len(file.as_slice(), suffix.as_slice());
        let mut label_file = string_of(file.as_slice(), 0, keep);
        label_file.append("_label");
        Some(Channel::Labelled(label_file))
    }

    /// The sensor of this device with the input file `input_path` and the
    /// label `label`, which is taken whitespace aside.
    pub fn sensor(&self, input_path: String, label: &str) -> (s: Sensor)
        ensures
            s.path_text() == input_path@,
            s.name_text() == trim(label@),
    {
        let chars = chars_of(label);
        let (from, to) = trim_bounds(chars.as_slice());
        Sensor { input_path, name: string_of(chars.as_slice(), from, to) }
    }
}

/// One channel of a device: its input file and its label.
#[derive(Debug)]
pub struct Sensor {
    input_path: String,
    name: String,
}

impl Sensor {
    /// The path of the input file.
    pub closed spec fn path_text(&self) -> Seq<char> {
        self.input_path@
    }

    /// The label of the channel.
    pub closed spec fn name_text(&self) -> Seq<char> {
        self.name@
    }

    /// The label of the channel.
    pub fn name(&self) -> (n: &str)
        ensures
            n@ == self.name_text(),
    {
        self.name.as_str()
    }

    /// The path of the input file.
    pub fn input_path(&self) -> (p: &str)
        ensures
            p@ == self.path_text(),
    {
        self.input_path.as_str()
    }

    /// A reader for the input file, with no read under way.
    pub fn reader(&self) -> (source: FileSource)
        ensures
            source.path_text() == self.path_text(),
            !source.retried(),
    {
        FileSource::open(self.input_path.clone())
    }
}

} // verus!
