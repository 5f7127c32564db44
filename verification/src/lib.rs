//! Host telemetry: decoding kernel statistics, integrating power into energy
//! and rendering a metrics snapshot in the text exposition format.

use vstd::prelude::*;

pub mod data;
pub mod disk;
pub mod docker;
pub mod encode;
pub mod gpu;
pub mod hwmon;
pub mod metrics;
pub mod number;
pub mod nvidia;
pub mod power;
pub mod proc;
pub mod sensors;
pub mod temperature;
pub mod text;
pub mod win;
pub mod zfs;

verus! {

/// Why a reading could not be produced.
#[derive(Debug, Clone)]
pub enum Error {
    /// An input or output operation failed; the text says which.
    Io(&'static str),
    /// A call into the operating system failed; the text says which.
    Os(&'static str),
    /// Any other failure, described in words.
    Other(String),
    /// The host name is not valid UTF-8.
    InvalidHostName,
    /// A field that should hold a whole number does not.
    InvalidIntData,
    /// A field that should hold a fractional number does not.
    InvalidFloatData,
    /// Text that should be UTF-8 is not.
    InvalidStringData,
    /// A path holds a zero byte.
    InvalidCStringData,
    /// The process table could not be read.
    Proc,
    /// The file system statistics of a mount point could not be queried.
    StatVfs,
}

impl Error {
    /// What went wrong, in words.
    pub open spec fn text(&self) -> Seq<char> {
        match self {
            Error::Io(context) => context@,
            Error::Os(context) => context@,
            Error::Other(message) => message@,
            Error::InvalidHostName => "Non UTF8 hostname"@,
            Error::InvalidIntData => "invalid whole number"@,
            Error::InvalidFloatData => "invalid fractional number"@,
            Error::InvalidStringData => "invalid UTF-8 text"@,
            Error::InvalidCStringData => "zero byte in a path"@,
            Error::Proc => "error reading the process table"@,
            Error::StatVfs => "Failed to query vfs stats"@,
        }
    }

    /// What went wrong, in words.
    pub fn message(&self) -> (m: String)
        ensures
            m@ == self.text(),
    {
        match self {
            Error::Io(context) => (*context).to_owned(),
            Error::Os(context) => (*context).to_owned(),
            Error::Other(message) => message.clone(),
            Error::InvalidHostName => "Non UTF8 hostname".to_owned(),
            Error::InvalidIntData => "invalid whole number".to_owned(),
            Error::InvalidFloatData => "invalid fractional number".to_owned(),
            Error::InvalidStringData => "invalid UTF-8 text".to_owned(),
            Error::InvalidCStringData => "zero byte in a path".to_owned(),
            Error::Proc => "error reading the process table".to_owned(),
            Error::StatVfs => "Failed to query vfs stats".to_owned(),
        }
    }
}

/// `String::from_utf8` turns bytes into a string where they are valid
/// UTF-8, and refuses them where they are not.
#[verifier::external_body]
fn string_from_utf8(bytes: Vec<u8>) -> (r: Option<String>)
    ensures
        match r {
            Some(s) => vstd::utf8::valid_utf8(bytes@) && s@ == vstd::utf8::decode_utf8(bytes@),
            None => !vstd::utf8::valid_utf8(bytes@),
        },
{
    String::from_utf8(bytes).ok()
}

/// The name of the host, from the bytes that the operating system gave for
/// it; `None` stands for a name that could not be obtained.
pub fn hostname(raw: Option<Vec<u8>>) -> (r: Result<String, Error>)
    ensures
        match raw {
            None => r == Err::<String, Error>(Error::Io("error getting hostname")),
            Some(bytes) => if vstd::utf8::valid_utf8(bytes@) {
                r matches Ok(name) && name@ == vstd::utf8::decode_utf8(bytes@)
            } else {
                r == Err::<String, Error>(Error::InvalidHostName)
            },
        },
{
    match raw {
        None => Err(Error::Io("error getting hostname")),
        Some(bytes) => match string_from_utf8(bytes) {
            Some(name) => Ok(name),
            None => Err(Error::InvalidHostName),
        },
    }
}

/// A reading that can be rendered as samples of the exposition format.
pub trait SensorData {
    /// The samples of this reading, as they are written for `hostname`.
    spec fn rendered(&self, hostname: Seq<char>) -> Seq<char>;

    /// The samples of a reading are whole lines.
    proof fn lemma_whole_lines(&self, hostname: Seq<char>)
        ensures
            encode::whole_lines(self.rendered(hostname)),
    ;

    /// Appends the samples of this reading to `w`.
    fn write(&self, w: &mut String, hostname: &str)
        ensures
            final(w)@ == old(w)@ + self.rendered(hostname@),
    ;
}

/// A source that decodes one reading from what was read for it.
pub trait SensorSource {
    /// The reading that the source produces.
    type Data: SensorData;

    /// What is read for the source before it decodes.
    type Raw;

    /// Decodes one reading.
    fn read(&mut self, raw: &Self::Raw) -> Result<Self::Data, Error>;
}

/// A source that decodes a list of readings from what was read for it.
pub trait MultiSensorSource {
    /// The reading that the source produces.
    type Data: SensorData;

    /// What is read for the source before it decodes.
    type Raw;

    /// Decodes the readings, each of which may fail on its own.
    fn read(&mut self, raw: &Self::Raw) -> Result<Vec<Result<Self::Data, Error>>, Error>;
}

/// The samples of a list of readings, in order.
pub open spec fn rendered_all<T: SensorData>(items: Seq<T>, hostname: Seq<char>) -> Seq<char>
    decreases items.len(),
{
    if items.len() == 0 {
        Seq::empty()
    } else {
        rendered_all(items.drop_last(), hostname) + items.last().rendered(hostname)
    }
}

/// The samples of a list of readings are whole lines.
pub proof fn lemma_rendered_all_whole<T: SensorData>(items: Seq<T>, hostname: Seq<char>)
    ensures
        encode::whole_lines(rendered_all(items, hostname)),
    decreases items.len(),
{
    if items.len() > 0 {
        lemma_rendered_all_whole(items.drop_last(), hostname);
        items.last().lemma_whole_lines(hostname);
        encode::lemma_concat_whole(
            rendered_all(items.drop_last(), hostname),
            items.last().rendered(hostname),
        );
    }
}

/// Appends the samples of every reading of `items`, in order.
pub fn write_all<T: SensorData>(items: &Vec<T>, w: &mut String, hostname: &str)
    ensures
        final(w)@ == old(w)@ + rendered_all(items@, hostname@),
{
    let mut i: usize = 0;
    assert(items@.take(0) == Seq::<T>::empty());
    assert(w@ =~= old(w)@ + rendered_all(items@.take(0), hostname@));
    while i < items.len()
        invariant
            i <= items.len(),
            w@ == old(w)@ + rendered_all(items@.take(i as int), hostname@),
        decreases items.len() - i,
    {
        items[i].write(w, hostname);
        proof {
            let next = items@.take(i + 1);
            assert(next.drop_last() == items@.take(i as int));
            assert(next.last() == items@[i as int]);
            assert(w@ =~= old(w)@ + rendered_all(next, hostname@));
        }
        i += 1;
    }
    assert(items@.take(i as int) == items@);
}

impl<T: SensorData> SensorData for Vec<T> {
    /// The samples of the readings, in order.
    open spec fn rendered(&self, hostname: Seq<char>) -> Seq<char> {
        rendered_all(self@, hostname)
    }

    proof fn lemma_whole_lines(&self, hostname: Seq<char>) {
        lemma_rendered_all_whole(self@, hostname);
    }

    fn write(&self, w: &mut String, hostname: &str) {
        write_all(self, w, hostname)
    }
}

impl<T: SensorData> SensorData for Option<T> {
    /// The samples of the reading, or nothing where there is none.
    open spec fn rendered(&self, hostname: Seq<char>) -> Seq<char> {
        match self {
            Some(data) => data.rendered(hostname),
            None => Seq::empty(),
        }
    }

    proof fn lemma_whole_lines(&self, hostname: Seq<char>) {
        if let Some(data) = self {
            data.lemma_whole_lines(hostname);
        }
    }

    fn write(&self, w: &mut String, hostname: &str) {
        match self {
            Some(data) => data.write(w, hostname),
            None => {
                assert(w@ =~= old(w)@ + Seq::<char>::empty());
            },
        }
    }
}

impl<T: SensorData> SensorData for Result<T, Error> {
    /// The samples of the reading, or nothing where it failed.
    open spec fn rendered(&self, hostname: Seq<char>) -> Seq<char> {
        match self {
            Ok(data) => data.rendered(hostname),
            Err(_) => Seq::empty(),
        }
    }

    proof fn lemma_whole_lines(&self, hostname: Seq<char>) {
        if let Ok(data) = self {
            data.lemma_whole_lines(hostname);
        }
    }

    fn write(&self, w: &mut String, hostname: &str) {
        match self {
            Ok(data) => data.write(w, hostname),
            Err(_) => {
                assert(w@ =~= old(w)@ + Seq::<char>::empty());
            },
        }
    }
}

} // verus!
