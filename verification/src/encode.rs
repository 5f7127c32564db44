//! The text exposition format: one sample per line, written as
//! `family{host="..", key="value"} number` and closed by a line feed.

use crate::number::{
    decimal, fixed_point, push_decimal, push_fixed, round_ratio, rounded_ratio,
};
use vstd::prelude::*;
use vstd::string::StringExecFns;

verus! {

/// The start of a sample: the family name and the host label.
pub open spec fn head(family: Seq<char>, hostname: Seq<char>) -> Seq<char> {
    family + "{host=\""@ + hostname + seq!['"']
}

/// One more label, after the host label.
pub open spec fn label(key: Seq<char>, value: Seq<char>) -> Seq<char> {
    ", "@ + key + "=\""@ + value + seq!['"']
}

/// The end of a sample: the value and the line feed.
pub open spec fn tail(value: Seq<char>) -> Seq<char> {
    "} "@ + value + seq!['\n']
}

/// A whole sample line; `labels` holds the labels that follow the host label.
pub open spec fn sample(
    family: Seq<char>,
    hostname: Seq<char>,
    labels: Seq<char>,
    value: Seq<char>,
) -> Seq<char> {
    head(family, hostname) + labels + tail(value)
}

/// A signed whole number in base ten.
pub open spec fn signed_decimal(v: int) -> Seq<char> {
    if v < 0 {
        seq!['-'] + decimal((-v) as nat)
    } else {
        decimal(v as nat)
    }
}

/// The quotient `n / d` with `places` fractional digits, rounded to the
/// nearest last digit.
pub open spec fn ratio(n: nat, d: nat, places: nat) -> Seq<char> {
    fixed_point(rounded_ratio(n, d, places), places)
}

/// A count of millionths written as units with three fractional digits.
pub open spec fn millionths(v: nat) -> Seq<char> {
    ratio(v, 1_000_000, 3)
}

/// A signed count of thousandths written as units with one fractional
/// digit; a negative count keeps its sign even where it rounds to zero.
pub open spec fn thousandths(v: int) -> Seq<char> {
    if v < 0 {
        seq!['-'] + ratio((-v) as nat, 1000, 1)
    } else {
        ratio(v as nat, 1000, 1)
    }
}

/// Whether a text is made of whole lines: it is empty or ends with a line feed.
pub open spec fn whole_lines(text: Seq<char>) -> bool {
    text.len() == 0 || text.last() == '\n'
}

/// Every sample is a whole line.
pub proof fn lemma_sample_whole(
    family: Seq<char>,
    hostname: Seq<char>,
    labels: Seq<char>,
    value: Seq<char>,
)
    ensures
        whole_lines(sample(family, hostname, labels, value)),
        sample(family, hostname, labels, value).len() > 0,
{
}

/// Whole lines after whole lines are whole lines.
pub proof fn lemma_concat_whole(a: Seq<char>, b: Seq<char>)
    requires
        whole_lines(a),
        whole_lines(b),
    ensures
        whole_lines(a + b),
{
    if b.len() == 0 {
        assert(a + b =~= a);
    } else {
        assert((a + b).last() == b.last());
    }
}

/// Appends the start of a sample.
pub fn push_head(w: &mut String, family: &str, hostname: &str)
    ensures
        final(w)@ == old(w)@ + head(family@, hostname@),
{
    w.append(family);
    w.append("{host=\"");
    w.append(hostname);
    w.push('"');
    assert(w@ =~= old(w)@ + head(family@, hostname@));
}

/// Appends one more label.
pub fn push_label(w: &mut String, key: &str, value: &str)
    ensures
        final(w)@ == old(w)@ + label(key@, value@),
{
    w.append(", ");
    w.append(key);
    w.append("=\"");
    w.append(value);
    w.push('"');
    assert(w@ =~= old(w)@ + label(key@, value@));
}

/// Appends the end of a sample whose value is a whole number.
pub fn push_tail(w: &mut String, value: u64)
    ensures
        final(w)@ == old(w)@ + tail(decimal(value as nat)),
{
    w.append("} ");
    push_decimal(w, value as u128);
    w.push('\n');
    assert(w@ =~= old(w)@ + tail(decimal(value as nat)));
}

/// Appends the end of a sample whose value is the quotient `n / d`, written
/// with `places` fractional digits.
pub fn push_tail_ratio(w: &mut String, n: u64, d: u64, places: u32)
    requires
        d > 0,
        places <= 18,
    ensures
        final(w)@ == old(w)@ + tail(ratio(n as nat, d as nat, places as nat)),
{
    w.append("} ");
    let scaled = round_ratio(n as u128, d as u128, places);
    push_fixed(w, scaled, places);
    w.push('\n');
    assert(w@ =~= old(w)@ + tail(ratio(n as nat, d as nat, places as nat)));
}

/// Appends a signed whole number.
pub fn push_signed(w: &mut String, v: i64)
    ensures
        final(w)@ == old(w)@ + signed_decimal(v as int),
{
    if v < 0 {
        w.push('-');
        let magnitude: u128 = (-(v as i128)) as u128;
        push_decimal(w, magnitude);
        assert(w@ =~= old(w)@ + signed_decimal(v as int));
    } else {
        push_decimal(w, v as u128);
    }
}

/// Appends a sample with the host label alone and a whole number.
pub fn push_sample(w: &mut String, family: &str, hostname: &str, value: u64)
    ensures
        final(w)@ == old(w)@ + sample(
            family@,
            hostname@,
            Seq::empty(),
            decimal(value as nat),
        ),
{
    push_head(w, family, hostname);
    push_tail(w, value);
    assert(w@ =~= old(w)@ + sample(family@, hostname@, Seq::empty(), decimal(value as nat)));
}

/// Appends a sample with one label beside the host and a whole number.
pub fn push_labelled(
    w: &mut String,
    family: &str,
    hostname: &str,
    key: &str,
    name: &str,
    value: u64,
)
    ensures
        final(w)@ == old(w)@ + sample(
            family@,
            hostname@,
            label(key@, name@),
            decimal(value as nat),
        ),
{
    push_head(w, family, hostname);
    push_label(w, key, name);
    push_tail(w, value);
    assert(w@ =~= old(w)@ + sample(
        family@,
        hostname@,
        label(key@, name@),
        decimal(value as nat),
    ));
}

} // verus!
