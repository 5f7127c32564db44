//! Character-level scanning of kernel text tables: lines, whitespace-separated
//! fields, trimming and literal matching.
//!
//! Every executable function here works on a slice of characters and is
//! specified over the corresponding `Seq<char>`.

use vstd::prelude::*;

verus! {

/// `String::push` appends exactly one character to the end of the string.
pub assume_specification[ String::push ](s: &mut String, c: char)
    ensures
        final(s)@ == old(s)@.push(c),
;

/// `String::with_capacity` makes an empty string, whatever room it sets aside.
pub assume_specification[ String::with_capacity ](capacity: usize) -> (s: String)
    ensures
        s@ == Seq::<char>::empty(),
;

/// The characters of `s`, in order, as an indexable vector.
pub fn chars_of(s: &str) -> (v: Vec<char>)
    ensures
        v@ == s@,
{
    let mut v: Vec<char> = Vec::new();
    for c in it: s.chars()
        invariant
            v@ == it.seq().take(it.index()),
    {
        v.push(c);
    }
    v
}

/// The characters `s[from..to]` as an owned string.
pub fn string_of(s: &[char], from: usize, to: usize) -> (out: String)
    requires
        from <= to <= s.len(),
    ensures
        out@ == s@.subrange(from as int, to as int),
{
    let mut out = String::new();
    let mut i: usize = from;
    while i < to
        invariant
            from <= i <= to <= s.len(),
            out@ == s@.subrange(from as int, i as int),
        decreases to - i,
    {
        out.push(s[i]);
        i += 1;
        assert(s@.subrange(from as int, i as int) == s@.subrange(from as int, i - 1).push(
            s@[i - 1],
        ));
    }
    out
}

/// The five characters that count as ASCII whitespace.
pub open spec fn is_ascii_space(c: char) -> bool {
    c == ' ' || c == '\t' || c == '\n' || c == '\x0C' || c == '\r'
}

/// The characters with the Unicode `White_Space` property.
pub open spec fn is_unicode_space(c: char) -> bool {
    let u = c as u32;
    is_ascii_space(c) || u == 0x0B || u == 0x85 || u == 0xA0 || u == 0x1680 || (0x2000 <= u
        <= 0x200A) || u == 0x2028 || u == 0x2029 || u == 0x202F || u == 0x205F || u == 0x3000
}

/// Whitespace under the chosen convention: Unicode when `unicode`, ASCII otherwise.
pub open spec fn is_blank(c: char, unicode: bool) -> bool {
    if unicode {
        is_unicode_space(c)
    } else {
        is_ascii_space(c)
    }
}

/// Executable test for [`is_blank`].
pub fn blank(c: char, unicode: bool) -> (b: bool)
    ensures
        b == is_blank(c, unicode),
{
    let u: u32 = c as u32;
    let ascii = c == ' ' || c == '\t' || c == '\n' || c == '\x0C' || c == '\r';
    if unicode {
        ascii || u == 0x0B || u == 0x85 || u == 0xA0 || u == 0x1680 || (0x2000 <= u && u
            <= 0x200A) || u == 0x2028 || u == 0x2029 || u == 0x202F || u == 0x205F || u == 0x3000
    } else {
        ascii
    }
}

/// The first index at or after `i` that holds no whitespace, or the length.
pub open spec fn skip_blank(s: Seq<char>, i: int, unicode: bool) -> int
    decreases s.len() - i,
{
    if 0 <= i < s.len() && is_blank(s[i], unicode) {
        skip_blank(s, i + 1, unicode)
    } else {
        i
    }
}

/// The first index at or after `i` that holds whitespace, or the length.
pub open spec fn skip_word(s: Seq<char>, i: int, unicode: bool) -> int
    decreases s.len() - i,
{
    if 0 <= i < s.len() && !is_blank(s[i], unicode) {
        skip_word(s, i + 1, unicode)
    } else {
        i
    }
}

/// The maximal runs of non-whitespace characters of `s` that start at or
/// after `i`, in order.
pub open spec fn fields_from(s: Seq<char>, i: int, unicode: bool) -> Seq<Seq<char>>
    decreases s.len() - i,
{
    let start = skip_blank(s, i, unicode);
    let end = skip_word(s, start, unicode);
    if 0 <= i <= start < end <= s.len() {
        seq![s.subrange(start, end)] + fields_from(s, end, unicode)
    } else {
        Seq::empty()
    }
}

/// The whitespace-separated fields of `s`.
pub open spec fn fields(s: Seq<char>, unicode: bool) -> Seq<Seq<char>> {
    fields_from(s, 0, unicode)
}

/// The `k`-th whitespace-separated field of `s`, if there are that many.
pub open spec fn field(s: Seq<char>, k: int, unicode: bool) -> Option<Seq<char>> {
    if 0 <= k < fields(s, unicode).len() {
        Some(fields(s, unicode)[k])
    } else {
        None
    }
}

/// Finds the next field of `s` at or after `pos`: its start and end index.
pub fn next_field(s: &[char], pos: usize, unicode: bool) -> (r: Option<(usize, usize)>)
    requires
        pos <= s.len(),
    ensures
        match r {
            Some((start, end)) => {
                &&& pos <= start < end <= s.len()
                &&& start == skip_blank(s@, pos as int, unicode)
                &&& end == skip_word(s@, start as int, unicode)
                &&& fields_from(s@, pos as int, unicode) == seq![
                    s@.subrange(start as int, end as int),
                ] + fields_from(s@, end as int, unicode)
            },
            None => fields_from(s@, pos as int, unicode) == Seq::<Seq<char>>::empty(),
        },
{
    let mut start: usize = pos;
    while start < s.len() && blank(s[start], unicode)
        invariant
            pos <= start <= s.len(),
            skip_blank(s@, pos as int, unicode) == skip_blank(s@, start as int, unicode),
        decreases s.len() - start,
    {
        start += 1;
    }
    if start >= s.len() {
        return None;
    }
    let mut end: usize = start + 1;
    while end < s.len() && !blank(s[end], unicode)
        invariant
            start < end <= s.len(),
            !is_blank(s@[start as int], unicode),
            skip_word(s@, start as int, unicode) == skip_word(s@, end as int, unicode),
        decreases s.len() - end,
    {
        end += 1;
    }
    Some((start, end))
}

/// The index of the first line feed at or after `i`, or the length.
pub open spec fn line_end(s: Seq<char>, i: int) -> int
    decreases s.len() - i,
{
    if 0 <= i < s.len() && s[i] != '\n' {
        line_end(s, i + 1)
    } else {
        i
    }
}

/// Where the text of the line `s[start..end]` stops: a carriage return right
/// before the terminating line feed does not belong to the line.
pub open spec fn line_stop(s: Seq<char>, start: int, end: int) -> int {
    if start < end < s.len() && s[end - 1] == '\r' {
        end - 1
    } else {
        end
    }
}

/// The lines of `s` that start at or after `i`. A line ends at a line feed or
/// at the end of the text; the terminator is not part of the line, and
/// nothing follows a final terminator.
pub open spec fn lines_from(s: Seq<char>, i: int) -> Seq<Seq<char>>
    decreases s.len() + 1 - i,
{
    let end = line_end(s, i);
    if 0 <= i < s.len() && i <= end <= s.len() {
        seq![s.subrange(i, line_stop(s, i, end))] + lines_from(s, end + 1)
    } else {
        Seq::empty()
    }
}

/// The lines of `s`.
pub open spec fn lines(s: Seq<char>) -> Seq<Seq<char>> {
    lines_from(s, 0)
}

/// Finds the line that starts at `pos`: where its text stops and where the
/// next line starts.
pub fn next_line(s: &[char], pos: usize) -> (r: (usize, usize))
    requires
        pos < s.len(),
    ensures
        pos <= r.0 <= s.len(),
        pos < r.1 <= s.len(),
        r.0 <= r.1,
        r.0 == line_stop(s@, pos as int, line_end(s@, pos as int)),
        lines_from(s@, pos as int) == seq![s@.subrange(pos as int, r.0 as int)] + lines_from(
            s@,
            r.1 as int,
        ),
{
    let mut end: usize = pos;
    while end < s.len() && s[end] != '\n'
        invariant
            pos <= end <= s.len(),
            line_end(s@, pos as int) == line_end(s@, end as int),
        decreases s.len() - end,
    {
        end += 1;
    }
    let stop = if pos < end && end < s.len() && s[end - 1] == '\r' {
        end - 1
    } else {
        end
    };
    assert(line_end(s@, pos as int) == end);
    if end < s.len() {
        (stop, end + 1)
    } else {
        assert(lines_from(s@, end + 1) == Seq::<Seq<char>>::empty());
        assert(lines_from(s@, end as int) == Seq::<Seq<char>>::empty());
        (stop, end)
    }
}

/// Whether `pat` occurs in `s` starting at index `i`.
pub open spec fn occurs_at(s: Seq<char>, i: int, pat: Seq<char>) -> bool {
    0 <= i && i + pat.len() <= s.len() && s.subrange(i, i + pat.len()) == pat
}

/// Whether `s` begins with `pat`.
pub open spec fn has_prefix(s: Seq<char>, pat: Seq<char>) -> bool {
    occurs_at(s, 0, pat)
}

/// Whether `s` ends with `pat`.
pub open spec fn has_suffix(s: Seq<char>, pat: Seq<char>) -> bool {
    occurs_at(s, s.len() - pat.len(), pat)
}

/// Whether `pat` occurs anywhere in `s`.
pub open spec fn has_infix(s: Seq<char>, pat: Seq<char>) -> bool {
    exists|i: int| occurs_at(s, i, pat)
}

/// Executable test for [`occurs_at`].
pub fn matches_at(s: &[char], i: usize, pat: &[char]) -> (b: bool)
    ensures
        b == occurs_at(s@, i as int, pat@),
{
    if i > s.len() || pat.len() > s.len() - i {
        return false;
    }
    let mut k: usize = 0;
    while k < pat.len()
        invariant
            k <= pat.len(),
            i + pat.len() <= s.len(),
            forall|j: int| 0 <= j < k ==> s@[i + j] == pat@[j],
        decreases pat.len() - k,
    {
        if s[i + k] != pat[k] {
            assert(s@.subrange(i as int, i + pat.len())[k as int] != pat@[k as int]);
            return false;
        }
        k += 1;
    }
    assert(s@.subrange(i as int, i + pat.len()) =~= pat@);
    true
}

/// Executable test for [`has_prefix`].
pub fn starts_with(s: &[char], pat: &[char]) -> (b: bool)
    ensures
        b == has_prefix(s@, pat@),
{
    matches_at(s, 0, pat)
}

/// Executable test for [`has_suffix`].
pub fn ends_with(s: &[char], pat: &[char]) -> (b: bool)
    ensures
        b == has_suffix(s@, pat@),
{
    if pat.len() > s.len() {
        return false;
    }
    matches_at(s, s.len() - pat.len(), pat)
}

/// Executable test for [`has_infix`].
pub fn contains(s: &[char], pat: &[char]) -> (b: bool)
    ensures
        b == has_infix(s@, pat@),
{
    if pat.len() > s.len() {
        return false;
    }
    let last: usize = s.len() - pat.len();
    let mut i: usize = 0;
    while i <= last
        invariant
            last == s.len() - pat.len(),
            i <= last + 1,
            forall|j: int| 0 <= j < i ==> !occurs_at(s@, j, pat@),
        decreases last + 1 - i,
    {
        if matches_at(s, i, pat) {
            return true;
        }
        if i == last {
            return false;
        }
        i += 1;
    }
    false
}

/// `s` without its leading whitespace.
pub open spec fn trim_start(s: Seq<char>, unicode: bool) -> Seq<char> {
    s.subrange(skip_blank(s, 0, unicode), s.len() as int)
}

/// `s` without its trailing whitespace.
pub open spec fn trim_end(s: Seq<char>, unicode: bool) -> Seq<char>
    decreases s.len(),
{
    if s.len() > 0 && is_blank(s.last(), unicode) {
        trim_end(s.drop_last(), unicode)
    } else {
        s
    }
}

/// `s` without leading and trailing Unicode whitespace.
pub open spec fn trim(s: Seq<char>) -> Seq<char> {
    trim_end(trim_start(s, true), true)
}

/// The index at which the text of `s` starts once leading whitespace is dropped.
pub fn trim_start_index(s: &[char], unicode: bool) -> (start: usize)
    ensures
        start <= s.len(),
        start == skip_blank(s@, 0, unicode),
        s@.subrange(start as int, s.len() as int) == trim_start(s@, unicode),
{
    let mut start: usize = 0;
    while start < s.len() && blank(s[start], unicode)
        invariant
            start <= s.len(),
            skip_blank(s@, 0, unicode) == skip_blank(s@, start as int, unicode),
        decreases s.len() - start,
    {
        start += 1;
    }
    start
}

/// The index at which the text of `s[start..]` stops once trailing whitespace is dropped.
pub fn trim_end_index(s: &[char], start: usize, unicode: bool) -> (end: usize)
    requires
        start <= s.len(),
    ensures
        start <= end <= s.len(),
        s@.subrange(start as int, end as int) == trim_end(
            s@.subrange(start as int, s.len() as int),
            unicode,
        ),
{
    let mut end: usize = s.len();
    while end > start && blank(s[end - 1], unicode)
        invariant
            start <= end <= s.len(),
            trim_end(s@.subrange(start as int, s.len() as int), unicode) == trim_end(
                s@.subrange(start as int, end as int),
                unicode,
            ),
        decreases end - start,
    {
        assert(s@.subrange(start as int, end as int).drop_last() == s@.subrange(
            start as int,
            end - 1,
        ));
        end -= 1;
    }
    end
}

/// The bounds of `s` without leading and trailing Unicode whitespace.
pub fn trim_bounds(s: &[char]) -> (r: (usize, usize))
    ensures
        r.0 <= r.1 <= s.len(),
        s@.subrange(r.0 as int, r.1 as int) == trim(s@),
{
    let start = trim_start_index(s, true);
    let end = trim_end_index(s, start, true);
    (start, end)
}

/// `s` with every trailing repetition of `pat` removed.
pub open spec fn strip_trailing(s: Seq<char>, pat: Seq<char>) -> Seq<char>
    decreases s.len(),
{
    if pat.len() > 0 && has_suffix(s, pat) {
        strip_trailing(s.subrange(0, s.len() - pat.len()), pat)
    } else {
        s
    }
}

/// The length that is left of `s` once every trailing repetition of `pat` is removed.
pub fn strip_trailing_len(s: &[char], pat: &[char]) -> (end: usize)
    ensures
        end <= s.len(),
        s@.subrange(0, end as int) == strip_trailing(s@, pat@),
{
    let mut end: usize = s.len();
    if pat.len() == 0 {
        assert(s@.subrange(0, end as int) == s@);
        return end;
    }
    assert(s@.subrange(0, end as int) == s@);
    while end >= pat.len() && matches_at(s, end - pat.len(), pat)
        invariant
            end <= s.len(),
            pat.len() > 0,
            strip_trailing(s@, pat@) == strip_trailing(s@.subrange(0, end as int), pat@),
        decreases end,
    {
        proof {
            let cur = s@.subrange(0, end as int);
            assert(cur.subrange(end - pat.len(), end as int) == s@.subrange(
                end - pat.len(),
                end as int,
            ));
            assert(cur.subrange(0, end - pat.len()) == s@.subrange(0, end - pat.len()));
        }
        end -= pat.len();
    }
    proof {
        let cur = s@.subrange(0, end as int);
        if end >= pat.len() {
            assert(cur.subrange(end - pat.len(), end as int) == s@.subrange(
                end - pat.len(),
                end as int,
            ));
        }
    }
    end
}


/// The fields of `s` as index ranges, in order.
pub fn split_fields(s: &[char], unicode: bool) -> (r: Vec<(usize, usize)>)
    ensures
        r@.len() == fields(s@, unicode).len(),
        forall|k: int|
            0 <= k < r@.len() ==> {
                &&& (#[trigger] r@[k]).0 <= r@[k].1 <= s.len()
                &&& s@.subrange(r@[k].0 as int, r@[k].1 as int) == fields(s@, unicode)[k]
            },
{
    let mut r: Vec<(usize, usize)> = Vec::new();
    let mut pos: usize = 0;
    let ghost mut seen: Seq<Seq<char>> = Seq::empty();
    assert(seen + fields_from(s@, 0, unicode) =~= fields(s@, unicode));
    loop
        invariant
            pos <= s.len(),
            r@.len() == seen.len(),
            fields(s@, unicode) == seen + fields_from(s@, pos as int, unicode),
            forall|k: int|
                0 <= k < r@.len() ==> {
                    &&& (#[trigger] r@[k]).0 <= r@[k].1 <= s.len()
                    &&& s@.subrange(r@[k].0 as int, r@[k].1 as int) == seen[k]
                },
        ensures
            r@.len() == seen.len(),
            fields(s@, unicode) == seen,
            forall|k: int|
                0 <= k < r@.len() ==> {
                    &&& (#[trigger] r@[k]).0 <= r@[k].1 <= s.len()
                    &&& s@.subrange(r@[k].0 as int, r@[k].1 as int) == seen[k]
                },
        decreases s.len() - pos,
    {
        match next_field(s, pos, unicode) {
            Some((start, end)) => {
                proof {
                    let word = s@.subrange(start as int, end as int);
                    assert(seen + (seq![word] + fields_from(s@, end as int, unicode))
                        =~= seen.push(word) + fields_from(s@, end as int, unicode));
                    seen = seen.push(word);
                }
                r.push((start, end));
                pos = end;
            },
            None => {
                assert(seen + Seq::<Seq<char>>::empty() =~= seen);
                break ;
            },
        }
    }
    r
}

/// A walk over the lines of a text, front to back.
pub struct LineCursor<'a> {
    text: &'a [char],
    pos: usize,
    seen: Ghost<Seq<Seq<char>>>,
}

impl<'a> LineCursor<'a> {
    /// The cursor stands at the start of a line, and the lines it has handed
    /// out followed by those still ahead are the lines of the text.
    pub closed spec fn wf(&self) -> bool {
        &&& self.pos <= self.text@.len()
        &&& lines(self.text@) == self.seen@ + lines_from(self.text@, self.pos as int)
    }

    /// The text that is walked.
    pub closed spec fn source(&self) -> Seq<char> {
        self.text@
    }

    /// The lines handed out so far.
    pub closed spec fn seen(&self) -> Seq<Seq<char>> {
        self.seen@
    }

    /// The lines that are still ahead.
    pub closed spec fn ahead(&self) -> Seq<Seq<char>> {
        lines_from(self.text@, self.pos as int)
    }

    /// A cursor before the first line of `text`.
    pub fn new(text: &'a [char]) -> (c: Self)
        ensures
            c.wf(),
            c.source() == text@,
            c.seen() == Seq::<Seq<char>>::empty(),
            c.ahead() == lines(text@),
    {
        assert(Seq::<Seq<char>>::empty() + lines_from(text@, 0) =~= lines(text@));
        LineCursor { text, pos: 0, seen: Ghost(Seq::empty()) }
    }

    /// The lines handed out and the lines ahead make up the text.
    pub proof fn lemma_split(&self)
        requires
            self.wf(),
        ensures
            lines(self.source()) == self.seen() + self.ahead(),
    {
    }

    /// The lines handed out so far are the first lines of the text.
    pub proof fn lemma_prefix(&self)
        requires
            self.wf(),
        ensures
            self.seen().len() <= lines(self.source()).len(),
            self.seen() == lines(self.source()).take(self.seen().len() as int),
    {
        assert((self.seen@ + lines_from(self.text@, self.pos as int)).take(
            self.seen@.len() as int,
        ) =~= self.seen@);
    }

    /// Hands out the next line, or `None` once every line was handed out.
    pub fn next(&mut self) -> (r: Option<&'a [char]>)
        requires
            old(self).wf(),
        ensures
            final(self).wf(),
            final(self).source() == old(self).source(),
            match r {
                Some(line) => {
                    &&& final(self).seen() == old(self).seen().push(line@)
                    &&& old(self).ahead() == seq![line@] + final(self).ahead()
                },
                None => {
                    &&& final(self).seen() == old(self).seen()
                    &&& final(self).seen() == lines(final(self).source())
                    &&& old(self).ahead() == Seq::<Seq<char>>::empty()
                    &&& final(self).ahead() == Seq::<Seq<char>>::empty()
                },
            },
    {
        if self.pos >= self.text.len() {
            assert(self.seen@ + Seq::<Seq<char>>::empty() =~= self.seen@);
            return None;
        }
        let (stop, next) = next_line(self.text, self.pos);
        let line = vstd::slice::slice_subrange(self.text, self.pos, stop);
        proof {
            assert(self.seen@ + (seq![line@] + lines_from(self.text@, next as int))
                =~= self.seen@.push(line@) + lines_from(self.text@, next as int));
            self.seen@ = self.seen@.push(line@);
        }
        self.pos = next;
        Some(line)
    }
}

/// Whether `s` is exactly the text `lit`.
pub fn is_text(s: &[char], lit: &str) -> (b: bool)
    ensures
        b == (s@ == lit@),
{
    let pat = chars_of(lit);
    if pat.len() != s.len() {
        return false;
    }
    let b = matches_at(s, 0, pat.as_slice());
    assert(s@.subrange(0, s.len() as int) == s@);
    b
}

/// The first index at or after `i` at which `pat` occurs in `s`; -1 where
/// it does not occur there.
pub open spec fn find_from(s: Seq<char>, pat: Seq<char>, i: int) -> int
    decreases s.len() + 1 - i,
{
    if i < 0 || i + pat.len() > s.len() {
        -1
    } else if occurs_at(s, i, pat) {
        i
    } else {
        find_from(s, pat, i + 1)
    }
}

/// Finds the first occurrence of `pat` in `s` at or after `from`.
pub fn find(s: &[char], pat: &[char], from: usize) -> (r: Option<usize>)
    ensures
        match r {
            Some(k) => k == find_from(s@, pat@, from as int) && from <= k && k + pat.len()
                <= s.len(),
            None => find_from(s@, pat@, from as int) == -1,
        },
{
    if from > s.len() || pat.len() > s.len() - from {
        return None;
    }
    let last: usize = s.len() - pat.len();
    let mut i: usize = from;
    while i <= last
        invariant
            last == s.len() - pat.len(),
            from <= i <= last + 1,
            find_from(s@, pat@, from as int) == find_from(s@, pat@, i as int),
        decreases last + 1 - i,
    {
        if matches_at(s, i, pat) {
            return Some(i);
        }
        if i == last {
            assert(find_from(s@, pat@, i + 1) == -1);
            return None;
        }
        i += 1;
    }
    None
}

} // verus!
