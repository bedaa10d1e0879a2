//! Counting adjacent repeated lines, as `uniq` does.

use vstd::prelude::*;
use vstd::string::*;

use crate::wc::white_space;

verus! {

/// The decimal digits of `n`, most significant first.
pub open spec fn decimal(n: nat) -> Seq<char>
    decreases n,
{
    if n < 10 {
        seq![digit_char(n)]
    } else {
        decimal(n / 10).push(digit_char(n % 10))
    }
}

pub open spec fn digit_char(d: nat) -> char {
    ((d + '0' as nat) as u32) as char
}

/// `s` padded on the left with spaces to at least `width` characters.
pub open spec fn pad_left(s: Seq<char>, width: nat) -> Seq<char> {
    if s.len() < width {
        Seq::new((width - s.len()) as nat, |i: int| ' ') + s
    } else {
        s
    }
}

/// Relies on `format!` with `{:>4} `: the decimal form of `count`, right
/// aligned in four columns, then one space.
#[verifier::external_body]
fn render_count(count: u64) -> (r: String)
    ensures
        r@ == pad_left(decimal(count as nat), 4) + seq![' '],
{
    format!("{:>4} ", count)
}

/// The prefix of an output line: the count right aligned in four columns and
/// a space when counts are shown and the count is positive, else nothing.
pub fn format_count(count: u64, show: bool) -> (r: String)
    ensures
        r@ == if count > 0 && show {
            pad_left(decimal(count as nat), 4) + seq![' ']
        } else {
            Seq::<char>::empty()
        },
{
    if count > 0 && show {
        render_count(count)
    } else {
        String::new()
    }
}

/// `s` without its trailing white space.
pub open spec fn trim_end_of(s: Seq<char>) -> Seq<char>
    decreases s.len(),
{
    if s.len() > 0 && white_space(s.last()) {
        trim_end_of(s.drop_last())
    } else {
        s
    }
}

/// Relies on `str::trim_end`: drops the trailing characters with the
/// Unicode `White_Space` property.
#[verifier::external_body]
fn trim_end(s: &str) -> (r: String)
    ensures
        r@ == trim_end_of(s@),
{
    s.trim_end().to_string()
}

/// The prefix `format_count` gives.
pub open spec fn count_prefix(count: nat, show: bool) -> Seq<char> {
    if count > 0 && show {
        pad_left(decimal(count), 4) + seq![' ']
    } else {
        Seq::empty()
    }
}

/// Folds runs of adjacent lines that are equal up to trailing white space.
/// Lines are fed as read, terminator included; each run is written once,
/// as its first line, after its length when counts are shown.
pub struct Uniq {
    last: String,
    count: u64,
    show: bool,
}

impl Uniq {
    /// The first line of the current run (empty before any line).
    pub closed spec fn last_line(&self) -> Seq<char> {
        self.last@
    }

    /// The length of the current run.
    pub closed spec fn run_length(&self) -> nat {
        self.count as nat
    }

    pub closed spec fn shows_counts(&self) -> bool {
        self.show
    }

    pub fn new(show: bool) -> (r: Self)
        ensures
            r.last_line() == Seq::<char>::empty(),
            r.run_length() == 0,
            r.shows_counts() == show,
    {
        Uniq { last: String::new(), count: 0, show }
    }

    /// The length of the current run.
    pub fn count(&self) -> (r: u64)
        ensures
            r == self.run_length(),
    {
        self.count
    }

    /// Takes the next line and returns the text to write: the finished run
    /// when `line` starts a new one, nothing otherwise.
    pub fn push_line(&mut self, line: String) -> (r: String)
        requires
            old(self).run_length() < u64::MAX,
        ensures
            final(self).shows_counts() == old(self).shows_counts(),
            if trim_end_of(line@) != trim_end_of(old(self).last_line()) {
                &&& r@ == count_prefix(old(self).run_length(), old(self).shows_counts()) + old(
                    self,
                ).last_line()
                &&& final(self).last_line() == line@
                &&& final(self).run_length() == 1
            } else {
                &&& r@ == Seq::<char>::empty()
                &&& final(self).last_line() == old(self).last_line()
                &&& final(self).run_length() == old(self).run_length() + 1
            },
    {
        let a = trim_end(line.as_str());
        let b = trim_end(self.last.as_str());
        if a != b {
            let mut out = format_count(self.count, self.show);
            out.append(self.last.as_str());
            self.last = line;
            self.count = 1;
            out
        } else {
            self.count = self.count + 1;
            String::new()
        }
    }

    /// The text that closes the input: the last run.
    pub fn finish(&self) -> (r: String)
        ensures
            r@ == count_prefix(self.run_length(), self.shows_counts()) + self.last_line(),
    {
        let mut out = format_count(self.count, self.show);
        out.append(self.last.as_str());
        out
    }
}

} // verus!
