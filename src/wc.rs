//! Line, word, byte and character counts of a text, as `wc` reports them.

use vstd::prelude::*;
use vstd::string::*;
use vstd::utf8::encode_utf8;

use crate::uniq::{decimal, pad_left};

verus! {

/// The characters with the Unicode `White_Space` property.
pub open spec fn white_space(c: char) -> bool {
    ('\u{9}' <= c && c <= '\u{d}') || c == ' ' || c == '\u{85}' || c == '\u{a0}' || c
        == '\u{1680}' || ('\u{2000}' <= c && c <= '\u{200a}') || c == '\u{2028}' || c
        == '\u{2029}' || c == '\u{202f}' || c == '\u{205f}' || c == '\u{3000}'
}

/// Relies on `char::is_whitespace`: true exactly for the characters with the
/// Unicode `White_Space` property.
#[verifier::external_body]
fn is_space(c: char) -> (r: bool)
    ensures
        r == white_space(c),
{
    c.is_whitespace()
}

/// The number of line terminators in `s`.
pub open spec fn char_newlines(s: Seq<char>) -> nat
    decreases s.len(),
{
    if s.len() == 0 {
        0
    } else {
        char_newlines(s.drop_last()) + if s.last() == '\n' { 1nat } else { 0nat }
    }
}

/// The number of lines of `s`, a last line without terminator included.
pub open spec fn text_lines(s: Seq<char>) -> nat {
    char_newlines(s) + if s.len() > 0 && s.last() != '\n' { 1nat } else { 0nat }
}

/// The number of words of `s`: maximal runs of characters that are not
/// white space.
pub open spec fn text_words(s: Seq<char>) -> nat
    decreases s.len(),
{
    if s.len() == 0 {
        0
    } else {
        text_words(s.drop_last()) + if !white_space(s.last()) && (s.len() == 1 || white_space(
            s[s.len() - 2],
        )) {
            1nat
        } else {
            0nat
        }
    }
}

/// The counts of one text.
#[derive(Debug, PartialEq, Eq, Structural)]
pub struct FileInfo {
    pub num_lines: usize,
    pub num_words: usize,
    pub num_bytes: usize,
    pub num_chars: usize,
}

/// Counts the lines, words, bytes (in UTF-8) and characters of `text`.
pub fn count(text: &str) -> (r: FileInfo)
    ensures
        r.num_lines == text_lines(text@),
        r.num_words == text_words(text@),
        r.num_bytes == encode_utf8(text@).len(),
        r.num_chars == text@.len(),
{
    let num_chars = text.unicode_len();
    let num_bytes = text.as_bytes().len();
    let mut newlines: usize = 0;
    let mut num_words: usize = 0;
    let mut prev_space = true;
    let mut last = ' ';
    let mut i: usize = 0;
    for c in it: text.chars()
        invariant
            num_chars == text@.len(),
            it.seq() == text@,
            i == it.index(),
            i <= num_chars,
            newlines == char_newlines(text@.take(i as int)),
            num_words == text_words(text@.take(i as int)),
            newlines + (if i > 0 && last != '\n' { 1int } else { 0int }) <= i,
            num_words <= i,
            i > 0 ==> last == text@[i - 1],
            prev_space == (i == 0 || white_space(text@[i - 1])),
    {
        let ghost pre = text@.take(i as int);
        let ghost next = text@.take(i + 1);
        proof {
            assert(next.drop_last() =~= pre);
        }
        let space = is_space(c);
        if c == '\n' {
            newlines = newlines + 1;
        }
        if !space && prev_space {
            num_words = num_words + 1;
        }
        prev_space = space;
        last = c;
        i = i + 1;
    }
    assert(text@.take(i as int) =~= text@);
    let num_lines = if i > 0 && last != '\n' { newlines + 1 } else { newlines };
    FileInfo { num_lines, num_words, num_bytes, num_chars }
}

/// The counts to report, as (lines, words, bytes, chars): when none is asked
/// for, lines, words and bytes.
pub fn default_selection(lines: bool, words: bool, bytes: bool, chars: bool) -> (r: (
    bool,
    bool,
    bool,
    bool,
))
    ensures
        r == if !lines && !words && !bytes && !chars {
            (true, true, true, false)
        } else {
            (lines, words, bytes, chars)
        },
{
    if !lines && !words && !bytes && !chars {
        (true, true, true, false)
    } else {
        (lines, words, bytes, chars)
    }
}

/// Relies on `format!` with `{:>8}`: the decimal form of `n`, right aligned
/// in eight columns.
#[verifier::external_body]
fn column(n: usize) -> (r: String)
    ensures
        r@ == pad_left(decimal(n as nat), 8),
{
    format!("{:>8}", n)
}

/// A report line: lines, words and characters in columns of eight, then
/// the label.
pub open spec fn report_line(info: FileInfo, label: Seq<char>) -> Seq<char> {
    pad_left(decimal(info.num_lines as nat), 8) + seq![' '] + pad_left(
        decimal(info.num_words as nat),
        8,
    ) + seq![' '] + pad_left(decimal(info.num_chars as nat), 8) + seq![' '] + label
}

/// The report line of `info` under `label` (a file name, or `total`).
pub fn format_info(info: &FileInfo, label: &str) -> (r: String)
    ensures
        r@ == report_line(*info, label@),
{
    let mut line = column(info.num_lines);
    line.append(" ");
    let words = column(info.num_words);
    line.append(words.as_str());
    line.append(" ");
    let chars = column(info.num_chars);
    line.append(chars.as_str());
    line.append(" ");
    line.append(label);
    proof {
        reveal_strlit(" ");
    }
    assert(line@ =~= report_line(*info, label@));
    line
}

/// Adds the counts of `info` to the running `total`.
pub fn add_counts(total: &mut FileInfo, info: &FileInfo)
    requires
        old(total).num_lines + info.num_lines <= usize::MAX,
        old(total).num_words + info.num_words <= usize::MAX,
        old(total).num_bytes + info.num_bytes <= usize::MAX,
        old(total).num_chars + info.num_chars <= usize::MAX,
    ensures
        final(total).num_lines == old(total).num_lines + info.num_lines,
        final(total).num_words == old(total).num_words + info.num_words,
        final(total).num_bytes == old(total).num_bytes + info.num_bytes,
        final(total).num_chars == old(total).num_chars + info.num_chars,
{
    total.num_lines = total.num_lines + info.num_lines;
    total.num_words = total.num_words + info.num_words;
    total.num_bytes = total.num_bytes + info.num_bytes;
    total.num_chars = total.num_chars + info.num_chars;
}

} // verus!
