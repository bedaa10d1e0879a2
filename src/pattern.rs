//! Regular-expression filters, as `grep` and `find` apply them: keeping the
//! lines that match (or that do not), and picking directory entries by kind
//! and by name.

use vstd::prelude::*;
use vstd::string::*;

verus! {

use crate::views;

#[verifier::external_type_specification]
#[verifier::external_body]
pub struct ExRegex(regex::Regex);

/// Whether the regular expression `source`, compiled with case folding when
/// `insensitive` holds, matches somewhere in `text`.
pub uninterp spec fn regex_matches(source: Seq<char>, insensitive: bool, text: Seq<char>) -> bool;

/// A compiled regular expression with the text and case setting it was
/// compiled from. Only `Pattern::new` builds one, so `re` always is the
/// compilation of `source` under `insensitive`.
pub struct Pattern {
    re: regex::Regex,
    source: String,
    insensitive: bool,
}

/// Relies on `regex::RegexBuilder` (`new`, `case_insensitive`, `build`):
/// compiles `source`, folding case when asked, or fails on an invalid
/// pattern.
#[verifier::external_body]
fn compile(source: &str, insensitive: bool) -> (r: Option<regex::Regex>) {
    regex::RegexBuilder::new(source).case_insensitive(insensitive).build().ok()
}

/// Relies on `regex::Regex::is_match`: whether the pattern matches somewhere
/// in `text`, which depends on the pattern's source, its case setting and
/// the text alone.
#[verifier::external_body]
fn is_match(p: &Pattern, text: &str) -> (r: bool)
    ensures
        r == regex_matches(p.source@, p.insensitive, text@),
{
    p.re.is_match(text)
}

impl Pattern {
    pub closed spec fn source(&self) -> Seq<char> {
        self.source@
    }

    pub closed spec fn insensitive(&self) -> bool {
        self.insensitive
    }

    /// Compiles `source`, folding case when `insensitive` holds; `None`
    /// when it is not a valid regular expression.
    pub fn new(source: &str, insensitive: bool) -> (r: Option<Pattern>)
        ensures
            r matches Some(p) ==> p.source() == source@ && p.insensitive() == insensitive,
    {
        match compile(source, insensitive) {
            Some(re) => Some(Pattern { re, source: source.to_owned(), insensitive }),
            None => None,
        }
    }

    /// Whether the pattern matches somewhere in `text`.
    pub fn matches(&self, text: &str) -> (r: bool)
        ensures
            r == regex_matches(self.source(), self.insensitive(), text@),
    {
        is_match(self, text)
    }
}

/// The lines of `lines` that `p` matches, or with `invert` those it does
/// not, in order.
pub open spec fn kept_lines(lines: Seq<Seq<char>>, p: Pattern, invert: bool) -> Seq<Seq<char>>
    decreases lines.len(),
{
    if lines.len() == 0 {
        Seq::empty()
    } else {
        let rest = kept_lines(lines.drop_last(), p, invert);
        if invert != regex_matches(p.source(), p.insensitive(), lines.last()) {
            rest.push(lines.last())
        } else {
            rest
        }
    }
}

/// Keeps the lines that `pattern` matches, or with `invert` those it does
/// not, in order.
pub fn find_lines(lines: &Vec<String>, pattern: &Pattern, invert_match: bool) -> (r: Vec<String>)
    ensures
        views(r@) == kept_lines(views(lines@), *pattern, invert_match),
{
    let mut kept: Vec<String> = Vec::new();
    let mut i: usize = 0;
    while i < lines.len()
        invariant
            i <= lines@.len(),
            views(kept@) == kept_lines(views(lines@.take(i as int)), *pattern, invert_match),
        decreases lines@.len() - i,
    {
        let ghost before = kept@;
        let ghost seen = views(lines@.take(i + 1));
        assert(seen.drop_last() =~= views(lines@.take(i as int)));
        assert(seen.last() == lines@[i as int]@);
        if invert_match != pattern.matches(lines[i].as_str()) {
            kept.push(lines[i].clone());
            assert(views(kept@) =~= views(before).push(lines@[i as int]@));
        }
        i = i + 1;
    }
    assert(lines@.take(i as int) =~= lines@);
    kept
}

/// The kinds of directory entry a search can ask for.
#[derive(Debug, Clone, Copy, PartialEq, Eq, Structural)]
pub enum EntryType {
    Dir,
    File,
    Link,
}

/// Whether an entry of the given kind is of type `t`.
pub open spec fn is_of_type(t: EntryType, is_dir: bool, is_file: bool, is_symlink: bool) -> bool {
    match t {
        EntryType::Dir => is_dir,
        EntryType::File => is_file,
        EntryType::Link => is_symlink,
    }
}

/// Whether an entry passes the type filter: no types asked for, or one of
/// them is the entry's.
pub fn type_filter(types: &Vec<EntryType>, is_dir: bool, is_file: bool, is_symlink: bool) -> (r:
    bool)
    ensures
        r == (types@.len() == 0 || exists|i: int|
            0 <= i < types@.len() && is_of_type(#[trigger] types@[i], is_dir, is_file, is_symlink)),
{
    if types.len() == 0 {
        return true;
    }
    let mut i: usize = 0;
    while i < types.len()
        invariant
            i <= types@.len(),
            forall|j: int| 0 <= j < i ==> !is_of_type(#[trigger] types@[j], is_dir, is_file, is_symlink),
        decreases types@.len() - i,
    {
        let hit = match types[i] {
            EntryType::Dir => is_dir,
            EntryType::File => is_file,
            EntryType::Link => is_symlink,
        };
        if hit {
            return true;
        }
        i = i + 1;
    }
    false
}

/// Whether an entry passes the name filter: no patterns given, or one of
/// them matches the entry's file name.
pub fn name_filter(names: &Vec<Pattern>, file_name: &str) -> (r: bool)
    ensures
        r == (names@.len() == 0 || exists|i: int|
            0 <= i < names@.len() && regex_matches(
                #[trigger] names@[i].source(),
                names@[i].insensitive(),
                file_name@,
            )),
{
    if names.len() == 0 {
        return true;
    }
    let mut i: usize = 0;
    while i < names.len()
        invariant
            i <= names@.len(),
            forall|j: int|
                0 <= j < i ==> !regex_matches(
                    #[trigger] names@[j].source(),
                    names@[j].insensitive(),
                    file_name@,
                ),
        decreases names@.len() - i,
    {
        if names[i].matches(file_name) {
            return true;
        }
        i = i + 1;
    }
    false
}

} // verus!
