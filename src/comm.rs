//! Comparing two sorted lists of lines, as `comm` does: lines only in the
//! first, lines only in the second, and lines in both, in three columns.

use vstd::prelude::*;
use vstd::string::*;
use vstd::utf8::encode_utf8;

verus! {

use crate::views;

use crate::cal::{lower_of, lowercase};

/// Byte-wise lexicographic order, as `str` orders: negative when `a` comes
/// first, zero when equal, positive when `b` comes first.
pub open spec fn lex(a: Seq<u8>, b: Seq<u8>) -> int
    decreases a.len(),
{
    if a.len() == 0 && b.len() == 0 {
        0
    } else if a.len() == 0 {
        -1
    } else if b.len() == 0 {
        1
    } else if a[0] < b[0] {
        -1
    } else if a[0] > b[0] {
        1
    } else {
        lex(a.skip(1), b.skip(1))
    }
}

fn compare(a: &str, b: &str) -> (r: i8)
    ensures
        r == lex(a.spec_bytes(), b.spec_bytes()),
{
    let x = a.as_bytes();
    let y = b.as_bytes();
    let mut i: usize = 0;
    assert(x@.skip(0) =~= x@);
    assert(y@.skip(0) =~= y@);
    loop
        invariant
            x@ == a.spec_bytes(),
            y@ == b.spec_bytes(),
            i <= x@.len(),
            i <= y@.len(),
            lex(x@, y@) == lex(x@.skip(i as int), y@.skip(i as int)),
        decreases x@.len() - i,
    {
        assert(x@.skip(i as int).len() == x@.len() - i);
        assert(y@.skip(i as int).len() == y@.len() - i);
        if i < x.len() && i < y.len() {
            assert(x@.skip(i as int)[0] == x@[i as int]);
            assert(y@.skip(i as int)[0] == y@[i as int]);
        }
        if i == x.len() && i == y.len() {
            return 0;
        } else if i == x.len() {
            return -1;
        } else if i == y.len() {
            return 1;
        } else if x[i] < y[i] {
            return -1;
        } else if x[i] > y[i] {
            return 1;
        }
        assert(x@.skip(i as int).skip(1) =~= x@.skip(i + 1));
        assert(y@.skip(i as int).skip(1) =~= y@.skip(i + 1));
        i = i + 1;
    }
}

/// Which columns are shown, and what separates them.
pub struct CommConfig {
    pub show_col1: bool,
    pub show_col2: bool,
    pub show_col3: bool,
    pub delimiter: String,
}

/// The fields of the output line for `line` in column `col` (1, 2 or 3),
/// empty when that column is not shown. A line of the third column is put
/// after an empty field for the first column when it is shown, and after
/// one more when the third is.
pub open spec fn fields(col: int, line: Seq<char>, cfg: CommConfig) -> Seq<Seq<char>> {
    if col == 1 {
        if cfg.show_col1 { seq![line] } else { Seq::empty() }
    } else if col == 2 {
        if cfg.show_col2 {
            (if cfg.show_col1 { seq![Seq::<char>::empty()] } else { Seq::empty() }).push(line)
        } else {
            Seq::empty()
        }
    } else if cfg.show_col3 {
        (if cfg.show_col1 { seq![Seq::<char>::empty()] } else { Seq::empty() }).push(
            Seq::<char>::empty(),
        ).push(line)
    } else {
        Seq::empty()
    }
}

/// `fields` joined by `delim`.
pub open spec fn join_with(fields: Seq<Seq<char>>, delim: Seq<char>) -> Seq<char>
    decreases fields.len(),
{
    if fields.len() == 0 {
        Seq::empty()
    } else if fields.len() == 1 {
        fields[0]
    } else {
        join_with(fields.drop_last(), delim) + delim + fields.last()
    }
}

/// The output lines for `line` in column `col`: one, or none when its
/// column is hidden.
pub open spec fn column_output(col: int, line: Seq<char>, cfg: CommConfig) -> Seq<Seq<char>> {
    let f = fields(col, line, cfg);
    if f.len() == 0 {
        Seq::empty()
    } else {
        seq![join_with(f, cfg.delimiter@)]
    }
}

/// The output of comparing the sorted lines `a` and `b`.
pub open spec fn comm_output(a: Seq<String>, b: Seq<String>, cfg: CommConfig) -> Seq<Seq<char>>
    decreases a.len() + b.len(),
{
    if a.len() == 0 && b.len() == 0 {
        Seq::empty()
    } else if b.len() == 0 {
        column_output(1, a[0]@, cfg) + comm_output(a.skip(1), b, cfg)
    } else if a.len() == 0 {
        column_output(2, b[0]@, cfg) + comm_output(a, b.skip(1), cfg)
    } else {
        let c = lex(encode_utf8(a[0]@), encode_utf8(b[0]@));
        if c == 0 {
            column_output(3, a[0]@, cfg) + comm_output(a.skip(1), b.skip(1), cfg)
        } else if c < 0 {
            column_output(1, a[0]@, cfg) + comm_output(a.skip(1), b, cfg)
        } else {
            column_output(2, b[0]@, cfg) + comm_output(a, b.skip(1), cfg)
        }
    }
}

/// The lines as compared: lowercased when the comparison ignores case.
pub fn fold_case(lines: &Vec<String>, insensitive: bool) -> (r: Vec<String>)
    ensures
        views(r@) == if insensitive {
            views(lines@).map_values(|l: Seq<char>| lower_of(l))
        } else {
            views(lines@)
        },
{
    let mut out: Vec<String> = Vec::new();
    let mut i: usize = 0;
    while i < lines.len()
        invariant
            i <= lines@.len(),
            views(out@) == if insensitive {
                views(lines@.take(i as int)).map_values(|l: Seq<char>| lower_of(l))
            } else {
                views(lines@.take(i as int))
            },
        decreases lines@.len() - i,
    {
        let line = if insensitive {
            lowercase(lines[i].as_str())
        } else {
            lines[i].clone()
        };
        let ghost old_out = out@;
        let ghost v = line@;
        out.push(line);
        assert(views(out@) =~= views(old_out).push(v));
        assert(views(lines@.take(i + 1)) =~= views(lines@.take(i as int)).push(lines@[i as int]@));
        if insensitive {
            assert(views(out@) =~= views(lines@.take(i + 1)).map_values(
                |l: Seq<char>| lower_of(l),
            ));
        } else {
            assert(views(out@) =~= views(lines@.take(i + 1)));
        }
        i = i + 1;
    }
    assert(lines@.take(i as int) =~= lines@);
    out
}

/// Appends the output line for `line` in column `col` to `out`.
fn push_column(out: &mut Vec<String>, col: u8, line: &String, cfg: &CommConfig)
    requires
        1 <= col <= 3,
    ensures
        views(final(out)@) == views(old(out)@) + column_output(col as int, line@, *cfg),
{
    let ghost f = fields(col as int, line@, *cfg);
    proof {
        reveal_strlit("");
        assert(""@ =~= Seq::<char>::empty());
    }
    let mut parts: Vec<&str> = Vec::new();
    if col == 1 {
        if cfg.show_col1 {
            parts.push(line.as_str());
        }
    } else if col == 2 {
        if cfg.show_col2 {
            if cfg.show_col1 {
                parts.push("");
            }
            parts.push(line.as_str());
        }
    } else if cfg.show_col3 {
        if cfg.show_col1 {
            parts.push("");
        }
        parts.push("");
        parts.push(line.as_str());
    }
    assert(parts@.map_values(|s: &str| s@) =~= f);
    if parts.len() > 0 {
        let mut text = String::new();
        let mut i: usize = 0;
        while i < parts.len()
            invariant
                i <= parts@.len(),
                parts@.len() > 0,
                parts@.map_values(|s: &str| s@) == f,
                text@ == join_with(f.take(i as int), cfg.delimiter@),
            decreases parts@.len() - i,
        {
            proof {
                let g = f.take(i + 1);
                assert(g.drop_last() =~= f.take(i as int));
                assert(g.last() == parts@[i as int]@);
            }
            if i > 0 {
                text.append(cfg.delimiter.as_str());
            }
            text.append(parts[i]);
            proof {
                let g = f.take(i + 1);
                if i == 0 {
                    assert(text@ =~= join_with(g, cfg.delimiter@));
                } else {
                    assert(text@ =~= join_with(g, cfg.delimiter@));
                }
            }
            i = i + 1;
        }
        assert(f.take(i as int) =~= f);
        out.push(text);
        assert(views(out@) =~= views(old(out)@) + column_output(col as int, line@, *cfg));
    } else {
        assert(views(out@) =~= views(old(out)@) + column_output(col as int, line@, *cfg));
    }
}

/// Compares the sorted lines `lines1` and `lines2` and returns the output
/// lines: each line is put in the column of the list it is found in, or in
/// the third when both hold it at the same step.
pub fn comm(lines1: &Vec<String>, lines2: &Vec<String>, cfg: &CommConfig) -> (r: Vec<String>)
    ensures
        views(r@) == comm_output(lines1@, lines2@, *cfg),
{
    let mut out: Vec<String> = Vec::new();
    let mut i: usize = 0;
    let mut j: usize = 0;
    assert(lines1@.skip(0) =~= lines1@);
    assert(lines2@.skip(0) =~= lines2@);
    while i < lines1.len() || j < lines2.len()
        invariant
            i <= lines1@.len(),
            j <= lines2@.len(),
            views(out@) + comm_output(lines1@.skip(i as int), lines2@.skip(j as int), *cfg)
                == comm_output(lines1@, lines2@, *cfg),
        decreases lines1@.len() + lines2@.len() - i - j,
    {
        let ghost a = lines1@.skip(i as int);
        let ghost b = lines2@.skip(j as int);
        let ghost before = views(out@);
        if i < lines1.len() {
            assert(a.skip(1) =~= lines1@.skip(i + 1));
        }
        if j < lines2.len() {
            assert(b.skip(1) =~= lines2@.skip(j + 1));
        }
        if j == lines2.len() {
            push_column(&mut out, 1, &lines1[i], cfg);
            i = i + 1;
        } else if i == lines1.len() {
            push_column(&mut out, 2, &lines2[j], cfg);
            j = j + 1;
        } else {
            let c = compare(lines1[i].as_str(), lines2[j].as_str());
            if c == 0 {
                push_column(&mut out, 3, &lines1[i], cfg);
                i = i + 1;
                j = j + 1;
            } else if c < 0 {
                push_column(&mut out, 1, &lines1[i], cfg);
                i = i + 1;
            } else {
                push_column(&mut out, 2, &lines2[j], cfg);
                j = j + 1;
            }
        }
        assert(views(out@) + comm_output(lines1@.skip(i as int), lines2@.skip(j as int), *cfg)
            =~= comm_output(lines1@, lines2@, *cfg));
    }
    assert(lines1@.skip(i as int).len() == 0);
    assert(lines2@.skip(j as int).len() == 0);
    assert(views(out@) =~= comm_output(lines1@, lines2@, *cfg));
    out
}

} // verus!
