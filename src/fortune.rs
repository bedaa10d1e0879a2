//! Reading fortune files: records of lines, each closed by a line `%`.

use rand::seq::SliceRandom;
use rand::SeedableRng;
use vstd::prelude::*;
use vstd::string::*;

use crate::cal::parse_text;

verus! {

use crate::views;

/// One record of a fortune file and the file it came from.
pub struct Fortune {
    pub source: String,
    pub text: String,
}

/// `"<text>" not a valid integer`.
pub open spec fn invalid_u64(text: Seq<char>) -> Seq<char> {
    "\""@ + text + "\" not a valid integer"@
}

/// Parses a seed; on failure the error reads `"<val>" not a valid integer`.
pub fn parse_u64(val: &str) -> (r: Result<u64, String>)
    ensures
        r matches Err(e) ==> e@ == invalid_u64(val@),
{
    match parse_text::<u64>(val) {
        Some(v) => Ok(v),
        None => {
            let mut msg = String::new();
            msg.append("\"");
            msg.append(val);
            msg.append("\" not a valid integer");
            proof {
                reveal_strlit("\"");
                reveal_strlit("\" not a valid integer");
                assert(msg@ =~= invalid_u64(val@));
            }
            Err(msg)
        },
    }
}

/// The lines of `lines` joined by line terminators.
pub open spec fn joined(lines: Seq<Seq<char>>) -> Seq<char>
    decreases lines.len(),
{
    if lines.len() == 0 {
        Seq::empty()
    } else if lines.len() == 1 {
        lines[0]
    } else {
        joined(lines.drop_last()) + seq!['\n'] + lines.last()
    }
}

fn join_lines(lines: &Vec<String>) -> (r: String)
    ensures
        r@ == joined(views(lines@)),
{
    let mut out = String::new();
    let mut i: usize = 0;
    while i < lines.len()
        invariant
            i <= lines@.len(),
            out@ == joined(views(lines@.take(i as int))),
        decreases lines@.len() - i,
    {
        let ghost before = views(lines@.take(i as int));
        let ghost after = views(lines@.take(i + 1));
        proof {
            assert(after.drop_last() =~= before);
            assert(after.last() == lines@[i as int]@);
            reveal_strlit("\n");
        }
        if i > 0 {
            out.append("\n");
        }
        out.append(lines[i].as_str());
        proof {
            if i == 0 {
                assert(before.len() == 0);
                assert(out@ =~= joined(after));
            } else {
                assert(out@ =~= joined(after));
            }
        }
        i = i + 1;
    }
    assert(lines@.take(i as int) =~= lines@);
    out
}

/// Gathers the lines of fortune files into records. Lines pile up until a
/// line `%`, which closes a record when any are held; what is held at the
/// end of one file joins the first record of the next.
pub struct FortuneReader {
    held: Vec<String>,
}

impl FortuneReader {
    /// The lines held for the record in progress.
    pub closed spec fn held(&self) -> Seq<Seq<char>> {
        views(self.held@)
    }

    pub fn new() -> (r: Self)
        ensures
            r.held() == Seq::<Seq<char>>::empty(),
    {
        FortuneReader { held: Vec::new() }
    }

    /// Takes the next line (without terminator) of the file `source`, and
    /// returns the record that it closes, if any.
    pub fn push_line(&mut self, source: &String, line: String) -> (r: Option<Fortune>)
        ensures
            if line@ == seq!['%'] {
                &&& final(self).held() == Seq::<Seq<char>>::empty()
                &&& if old(self).held().len() > 0 {
                    r matches Some(f) && f.source@ == source@ && f.text@ == joined(old(self).held())
                } else {
                    r is None
                }
            } else {
                &&& final(self).held() == old(self).held().push(line@)
                &&& r is None
            },
    {
        if line.unicode_len() == 1 && line.get_char(0) == '%' {
            proof {
                assert(line@ =~= seq!['%']);
            }
            if self.held.len() > 0 {
                let text = join_lines(&self.held);
                self.held = Vec::new();
                proof {
                    assert(self.held() =~= Seq::<Seq<char>>::empty());
                }
                Some(Fortune { source: source.clone(), text })
            } else {
                None
            }
        } else {
            let ghost v = line@;
            self.held.push(line);
            proof {
                assert(self.held() =~= old(self).held().push(v));
            }
            None
        }
    }
}

/// Relies on rand's `StdRng::seed_from_u64` and `SliceRandom::choose`:
/// `None` exactly for an empty slice, else the text of one of its records.
#[verifier::external_body]
fn choose_seeded(fortunes: &[Fortune], seed: u64) -> (r: Option<String>)
    ensures
        r is None <==> fortunes@.len() == 0,
        r matches Some(t) ==> exists|i: int| 0 <= i < fortunes@.len() && t@ == fortunes@[i].text@,
{
    let mut rng = rand::rngs::StdRng::seed_from_u64(seed);
    fortunes.choose(&mut rng).map(|f| f.text.clone())
}

/// Relies on rand's `thread_rng` and `SliceRandom::choose`: `None` exactly
/// for an empty slice, else the text of one of its records.
#[verifier::external_body]
fn choose_unseeded(fortunes: &[Fortune]) -> (r: Option<String>)
    ensures
        r is None <==> fortunes@.len() == 0,
        r matches Some(t) ==> exists|i: int| 0 <= i < fortunes@.len() && t@ == fortunes@[i].text@,
{
    let mut rng = rand::thread_rng();
    fortunes.choose(&mut rng).map(|f| f.text.clone())
}

/// Picks the text of one record at random, from `seed` when one is given
/// (the same seed picks the same record); `None` when there are none.
pub fn pick_fortune(fortunes: &[Fortune], seed: Option<u64>) -> (r: Option<String>)
    ensures
        r is None <==> fortunes@.len() == 0,
        r matches Some(t) ==> exists|i: int| 0 <= i < fortunes@.len() && t@ == fortunes@[i].text@,
{
    match seed {
        Some(s) => choose_seeded(fortunes, s),
        None => choose_unseeded(fortunes),
    }
}

} // verus!
