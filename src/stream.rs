//! Chunked forms of the tail engine's two passes, so that a stream is never
//! held whole: a counter for the first pass, and for line mode a skipper
//! that finds where output begins in the second.

use vstd::prelude::*;

use crate::tail::{line_count, line_start, newlines, skip_lines, NEWLINE};

verus! {

proof fn lemma_newlines_concat(a: Seq<u8>, b: Seq<u8>)
    ensures
        newlines(a + b) == newlines(a) + newlines(b),
    decreases a.len(),
{
    if a.len() > 0 {
        assert((a + b).skip(1) =~= a.skip(1) + b);
        lemma_newlines_concat(a.skip(1), b);
    } else {
        assert(a + b =~= b);
    }
}

proof fn lemma_newlines_bound(s: Seq<u8>)
    ensures
        newlines(s) <= s.len(),
    decreases s.len(),
{
    if s.len() > 0 {
        lemma_newlines_bound(s.skip(1));
    }
}

proof fn lemma_line_start_bound(s: Seq<u8>, k: nat)
    ensures
        line_start(s, k) <= s.len(),
    decreases s.len(),
{
    if k > 0 && s.len() > 0 {
        if s[0] == NEWLINE {
            lemma_line_start_bound(s.skip(1), (k - 1) as nat);
        } else {
            lemma_line_start_bound(s.skip(1), k);
        }
    }
}

/// Where line `k` begins in `a + b`: inside `a` when `a` holds its first `k`
/// terminators, else inside `b`, after the ones `a` holds.
proof fn lemma_line_start_concat(a: Seq<u8>, b: Seq<u8>, k: nat)
    ensures
        line_start(a + b, k) == if k == 0 {
            0
        } else if newlines(a) >= k {
            line_start(a, k)
        } else {
            a.len() + line_start(b, (k - newlines(a)) as nat)
        },
    decreases a.len(),
{
    if k > 0 {
        if a.len() == 0 {
            assert(a + b =~= b);
        } else {
            assert((a + b).skip(1) =~= a.skip(1) + b);
            assert((a + b)[0] == a[0]);
            assert(newlines(a) == (if a[0] == NEWLINE { 1nat } else { 0nat }) + newlines(a.skip(1)));
            if a[0] == NEWLINE {
                lemma_line_start_concat(a.skip(1), b, (k - 1) as nat);
                assert(line_start(a + b, k) == 1 + line_start(a.skip(1) + b, (k - 1) as nat));
                assert(line_start(a, k) == 1 + line_start(a.skip(1), (k - 1) as nat));
            } else {
                lemma_line_start_concat(a.skip(1), b, k);
                assert(line_start(a + b, k) == 1 + line_start(a.skip(1) + b, k));
                assert(line_start(a, k) == 1 + line_start(a.skip(1), k));
            }
        }
    }
}

/// The first pass: counts lines and bytes over a stream fed in chunks.
pub struct LineCounter {
    ended: u64,
    bytes: u64,
    open_line: bool,
    seen: Ghost<Seq<u8>>,
}

impl View for LineCounter {
    type V = Seq<u8>;

    /// The bytes fed so far.
    closed spec fn view(&self) -> Seq<u8> {
        self.seen@
    }
}

impl LineCounter {
    pub closed spec fn wf(&self) -> bool {
        &&& self.ended == newlines(self.seen@)
        &&& self.bytes == self.seen@.len()
        &&& self.seen@.len() <= i64::MAX
        &&& self.open_line == (self.seen@.len() > 0 && self.seen@.last() != NEWLINE)
    }

    pub fn new() -> (r: Self)
        ensures
            r.wf(),
            r@ == Seq::<u8>::empty(),
    {
        LineCounter { ended: 0, bytes: 0, open_line: false, seen: Ghost(Seq::empty()) }
    }

    /// The number of bytes fed so far.
    pub fn bytes_seen(&self) -> (r: u64)
        requires
            self.wf(),
        ensures
            r == self@.len(),
    {
        self.bytes
    }

    /// Takes in the next chunk of the stream.
    pub fn feed(&mut self, chunk: &[u8])
        requires
            old(self).wf(),
            old(self)@.len() + chunk@.len() <= i64::MAX,
        ensures
            final(self).wf(),
            final(self)@ == old(self)@ + chunk@,
    {
        let n = chunk.len();
        let (_, left) = skip_lines(chunk, n as u64);
        proof {
            lemma_newlines_bound(chunk@);
            lemma_newlines_concat(self.seen@, chunk@);
            lemma_newlines_bound(self.seen@);
        }
        self.ended = self.ended + (n as u64 - left);
        self.bytes = self.bytes + n as u64;
        if n > 0 {
            self.open_line = chunk[n - 1] != NEWLINE;
        }
        let ghost total = self.seen@ + chunk@;
        proof {
            if n > 0 {
                assert(total.last() == chunk@.last());
            } else {
                assert(total =~= self.seen@);
            }
        }
        self.seen = Ghost(total);
    }

    /// The line and byte totals of what was fed.
    pub fn totals(&self) -> (r: (i64, i64))
        requires
            self.wf(),
        ensures
            r.0 == line_count(self@),
            r.1 == self@.len(),
    {
        proof {
            lemma_newlines_bound(self.seen@);
            if self.open_line {
                let s = self.seen@;
                lemma_newlines_bound(s.drop_last());
                lemma_newlines_concat(s.drop_last(), seq![s.last()]);
                assert(s.drop_last() + seq![s.last()] =~= s);
                let one = seq![s.last()];
                assert(one[0] == s.last() && one[0] != NEWLINE);
                assert(one.skip(1) =~= Seq::<u8>::empty());
                assert(newlines(one.skip(1)) == 0);
                assert(newlines(one) == 0);
                assert(self.ended < self.bytes);
            }
        }
        let lines = if self.open_line { self.ended + 1 } else { self.ended };
        (lines as i64, self.bytes as i64)
    }
}

/// What line mode emits of the part `s` of a stream seen so far, when output
/// starts at line `k`.
pub open spec fn emitted(s: Seq<u8>, k: nat) -> Seq<u8> {
    s.skip(line_start(s, k) as int)
}

/// The second pass of line mode: tells, chunk by chunk, where output starts.
pub struct LineSkipper {
    remaining: u64,
    start: Ghost<nat>,
    seen: Ghost<Seq<u8>>,
}

impl View for LineSkipper {
    type V = Seq<u8>;

    /// The bytes fed so far.
    closed spec fn view(&self) -> Seq<u8> {
        self.seen@
    }
}

impl LineSkipper {
    pub closed spec fn wf(&self) -> bool {
        self.remaining == if newlines(self.seen@) >= self.start@ {
            0
        } else {
            self.start@ - newlines(self.seen@)
        }
    }

    /// The line at which output starts.
    pub closed spec fn start_line(&self) -> nat {
        self.start@
    }

    /// A skipper for output that starts at the 0-based line `start`.
    pub fn new(start: u64) -> (r: Self)
        ensures
            r.wf(),
            r@ == Seq::<u8>::empty(),
            r.start_line() == start,
    {
        LineSkipper { remaining: start, start: Ghost(start as nat), seen: Ghost(Seq::empty()) }
    }

    /// Takes in the next chunk and returns the offset in it from which the
    /// chunk is emitted (its length when none of it is): over all chunks,
    /// exactly the bytes from the start of line `start_line` on.
    pub fn feed(&mut self, chunk: &[u8]) -> (r: usize)
        requires
            old(self).wf(),
        ensures
            final(self).wf(),
            final(self)@ == old(self)@ + chunk@,
            final(self).start_line() == old(self).start_line(),
            r <= chunk@.len(),
            emitted(final(self)@, final(self).start_line()) == emitted(
                old(self)@,
                old(self).start_line(),
            ) + chunk@.skip(r as int),
    {
        let ghost old_seen = self.seen@;
        let ghost k = self.start@;
        let ghost total = old_seen + chunk@;
        proof {
            lemma_line_start_concat(old_seen, chunk@, k);
            lemma_newlines_concat(old_seen, chunk@);
            lemma_line_start_bound(old_seen, k);
            lemma_line_start_bound(chunk@, (k - newlines(old_seen)) as nat);
        }
        let r: usize;
        if self.remaining == 0 {
            r = 0;
            proof {
                if k == 0 {
                    assert(line_start(old_seen, k) == 0);
                }
                assert(total.skip(line_start(total, k) as int) =~= old_seen.skip(
                    line_start(old_seen, k) as int,
                ) + chunk@.skip(0));
            }
        } else {
            let (offset, left) = skip_lines(chunk, self.remaining);
            proof {
                assert(line_start(old_seen, k) == old_seen.len()) by {
                    lemma_line_start_concat(old_seen, Seq::<u8>::empty(), k);
                    assert(old_seen + Seq::<u8>::empty() =~= old_seen);
                }
                assert(total.skip(line_start(total, k) as int) =~= old_seen.skip(
                    line_start(old_seen, k) as int,
                ) + chunk@.skip(offset as int));
            }
            self.remaining = left;
            r = offset;
        }
        self.seen = Ghost(total);
        r
    }
}

} // verus!
