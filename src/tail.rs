//! The tail engine: line and byte totals of a stream, the part of it that a
//! selector keeps, and the output of a whole batch of files with headers.

use vstd::prelude::*;
use vstd::string::*;
use vstd::utf8::encode_utf8;

use crate::selector::{get_start_index, start_index, TakeValue};

verus! {

pub const NEWLINE: u8 = 10u8;

/// The number of line terminators in `s`.
pub open spec fn newlines(s: Seq<u8>) -> nat
    decreases s.len(),
{
    if s.len() == 0 {
        0
    } else {
        (if s[0] == NEWLINE { 1nat } else { 0nat }) + newlines(s.skip(1))
    }
}

/// The number of lines in `s`: each terminator ends one, and a last line
/// without a terminator counts too.
pub open spec fn line_count(s: Seq<u8>) -> nat {
    newlines(s) + if s.len() > 0 && s.last() != NEWLINE { 1nat } else { 0nat }
}

/// The byte offset at which the 0-based line `k` of `s` begins: just after the
/// `k`-th terminator, or the end of `s` when it has fewer.
pub open spec fn line_start(s: Seq<u8>, k: nat) -> nat
    decreases s.len(),
{
    if k == 0 || s.len() == 0 {
        0
    } else if s[0] == NEWLINE {
        1 + line_start(s.skip(1), (k - 1) as nat)
    } else {
        1 + line_start(s.skip(1), k)
    }
}

/// What line mode emits of `content`: every line from the start index on,
/// terminators kept.
pub open spec fn tail_lines_of(content: Seq<u8>, take: TakeValue) -> Seq<u8> {
    match start_index(take, line_count(content) as int) {
        Some(k) => content.skip(line_start(content, k as nat) as int),
        None => Seq::empty(),
    }
}

/// What byte mode emits of `content`: every byte from the start index on.
pub open spec fn tail_bytes_of(content: Seq<u8>, take: TakeValue) -> Seq<u8> {
    match start_index(take, content.len() as int) {
        Some(k) => content.skip(k),
        None => Seq::empty(),
    }
}

/// Appends `src[from..]` to `out`.
fn push_suffix(out: &mut Vec<u8>, src: &[u8], from: usize)
    requires
        from <= src@.len(),
    ensures
        final(out)@ == old(out)@ + src@.skip(from as int),
{
    let mut i: usize = from;
    while i < src.len()
        invariant
            from <= i <= src@.len(),
            out@ == old(out)@ + src@.subrange(from as int, i as int),
        decreases src@.len() - i,
    {
        out.push(src[i]);
        i = i + 1;
        assert(out@ =~= old(out)@ + src@.subrange(from as int, i as int));
    }
    assert(src@.subrange(from as int, i as int) =~= src@.skip(from as int));
}

/// Counts the lines and bytes of a stream's content in one pass.
pub fn count_lines_bytes(content: &[u8]) -> (r: (i64, i64))
    requires
        content@.len() <= i64::MAX,
    ensures
        r.0 == line_count(content@),
        r.1 == content@.len(),
{
    let mut count: usize = 0;
    let mut i: usize = 0;
    assert(content@.skip(0) =~= content@);
    while i < content.len()
        invariant
            i <= content@.len() <= i64::MAX,
            newlines(content@) == count + newlines(content@.skip(i as int)),
            count + (if i > 0 && content@[i - 1] != NEWLINE { 1int } else { 0int }) <= i,
        decreases content@.len() - i,
    {
        assert(content@.skip(i as int).skip(1) =~= content@.skip(i + 1));
        if content[i] == NEWLINE {
            count = count + 1;
        }
        i = i + 1;
    }
    assert(content@.skip(i as int).len() == 0);
    let len = content.len();
    let lines = if len > 0 && content[len - 1] != NEWLINE { count + 1 } else { count };
    (lines as i64, len as i64)
}

/// Passes over the first `k` line terminators of `chunk`: where line `k`
/// begins in it, and how many terminators are still to pass after it.
pub(crate) fn skip_lines(chunk: &[u8], k: u64) -> (r: (usize, u64))
    ensures
        r.0 == line_start(chunk@, k as nat),
        r.0 <= chunk@.len(),
        r.1 == if newlines(chunk@) >= k { 0 } else { k - newlines(chunk@) },
{
    let mut remaining: u64 = k;
    let mut i: usize = 0;
    assert(chunk@.skip(0) =~= chunk@);
    while i < chunk.len() && remaining > 0
        invariant
            i <= chunk@.len(),
            remaining <= k,
            line_start(chunk@, k as nat) == i + line_start(chunk@.skip(i as int), remaining as nat),
            newlines(chunk@) == (k - remaining) + newlines(chunk@.skip(i as int)),
        decreases chunk@.len() - i,
    {
        assert(chunk@.skip(i as int).skip(1) =~= chunk@.skip(i + 1));
        if chunk[i] == NEWLINE {
            remaining = remaining - 1;
        }
        i = i + 1;
    }
    if remaining > 0 {
        assert(chunk@.skip(i as int).len() == 0);
    }
    (i, remaining)
}

/// The byte offset at which the 0-based line `k` of `content` begins.
pub fn line_offset(content: &[u8], k: u64) -> (r: usize)
    ensures
        r == line_start(content@, k as nat),
        r <= content@.len(),
{
    skip_lines(content, k).0
}

/// Line mode: every line of `content` from the selected start on, verbatim.
/// `total_lines` is the line count found by the counting pass.
pub fn tail_lines(content: &[u8], num_lines: &TakeValue, total_lines: i64) -> (r: Vec<u8>)
    requires
        total_lines == line_count(content@),
    ensures
        r@ == tail_lines_of(content@, *num_lines),
{
    let mut out: Vec<u8> = Vec::new();
    if let Some(start) = get_start_index(num_lines, total_lines) {
        let offset = line_offset(content, start);
        push_suffix(&mut out, content, offset);
        assert(out@ =~= tail_lines_of(content@, *num_lines));
    }
    out
}

/// Byte mode: every byte of `content` from the selected offset on.
/// `total_bytes` is the byte count found by the counting pass.
pub fn tail_bytes(content: &[u8], num_bytes: &TakeValue, total_bytes: i64) -> (r: Vec<u8>)
    requires
        total_bytes == content@.len(),
    ensures
        r@ == tail_bytes_of(content@, *num_bytes),
{
    let mut out: Vec<u8> = Vec::new();
    if let Some(start) = get_start_index(num_bytes, total_bytes) {
        let len = content.len();
        assert(start <= len);
        let offset = start as usize;
        push_suffix(&mut out, content, offset);
        assert(out@ =~= content@.skip(start as int));
    }
    out
}

/// The settings of one run: the line selector, the byte selector that
/// replaces it when given, and whether multi-file headers are left out.
pub struct Config {
    pub files: Vec<String>,
    pub lines: TakeValue,
    pub bytes: Option<TakeValue>,
    pub quiet: bool,
}

/// One input of a batch: its display name, and its content, or the text of
/// the failure that kept it from being opened or read.
pub struct FileTarget {
    pub name: String,
    pub content: Result<Vec<u8>, String>,
}

/// What a batch produces: the bytes for standard output, and one diagnostic
/// line (without terminator) for each input that failed.
pub struct TailOutput {
    pub stdout: Vec<u8>,
    pub diagnostics: Vec<String>,
}

/// `==> name <==` and its terminator.
pub open spec fn header_line(name: Seq<u8>) -> Seq<u8> {
    seq![61u8, 61u8, 62u8, 32u8] + name + seq![32u8, 60u8, 61u8, 61u8, NEWLINE]
}

/// The header before the file at `index` of a batch: a blank line first for
/// every file but the first.
pub open spec fn header(name: Seq<u8>, index: int) -> Seq<u8> {
    if index > 0 {
        seq![NEWLINE] + header_line(name)
    } else {
        header_line(name)
    }
}

/// What one stream emits under the run's selectors: byte mode when a byte
/// selector is given, line mode otherwise.
pub open spec fn tail_of(content: Seq<u8>, lines: TakeValue, bytes: Option<TakeValue>) -> Seq<
    u8,
> {
    match bytes {
        Some(b) => tail_bytes_of(content, b),
        None => tail_lines_of(content, lines),
    }
}

/// What the target at `index` of a batch of `n` adds to standard output.
pub open spec fn file_output(
    t: FileTarget,
    index: int,
    n: int,
    lines: TakeValue,
    bytes: Option<TakeValue>,
    quiet: bool,
) -> Seq<u8> {
    match t.content {
        Ok(c) => (if !quiet && n > 1 {
            header(encode_utf8(t.name@), index)
        } else {
            Seq::empty()
        }) + tail_of(c@, lines, bytes),
        Err(_) => Seq::empty(),
    }
}

/// Standard output for the first `ts.len()` targets of a batch of `n`.
pub open spec fn batch_output(
    ts: Seq<FileTarget>,
    n: int,
    lines: TakeValue,
    bytes: Option<TakeValue>,
    quiet: bool,
) -> Seq<u8>
    decreases ts.len(),
{
    if ts.len() == 0 {
        Seq::empty()
    } else {
        batch_output(ts.drop_last(), n, lines, bytes, quiet) + file_output(
            ts.last(),
            ts.len() - 1,
            n,
            lines,
            bytes,
            quiet,
        )
    }
}

/// `name: failure` for a target that could not be read.
pub open spec fn diagnostic(name: Seq<char>, failure: Seq<char>) -> Seq<char> {
    name + seq![':', ' '] + failure
}

/// The diagnostics of a batch, in order: one for each failed target.
pub open spec fn batch_diagnostics(ts: Seq<FileTarget>) -> Seq<Seq<char>>
    decreases ts.len(),
{
    if ts.len() == 0 {
        Seq::empty()
    } else {
        match ts.last().content {
            Ok(_) => batch_diagnostics(ts.drop_last()),
            Err(e) => batch_diagnostics(ts.drop_last()).push(diagnostic(ts.last().name@, e@)),
        }
    }
}

pub open spec fn contents_fit(ts: Seq<FileTarget>) -> bool {
    forall|i: int|
        0 <= i < ts.len() ==> (#[trigger] ts[i].content matches Ok(c) ==> c@.len() <= i64::MAX)
}

/// Appends the header of the file at `index` to `out`.
fn push_header(out: &mut Vec<u8>, name: &String, index: usize)
    ensures
        final(out)@ == old(out)@ + header(encode_utf8(name@), index as int),
{
    if index > 0 {
        out.push(NEWLINE);
    }
    let open: [u8; 4] = [61u8, 61u8, 62u8, 32u8];
    let close: [u8; 5] = [32u8, 60u8, 61u8, 61u8, NEWLINE];
    let mark = out.len();
    push_suffix(out, open.as_slice(), 0);
    push_suffix(out, name.as_str().as_bytes(), 0);
    push_suffix(out, close.as_slice(), 0);
    assert(open@ =~= seq![61u8, 61u8, 62u8, 32u8]);
    assert(close@ =~= seq![32u8, 60u8, 61u8, 61u8, NEWLINE]);
    assert(out@ =~= old(out)@ + header(encode_utf8(name@), index as int));
}

/// The diagnostics of one target: one line when it failed, none otherwise.
pub open spec fn file_diagnostics(t: FileTarget) -> Seq<Seq<char>> {
    match t.content {
        Ok(_) => Seq::empty(),
        Err(e) => seq![diagnostic(t.name@, e@)],
    }
}

/// The header that goes before the file at `index` of a batch of `n_files`:
/// none for a single file or when `quiet` is set.
pub fn file_header(name: &String, index: usize, n_files: usize, quiet: bool) -> (r: Vec<u8>)
    ensures
        r@ == if !quiet && n_files > 1 {
            header(encode_utf8(name@), index as int)
        } else {
            Seq::empty()
        },
{
    let mut out: Vec<u8> = Vec::new();
    if !quiet && n_files > 1 {
        push_header(&mut out, name, index);
        assert(out@ =~= header(encode_utf8(name@), index as int));
    }
    out
}

/// The diagnostic for an input that could not be opened or read.
pub fn diagnostic_line(name: &String, failure: &String) -> (r: String)
    ensures
        r@ == diagnostic(name@, failure@),
{
    let mut d = name.clone();
    d.append(": ");
    d.append(failure.as_str());
    proof {
        reveal_strlit(": ");
        assert(d@ =~= diagnostic(name@, failure@));
    }
    d
}

/// Runs the engine over the target at `index` of a batch of `n_files`: its
/// header (when there are several inputs and `quiet` is unset) and its tail
/// when it was read, one diagnostic when it failed.
pub fn tail_one(
    target: &FileTarget,
    index: usize,
    n_files: usize,
    lines: &TakeValue,
    bytes: &Option<TakeValue>,
    quiet: bool,
) -> (r: TailOutput)
    requires
        target.content matches Ok(c) ==> c@.len() <= i64::MAX,
    ensures
        r.stdout@ == file_output(*target, index as int, n_files as int, *lines, *bytes, quiet),
        r.diagnostics@.map_values(|d: String| d@) == file_diagnostics(*target),
{
    let mut stdout: Vec<u8> = Vec::new();
    let mut diagnostics: Vec<String> = Vec::new();
    match &target.content {
        Err(e) => {
            diagnostics.push(diagnostic_line(&target.name, e));
            assert(diagnostics@.map_values(|d: String| d@) =~= file_diagnostics(*target));
        },
        Ok(content) => {
            let head = file_header(&target.name, index, n_files, quiet);
            push_suffix(&mut stdout, head.as_slice(), 0);
            let (total_lines, total_bytes) = count_lines_bytes(content.as_slice());
            let out = match bytes {
                Some(b) => tail_bytes(content.as_slice(), b, total_bytes),
                None => tail_lines(content.as_slice(), lines, total_lines),
            };
            push_suffix(&mut stdout, out.as_slice(), 0);
            assert(stdout@ =~= file_output(*target, index as int, n_files as int, *lines, *bytes, quiet));
            assert(diagnostics@.map_values(|d: String| d@) =~= file_diagnostics(*target));
        },
    }
    TailOutput { stdout, diagnostics }
}

/// Runs the engine over a batch of inputs, in order. Each readable input
/// gets its tail (bytes when `bytes` is given, lines otherwise), headed by
/// `==> name <==` when there are several inputs and `quiet` is unset; an
/// input that failed yields one diagnostic and the batch goes on.
pub fn tail_files(
    targets: &Vec<FileTarget>,
    lines: &TakeValue,
    bytes: &Option<TakeValue>,
    quiet: bool,
) -> (r: TailOutput)
    requires
        contents_fit(targets@),
    ensures
        r.stdout@ == batch_output(targets@, targets@.len() as int, *lines, *bytes, quiet),
        r.diagnostics@.map_values(|d: String| d@) == batch_diagnostics(targets@),
{
    let n = targets.len();
    let mut stdout: Vec<u8> = Vec::new();
    let mut diagnostics: Vec<String> = Vec::new();
    let mut i: usize = 0;
    while i < n
        invariant
            n == targets@.len(),
            i <= n,
            contents_fit(targets@),
            stdout@ == batch_output(targets@.take(i as int), n as int, *lines, *bytes, quiet),
            diagnostics@.map_values(|d: String| d@) == batch_diagnostics(targets@.take(i as int)),
        decreases n - i,
    {
        let target = &targets[i];
        let ghost before = diagnostics@.map_values(|d: String| d@);
        let one = tail_one(target, i, n, lines, bytes, quiet);
        let ghost ds = one.diagnostics@.map_values(|d: String| d@);
        assert(ds.len() == one.diagnostics@.len());
        push_suffix(&mut stdout, one.stdout.as_slice(), 0);
        if one.diagnostics.len() > 0 {
            let d = one.diagnostics[0].clone();
            assert(d@ == ds[0]);
            diagnostics.push(d);
            assert(diagnostics@.map_values(|d: String| d@) =~= before.push(ds[0]));
        } else {
            assert(diagnostics@.map_values(|d: String| d@) =~= before);
        }
        proof {
            let ts = targets@.take(i + 1);
            assert(ts.drop_last() =~= targets@.take(i as int));
            assert(ts.last() == targets@[i as int]);
            assert(stdout@ =~= batch_output(ts, n as int, *lines, *bytes, quiet));
            assert(diagnostics@.map_values(|d: String| d@) =~= batch_diagnostics(ts));
        }
        i = i + 1;
    }
    assert(targets@.take(n as int) =~= targets@);
    TailOutput { stdout, diagnostics }
}

/// Two targets that hold the same name and the same bytes, or failed with
/// the same text.
pub open spec fn same_target(a: FileTarget, b: FileTarget) -> bool {
    &&& a.name@ == b.name@
    &&& match (a.content, b.content) {
        (Ok(x), Ok(y)) => x@ == y@,
        (Err(x), Err(y)) => x@ == y@,
        _ => false,
    }
}

/// A batch's output is a function of the names and bytes of its inputs:
/// running it again over unmodified files gives the same bytes and the same
/// diagnostics.
pub proof fn lemma_batch_repeatable(
    ts: Seq<FileTarget>,
    us: Seq<FileTarget>,
    n: int,
    lines: TakeValue,
    bytes: Option<TakeValue>,
    quiet: bool,
)
    requires
        ts.len() == us.len(),
        forall|i: int| 0 <= i < ts.len() ==> same_target(#[trigger] ts[i], us[i]),
    ensures
        batch_output(ts, n, lines, bytes, quiet) == batch_output(us, n, lines, bytes, quiet),
        batch_diagnostics(ts) == batch_diagnostics(us),
    decreases ts.len(),
{
    if ts.len() > 0 {
        let (a, b) = (ts.drop_last(), us.drop_last());
        assert forall|i: int| 0 <= i < a.len() implies same_target(#[trigger] a[i], b[i]) by {
            assert(a[i] == ts[i] && b[i] == us[i]);
        }
        lemma_batch_repeatable(a, b, n, lines, bytes, quiet);
        assert(same_target(ts[ts.len() - 1], us[us.len() - 1]));
    }
}

/// With two readable inputs and headers on, the first header has no blank
/// line before it and the second has exactly one.
pub proof fn lemma_two_file_headers(ts: Seq<FileTarget>, lines: TakeValue, bytes: Option<TakeValue>)
    requires
        ts.len() == 2,
        ts[0].content is Ok,
        ts[1].content is Ok,
    ensures
        batch_output(ts, 2, lines, bytes, false) == header_line(encode_utf8(ts[0].name@))
            + tail_of(ts[0].content->Ok_0@, lines, bytes) + seq![NEWLINE] + header_line(
            encode_utf8(ts[1].name@),
        ) + tail_of(ts[1].content->Ok_0@, lines, bytes),
{
    let first = ts.drop_last();
    assert(first.drop_last() =~= Seq::<FileTarget>::empty());
    assert(first.last() == ts[0]);
    assert(batch_output(first.drop_last(), 2, lines, bytes, false) == Seq::<u8>::empty());
    assert(batch_output(first, 2, lines, bytes, false) =~= header_line(encode_utf8(ts[0].name@))
        + tail_of(ts[0].content->Ok_0@, lines, bytes));
    assert(batch_output(ts, 2, lines, bytes, false) =~= header_line(encode_utf8(ts[0].name@))
        + tail_of(ts[0].content->Ok_0@, lines, bytes) + seq![NEWLINE] + header_line(
        encode_utf8(ts[1].name@),
    ) + tail_of(ts[1].content->Ok_0@, lines, bytes));
}

/// In a batch of three where one input fails, the two others are still
/// emitted, in order, and the failure gives exactly one diagnostic, which
/// names that input.
pub proof fn lemma_failure_isolated(
    ts: Seq<FileTarget>,
    j: int,
    lines: TakeValue,
    bytes: Option<TakeValue>,
    quiet: bool,
)
    requires
        ts.len() == 3,
        0 <= j < 3,
        ts[j].content is Err,
        forall|i: int| 0 <= i < 3 && i != j ==> #[trigger] ts[i].content is Ok,
    ensures
        batch_diagnostics(ts) == seq![diagnostic(ts[j].name@, ts[j].content->Err_0@)],
        file_output(ts[j], j, 3, lines, bytes, quiet) == Seq::<u8>::empty(),
        batch_output(ts, 3, lines, bytes, quiet) == file_output(ts[0], 0, 3, lines, bytes, quiet)
            + file_output(ts[1], 1, 3, lines, bytes, quiet) + file_output(
            ts[2],
            2,
            3,
            lines,
            bytes,
            quiet,
        ),
{
    let t2 = ts.drop_last();
    let t1 = t2.drop_last();
    let t0 = t1.drop_last();
    assert(t0.len() == 0);
    assert(t1.last() == ts[0]);
    assert(t2.last() == ts[1]);
    assert(ts.last() == ts[2]);
    assert(ts[0].content is Ok || j == 0);
    assert(ts[1].content is Ok || j == 1);
    assert(ts[2].content is Ok || j == 2);
    assert(batch_output(t0, 3, lines, bytes, quiet) == Seq::<u8>::empty());
    assert(batch_diagnostics(t0) == Seq::<Seq<char>>::empty());
    assert(batch_output(t1, 3, lines, bytes, quiet) =~= file_output(ts[0], 0, 3, lines, bytes, quiet));
    assert(batch_output(t2, 3, lines, bytes, quiet) =~= file_output(ts[0], 0, 3, lines, bytes, quiet)
        + file_output(ts[1], 1, 3, lines, bytes, quiet));
    assert(batch_output(ts, 3, lines, bytes, quiet) =~= file_output(ts[0], 0, 3, lines, bytes, quiet)
        + file_output(ts[1], 1, 3, lines, bytes, quiet) + file_output(ts[2], 2, 3, lines, bytes, quiet));
    let d = diagnostic(ts[j].name@, ts[j].content->Err_0@);
    if j == 0 {
        assert(batch_diagnostics(t1) =~= seq![d]);
        assert(batch_diagnostics(t2) =~= seq![d]);
    } else if j == 1 {
        assert(batch_diagnostics(t1) =~= Seq::<Seq<char>>::empty());
        assert(batch_diagnostics(t2) =~= seq![d]);
    } else {
        assert(batch_diagnostics(t1) =~= Seq::<Seq<char>>::empty());
        assert(batch_diagnostics(t2) =~= Seq::<Seq<char>>::empty());
    }
    assert(batch_diagnostics(ts) =~= seq![d]);
}

} // verus!
