//! Console output of an attached child process: escape stripping and line
//! assembly for the poll loop that reads a pseudo-terminal.
use vstd::prelude::*;

verus! {

/// The escape byte that starts a control sequence.
pub const ESC: u8 = 0x1b;

/// `[`, the second byte of a control sequence introducer.
pub const CSI_BRACKET: u8 = 0x5b;

pub const LF: u8 = 0x0a;

pub const CR: u8 = 0x0d;

/// Parameter bytes of a control sequence: decimal digits and `;`.
pub open spec fn is_param_byte(b: u8) -> bool {
    (0x30 <= b && b <= 0x39) || b == 0x3b
}

/// Final byte of a control sequence: an ASCII letter.
pub open spec fn is_final_byte(b: u8) -> bool {
    (0x41 <= b && b <= 0x5a) || (0x61 <= b && b <= 0x7a)
}

/// Number of parameter bytes in the run that starts at `i`.
pub open spec fn param_run(s: Seq<u8>, i: int) -> nat
    decreases s.len() - i,
{
    if 0 <= i < s.len() && is_param_byte(s[i]) {
        1 + param_run(s, i + 1)
    } else {
        0
    }
}

/// Length of the control sequence `ESC [ params letter` that starts at `i`,
/// or 0 when none starts there.
pub open spec fn escape_len_at(s: Seq<u8>, i: int) -> int {
    let f = i + 2 + param_run(s, i + 2);
    if 0 <= i && i + 1 < s.len() && s[i] == ESC && s[i + 1] == CSI_BRACKET && f < s.len()
        && is_final_byte(s[f]) {
        f + 1 - i
    } else {
        0
    }
}

/// `s` from index `i` on, with every control sequence removed, scanning from
/// the left and resuming after each removed sequence.
pub open spec fn strip_escapes_from(s: Seq<u8>, i: int) -> Seq<u8>
    decreases s.len() - i,
{
    if i < 0 || i >= s.len() {
        Seq::empty()
    } else if escape_len_at(s, i) > 0 {
        strip_escapes_from(s, i + escape_len_at(s, i))
    } else {
        seq![s[i]] + strip_escapes_from(s, i + 1)
    }
}

pub open spec fn strip_escapes(s: Seq<u8>) -> Seq<u8> {
    strip_escapes_from(s, 0)
}

/// `s` without its trailing carriage returns and line feeds.
pub open spec fn trim_line_end(s: Seq<u8>) -> Seq<u8>
    decreases s.len(),
{
    if s.len() > 0 && (s.last() == CR || s.last() == LF) {
        trim_line_end(s.drop_last())
    } else {
        s
    }
}

/// The log line made of one raw line of output.
pub open spec fn clean_line(raw: Seq<u8>) -> Seq<u8> {
    trim_line_end(strip_escapes(raw))
}

fn param_run_exec(s: &Vec<u8>, start: usize) -> (n: usize)
    requires
        start <= s@.len(),
    ensures
        n == param_run(s@, start as int),
        start + n <= s@.len(),
{
    let mut j: usize = start;
    while j < s.len() && ((0x30 <= s[j] && s[j] <= 0x39) || s[j] == 0x3b)
        invariant
            start <= j <= s@.len(),
            param_run(s@, start as int) == (j - start) + param_run(s@, j as int),
        decreases s@.len() - j,
    {
        j = j + 1;
    }
    j - start
}

/// Removes every control sequence `ESC [ params letter` from `s`.
pub fn strip_escape_sequences(s: &Vec<u8>) -> (r: Vec<u8>)
    ensures
        r@ == strip_escapes(s@),
{
    let mut out: Vec<u8> = Vec::new();
    let mut i: usize = 0;
    while i < s.len()
        invariant
            i <= s@.len(),
            strip_escapes(s@) == out@ + strip_escapes_from(s@, i as int),
        decreases s@.len() - i,
    {
        let mut skip: usize = 0;
        if s.len() - i > 2 && s[i] == ESC && s[i + 1] == CSI_BRACKET {
            let n = param_run_exec(s, i + 2);
            let f = i + 2 + n;
            if f < s.len() && ((0x41 <= s[f] && s[f] <= 0x5a) || (0x61 <= s[f] && s[f] <= 0x7a)) {
                skip = f + 1 - i;
            }
        }
        assert(skip == escape_len_at(s@, i as int));
        if skip > 0 {
            i = i + skip;
        } else {
            let ghost before = out@;
            out.push(s[i]);
            assert(before + strip_escapes_from(s@, i as int) =~= out@ + strip_escapes_from(
                s@,
                i + 1,
            ));
            i = i + 1;
        }
    }
    out
}

/// Removes the trailing carriage returns and line feeds of `s`.
pub fn trim_line_end_exec(s: &mut Vec<u8>)
    ensures
        final(s)@ == trim_line_end(old(s)@),
    decreases old(s)@.len(),
{
    let n = s.len();
    if n > 0 && (s[n - 1] == CR || s[n - 1] == LF) {
        s.pop();
        assert(s@ =~= old(s)@.drop_last());
        trim_line_end_exec(s);
    }
}

/// The log line made of one raw line of output: control sequences removed,
/// then the line ending.
pub fn clean_line_exec(raw: &Vec<u8>) -> (r: Vec<u8>)
    ensures
        r@ == clean_line(raw@),
{
    let mut r = strip_escape_sequences(raw);
    trim_line_end_exec(&mut r);
    r
}

pub open spec fn has_no_newline(s: Seq<u8>) -> bool {
    forall|k: int| 0 <= k < s.len() ==> s[k] != LF
}

/// What follows the last line feed of the stream `s`: the line still open.
pub open spec fn pending_of(s: Seq<u8>) -> Seq<u8>
    decreases s.len(),
{
    if s.len() == 0 {
        Seq::empty()
    } else if s.last() == LF {
        Seq::empty()
    } else {
        pending_of(s.drop_last()).push(s.last())
    }
}

/// The complete lines of the stream `s`, each with its line feed, in order.
pub open spec fn raw_lines_of(s: Seq<u8>) -> Seq<Seq<u8>>
    decreases s.len(),
{
    if s.len() == 0 {
        Seq::empty()
    } else if s.last() == LF {
        raw_lines_of(s.drop_last()).push(pending_of(s.drop_last()).push(LF))
    } else {
        raw_lines_of(s.drop_last())
    }
}

pub open spec fn clean_lines(raw: Seq<Seq<u8>>) -> Seq<Seq<u8>> {
    raw.map_values(|l: Seq<u8>| clean_line(l))
}

/// The log lines that the stream `s` gives once its complete lines are cleaned.
pub open spec fn log_lines_of(s: Seq<u8>) -> Seq<Seq<u8>> {
    clean_lines(raw_lines_of(s))
}

pub open spec fn views_of(v: Seq<Vec<u8>>) -> Seq<Seq<u8>> {
    v.map_values(|l: Vec<u8>| l@)
}

pub proof fn lemma_pending_has_no_newline(s: Seq<u8>)
    ensures
        has_no_newline(pending_of(s)),
    decreases s.len(),
{
    if s.len() > 0 {
        lemma_pending_has_no_newline(s.drop_last());
    }
}

/// A stream without a line feed is all pending, with no complete line.
pub proof fn lemma_open_line(s: Seq<u8>)
    requires
        has_no_newline(s),
    ensures
        pending_of(s) == s,
        raw_lines_of(s) == Seq::<Seq<u8>>::empty(),
    decreases s.len(),
{
    if s.len() > 0 {
        lemma_open_line(s.drop_last());
        assert(s.drop_last().push(s.last()) =~= s);
    }
}

/// Where a stream is cut into chunks does not matter: the lines of `a + b`
/// are those of `a` followed by those of what `a` left open followed by `b`.
pub proof fn lemma_chunk_boundaries(a: Seq<u8>, b: Seq<u8>)
    ensures
        raw_lines_of(a + b) == raw_lines_of(a) + raw_lines_of(pending_of(a) + b),
        log_lines_of(a + b) == log_lines_of(a) + log_lines_of(pending_of(a) + b),
        pending_of(a + b) == pending_of(pending_of(a) + b),
    decreases b.len(),
{
    let p = pending_of(a);
    if b.len() == 0 {
        lemma_pending_has_no_newline(a);
        lemma_open_line(p);
        assert(a + b =~= a);
        assert(p + b =~= p);
        assert(raw_lines_of(a) + Seq::<Seq<u8>>::empty() =~= raw_lines_of(a));
    } else {
        let b0 = b.drop_last();
        lemma_chunk_boundaries(a, b0);
        assert((a + b).drop_last() =~= a + b0);
        assert((p + b).drop_last() =~= p + b0);
        assert((a + b).last() == b.last());
        assert((p + b).last() == b.last());
        if b.last() == LF {
            assert(raw_lines_of(a + b) =~= raw_lines_of(a) + raw_lines_of(p + b));
        }
    }
    assert(clean_lines(raw_lines_of(a) + raw_lines_of(p + b)) =~= clean_lines(raw_lines_of(a))
        + clean_lines(raw_lines_of(p + b)));
}

/// What one wait on the reader's channel brought.
pub enum PollEvent {
    /// A chunk of raw output.
    Chunk(Vec<u8>),
    /// The reader saw the end of the stream or a read error.
    EndOfStream,
    /// Nothing came within the wait; `child_alive` tells whether the child
    /// process was still running when checked.
    Timeout { child_alive: bool },
    /// The reader is gone without a word.
    Disconnected,
}

/// The line assembler of the poll loop: bytes received since the last line
/// feed wait here until their line is complete.
pub struct LineAssembler {
    pending: Vec<u8>,
}

impl LineAssembler {
    pub closed spec fn pending_view(&self) -> Seq<u8> {
        self.pending@
    }

    pub open spec fn wf(&self) -> bool {
        has_no_newline(self.pending_view())
    }

    pub fn new() -> (r: LineAssembler)
        ensures
            r.wf(),
            r.pending_view() == Seq::<u8>::empty(),
    {
        LineAssembler { pending: Vec::new() }
    }

    pub fn pending(&self) -> (r: &Vec<u8>)
        ensures
            r@ == self.pending_view(),
    {
        &self.pending
    }

    /// Takes one chunk of output and returns the log lines of the lines it
    /// completes, in order; the bytes after its last line feed stay pending.
    pub fn push_chunk(&mut self, data: &Vec<u8>) -> (lines: Vec<Vec<u8>>)
        requires
            old(self).wf(),
        ensures
            final(self).wf(),
            views_of(lines@) == log_lines_of(old(self).pending_view() + data@),
            final(self).pending_view() == pending_of(old(self).pending_view() + data@),
    {
        let ghost start = self.pending@;
        let mut lines: Vec<Vec<u8>> = Vec::new();
        proof {
            lemma_open_line(start);
            assert(start + data@.subrange(0, 0) =~= start);
            assert(views_of(lines@) =~= log_lines_of(start));
        }
        let mut j: usize = 0;
        while j < data.len()
            invariant
                j <= data@.len(),
                self.pending@ == pending_of(start + data@.subrange(0, j as int)),
                views_of(lines@) == log_lines_of(start + data@.subrange(0, j as int)),
            decreases data@.len() - j,
        {
            let ghost s0 = start + data@.subrange(0, j as int);
            let ghost s1 = start + data@.subrange(0, j + 1);
            assert(s1.drop_last() =~= s0);
            assert(s1.last() == data@[j as int]);
            let b = data[j];
            self.pending.push(b);
            if b == LF {
                let line = clean_line_exec(&self.pending);
                let ghost before = lines@;
                lines.push(line);
                self.pending.clear();
                assert(views_of(lines@) =~= views_of(before).push(line@));
                assert(log_lines_of(s1) =~= log_lines_of(s0).push(clean_line(pending_of(s0).push(LF))));
            }
            j = j + 1;
        }
        proof {
            assert(start + data@.subrange(0, data@.len() as int) =~= start + data@);
            lemma_pending_has_no_newline(start + data@);
        }
        lines
    }

    /// One turn of the poll loop: what the reader delivered, or that the wait
    /// timed out. Returns the log lines to emit and whether to poll again.
    /// Data never stops the loop; the end of the stream, a lost channel and a
    /// timeout after the child died do.
    pub fn on_poll(&mut self, event: PollEvent) -> (r: (Vec<Vec<u8>>, bool))
        requires
            old(self).wf(),
        ensures
            final(self).wf(),
            match event {
                PollEvent::Chunk(data) => {
                    &&& views_of(r.0@) == log_lines_of(old(self).pending_view() + data@)
                    &&& final(self).pending_view() == pending_of(
                        old(self).pending_view() + data@,
                    )
                    &&& r.1
                },
                PollEvent::Timeout { child_alive } => {
                    &&& r.0@.len() == 0
                    &&& final(self).pending_view() == old(self).pending_view()
                    &&& r.1 == child_alive
                },
                _ => {
                    &&& r.0@.len() == 0
                    &&& final(self).pending_view() == old(self).pending_view()
                    &&& !r.1
                },
            },
    {
        match event {
            PollEvent::Chunk(data) => {
                let lines = self.push_chunk(&data);
                (lines, true)
            },
            PollEvent::Timeout { child_alive } => (Vec::new(), child_alive),
            PollEvent::EndOfStream => (Vec::new(), false),
            PollEvent::Disconnected => (Vec::new(), false),
        }
    }

    /// Ends the stream: the open line, if it holds any byte, becomes one last
    /// log line although no line feed ended it.
    pub fn finish(&mut self) -> (r: Option<Vec<u8>>)
        ensures
            final(self).wf(),
            final(self).pending_view() == Seq::<u8>::empty(),
            old(self).pending_view().len() == 0 ==> r is None,
            old(self).pending_view().len() > 0 ==> r is Some && r->0@ == clean_line(
                old(self).pending_view(),
            ),
    {
        if self.pending.len() == 0 {
            None
        } else {
            let line = clean_line_exec(&self.pending);
            self.pending.clear();
            Some(line)
        }
    }
}

} // verus!
