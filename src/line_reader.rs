//! Incremental extraction of newline-terminated lines from a growing file.
use vstd::prelude::*;

verus! {

/// The line terminator.
pub const NEWLINE: u8 = 10;

/// Scanner state: the complete lines found so far, and the bytes of the
/// line that has not been terminated yet.
pub type ScanState = (Seq<Seq<u8>>, Seq<u8>);

/// One byte through the scanner: a terminator completes the open line,
/// any other byte extends it.
pub open spec fn feed_byte(st: ScanState, b: u8) -> ScanState {
    if b == NEWLINE {
        (st.0.push(st.1), Seq::empty())
    } else {
        (st.0, st.1.push(b))
    }
}

/// The bytes of `s`, in order, through the scanner starting at `st`.
pub open spec fn feed(st: ScanState, s: Seq<u8>) -> ScanState
    decreases s.len(),
{
    if s.len() == 0 {
        st
    } else {
        feed_byte(feed(st, s.drop_last()), s.last())
    }
}

/// Lines completed by reading `s` after the unterminated bytes `pending`,
/// and the bytes left unterminated afterwards.
pub open spec fn scan(pending: Seq<u8>, s: Seq<u8>) -> ScanState {
    feed((Seq::empty(), pending), s)
}

/// The views of a vector of byte vectors.
pub open spec fn views(v: Seq<Vec<u8>>) -> Seq<Seq<u8>> {
    v.map_values(|l: Vec<u8>| l@)
}

/// Bytes taken up in the file by `lines`, each with its terminator.
pub open spec fn consumed(lines: Seq<Seq<u8>>) -> nat
    decreases lines.len(),
{
    if lines.len() == 0 {
        0
    } else {
        consumed(lines.drop_last()) + lines.last().len() + 1
    }
}

/// The file content that writing `lines`, each followed by a terminator,
/// produces.
pub open spec fn join_lines(lines: Seq<Seq<u8>>) -> Seq<u8>
    decreases lines.len(),
{
    if lines.len() == 0 {
        Seq::empty()
    } else {
        join_lines(lines.drop_last()) + lines.last().push(NEWLINE)
    }
}

/// Lines delivered by reading `chunks` one after the other, starting after
/// the unterminated bytes `pending`; and the bytes left unterminated.
pub open spec fn scan_chunks(pending: Seq<u8>, chunks: Seq<Seq<u8>>) -> ScanState
    decreases chunks.len(),
{
    if chunks.len() == 0 {
        (Seq::empty(), pending)
    } else {
        let r = scan_chunks(pending, chunks.drop_last());
        let s = scan(r.1, chunks.last());
        (r.0 + s.0, s.1)
    }
}

/// Feeding two byte runs one after the other is feeding their concatenation.
pub proof fn lemma_feed_append(st: ScanState, a: Seq<u8>, b: Seq<u8>)
    ensures
        feed(st, a + b) == feed(feed(st, a), b),
    decreases b.len(),
{
    if b.len() == 0 {
        assert(a + b =~= a);
    } else {
        lemma_feed_append(st, a, b.drop_last());
        assert((a + b).drop_last() =~= a + b.drop_last());
        assert((a + b).last() == b.last());
    }
}

/// Lines already found stay in front of those found later.
pub proof fn lemma_feed_keeps_lines(st: ScanState, s: Seq<u8>)
    ensures
        feed(st, s).0 == st.0 + feed((Seq::empty(), st.1), s).0,
        feed(st, s).1 == feed((Seq::empty(), st.1), s).1,
    decreases s.len(),
{
    if s.len() == 0 {
        assert(st.0 + Seq::<Seq<u8>>::empty() =~= st.0);
    } else {
        lemma_feed_keeps_lines(st, s.drop_last());
        let inner = feed((Seq::empty(), st.1), s.drop_last());
        assert(st.0 + inner.0.push(inner.1) =~= (st.0 + inner.0).push(inner.1));
    }
}

/// Bytes without a terminator only extend the open line.
pub proof fn lemma_feed_no_newline(st: ScanState, s: Seq<u8>)
    requires
        !s.contains(NEWLINE),
    ensures
        feed(st, s) == (st.0, st.1 + s),
    decreases s.len(),
{
    if s.len() == 0 {
        assert(st.1 + s =~= st.1);
    } else {
        assert(!s.drop_last().contains(NEWLINE)) by {
            if s.drop_last().contains(NEWLINE) {
                let k = choose|k: int| 0 <= k < s.drop_last().len() && s.drop_last()[k] == NEWLINE;
                assert(s[k] == NEWLINE);
            }
        }
        lemma_feed_no_newline(st, s.drop_last());
        assert(s.last() != NEWLINE) by {
            assert(s[s.len() - 1] == s.last());
        }
        assert((st.1 + s.drop_last()).push(s.last()) =~= st.1 + s);
    }
}

/// Every byte read is either part of a delivered line, a terminator, or
/// still pending.
pub proof fn lemma_feed_accounts_bytes(st: ScanState, s: Seq<u8>)
    ensures
        consumed(feed(st, s).0) + feed(st, s).1.len() == consumed(st.0) + st.1.len() + s.len(),
    decreases s.len(),
{
    if s.len() > 0 {
        lemma_feed_accounts_bytes(st, s.drop_last());
        let r = feed(st, s.drop_last());
        if s.last() == NEWLINE {
            assert(r.0.push(r.1).drop_last() =~= r.0);
        }
    }
}


/// Reading `chunks` one after the other delivers what one read of their
/// concatenation delivers.
pub proof fn lemma_scan_chunks_is_scan_of_concat(pending: Seq<u8>, chunks: Seq<Seq<u8>>)
    ensures
        scan_chunks(pending, chunks) == scan(pending, chunks.flatten()),
    decreases chunks.len(),
{
    if chunks.len() == 0 {
        assert(chunks.flatten() =~= Seq::<u8>::empty());
    } else {
        let init = chunks.drop_last();
        lemma_scan_chunks_is_scan_of_concat(pending, init);
        init.lemma_flatten_push(chunks.last());
        assert(init.push(chunks.last()) =~= chunks);
        lemma_feed_append((Seq::empty(), pending), init.flatten(), chunks.last());
        lemma_feed_keeps_lines(scan(pending, init.flatten()), chunks.last());
    }
}

/// Writing terminated lines that hold no terminator themselves, then reading
/// the file from the start, delivers exactly those lines.
pub proof fn lemma_scan_of_joined_lines(lines: Seq<Seq<u8>>)
    requires
        forall|i: int| 0 <= i < lines.len() ==> !(#[trigger] lines[i]).contains(NEWLINE),
    ensures
        scan(Seq::empty(), join_lines(lines)) == (lines, Seq::<u8>::empty()),
    decreases lines.len(),
{
    if lines.len() == 0 {
        assert(lines =~= Seq::<Seq<u8>>::empty());
    } else {
        let init = lines.drop_last();
        let last = lines.last();
        assert forall|i: int| 0 <= i < init.len() implies !(#[trigger] init[i]).contains(NEWLINE) by {
            assert(init[i] == lines[i]);
        }
        lemma_scan_of_joined_lines(init);
        assert(!last.contains(NEWLINE)) by {
            assert(last == lines[lines.len() - 1]);
        }
        let st0 = (Seq::<Seq<u8>>::empty(), Seq::<u8>::empty());
        lemma_feed_append(st0, join_lines(init), last.push(NEWLINE));
        lemma_feed_no_newline((init, Seq::<u8>::empty()), last);
        assert(last.push(NEWLINE).drop_last() =~= last);
        assert(Seq::<u8>::empty() + last =~= last);
        assert(init.push(last) =~= lines);
    }
}

/// Per-source delivery is independent of how appended lines are batched:
/// whatever the split of the written bytes into reads, the lines delivered
/// are the lines written, in order, none twice and none missing.
pub proof fn lemma_lines_delivered_regardless_of_batching(
    lines: Seq<Seq<u8>>,
    chunks: Seq<Seq<u8>>,
)
    requires
        forall|i: int| 0 <= i < lines.len() ==> !(#[trigger] lines[i]).contains(NEWLINE),
        chunks.flatten() == join_lines(lines),
    ensures
        scan_chunks(Seq::empty(), chunks) == (lines, Seq::<u8>::empty()),
{
    lemma_scan_chunks_is_scan_of_concat(Seq::empty(), chunks);
    lemma_scan_of_joined_lines(lines);
}

/// A line without a terminator is held back; once a later read brings the
/// terminator, exactly one line is delivered, holding all the accumulated
/// bytes.
pub proof fn lemma_unterminated_line_waits(pending: Seq<u8>, head: Seq<u8>, tail: Seq<u8>)
    requires
        !head.contains(NEWLINE),
        !tail.contains(NEWLINE),
    ensures
        scan(pending, head) == (Seq::<Seq<u8>>::empty(), pending + head),
        scan(pending + head, tail.push(NEWLINE)) == (
            seq![pending + head + tail],
            Seq::<u8>::empty(),
        ),
{
    lemma_feed_no_newline((Seq::empty(), pending), head);
    lemma_feed_no_newline((Seq::empty(), pending + head), tail);
    assert(tail.push(NEWLINE).drop_last() =~= tail);
    assert(Seq::<Seq<u8>>::empty().push(pending + head + tail) =~= seq![pending + head + tail]);
}

/// Reads a growing file line by line. `cursor` is the offset just past the
/// last delivered line; `pending` holds the bytes read after it that no
/// terminator has completed yet.
pub struct LineReader {
    cursor: u64,
    pending: Vec<u8>,
}

impl LineReader {
    pub closed spec fn cursor_spec(&self) -> nat {
        self.cursor as nat
    }

    pub closed spec fn pending_spec(&self) -> Seq<u8> {
        self.pending@
    }

    /// Offset in the file of the next byte to read.
    pub open spec fn read_pos_spec(&self) -> nat {
        self.cursor_spec() + self.pending_spec().len()
    }

    /// The read position fits in a file offset.
    pub open spec fn wf(&self) -> bool {
        self.read_pos_spec() <= u64::MAX
    }

    /// A reader whose next line starts at `start`.
    pub fn new(start: u64) -> (r: LineReader)
        ensures
            r.wf(),
            r.cursor_spec() == start,
            r.pending_spec() == Seq::<u8>::empty(),
    {
        LineReader { cursor: start, pending: Vec::new() }
    }

    /// Offset just past the last delivered line.
    pub fn cursor(&self) -> (r: u64)
        ensures
            r == self.cursor_spec(),
    {
        self.cursor
    }

    /// Offset in the file of the next byte to read.
    pub fn read_pos(&self) -> (r: u64)
        requires
            self.wf(),
        ensures
            r == self.read_pos_spec(),
    {
        self.cursor + self.pending.len() as u64
    }

    /// Number of bytes read but not yet part of a complete line.
    pub fn pending_len(&self) -> (r: usize)
        ensures
            r == self.pending_spec().len(),
    {
        self.pending.len()
    }

    /// Forgets everything read: the next line starts at `start` (after the
    /// file was truncated or replaced).
    pub fn reset(&mut self, start: u64)
        ensures
            final(self).wf(),
            final(self).cursor_spec() == start,
            final(self).pending_spec() == Seq::<u8>::empty(),
    {
        self.cursor = start;
        self.pending = Vec::new();
    }

    /// Takes the bytes `chunk` read at `read_pos()` and returns the lines they
    /// complete, in order, without terminators. An empty result means no new
    /// complete line. Bytes after the last terminator stay pending; the
    /// cursor advances by exactly the bytes of the delivered lines and their
    /// terminators.
    pub fn pull(&mut self, chunk: &[u8]) -> (lines: Vec<Vec<u8>>)
        requires
            old(self).wf(),
            old(self).read_pos_spec() + chunk@.len() <= u64::MAX,
        ensures
            final(self).wf(),
            views(lines@) == scan(old(self).pending_spec(), chunk@).0,
            final(self).pending_spec() == scan(old(self).pending_spec(), chunk@).1,
            final(self).cursor_spec() == old(self).cursor_spec() + consumed(views(lines@)),
            final(self).read_pos_spec() == old(self).read_pos_spec() + chunk@.len(),
    {
        let ghost start = self.pending@;
        let start_len = self.pending.len();
        let mut cur: Vec<u8> = Vec::new();
        std::mem::swap(&mut cur, &mut self.pending);
        let mut lines: Vec<Vec<u8>> = Vec::new();
        let mut i: usize = 0;
        proof {
            assert(chunk@.subrange(0, 0) =~= Seq::<u8>::empty());
            assert(views(lines@) =~= Seq::<Seq<u8>>::empty());
        }
        while i < chunk.len()
            invariant
                i <= chunk@.len(),
                (views(lines@), cur@) == scan(start, chunk@.subrange(0, i as int)),
            decreases chunk@.len() - i,
        {
            let b = chunk[i];
            proof {
                assert(chunk@.subrange(0, i + 1).drop_last() =~= chunk@.subrange(0, i as int));
                assert(chunk@.subrange(0, i + 1).last() == b);
            }
            if b == NEWLINE {
                let mut done: Vec<u8> = Vec::new();
                std::mem::swap(&mut done, &mut cur);
                let ghost before = lines@;
                lines.push(done);
                proof {
                    assert(views(lines@) =~= views(before).push(done@));
                }
            } else {
                cur.push(b);
            }
            i = i + 1;
        }
        proof {
            assert(chunk@.subrange(0, chunk@.len() as int) =~= chunk@);
            lemma_feed_accounts_bytes((Seq::empty(), start), chunk@);
        }
        self.cursor = self.cursor + (start_len as u64) + (chunk.len() as u64) - (cur.len() as u64);
        self.pending = cur;
        lines
    }
}

} // verus!
