//! An in-memory stream that echoes what is written to it, for running the
//! registry without a remote end.
use crate::terminal_manager::{
    chunk_text, lemma_chunk_round_trip, read_events, read_goes_on, EventView, TerminalStream, READ_CHUNK,
};
use vstd::utf8::encode_utf8;
use vstd::prelude::*;

verus! {

/// A stream whose reads return, in order, the bytes written to it.
pub struct LoopbackStream {
    pending: Vec<u8>,
    rows: u16,
    cols: u16,
    sent: Ghost<Seq<u8>>,
    flushed_len: Ghost<nat>,
    taken: Ghost<Seq<u8>>,
}

impl LoopbackStream {
    /// The bytes written and not yet read.
    pub closed spec fn pending(&self) -> Seq<u8> {
        self.pending@
    }

    /// What was written is what was read followed by what is left to read.
    pub closed spec fn echoes(&self) -> bool {
        self.sent@ == self.taken@ + self.pending@
    }

    /// A stream with nothing to read and a window of 24 rows of 80 columns.
    pub fn new() -> (r: Self)
        ensures
            r.pending() == Seq::<u8>::empty(),
            r.records(),
            r.written() == Seq::<u8>::empty(),
            r.received() == Seq::<u8>::empty(),
            r.flushed() == 0,
            r.window_asked() == Some((24u16, 80u16)),
            r.echoes(),
    {
        let r = LoopbackStream {
            pending: Vec::new(),
            rows: 24,
            cols: 80,
            sent: Ghost(Seq::empty()),
            flushed_len: Ghost(0),
            taken: Ghost(Seq::empty()),
        };
        assert(r.sent@ =~= r.taken@ + r.pending@);
        r
    }

    /// The window size last asked for, as (rows, columns).
    pub fn window_size(&self) -> (r: (u16, u16))
        ensures
            Some(r) == self.window_asked(),
    {
        (self.rows, self.cols)
    }
}

impl TerminalStream for LoopbackStream {
    open spec fn records(&self) -> bool {
        true
    }

    closed spec fn written(&self) -> Seq<u8> {
        self.sent@
    }

    closed spec fn flushed(&self) -> nat {
        self.flushed_len@
    }

    closed spec fn received(&self) -> Seq<u8> {
        self.taken@
    }

    closed spec fn window_asked(&self) -> Option<(u16, u16)> {
        Some((self.rows, self.cols))
    }

    fn read_chunk(&mut self, max: usize) -> (r: Result<Vec<u8>, String>)
        ensures
            r matches Ok(v) && v@ == old(self).pending().take(
                if max < old(self).pending().len() { max as int } else { old(self).pending().len() as int },
            ),
            final(self).pending() == old(self).pending().skip(
                if max < old(self).pending().len() { max as int } else { old(self).pending().len() as int },
            ),
            old(self).echoes() ==> final(self).echoes(),
    {
        let n = if max < self.pending.len() {
            max
        } else {
            self.pending.len()
        };
        let mut out: Vec<u8> = Vec::new();
        let mut rest: Vec<u8> = Vec::new();
        let mut i: usize = 0;
        while i < self.pending.len()
            invariant
                n <= self.pending@.len(),
                i <= self.pending@.len(),
                self.pending@ == old(self).pending@,
                out@ == self.pending@.take(if i < n { i as int } else { n as int }),
                rest@ == if i < n { Seq::<u8>::empty() } else { self.pending@.subrange(n as int, i as int) },
            decreases self.pending@.len() - i,
        {
            if i < n {
                out.push(self.pending[i]);
            } else {
                rest.push(self.pending[i]);
            }
            assert(out@ =~= self.pending@.take(if i + 1 < n { i + 1 } else { n as int }));
            assert(rest@ =~= if i + 1 < n { Seq::<u8>::empty() } else { self.pending@.subrange(n as int, i + 1) });
            i = i + 1;
        }
        assert(rest@ =~= self.pending@.skip(n as int));
        assert(self.pending@ =~= out@ + rest@);
        self.pending = rest;
        self.taken = Ghost(self.taken@ + out@);
        assert(old(self).echoes() ==> self.sent@ =~= self.taken@ + self.pending@);
        Ok(out)
    }

    fn write_all(&mut self, data: &[u8]) -> (r: Result<(), String>)
        ensures
            r is Ok,
            final(self).pending() == old(self).pending() + data@,
            old(self).echoes() ==> final(self).echoes(),
    {
        let mut i: usize = 0;
        while i < data.len()
            invariant
                i <= data@.len(),
                self.pending@ == old(self).pending@ + data@.take(i as int),
                self.rows == old(self).rows,
                self.cols == old(self).cols,
                self.sent == old(self).sent,
                self.flushed_len == old(self).flushed_len,
                self.taken == old(self).taken,
            decreases data@.len() - i,
        {
            self.pending.push(data[i]);
            assert(data@.take(i + 1) =~= data@.take(i as int).push(data@[i as int]));
            i = i + 1;
        }
        assert(data@.take(data@.len() as int) =~= data@);
        self.sent = Ghost(self.sent@ + data@);
        assert(old(self).echoes() ==> self.sent@ =~= self.taken@ + self.pending@);
        Ok(())
    }

    fn flush(&mut self) -> (r: Result<(), String>)
        ensures
            r is Ok,
            final(self).pending() == old(self).pending(),
            old(self).echoes() ==> final(self).echoes(),
    {
        self.flushed_len = Ghost(self.sent@.len());
        Ok(())
    }

    fn set_window_size(&mut self, rows: u16, cols: u16) -> (r: Result<(), String>)
        ensures
            r is Ok,
            final(self).pending() == old(self).pending(),
            old(self).echoes() ==> final(self).echoes(),
    {
        self.rows = rows;
        self.cols = cols;
        Ok(())
    }
}

/// Text written to a fresh loopback stream, when its encoding fits in one
/// chunk, is read back by the pump as the same bytes and forwarded as the
/// same text, and the pump goes on.
pub proof fn lemma_loopback_round_trip(id: Seq<char>, text: Seq<char>, chunk: Vec<u8>)
    requires
        0 < encode_utf8(text).len() <= READ_CHUNK,
        chunk@ == (Seq::<u8>::empty() + encode_utf8(text)).take(encode_utf8(text).len() as int),
    ensures
        chunk@ == encode_utf8(text),
        chunk_text(chunk@) == text,
        read_goes_on(Ok(chunk)),
        read_events(id, Ok(chunk)) == seq![EventView::Data(id, text)],
{
    assert(Seq::<u8>::empty() + encode_utf8(text) =~= encode_utf8(text));
    assert(encode_utf8(text).take(encode_utf8(text).len() as int) =~= encode_utf8(text));
    lemma_chunk_round_trip(text);
}

/// A loopback stream that echoes and has nothing left to read has given
/// back, through its reads, everything that was written to it.
pub proof fn lemma_loopback_drained(s: LoopbackStream)
    requires
        s.echoes(),
        s.pending().len() == 0,
    ensures
        s.received() == s.written(),
{
    assert(s.sent@ =~= s.taken@);
}

} // verus!
