use vstd::prelude::*;

verus! {

/// A message of an SSH channel, as far as reading from the channel cares.
pub enum ChannelEvent {
    /// Bytes of the channel's data stream.
    Data(Vec<u8>),
    /// The other side will send no more data.
    Eof,
    /// The channel was closed.
    Close,
    /// Any other message; reading ignores it.
    Other,
}

/// What waiting for the next channel message gave.
pub enum WaitOutcome {
    /// A message arrived.
    Message(ChannelEvent),
    /// The channel has no more messages.
    Ended,
    /// No message yet.
    Pending,
}

/// What a read does after a wait.
#[derive(Debug, PartialEq, Eq, Structural, Clone, Copy)]
pub enum ReadStep {
    /// Look at the buffer again (and wait again if it is still empty).
    Retry,
    /// Complete the read with no bytes: the stream is over.
    Finished,
    /// Fail the read: the channel ended while data was expected.
    UnexpectedEof,
    /// Come back when the channel has more.
    Pending,
}

/// The buffer of a `ReadBuffer`, with the bytes handed out and received so
/// far.
struct BufState {
    read_buf: Vec<u8>,
    buffer_offset: usize,
    buffer_end: usize,
    received: Ghost<Seq<u8>>,
    delivered: Ghost<Seq<u8>>,
}

impl BufState {
    /// The buffer's indices are in range, and what was handed out followed by
    /// what is waiting is exactly what arrived.
    spec fn wf(&self) -> bool {
        &&& self.buffer_offset <= self.buffer_end <= self.read_buf@.len()
        &&& self.delivered@ + self.pending() == self.received@
    }

    /// The bytes that arrived and have not been handed out yet.
    spec fn pending(&self) -> Seq<u8> {
        self.read_buf@.subrange(self.buffer_offset as int, self.buffer_end as int)
    }

    /// All data bytes that arrived on the channel, in order.
    spec fn received(&self) -> Seq<u8> {
        self.received@
    }

    /// All bytes handed to readers, in order.
    spec fn delivered(&self) -> Seq<u8> {
        self.delivered@
    }

    /// A buffer for a channel that has sent nothing yet.
    fn new() -> (r: BufState)
        ensures
            r.wf(),
            r.pending() == Seq::<u8>::empty(),
            r.received() == Seq::<u8>::empty(),
            r.delivered() == Seq::<u8>::empty(),
    {
        let r = BufState {
            read_buf: Vec::new(),
            buffer_offset: 0,
            buffer_end: 0,
            received: Ghost(Seq::empty()),
            delivered: Ghost(Seq::empty()),
        };
        assert(r.pending() =~= Seq::<u8>::empty());
        r
    }

    /// Hands out up to `room` waiting bytes, the oldest first; `None` when no
    /// byte is waiting, and the channel has to be waited for.
    fn read_buffered(&mut self, room: usize) -> (r: Option<Vec<u8>>)
        requires
            old(self).wf(),
        ensures
            final(self).wf(),
            final(self).received() == old(self).received(),
            old(self).pending().len() == 0 ==> r is None && final(self).pending() == old(self).pending() && final(self).delivered() == old(self).delivered(),
            old(self).pending().len() > 0 ==> (r matches Some(b) && b@ == old(self).pending().take(
                if room < old(self).pending().len() {
                    room as int
                } else {
                    old(self).pending().len() as int
                },
            ) && final(self).pending() == old(self).pending().skip(b@.len() as int) && final(self).delivered() == old(self).delivered() + b@),
    {
        let remaining: usize = self.buffer_end - self.buffer_offset;
        if remaining == 0 {
            return None;
        }
        let length: usize = if remaining < room {
            remaining
        } else {
            room
        };
        let offset: usize = self.buffer_offset;
        let mut out: Vec<u8> = Vec::new();
        let mut i: usize = offset;
        while i < offset + length
            invariant
                offset <= i <= offset + length,
                offset + length <= self.buffer_end <= self.read_buf@.len(),
                out@ == self.read_buf@.subrange(offset as int, i as int),
            decreases offset + length - i,
        {
            out.push(self.read_buf[i]);
            i = i + 1;
            assert(out@ =~= self.read_buf@.subrange(offset as int, i as int));
        }
        let ghost before = self.pending();
        self.buffer_offset = offset + length;
        self.delivered = Ghost(self.delivered@ + out@);
        proof {
            assert(out@ =~= before.take(length as int));
            assert(self.pending() =~= before.skip(length as int));
            assert(self.delivered@ + self.pending() =~= self.received@);
        }
        Some(out)
    }

    /// Takes the outcome of waiting on the channel, which is waited on only
    /// once every buffered byte has been handed out. Data replaces the
    /// (empty) buffer; the end of the data stream or of the channel fails the
    /// read; other messages are skipped.
    fn on_wait(&mut self, outcome: WaitOutcome) -> (r: ReadStep)
        requires
            old(self).wf(),
            old(self).pending().len() == 0,
        ensures
            final(self).wf(),
            final(self).delivered() == old(self).delivered(),
            match outcome {
                WaitOutcome::Message(ChannelEvent::Data(d)) => r == ReadStep::Retry
                    && final(self).pending() == d@ && final(self).received() == old(self).received() + d@,
                WaitOutcome::Message(ChannelEvent::Eof) => r == ReadStep::UnexpectedEof
                    && final(self).pending() == old(self).pending() && final(self).received()
                    == old(self).received(),
                WaitOutcome::Message(ChannelEvent::Close) => r == ReadStep::UnexpectedEof
                    && final(self).pending() == old(self).pending() && final(self).received()
                    == old(self).received(),
                WaitOutcome::Message(ChannelEvent::Other) => r == ReadStep::Retry && final(self).pending() == old(self).pending() && final(self).received() == old(self).received(),
                WaitOutcome::Ended => r == ReadStep::Finished && final(self).pending() == old(self).pending() && final(self).received() == old(self).received(),
                WaitOutcome::Pending => r == ReadStep::Pending && final(self).pending() == old(self).pending() && final(self).received() == old(self).received(),
            },
    {
        match outcome {
            WaitOutcome::Message(ChannelEvent::Data(data)) => {
                self.fill(data);
                ReadStep::Retry
            },
            WaitOutcome::Message(ChannelEvent::Eof) => ReadStep::UnexpectedEof,
            WaitOutcome::Message(ChannelEvent::Close) => ReadStep::UnexpectedEof,
            WaitOutcome::Message(ChannelEvent::Other) => ReadStep::Retry,
            WaitOutcome::Ended => ReadStep::Finished,
            WaitOutcome::Pending => ReadStep::Pending,
        }
    }

    fn fill(&mut self, data: Vec<u8>)
        requires
            old(self).wf(),
            old(self).pending().len() == 0,
        ensures
            final(self).wf(),
            final(self).delivered() == old(self).delivered(),
            final(self).pending() == data@,
            final(self).received() == old(self).received() + data@,
    {
        let n: usize = data.len();
        if n > self.read_buf.len() {
            self.read_buf = data;
        } else {
            let mut i: usize = 0;
            while i < n
                invariant
                    i <= n,
                    n == data@.len(),
                    n <= self.read_buf@.len(),
                    self.delivered@ == old(self).delivered@,
                    self.received@ == old(self).received@,
                    old(self).wf(),
                    old(self).pending().len() == 0,
                    self.read_buf@.subrange(0, i as int) == data@.subrange(0, i as int),
                decreases n - i,
            {
                self.read_buf.set(i, data[i]);
                i = i + 1;
                assert(self.read_buf@.subrange(0, i as int) =~= data@.subrange(0, i as int));
            }
            assert(data@.subrange(0, n as int) =~= data@);
        }
        self.buffer_offset = 0;
        self.buffer_end = n;
        self.received = Ghost(self.received@ + data@);
        proof {
            assert(self.pending() =~= data@);
        }
    }
}

/// The read side of an SSH channel stream: data that arrived from the
/// channel and has not yet been handed to a reader.
pub struct ReadBuffer {
    state: BufState,
}

impl ReadBuffer {
    /// The buffer's indices are in range, and what was handed out followed by
    /// what is waiting is exactly what arrived.
    #[verifier::type_invariant]
    pub closed spec fn wf(&self) -> bool {
        self.state.wf()
    }

    /// The bytes that arrived and have not been handed out yet.
    pub closed spec fn pending(&self) -> Seq<u8> {
        self.state.pending()
    }

    /// All data bytes that arrived on the channel, in order.
    pub closed spec fn received(&self) -> Seq<u8> {
        self.state.received()
    }

    /// All bytes handed to readers, in order.
    pub closed spec fn delivered(&self) -> Seq<u8> {
        self.state.delivered()
    }

    /// Takes the state out, leaving an empty buffer with the same history.
    fn take_state(&mut self) -> (st: BufState)
        ensures
            st == old(self).state,
            st.wf(),
    {
        proof {
            use_type_invariant(&*self);
        }
        let ghost seen = self.state.received@;
        let mut st = BufState {
            read_buf: Vec::new(),
            buffer_offset: 0,
            buffer_end: 0,
            received: Ghost(seen),
            delivered: Ghost(seen),
        };
        assert(st.pending() =~= Seq::<u8>::empty());
        assert(st.delivered@ + st.pending() =~= st.received@);
        std::mem::swap(&mut st, &mut self.state);
        st
    }

    /// A buffer for a channel that has sent nothing yet.
    pub fn new() -> (r: ReadBuffer)
        ensures
            r.pending() == Seq::<u8>::empty(),
            r.received() == Seq::<u8>::empty(),
            r.delivered() == Seq::<u8>::empty(),
            r.delivered() + r.pending() == r.received(),
    {
        let st = BufState::new();
        assert(st.delivered() + st.pending() =~= st.received());
        ReadBuffer { state: st }
    }

    /// Hands out up to `room` waiting bytes, the oldest first; `None` when no
    /// byte is waiting, and the channel has to be waited for.
    pub fn read_buffered(&mut self, room: usize) -> (r: Option<Vec<u8>>)
        ensures
            final(self).received() == old(self).received(),
            final(self).delivered() + final(self).pending() == final(self).received(),
            old(self).pending().len() == 0 ==> r is None && final(self).pending() == old(self).pending() && final(self).delivered() == old(self).delivered(),
            old(self).pending().len() > 0 ==> (r matches Some(b) && b@ == old(self).pending().take(
                if room < old(self).pending().len() {
                    room as int
                } else {
                    old(self).pending().len() as int
                },
            ) && final(self).pending() == old(self).pending().skip(b@.len() as int) && final(self).delivered() == old(self).delivered() + b@),
    {
        let mut st = self.take_state();
        let r = st.read_buffered(room);
        self.state = st;
        r
    }

    /// Takes the outcome of waiting on the channel, which is waited on only
    /// once every buffered byte has been handed out. Data replaces the
    /// (empty) buffer; the end of the data stream or of the channel fails the
    /// read; other messages are skipped.
    pub fn on_wait(&mut self, outcome: WaitOutcome) -> (r: ReadStep)
        requires
            old(self).pending().len() == 0,
        ensures
            final(self).delivered() == old(self).delivered(),
            final(self).delivered() + final(self).pending() == final(self).received(),
            match outcome {
                WaitOutcome::Message(ChannelEvent::Data(d)) => r == ReadStep::Retry
                    && final(self).pending() == d@ && final(self).received() == old(self).received() + d@,
                WaitOutcome::Message(ChannelEvent::Eof) => r == ReadStep::UnexpectedEof
                    && final(self).pending() == old(self).pending() && final(self).received()
                    == old(self).received(),
                WaitOutcome::Message(ChannelEvent::Close) => r == ReadStep::UnexpectedEof
                    && final(self).pending() == old(self).pending() && final(self).received()
                    == old(self).received(),
                WaitOutcome::Message(ChannelEvent::Other) => r == ReadStep::Retry && final(self).pending() == old(self).pending() && final(self).received() == old(self).received(),
                WaitOutcome::Ended => r == ReadStep::Finished && final(self).pending() == old(self).pending() && final(self).received() == old(self).received(),
                WaitOutcome::Pending => r == ReadStep::Pending && final(self).pending() == old(self).pending() && final(self).received() == old(self).received(),
            },
    {
        let mut st = self.take_state();
        let r = st.on_wait(outcome);
        self.state = st;
        r
    }
}

/// Nothing is lost, repeated or reordered: the bytes a reader has been given,
/// followed by those still buffered, are exactly the data that arrived.
pub proof fn law_read_preserves_stream(b: &ReadBuffer)
    requires
        b.wf(),
    ensures
        b.delivered() + b.pending() == b.received(),
{
}

} // verus!
