//! The bounded buffer between an agent that pushes chunks and the response
//! that hands them to the HTTP caller.

use std::collections::VecDeque;
use vstd::prelude::*;

verus! {

/// How many chunks a sink holds before the producer has to wait.
pub const SINK_CAPACITY: usize = 100;

/// What a sink is, as a value: the chunks that were accepted and not yet taken,
/// oldest first, and whether the producer has signalled the end of the stream.
pub struct SinkView {
    pub pending: Seq<Seq<u8>>,
    pub finished: bool,
}

impl SinkView {
    /// A sink that has seen nothing yet.
    pub open spec fn fresh() -> SinkView {
        SinkView { pending: Seq::empty(), finished: false }
    }

    /// No more chunks wait than the capacity allows.
    pub open spec fn bounded(self) -> bool {
        self.pending.len() <= SINK_CAPACITY
    }

    /// Whether a chunk offered now would be taken in.
    pub open spec fn accepts(self) -> bool {
        !self.finished && self.pending.len() < SINK_CAPACITY
    }

    /// The sink after `chunk` was offered: appended behind all that wait where
    /// the sink accepts, unchanged where it does not.
    pub open spec fn offer(self, chunk: Seq<u8>) -> SinkView {
        if self.accepts() {
            SinkView { pending: self.pending.push(chunk), finished: self.finished }
        } else {
            self
        }
    }

    /// The sink after the consumer took what is first in line.
    pub open spec fn take(self) -> SinkView {
        if self.pending.len() > 0 {
            SinkView { pending: self.pending.drop_first(), finished: self.finished }
        } else {
            self
        }
    }

    /// The sink after the producer signalled the end of the stream.
    pub open spec fn finish(self) -> SinkView {
        SinkView { pending: self.pending, finished: true }
    }

    /// The producer is done and the consumer has taken everything.
    pub open spec fn drained(self) -> bool {
        self.finished && self.pending.len() == 0
    }
}

/// What became of a chunk that was offered to a sink.
pub enum Offered {
    /// The chunk waits in the sink.
    Accepted,
    /// The sink is full; the chunk comes back for a later attempt.
    Full(Vec<u8>),
    /// The producer had already signalled the end; the chunk comes back.
    Finished(Vec<u8>),
}

/// What the consumer gets when it asks a sink for the next chunk.
pub enum Taken {
    /// The chunk that waited longest.
    Chunk(Vec<u8>),
    /// Nothing waits, but the producer may still push.
    Empty,
    /// Nothing waits and nothing will come.
    End,
}

/// One bounded first-in first-out buffer of byte chunks with an end-of-stream
/// mark. It never holds more than `SINK_CAPACITY` chunks.
pub struct Sink {
    queue: VecDeque<Vec<u8>>,
    finished: bool,
}

impl View for Sink {
    type V = SinkView;

    closed spec fn view(&self) -> SinkView {
        SinkView { pending: self.queue@.map_values(|c: Vec<u8>| c@), finished: self.finished }
    }
}

impl Sink {
    #[verifier::type_invariant]
    spec fn within_capacity(self) -> bool {
        self.queue@.len() <= SINK_CAPACITY
    }

    /// An empty sink whose producer has not finished.
    pub fn new() -> (sink: Self)
        ensures
            sink@ == SinkView::fresh(),
            sink@.bounded(),
    {
        let sink = Sink { queue: VecDeque::new(), finished: false };
        assert(sink@.pending =~= Seq::<Seq<u8>>::empty());
        sink
    }

    /// Offers `chunk` to the sink. It is accepted, behind all chunks that wait,
    /// unless the sink is full or finished; then the sink stays as it is and
    /// the chunk is handed back.
    pub fn offer(&mut self, chunk: Vec<u8>) -> (offered: Offered)
        ensures
            final(self)@ == old(self)@.offer(chunk@),
            final(self)@.bounded(),
            match offered {
                Offered::Accepted => old(self)@.accepts(),
                Offered::Full(back) => !old(self)@.finished && !old(self)@.accepts() && back
                    == chunk,
                Offered::Finished(back) => old(self)@.finished && back == chunk,
            },
    {
        proof {
            use_type_invariant(&*self);
        }
        if self.finished {
            Offered::Finished(chunk)
        } else if self.queue.len() >= SINK_CAPACITY {
            Offered::Full(chunk)
        } else {
            let mut queue: VecDeque<Vec<u8>> = VecDeque::new();
            std::mem::swap(&mut queue, &mut self.queue);
            let ghost before = queue@;
            queue.push_back(chunk);
            assert(queue@.map_values(|c: Vec<u8>| c@) =~= before.map_values(|c: Vec<u8>| c@).push(
                chunk@,
            ));
            self.queue = queue;
            Offered::Accepted
        }
    }

    /// Takes the chunk that waited longest, if any. An empty sink answers `End`
    /// once the producer has finished and `Empty` before that.
    pub fn take(&mut self) -> (taken: Taken)
        ensures
            final(self)@ == old(self)@.take(),
            final(self)@.bounded(),
            match taken {
                Taken::Chunk(chunk) => old(self)@.pending.len() > 0 && chunk@
                    == old(self)@.pending[0],
                Taken::Empty => old(self)@.pending.len() == 0 && !old(self)@.finished,
                Taken::End => old(self)@.drained(),
            },
    {
        proof {
            use_type_invariant(&*self);
        }
        let mut queue: VecDeque<Vec<u8>> = VecDeque::new();
        std::mem::swap(&mut queue, &mut self.queue);
        let ghost before = queue@;
        let first = queue.pop_front();
        assert(queue@.map_values(|c: Vec<u8>| c@) =~= if before.len() > 0 {
            before.map_values(|c: Vec<u8>| c@).drop_first()
        } else {
            before.map_values(|c: Vec<u8>| c@)
        });
        self.queue = queue;
        match first {
            Some(chunk) => Taken::Chunk(chunk),
            None => if self.finished {
                Taken::End
            } else {
                Taken::Empty
            },
        }
    }

    /// Marks the end of the stream. Chunks that wait can still be taken;
    /// nothing more is accepted.
    pub fn finish(&mut self)
        ensures
            final(self)@ == old(self)@.finish(),
            final(self)@.bounded(),
    {
        proof {
            use_type_invariant(&*self);
        }
        self.finished = true;
    }

    /// How many chunks wait.
    pub fn len(&self) -> (n: usize)
        ensures
            n == self@.pending.len(),
            n <= SINK_CAPACITY,
    {
        proof {
            use_type_invariant(self);
        }
        self.queue.len()
    }

    /// Whether the producer has signalled the end of the stream.
    pub fn is_finished(&self) -> (finished: bool)
        ensures
            finished == self@.finished,
    {
        self.finished
    }
}

} // verus!
