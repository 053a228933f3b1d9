//! The table that ties each download in flight to the sink its bytes pass
//! through. A ticket names one entry for the lifetime of one download.

use crate::sink::{Offered, Sink, SinkView, Taken, SINK_CAPACITY};
use rand::Rng;
use std::collections::HashMap;
use vstd::prelude::*;

verus! {

/// The one-shot identifier of a download in flight.
pub type Ticket = u64;

/// What the table is, as a value: the sink of every ticket that is open.
pub type TableView = Map<Ticket, SinkView>;

/// How many random candidates `CorrelationTable::open` draws before it gives up.
pub const OPEN_ATTEMPTS: usize = 16;

/// Every sink of the table respects its capacity.
pub open spec fn bounded(table: TableView) -> bool {
    forall|ticket: Ticket| #[trigger]
        table.contains_key(ticket) ==> table[ticket].bounded()
}

/// Whether a chunk pushed for `ticket` has a sink to go to: the ticket is open
/// and its producer has not signalled the end.
pub open spec fn routable(table: TableView, ticket: Ticket) -> bool {
    table.contains_key(ticket) && !table[ticket].finished
}

/// The table after `ticket` was opened with a fresh sink. A ticket that is
/// already open cannot be opened again: the table stays as it is.
pub open spec fn opened(table: TableView, ticket: Ticket) -> TableView {
    if table.contains_key(ticket) {
        table
    } else {
        table.insert(ticket, SinkView::fresh())
    }
}

/// The table after `chunk` was pushed for `ticket`.
pub open spec fn routed(table: TableView, ticket: Ticket, chunk: Seq<u8>) -> TableView {
    if routable(table, ticket) {
        table.insert(ticket, table[ticket].offer(chunk))
    } else {
        table
    }
}

/// What `route` answers for `chunk` pushed for `ticket`: `UnknownTicket` where
/// no sink takes chunks for the ticket, `Accepted` where the sink has room, and
/// otherwise `Busy` with the chunk itself.
pub open spec fn route_outcome(table: TableView, ticket: Ticket, chunk: Vec<u8>) -> Result<
    Routed,
    RouteError,
> {
    if !routable(table, ticket) {
        Err(RouteError::UnknownTicket)
    } else if table[ticket].accepts() {
        Ok(Routed::Accepted)
    } else {
        Ok(Routed::Busy(chunk))
    }
}

/// The table after the producer of `ticket` signalled the end of the stream.
pub open spec fn completed(table: TableView, ticket: Ticket) -> TableView {
    if table.contains_key(ticket) {
        table.insert(ticket, table[ticket].finish())
    } else {
        table
    }
}

/// The table after the consumer of `ticket` asked for the next chunk: the first
/// chunk in line is gone, or, where the sink was drained, the whole entry.
pub open spec fn polled(table: TableView, ticket: Ticket) -> TableView {
    if !table.contains_key(ticket) {
        table
    } else if table[ticket].drained() {
        table.remove(ticket)
    } else {
        table.insert(ticket, table[ticket].take())
    }
}

/// The table after `ticket` was closed.
pub open spec fn closed(table: TableView, ticket: Ticket) -> TableView {
    table.remove(ticket)
}

/// The first of `candidates` that is not open in `table`, if there is one.
pub open spec fn first_free(table: TableView, candidates: Seq<Ticket>) -> Option<Ticket>
    decreases candidates.len(),
{
    if candidates.len() == 0 {
        None
    } else if !table.contains_key(candidates[0]) {
        Some(candidates[0])
    } else {
        first_free(table, candidates.drop_first())
    }
}

/// A candidate that is free, with none but open tickets before it, is the
/// first free one.
pub proof fn lemma_first_free_found(table: TableView, candidates: Seq<Ticket>, i: int)
    requires
        0 <= i < candidates.len(),
        !table.contains_key(candidates[i]),
        forall|j: int| 0 <= j < i ==> table.contains_key(#[trigger] candidates[j]),
    ensures
        first_free(table, candidates) == Some(candidates[i]),
    decreases i,
{
    if i > 0 {
        let rest = candidates.drop_first();
        assert(table.contains_key(candidates[0]));
        assert(rest[i - 1] == candidates[i]);
        assert forall|j: int| 0 <= j < i - 1 implies table.contains_key(#[trigger] rest[j]) by {
            assert(rest[j] == candidates[j + 1]);
        }
        lemma_first_free_found(table, rest, i - 1);
    }
}

/// Where every candidate is open, none is free.
pub proof fn lemma_first_free_none(table: TableView, candidates: Seq<Ticket>)
    requires
        forall|i: int| 0 <= i < candidates.len() ==> table.contains_key(#[trigger] candidates[i]),
    ensures
        first_free(table, candidates) is None,
    decreases candidates.len(),
{
    if candidates.len() > 0 {
        let rest = candidates.drop_first();
        assert(table.contains_key(candidates[0]));
        assert forall|j: int| 0 <= j < rest.len() implies table.contains_key(#[trigger] rest[j]) by {
            assert(rest[j] == candidates[j + 1]);
        }
        lemma_first_free_none(table, rest);
    }
}

/// Why a pushed chunk was not delivered.
#[derive(Debug, Clone, Copy, PartialEq, Eq)]
pub enum RouteError {
    /// No sink takes chunks for this ticket: it was never opened, it is closed,
    /// or its producer has already signalled the end.
    UnknownTicket,
}

/// What became of a chunk that had a sink to go to.
#[derive(Debug, PartialEq, Eq)]
pub enum Routed {
    /// The chunk waits in the sink, behind all chunks pushed before it.
    Accepted,
    /// The sink is full. The chunk comes back; the producer waits until the
    /// consumer has taken a chunk and pushes it again.
    Busy(Vec<u8>),
}

/// What the consumer of a ticket gets when it asks for the next chunk.
#[derive(Debug, PartialEq, Eq)]
pub enum Polled {
    /// The chunk that waited longest.
    Chunk(Vec<u8>),
    /// Nothing waits yet. The consumer waits until a chunk is routed or the
    /// producer signals the end.
    Pending,
    /// The stream is over and the ticket is no longer in the table.
    End,
}

/// Draws one candidate ticket from `rand::thread_rng().gen::<u64>()`, the
/// thread-local generator of the `rand` crate. Nothing is claimed of the
/// number that comes back: any `u64` may.
#[verifier::external_body]
fn draw_candidate() -> (candidate: Ticket) {
    rand::thread_rng().gen()
}

/// Draws `OPEN_ATTEMPTS` candidate tickets, one after the other.
pub fn draw_candidates() -> (candidates: Vec<Ticket>)
    ensures
        candidates@.len() == OPEN_ATTEMPTS,
{
    let mut candidates: Vec<Ticket> = Vec::new();
    while candidates.len() < OPEN_ATTEMPTS
        invariant
            candidates@.len() <= OPEN_ATTEMPTS,
        decreases OPEN_ATTEMPTS - candidates@.len(),
    {
        candidates.push(draw_candidate());
    }
    candidates
}

/// The sinks of all downloads in flight, by ticket.
pub struct CorrelationTable {
    sinks: HashMap<Ticket, Sink>,
}

impl View for CorrelationTable {
    type V = TableView;

    closed spec fn view(&self) -> TableView {
        self.sinks@.map_values(|sink: Sink| sink@)
    }
}

impl CorrelationTable {
    #[verifier::type_invariant]
    spec fn sinks_bounded(self) -> bool {
        bounded(self@)
    }

    /// A table with no download in flight.
    pub fn new() -> (table: Self)
        ensures
            table@ == Map::<Ticket, SinkView>::empty(),
    {
        let table = CorrelationTable { sinks: HashMap::new() };
        assert(table@ =~= Map::<Ticket, SinkView>::empty());
        table
    }

    /// Whether `ticket` is open.
    pub fn contains(&self, ticket: Ticket) -> (open: bool)
        ensures
            open == self@.contains_key(ticket),
    {
        self.sinks.contains_key(&ticket)
    }

    /// How many tickets are open.
    pub fn len(&self) -> (n: usize)
        ensures
            n == self@.len(),
    {
        assert(self@.dom() =~= self.sinks@.dom());
        self.sinks.len()
    }

    /// How many chunks wait for the consumer of `ticket`, if it is open. The
    /// number never exceeds the capacity of a sink.
    pub fn pending(&self, ticket: Ticket) -> (waiting: Option<usize>)
        ensures
            waiting.is_some() == self@.contains_key(ticket),
            waiting matches Some(n) ==> n == self@[ticket].pending.len() && n <= SINK_CAPACITY,
            bounded(self@),
    {
        proof {
            use_type_invariant(self);
        }
        match self.sinks.get(&ticket) {
            Some(sink) => Some(sink.len()),
            None => None,
        }
    }

    /// Opens `candidate` with a fresh sink, unless that ticket is open already.
    /// Returns whether it was opened.
    pub fn open_with(&mut self, candidate: Ticket) -> (fresh: bool)
        ensures
            fresh == !old(self)@.contains_key(candidate),
            final(self)@ == opened(old(self)@, candidate),
    {
        proof {
            use_type_invariant(&*self);
        }
        if self.sinks.contains_key(&candidate) {
            false
        } else {
            let mut sinks: HashMap<Ticket, Sink> = HashMap::new();
            std::mem::swap(&mut sinks, &mut self.sinks);
            let ghost before = sinks@.map_values(|sink: Sink| sink@);
            sinks.insert(candidate, Sink::new());
            assert(sinks@.map_values(|sink: Sink| sink@) =~= before.insert(
                candidate,
                SinkView::fresh(),
            ));
            self.sinks = sinks;
            true
        }
    }

    /// Opens the first of `candidates` that is not in use, with a fresh sink,
    /// and returns it. Candidates that collide with an open ticket are passed
    /// over. `None` says that every candidate collided; the table is then as
    /// it was.
    pub fn open_among(&mut self, candidates: &Vec<Ticket>) -> (ticket: Option<Ticket>)
        ensures
            ticket == first_free(old(self)@, candidates@),
            match ticket {
                Some(t) => {
                    &&& !old(self)@.contains_key(t)
                    &&& final(self)@ == old(self)@.insert(t, SinkView::fresh())
                    &&& exists|i: int|
                        {
                            &&& 0 <= i < candidates@.len()
                            &&& #[trigger] candidates@[i] == t
                            &&& forall|j: int|
                                0 <= j < i ==> old(self)@.contains_key(#[trigger] candidates@[j])
                        }
                },
                None => {
                    &&& final(self)@ == old(self)@
                    &&& forall|i: int|
                        0 <= i < candidates@.len() ==> old(self)@.contains_key(
                            #[trigger] candidates@[i],
                        )
                },
            },
    {
        let mut i: usize = 0;
        while i < candidates.len()
            invariant
                i <= candidates@.len(),
                self@ == old(self)@,
                forall|j: int| 0 <= j < i ==> old(self)@.contains_key(#[trigger] candidates@[j]),
            decreases candidates.len() - i,
        {
            let candidate = candidates[i];
            if self.open_with(candidate) {
                proof {
                    lemma_first_free_found(old(self)@, candidates@, i as int);
                }
                return Some(candidate);
            }
            i = i + 1;
        }
        proof {
            lemma_first_free_none(old(self)@, candidates@);
        }
        None
    }

    /// Opens a ticket that is not in use and returns it. `OPEN_ATTEMPTS`
    /// candidates are drawn at random, and the first of them that collides
    /// with no open ticket is opened, as `open_among` says. `None` says that
    /// every draw collided; the table is then as it was. With no ticket open
    /// nothing can collide, and a ticket is returned.
    pub fn open(&mut self) -> (ticket: Option<Ticket>)
        ensures
            match ticket {
                Some(t) => !old(self)@.contains_key(t) && final(self)@ == old(self)@.insert(
                    t,
                    SinkView::fresh(),
                ),
                None => final(self)@ == old(self)@,
            },
            old(self)@ == Map::<Ticket, SinkView>::empty() ==> ticket is Some,
    {
        let candidates = draw_candidates();
        let ticket = self.open_among(&candidates);
        assert(ticket is None ==> old(self)@.contains_key(candidates@[0]));
        ticket
    }

    /// Delivers `chunk` to the sink of `ticket`. The chunk is accepted behind
    /// all chunks routed before it. A full sink hands it back as `Busy`. Where
    /// no sink takes chunks for `ticket` the call fails and changes nothing.
    pub fn route(&mut self, ticket: Ticket, chunk: Vec<u8>) -> (outcome: Result<Routed, RouteError>)
        ensures
            final(self)@ == routed(old(self)@, ticket, chunk@),
            outcome == route_outcome(old(self)@, ticket, chunk),
    {
        proof {
            use_type_invariant(&*self);
        }
        let mut sinks: HashMap<Ticket, Sink> = HashMap::new();
        std::mem::swap(&mut sinks, &mut self.sinks);
        let ghost before = sinks@.map_values(|sink: Sink| sink@);
        let outcome = match sinks.remove(&ticket) {
            None => Err(RouteError::UnknownTicket),
            Some(mut sink) => {
                let offered = sink.offer(chunk);
                sinks.insert(ticket, sink);
                match offered {
                    Offered::Accepted => Ok(Routed::Accepted),
                    Offered::Full(back) => Ok(Routed::Busy(back)),
                    Offered::Finished(_) => Err(RouteError::UnknownTicket),
                }
            },
        };
        assert(sinks@.map_values(|sink: Sink| sink@) =~= routed(before, ticket, chunk@));
        self.sinks = sinks;
        outcome
    }

    /// Records that the producer of `ticket` has signalled the end of the
    /// stream. From now on nothing is routed to the ticket; what waits in its
    /// sink is still handed out, and the entry leaves the table with the
    /// consumer's next call once the sink is empty.
    pub fn complete(&mut self, ticket: Ticket)
        ensures
            final(self)@ == completed(old(self)@, ticket),
    {
        proof {
            use_type_invariant(&*self);
        }
        let mut sinks: HashMap<Ticket, Sink> = HashMap::new();
        std::mem::swap(&mut sinks, &mut self.sinks);
        let ghost before = sinks@.map_values(|sink: Sink| sink@);
        match sinks.remove(&ticket) {
            None => {},
            Some(mut sink) => {
                sink.finish();
                sinks.insert(ticket, sink);
            },
        }
        assert(sinks@.map_values(|sink: Sink| sink@) =~= completed(before, ticket));
        self.sinks = sinks;
    }

    /// Hands the consumer of `ticket` the chunk that waited longest. With no
    /// chunk waiting the answer is `Pending` while the producer may still push,
    /// and `End` once it has finished; `End` removes the ticket from the table.
    /// A ticket that is not open answers `End` as well.
    pub fn next_chunk(&mut self, ticket: Ticket) -> (next: Polled)
        ensures
            final(self)@ == polled(old(self)@, ticket),
            match next {
                Polled::Chunk(chunk) => old(self)@.contains_key(ticket)
                    && old(self)@[ticket].pending.len() > 0 && chunk@
                    == old(self)@[ticket].pending[0],
                Polled::Pending => old(self)@.contains_key(ticket)
                    && old(self)@[ticket].pending.len() == 0 && !old(self)@[ticket].finished,
                Polled::End => !old(self)@.contains_key(ticket) || old(self)@[ticket].drained(),
            },
    {
        proof {
            use_type_invariant(&*self);
        }
        let mut sinks: HashMap<Ticket, Sink> = HashMap::new();
        std::mem::swap(&mut sinks, &mut self.sinks);
        let ghost before = sinks@.map_values(|sink: Sink| sink@);
        let next = match sinks.remove(&ticket) {
            None => Polled::End,
            Some(mut sink) => {
                match sink.take() {
                    Taken::Chunk(chunk) => {
                        sinks.insert(ticket, sink);
                        Polled::Chunk(chunk)
                    },
                    Taken::Empty => {
                        sinks.insert(ticket, sink);
                        Polled::Pending
                    },
                    Taken::End => Polled::End,
                }
            },
        };
        assert(sinks@.map_values(|sink: Sink| sink@) =~= polled(before, ticket));
        self.sinks = sinks;
        next
    }

    /// Removes `ticket` and releases its sink with whatever still waits in it.
    /// Closing a ticket that is not open changes nothing.
    pub fn close(&mut self, ticket: Ticket)
        ensures
            final(self)@ == closed(old(self)@, ticket),
    {
        proof {
            use_type_invariant(&*self);
        }
        let mut sinks: HashMap<Ticket, Sink> = HashMap::new();
        std::mem::swap(&mut sinks, &mut self.sinks);
        let ghost before = sinks@.map_values(|sink: Sink| sink@);
        sinks.remove(&ticket);
        assert(sinks@.map_values(|sink: Sink| sink@) =~= before.remove(ticket));
        self.sinks = sinks;
    }
}

} // verus!
