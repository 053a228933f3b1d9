//! What holds of the correlation table over any sequence of events: sinks stay
//! within their capacity, an event touches one ticket only, chunks leave a
//! sink in the order in which they entered it, and a download that has ended
//! leaves nothing behind.

use crate::correlation::{
    bounded, closed, completed, opened, polled, routable, routed, TableView, Ticket,
};
use crate::sink::SinkView;
use vstd::prelude::*;

verus! {

/// One thing that happens to the table.
pub enum Event {
    /// A download asks for this ticket (`CorrelationTable::open_with`).
    Open(Ticket),
    /// The agent pushes a chunk for a ticket (`CorrelationTable::route`).
    Route(Ticket, Seq<u8>),
    /// The agent signals the end of its upload (`CorrelationTable::complete`).
    Complete(Ticket),
    /// The response asks for the next chunk (`CorrelationTable::next_chunk`).
    Poll(Ticket),
    /// The HTTP caller is gone (`CorrelationTable::close`).
    Close(Ticket),
}

impl Event {
    /// The ticket that the event is about.
    pub open spec fn ticket(self) -> Ticket {
        match self {
            Event::Open(ticket) => ticket,
            Event::Route(ticket, _) => ticket,
            Event::Complete(ticket) => ticket,
            Event::Poll(ticket) => ticket,
            Event::Close(ticket) => ticket,
        }
    }
}

/// The table after one event.
pub open spec fn step(table: TableView, event: Event) -> TableView {
    match event {
        Event::Open(ticket) => opened(table, ticket),
        Event::Route(ticket, chunk) => routed(table, ticket, chunk),
        Event::Complete(ticket) => completed(table, ticket),
        Event::Poll(ticket) => polled(table, ticket),
        Event::Close(ticket) => closed(table, ticket),
    }
}

/// The table after a sequence of events, first event first.
pub open spec fn run(table: TableView, events: Seq<Event>) -> TableView
    decreases events.len(),
{
    if events.len() == 0 {
        table
    } else {
        step(run(table, events.drop_last()), events.last())
    }
}

/// The chunks that `route` accepted for `ticket` in the course of `events`, in
/// the order of the calls. A chunk that came back as `Busy` or met no sink is
/// not among them.
pub open spec fn accepted(table: TableView, events: Seq<Event>, ticket: Ticket) -> Seq<Seq<u8>>
    decreases events.len(),
{
    if events.len() == 0 {
        Seq::empty()
    } else {
        let before = run(table, events.drop_last());
        let earlier = accepted(table, events.drop_last(), ticket);
        match events.last() {
            Event::Route(to, chunk) => if to == ticket && routable(before, ticket)
                && before[ticket].accepts() {
                earlier.push(chunk)
            } else {
                earlier
            },
            _ => earlier,
        }
    }
}

/// The chunks that `next_chunk` handed to the consumer of `ticket` in the
/// course of `events`, in the order of the calls.
pub open spec fn delivered(table: TableView, events: Seq<Event>, ticket: Ticket) -> Seq<Seq<u8>>
    decreases events.len(),
{
    if events.len() == 0 {
        Seq::empty()
    } else {
        let before = run(table, events.drop_last());
        let earlier = delivered(table, events.drop_last(), ticket);
        match events.last() {
            Event::Poll(of) => if of == ticket && before.contains_key(ticket)
                && before[ticket].pending.len() > 0 {
                earlier.push(before[ticket].pending[0])
            } else {
                earlier
            },
            _ => earlier,
        }
    }
}

/// No event lets a sink grow beyond its capacity.
pub proof fn lemma_step_keeps_bounded(table: TableView, event: Event)
    requires
        bounded(table),
    ensures
        bounded(step(table, event)),
{
    let after = step(table, event);
    assert forall|ticket: Ticket| #[trigger] after.contains_key(ticket) implies after[ticket].bounded() by {
        if ticket != event.ticket() {
            assert(table.contains_key(ticket));
        } else if table.contains_key(ticket) {
            assert(table[ticket].bounded());
        }
    }
}

/// Starting from an empty table, or from any table whose sinks are within
/// their capacity, every sink stays within its capacity whatever happens.
pub proof fn lemma_run_keeps_bounded(table: TableView, events: Seq<Event>)
    requires
        bounded(table),
    ensures
        bounded(run(table, events)),
    decreases events.len(),
{
    if events.len() > 0 {
        lemma_run_keeps_bounded(table, events.drop_last());
        lemma_step_keeps_bounded(run(table, events.drop_last()), events.last());
    }
}

/// An event is about one ticket and leaves every other ticket alone: whether
/// the other is open, and what its sink holds, is the same before and after.
pub proof fn lemma_step_is_local(table: TableView, event: Event, other: Ticket)
    requires
        other != event.ticket(),
    ensures
        step(table, event).contains_key(other) == table.contains_key(other),
        table.contains_key(other) ==> step(table, event)[other] == table[other],
{
}

/// A chunk pushed for a ticket that takes none (never opened, closed, or
/// finished by its producer) changes nothing at all: the table after the call
/// is the table before it, and so is the sink of every other ticket.
pub proof fn lemma_route_to_unknown_ticket(table: TableView, ticket: Ticket, chunk: Seq<u8>)
    requires
        !routable(table, ticket),
    ensures
        routed(table, ticket, chunk) == table,
        !routable(closed(table, ticket), ticket),
        routed(closed(table, ticket), ticket, chunk) == closed(table, ticket),
{
}

/// Closing a ticket twice is the same as closing it once.
pub proof fn lemma_close_idempotent(table: TableView, ticket: Ticket)
    ensures
        closed(closed(table, ticket), ticket) == closed(table, ticket),
        !closed(table, ticket).contains_key(ticket),
{
    assert(closed(closed(table, ticket), ticket) =~= closed(table, ticket));
}

/// A ticket that no event opens stays out of the table once it is out.
proof fn lemma_stays_closed(table: TableView, event: Event, ticket: Ticket)
    requires
        !table.contains_key(ticket),
        event != Event::Open(ticket),
    ensures
        !step(table, event).contains_key(ticket),
{
}

/// First in, first out, per ticket.
///
/// Take a table in which `ticket` is open, and any sequence of events that
/// does not open `ticket` anew. Then the chunks handed to the consumer of
/// `ticket` are a prefix of what waited in its sink at the start followed by
/// the chunks that `route` accepted for it, in the order of the `route` calls.
/// While the ticket is still open nothing is lost either: what was there and
/// what was accepted is exactly what was handed out followed by what waits.
pub proof fn lemma_fifo(table: TableView, events: Seq<Event>, ticket: Ticket)
    requires
        table.contains_key(ticket),
        forall|i: int| 0 <= i < events.len() ==> #[trigger] events[i] != Event::Open(ticket),
    ensures
        delivered(table, events, ticket).is_prefix_of(
            table[ticket].pending + accepted(table, events, ticket),
        ),
        run(table, events).contains_key(ticket) ==> table[ticket].pending + accepted(
            table,
            events,
            ticket,
        ) == delivered(table, events, ticket) + run(table, events)[ticket].pending,
    decreases events.len(),
{
    let start = table[ticket].pending;
    if events.len() == 0 {
        assert(start + Seq::<Seq<u8>>::empty() =~= Seq::<Seq<u8>>::empty() + start);
        assert(Seq::<Seq<u8>>::empty().is_prefix_of(start + Seq::<Seq<u8>>::empty()));
    } else {
        let earlier = events.drop_last();
        let event = events.last();
        assert forall|i: int| 0 <= i < earlier.len() implies #[trigger] earlier[i] != Event::Open(
            ticket,
        ) by {
            assert(earlier[i] == events[i]);
        }
        lemma_fifo(table, earlier, ticket);
        let before = run(table, earlier);
        let after = run(table, events);
        let acc = accepted(table, earlier, ticket);
        let del = delivered(table, earlier, ticket);
        assert(event == events[events.len() - 1]);
        if !before.contains_key(ticket) {
            lemma_stays_closed(before, event, ticket);
        } else {
            let waiting = before[ticket].pending;
            assert(start + acc == del + waiting);
            match event {
                Event::Route(to, chunk) => {
                    if to == ticket && routable(before, ticket) && before[ticket].accepts() {
                        assert(start + acc.push(chunk) =~= (start + acc).push(chunk));
                        assert(del + waiting.push(chunk) =~= (del + waiting).push(chunk));
                    }
                },
                Event::Poll(of) => {
                    if of == ticket && waiting.len() > 0 {
                        assert(del.push(waiting[0]) + waiting.drop_first() =~= del + waiting);
                    }
                },
                _ => {},
            }
            if after.contains_key(ticket) {
                let now = delivered(table, events, ticket);
                let total = start + accepted(table, events, ticket);
                assert(total == now + after[ticket].pending);
                assert(now =~= total.subrange(0, now.len() as int));
            }
        }
    }
}

/// Chunks routed for a ticket reach its consumer in the order of the `route`
/// calls: over the lifetime of a ticket, from the moment it is opened, what
/// the consumer was handed is a prefix of what `route` accepted.
pub proof fn lemma_fifo_from_open(table: TableView, events: Seq<Event>, ticket: Ticket)
    requires
        !table.contains_key(ticket),
        forall|i: int| 0 <= i < events.len() ==> #[trigger] events[i] != Event::Open(ticket),
    ensures
        delivered(opened(table, ticket), events, ticket).is_prefix_of(
            accepted(opened(table, ticket), events, ticket),
        ),
        run(opened(table, ticket), events).contains_key(ticket) ==> accepted(
            opened(table, ticket),
            events,
            ticket,
        ) == delivered(opened(table, ticket), events, ticket) + run(
            opened(table, ticket),
            events,
        )[ticket].pending,
{
    let start = opened(table, ticket);
    lemma_fifo(start, events, ticket);
    assert(start[ticket].pending + accepted(start, events, ticket) =~= accepted(
        start,
        events,
        ticket,
    ));
}

/// The events of `events` that are not about `ticket`, in their order.
pub open spec fn others(events: Seq<Event>, ticket: Ticket) -> Seq<Event>
    decreases events.len(),
{
    if events.len() == 0 {
        Seq::empty()
    } else if events.last().ticket() == ticket {
        others(events.drop_last(), ticket)
    } else {
        others(events.drop_last(), ticket).push(events.last())
    }
}

/// A download leaves nothing behind, and disturbs nothing while it lasts.
///
/// Open `ticket` in a table that does not hold it, and let anything happen,
/// to this ticket and to others. The moment the ticket is closed, the table
/// is what the events about the other tickets alone would have made of it: no
/// entry is left of the download, and no other entry shows that it took
/// place. The same holds after the consumer's next call once the producer has
/// finished and the sink is drained.
pub proof fn lemma_no_leak(table: TableView, events: Seq<Event>, ticket: Ticket)
    requires
        !table.contains_key(ticket),
    ensures
        !run(table, others(events, ticket)).contains_key(ticket),
        closed(run(opened(table, ticket), events), ticket) == run(table, others(events, ticket)),
        ({
            let end = run(opened(table, ticket), events);
            end.contains_key(ticket) && end[ticket].drained() ==> polled(end, ticket) == run(
                table,
                others(events, ticket),
            )
        }),
    decreases events.len(),
{
    let start = opened(table, ticket);
    if events.len() == 0 {
        assert(closed(start, ticket) =~= table);
    } else {
        let earlier = events.drop_last();
        let event = events.last();
        lemma_no_leak(table, earlier, ticket);
        let with = run(start, earlier);
        let without = run(table, others(earlier, ticket));
        if event.ticket() == ticket {
            assert(closed(step(with, event), ticket) =~= closed(with, ticket));
        } else {
            assert(others(events, ticket).drop_last() =~= others(earlier, ticket));
            assert(closed(step(with, event), ticket) =~= step(closed(with, ticket), event));
        }
    }
}

/// A ticket stays open as long as nothing closes it and its consumer does not
/// ask for more.
pub proof fn lemma_stays_open(table: TableView, events: Seq<Event>, ticket: Ticket)
    requires
        table.contains_key(ticket),
        forall|i: int|
            0 <= i < events.len() ==> #[trigger] events[i] != Event::Close(ticket) && events[i]
                != Event::Poll(ticket),
    ensures
        run(table, events).contains_key(ticket),
    decreases events.len(),
{
    if events.len() > 0 {
        let earlier = events.drop_last();
        assert forall|i: int| 0 <= i < earlier.len() implies #[trigger] earlier[i] != Event::Close(
            ticket,
        ) && earlier[i] != Event::Poll(ticket) by {
            assert(earlier[i] == events[i]);
        }
        lemma_stays_open(table, earlier, ticket);
        assert(events.last() == events[events.len() - 1]);
    }
}

/// Opening a ticket creates exactly one entry: the table grows by one, the
/// new entry is a fresh sink under the ticket, and every entry that was there
/// is as it was.
pub proof fn lemma_open_adds_one_entry(table: TableView, ticket: Ticket)
    requires
        table.dom().finite(),
        !table.contains_key(ticket),
    ensures
        opened(table, ticket).len() == table.len() + 1,
        opened(table, ticket)[ticket] == SinkView::fresh(),
        forall|other: Ticket| #[trigger]
            table.contains_key(other) ==> opened(table, ticket).contains_key(other) && opened(
                table,
                ticket,
            )[other] == table[other],
        forall|other: Ticket| #[trigger]
            opened(table, ticket).contains_key(other) ==> other == ticket || table.contains_key(
                other,
            ),
{
}

/// Downloads in flight have distinct tickets.
///
/// While `first` is open, a ticket that is opened, which is what `open` and
/// `download` return, is another one; afterwards both are open, and the sink
/// of `first` is what it was.
pub proof fn lemma_tickets_in_flight_differ(table: TableView, first: Ticket, second: Ticket)
    requires
        table.contains_key(first),
        !table.contains_key(second),
    ensures
        first != second,
        opened(table, second).contains_key(first),
        opened(table, second).contains_key(second),
        opened(table, second)[first] == table[first],
{
}

} // verus!
