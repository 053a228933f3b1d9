use download_relay::correlation::{
    draw_candidates, CorrelationTable, Polled, RouteError, Routed, OPEN_ATTEMPTS,
};
use download_relay::sink::SINK_CAPACITY;

#[test]
fn a_new_table_is_empty() {
    let table = CorrelationTable::new();
    assert_eq!(table.len(), 0);
    assert!(!table.contains(1));
    assert_eq!(table.pending(1), None);
}

#[test]
fn open_with_installs_an_empty_sink() {
    let mut table = CorrelationTable::new();
    assert!(table.open_with(5));
    assert!(table.contains(5));
    assert_eq!(table.pending(5), Some(0));
    assert_eq!(table.len(), 1);
}

#[test]
fn open_with_refuses_a_ticket_in_use() {
    let mut table = CorrelationTable::new();
    assert!(table.open_with(5));
    assert_eq!(table.route(5, vec![1]), Ok(Routed::Accepted));
    assert!(!table.open_with(5));
    assert_eq!(table.pending(5), Some(1));
    assert_eq!(table.len(), 1);
}

#[test]
fn open_returns_a_ticket_that_was_not_in_use() {
    let mut table = CorrelationTable::new();
    assert!(OPEN_ATTEMPTS >= 1);
    let first = table.open().unwrap();
    assert!(table.contains(first));
    assert_eq!(table.pending(first), Some(0));
    let second = table.open().unwrap();
    assert_ne!(first, second);
    assert!(table.contains(first));
    assert!(table.contains(second));
    assert_eq!(table.len(), 2);
}

#[test]
fn open_draws_from_the_whole_ticket_space() {
    let mut table = CorrelationTable::new();
    let mut above_32_bits = false;
    for _ in 0..64 {
        let ticket = table.open().unwrap();
        above_32_bits = above_32_bits || ticket > u32::MAX as u64;
    }
    assert!(above_32_bits);
    assert_eq!(table.len(), 64);
}

#[test]
fn route_delivers_in_order() {
    let mut table = CorrelationTable::new();
    table.open_with(1);
    assert_eq!(table.route(1, b"ab".to_vec()), Ok(Routed::Accepted));
    assert_eq!(table.route(1, b"cd".to_vec()), Ok(Routed::Accepted));
    assert_eq!(table.pending(1), Some(2));
    assert_eq!(table.next_chunk(1), Polled::Chunk(b"ab".to_vec()));
    assert_eq!(table.next_chunk(1), Polled::Chunk(b"cd".to_vec()));
    assert_eq!(table.next_chunk(1), Polled::Pending);
    assert!(table.contains(1));
}

#[test]
fn route_to_an_unknown_ticket_fails() {
    let mut table = CorrelationTable::new();
    table.open_with(1);
    table.route(1, vec![9]).unwrap();
    assert_eq!(table.route(2, vec![1, 2, 3]), Err(RouteError::UnknownTicket));
    assert!(!table.contains(2));
    assert_eq!(table.len(), 1);
    assert_eq!(table.pending(1), Some(1));
    assert_eq!(table.next_chunk(1), Polled::Chunk(vec![9]));
}

#[test]
fn route_after_close_fails_and_leaves_other_tickets_alone() {
    let mut table = CorrelationTable::new();
    table.open_with(1);
    table.open_with(2);
    table.route(2, vec![5]).unwrap();
    table.close(1);
    assert_eq!(table.route(1, vec![1]), Err(RouteError::UnknownTicket));
    assert!(!table.contains(1));
    assert_eq!(table.pending(2), Some(1));
    assert_eq!(table.next_chunk(2), Polled::Chunk(vec![5]));
    assert_eq!(table.next_chunk(2), Polled::Pending);
}

#[test]
fn route_after_complete_fails() {
    let mut table = CorrelationTable::new();
    table.open_with(1);
    table.route(1, vec![1]).unwrap();
    table.complete(1);
    assert_eq!(table.route(1, vec![2]), Err(RouteError::UnknownTicket));
    assert_eq!(table.pending(1), Some(1));
}

#[test]
fn a_full_sink_is_busy_until_the_consumer_takes_a_chunk() {
    let mut table = CorrelationTable::new();
    table.open_with(1);
    for i in 0..SINK_CAPACITY {
        assert_eq!(table.route(1, vec![i as u8]), Ok(Routed::Accepted));
    }
    assert_eq!(table.pending(1), Some(100));
    assert_eq!(table.route(1, vec![200, 201]), Ok(Routed::Busy(vec![200, 201])));
    assert_eq!(table.pending(1), Some(100));
    assert_eq!(table.next_chunk(1), Polled::Chunk(vec![0]));
    assert_eq!(table.route(1, vec![200, 201]), Ok(Routed::Accepted));
    for i in 1..SINK_CAPACITY {
        assert_eq!(table.next_chunk(1), Polled::Chunk(vec![i as u8]));
    }
    assert_eq!(table.next_chunk(1), Polled::Chunk(vec![200, 201]));
    assert_eq!(table.next_chunk(1), Polled::Pending);
}

#[test]
fn a_completed_ticket_leaves_the_table_when_drained() {
    let mut table = CorrelationTable::new();
    table.open_with(1);
    table.route(1, vec![1]).unwrap();
    table.complete(1);
    assert!(table.contains(1));
    assert_eq!(table.next_chunk(1), Polled::Chunk(vec![1]));
    assert!(table.contains(1));
    assert_eq!(table.next_chunk(1), Polled::End);
    assert!(!table.contains(1));
    assert_eq!(table.len(), 0);
    assert_eq!(table.next_chunk(1), Polled::End);
}

#[test]
fn complete_of_an_unknown_ticket_changes_nothing() {
    let mut table = CorrelationTable::new();
    table.open_with(1);
    table.complete(2);
    assert!(!table.contains(2));
    assert_eq!(table.route(1, vec![1]), Ok(Routed::Accepted));
    assert_eq!(table.len(), 1);
}

#[test]
fn close_is_idempotent() {
    let mut table = CorrelationTable::new();
    table.open_with(1);
    table.open_with(2);
    table.route(1, vec![1]).unwrap();
    table.close(1);
    assert!(!table.contains(1));
    assert_eq!(table.len(), 1);
    table.close(1);
    assert!(!table.contains(1));
    assert!(table.contains(2));
    assert_eq!(table.len(), 1);
}

#[test]
fn close_discards_what_waits() {
    let mut table = CorrelationTable::new();
    table.open_with(1);
    table.route(1, vec![1]).unwrap();
    table.close(1);
    assert_eq!(table.next_chunk(1), Polled::End);
    assert!(table.open_with(1));
    assert_eq!(table.pending(1), Some(0));
    assert_eq!(table.next_chunk(1), Polled::Pending);
}

#[test]
fn tickets_do_not_see_each_others_chunks() {
    let mut table = CorrelationTable::new();
    table.open_with(1);
    table.open_with(2);
    table.route(1, vec![1]).unwrap();
    table.route(2, vec![2]).unwrap();
    table.route(1, vec![11]).unwrap();
    assert_eq!(table.next_chunk(2), Polled::Chunk(vec![2]));
    assert_eq!(table.next_chunk(2), Polled::Pending);
    assert_eq!(table.next_chunk(1), Polled::Chunk(vec![1]));
    assert_eq!(table.next_chunk(1), Polled::Chunk(vec![11]));
}

#[test]
fn open_among_takes_the_first_candidate_that_is_free() {
    let mut table = CorrelationTable::new();
    table.open_with(1);
    table.open_with(2);
    table.route(1, vec![9]).unwrap();
    assert_eq!(table.open_among(&vec![1, 2, 3, 4]), Some(3));
    assert!(table.contains(3));
    assert!(!table.contains(4));
    assert_eq!(table.pending(3), Some(0));
    assert_eq!(table.pending(1), Some(1));
    assert_eq!(table.len(), 3);
    assert_eq!(table.open_among(&vec![3, 3, 7]), Some(7));
    assert_eq!(table.open_among(&vec![5]), Some(5));
}

#[test]
fn open_among_gives_up_when_every_candidate_collides() {
    let mut table = CorrelationTable::new();
    table.open_with(1);
    table.open_with(2);
    assert_eq!(table.open_among(&vec![1, 2, 2, 1]), None);
    assert_eq!(table.open_among(&vec![]), None);
    assert_eq!(table.len(), 2);
}

#[test]
fn as_many_candidates_are_drawn_as_attempts_are_allowed() {
    let candidates = draw_candidates();
    assert_eq!(candidates.len(), OPEN_ATTEMPTS);
    assert_eq!(OPEN_ATTEMPTS, 16);
}
