use download_relay::sink::{Offered, Sink, Taken, SINK_CAPACITY};

fn offered_name(offered: &Offered) -> &'static str {
    match offered {
        Offered::Accepted => "accepted",
        Offered::Full(_) => "full",
        Offered::Finished(_) => "finished",
    }
}

fn taken_chunk(taken: Taken) -> Option<Vec<u8>> {
    match taken {
        Taken::Chunk(chunk) => Some(chunk),
        _ => None,
    }
}

#[test]
fn a_new_sink_is_empty_and_unfinished() {
    let mut sink = Sink::new();
    assert_eq!(sink.len(), 0);
    assert!(!sink.is_finished());
    assert!(matches!(sink.take(), Taken::Empty));
}

#[test]
fn the_capacity_is_one_hundred() {
    assert_eq!(SINK_CAPACITY, 100);
}

#[test]
fn chunks_leave_in_the_order_they_came() {
    let mut sink = Sink::new();
    assert_eq!(offered_name(&sink.offer(vec![1])), "accepted");
    assert_eq!(offered_name(&sink.offer(vec![2, 2])), "accepted");
    assert_eq!(offered_name(&sink.offer(vec![])), "accepted");
    assert_eq!(sink.len(), 3);
    assert_eq!(taken_chunk(sink.take()), Some(vec![1]));
    assert_eq!(taken_chunk(sink.take()), Some(vec![2, 2]));
    assert_eq!(taken_chunk(sink.take()), Some(vec![]));
    assert!(matches!(sink.take(), Taken::Empty));
}

#[test]
fn a_full_sink_hands_the_chunk_back() {
    let mut sink = Sink::new();
    for i in 0..SINK_CAPACITY {
        assert_eq!(offered_name(&sink.offer(vec![i as u8])), "accepted");
    }
    assert_eq!(sink.len(), SINK_CAPACITY);
    match sink.offer(vec![7, 7]) {
        Offered::Full(back) => assert_eq!(back, vec![7, 7]),
        other => panic!("expected a full sink, got {}", offered_name(&other)),
    }
    assert_eq!(sink.len(), SINK_CAPACITY);
    assert_eq!(taken_chunk(sink.take()), Some(vec![0]));
    assert_eq!(offered_name(&sink.offer(vec![7, 7])), "accepted");
    assert_eq!(sink.len(), SINK_CAPACITY);
}

#[test]
fn a_finished_sink_takes_nothing_more() {
    let mut sink = Sink::new();
    sink.offer(vec![1]);
    sink.finish();
    assert!(sink.is_finished());
    match sink.offer(vec![2]) {
        Offered::Finished(back) => assert_eq!(back, vec![2]),
        other => panic!("expected a finished sink, got {}", offered_name(&other)),
    }
    assert_eq!(sink.len(), 1);
}

#[test]
fn a_finished_sink_ends_after_its_last_chunk() {
    let mut sink = Sink::new();
    sink.offer(vec![1]);
    sink.offer(vec![2]);
    sink.finish();
    assert_eq!(taken_chunk(sink.take()), Some(vec![1]));
    assert_eq!(taken_chunk(sink.take()), Some(vec![2]));
    assert!(matches!(sink.take(), Taken::End));
    assert!(matches!(sink.take(), Taken::End));
}
