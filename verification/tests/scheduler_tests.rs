use notifiapp_transport::scheduler::{MessagePriority, WfqScheduler};

const LEVELS: [MessagePriority; 4] = [
    MessagePriority::RealTime,
    MessagePriority::Normal,
    MessagePriority::Stream,
    MessagePriority::Bulk,
];

#[test]
fn an_empty_scheduler_gives_nothing() {
    let mut s: WfqScheduler<u32> = WfqScheduler::new();
    assert!(s.is_empty());
    assert_eq!(s.len(), 0);
    assert_eq!(s.pop(), None);
}

#[test]
fn urgent_items_leave_first() {
    let mut s = WfqScheduler::new();
    s.enqueue("bulk", MessagePriority::Bulk);
    s.enqueue("normal", MessagePriority::Normal);
    s.enqueue("urgent", MessagePriority::RealTime);
    assert_eq!(s.len(), 3);
    assert!(!s.is_empty());
    assert_eq!(s.pop(), Some("urgent"));
    assert_eq!(s.pop(), Some("normal"));
    assert_eq!(s.pop(), Some("bulk"));
    assert_eq!(s.pop(), None);
}

#[test]
fn a_level_is_first_in_first_out() {
    let mut s = WfqScheduler::default();
    for i in 0..20 {
        s.enqueue(i, MessagePriority::Stream);
    }
    for i in 0..20 {
        assert_eq!(s.pop(), Some(i));
    }
    assert!(s.is_empty());
}

#[test]
fn a_round_gives_each_level_its_weight() {
    let mut s = WfqScheduler::new();
    for level in LEVELS {
        for i in 0..40 {
            s.enqueue((level, i), level);
        }
    }
    for round in 0..2 {
        let mut expected = Vec::new();
        for (level, weight) in LEVELS.iter().zip([8, 4, 2, 1]) {
            for i in 0..weight {
                expected.push((*level, round * weight + i));
            }
        }
        let got: Vec<(MessagePriority, i32)> = (0..15).map(|_| s.pop().unwrap()).collect();
        assert_eq!(got, expected);
    }
}

#[test]
fn no_level_starves() {
    let mut s = WfqScheduler::new();
    s.enqueue(0, MessagePriority::Bulk);
    let mut pops = 0;
    loop {
        // The others are never empty.
        for level in &LEVELS[..3] {
            s.enqueue(1, *level);
            s.enqueue(1, *level);
        }
        pops += 1;
        if s.pop() == Some(0) {
            break;
        }
    }
    assert_eq!(pops, 15);
}

#[test]
fn an_empty_pop_starts_a_new_round() {
    let mut s = WfqScheduler::new();
    for _ in 0..8 {
        s.enqueue(1, MessagePriority::RealTime);
        assert_eq!(s.pop(), Some(1));
    }
    // The urgent level has used up its credits.
    s.enqueue(1, MessagePriority::RealTime);
    s.enqueue(2, MessagePriority::Bulk);
    assert_eq!(s.pop(), Some(2));
    assert_eq!(s.pop(), Some(1));
    assert_eq!(s.pop(), None);
    s.enqueue(2, MessagePriority::Bulk);
    s.enqueue(1, MessagePriority::RealTime);
    assert_eq!(s.pop(), Some(1));
}
