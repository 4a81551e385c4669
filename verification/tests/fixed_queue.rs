use portside_tui::fixed_queue::FixedQueue;

#[test]
fn fills_up_to_capacity_then_keeps_the_newest() {
    let mut q: FixedQueue<u32, 3> = FixedQueue::new();
    assert!(q.is_empty());
    for v in 1..=5 {
        q.push(v);
    }
    assert_eq!(q.len(), 3);
    assert_eq!(*q.index(0), 3);
    assert_eq!(*q.index(1), 4);
    assert_eq!(*q.index(2), 5);
}

#[test]
fn index_wraps_around_the_length() {
    let mut q: FixedQueue<&str, 4> = FixedQueue::default();
    q.push("a");
    q.push("b");
    assert_eq!(*q.index(0), "a");
    assert_eq!(*q.index(3), "b");
}

#[test]
fn last_pushed_is_at_the_end() {
    let mut q: FixedQueue<u32, 2> = FixedQueue::new();
    for v in 0..10 {
        q.push(v);
        assert_eq!(*q.index(q.len() - 1), v);
        assert!(q.len() <= 2);
    }
}

#[test]
fn holds_the_most_recent_pushes_in_order() {
    let mut q: FixedQueue<u32, 4> = FixedQueue::new();
    let mut pushed: Vec<u32> = Vec::new();
    for v in 0..11 {
        q.push(v);
        pushed.push(v);
        let recent: Vec<u32> = pushed[pushed.len().saturating_sub(4)..].to_vec();
        let held: Vec<u32> = (0..q.len()).map(|i| *q.index(i)).collect();
        assert_eq!(held, recent);
    }
}
