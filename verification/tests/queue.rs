use mcp_tools::lsp_cpp::queue::{BoundedQueue, Slot, DEFAULT_QUEUE_DEPTH};

#[test]
fn queue_accepts_capacity_requests_and_rejects_overflow() {
    let mut q = BoundedQueue::new(4);
    let s1 = q.try_acquire().expect("slot 1");
    let s2 = q.try_acquire().expect("slot 2");
    let s3 = q.try_acquire().expect("slot 3");
    let s4 = q.try_acquire().expect("slot 4");
    assert_eq!(q.in_flight(), 4);
    assert!(q.try_acquire().is_none(), "5th acquire MUST be rejected at capacity 4");
    q.release(s1);
    assert_eq!(q.in_flight(), 3);
    let s5 = q.try_acquire().expect("re-acquire after release");
    assert_eq!(q.in_flight(), 4);
    for s in [s2, s3, s4, s5] {
        q.release(s);
    }
    assert_eq!(q.in_flight(), 0);
}

#[test]
fn in_flight_never_exceeds_capacity_under_burst() {
    let mut q = BoundedQueue::new(2);
    let mut held: Vec<Slot> = Vec::new();
    for _ in 0..10 {
        if let Some(s) = q.try_acquire() {
            held.push(s);
        }
    }
    assert_eq!(held.len(), 2, "exactly capacity slots should fit");
    assert_eq!(q.in_flight(), 2);
    assert!(q.in_flight() <= q.capacity());
}

#[test]
fn slot_drop_releases_back_to_zero() {
    let mut q = BoundedQueue::new(3);
    let s1 = q.try_acquire().unwrap();
    let s2 = q.try_acquire().unwrap();
    assert_eq!(q.in_flight(), 2);
    q.release(s1);
    q.release(s2);
    assert_eq!(q.in_flight(), 0);
}

#[test]
fn default_depth_is_sixteen() {
    let mut q = BoundedQueue::new(DEFAULT_QUEUE_DEPTH);
    assert_eq!(q.capacity(), 16);
    let mut held = 0;
    for _ in 0..20 {
        if q.try_acquire().is_some() {
            held += 1;
        }
    }
    assert_eq!(held, 16);
}
