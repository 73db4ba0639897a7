use greg_os::keyboard::{add_scancode, ScancodePush, ScancodeQueue};

#[test]
fn bytes_arrive_exactly_once_in_order() {
    let mut q = ScancodeQueue::new(100);
    let bytes = [0x1Eu8, 0x30, 0x2E, 0x20, 0x12];
    for b in bytes {
        assert_eq!(add_scancode(&mut q, b), ScancodePush::Queued);
    }
    for b in bytes {
        assert_eq!(q.pop_scancode(), Some(b));
    }
    assert_eq!(q.pop_scancode(), None);
}

#[test]
fn push_notifies_the_consumer() {
    let mut q = ScancodeQueue::new(4);
    assert!(!q.take_notification());
    add_scancode(&mut q, 7);
    assert!(q.take_notification());
    assert!(!q.take_notification());
}

#[test]
fn full_queue_drops_the_byte() {
    let mut q = ScancodeQueue::new(2);
    assert_eq!(add_scancode(&mut q, 1), ScancodePush::Queued);
    assert_eq!(add_scancode(&mut q, 2), ScancodePush::Queued);
    assert_eq!(add_scancode(&mut q, 3), ScancodePush::QueueFull);
    assert_eq!(q.len(), 2);
    assert_eq!(q.pop_scancode(), Some(1));
    assert_eq!(q.pop_scancode(), Some(2));
    assert_eq!(q.pop_scancode(), None);
}
