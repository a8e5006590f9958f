//! The one-shot result slot: a task's outcome is delivered exactly once.

use canvas_session::task_slot::TaskSlot;

#[test]
fn slot_delivers_exactly_once() {
    let mut slot: TaskSlot<u64> = TaskSlot::new();
    assert!(!slot.is_filled());
    assert!(slot.fill(42));
    assert!(slot.is_filled());
    // a second delivery is rejected and the first outcome kept
    assert!(!slot.fill(7));
    assert_eq!(slot.take(), Some(42));
    // after the outcome is taken, nothing is delivered again
    assert_eq!(slot.take(), None);
    assert!(!slot.is_filled());
}

#[test]
fn empty_slot_yields_nothing() {
    let mut slot: TaskSlot<String> = TaskSlot::new();
    assert_eq!(slot.take(), None);
}
