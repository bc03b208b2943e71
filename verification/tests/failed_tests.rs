//! An allocator that answers null records a failure event and nothing else.

use checkers::allocator::alloc_event;
use checkers::allocator::alloc_zeroed_event;
use checkers::allocator::dealloc_event;
use checkers::allocator::realloc_event;
use checkers::Events;
use checkers::Region;
use checkers::Request;

#[test]
fn test_failed_alloc_zeroed() {
    let request = Request::without_backtrace(Region::new(0.into(), 10, 1));

    let mut events = Events::new();
    if let Some(event) = alloc_zeroed_event(false, true, None, request) {
        events.push(event);
    }

    assert_eq!(1, events.len());
    assert!(events.as_slice()[0].is_failed());
}

#[test]
fn test_failed_alloc() {
    let request = Request::without_backtrace(Region::new(0.into(), 10, 1));

    let mut events = Events::new();
    if let Some(event) = alloc_event(false, true, request) {
        events.push(event);
    }

    assert_eq!(1, events.len());
    assert!(events.as_slice()[0].is_failed());
}

#[test]
fn test_failed_realloc() {
    let old = Region::new(4096.into(), 10, 1);
    let grown = Region::new(4096.into(), 20, 1);

    let mut events = Events::new();
    // The delegate answered null for the grow request: the old region is
    // left untouched and the failure is recorded.
    if let Some(event) = realloc_event(false, false, true, None, old, grown, None) {
        events.push(event);
    }
    // The old region is then released as usual.
    if let Some(event) = dealloc_event(false, Request::without_backtrace(old)) {
        events.push(event);
    }

    assert_eq!(2, events.len());
    assert!(events.as_slice()[0].is_failed());
    assert!(events.as_slice()[1].is_free_with(|r| r.size == old.size && r.align == old.align));
}
