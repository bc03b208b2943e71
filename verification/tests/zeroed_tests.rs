//! The history a window sees when a zeroing allocation was not in fact
//! zeroed by the allocator.

use checkers::AllocZeroed;
use checkers::Event;
use checkers::Events;
use checkers::Region;
use checkers::Request;

#[test]
fn zeroed_tests_test_realloc() {
    let mut events = Events::new();

    let region = Region::new(4096.into(), 32, 1);

    events.push(Event::AllocZeroed(AllocZeroed::new(
        Some(false),
        Request::without_backtrace(region),
    )));
    events.push(Event::Free(Request::without_backtrace(region)));

    assert_eq!(1, events.allocs());
    assert_eq!(1, events.frees());

    // Note: is_zeroed is false, as the zeroing check reported.
    assert!(events.as_slice()[0]
        .is_alloc_zeroed_with(|r| r.is_zeroed == Some(false) && r.request.region.size == 32));
    assert!(events.as_slice()[1].is_free_with(|r| r.size == 32));
}
