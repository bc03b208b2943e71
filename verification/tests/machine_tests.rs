//! Driving the validating machine one event at a time.

use checkers::Event;
use checkers::Machine;
use checkers::Realloc;
use checkers::ReallocNull;
use checkers::Region;
use checkers::Request;
use checkers::Violation;
use checkers::AllocZeroed;

#[test]
fn test_double_free() {
    let mut machine = Machine::default();

    let request = Request::without_backtrace(Region::new(0.into(), 2, 1));
    assert!(machine.push(&Event::Alloc(request)).is_ok());

    let request = Request::without_backtrace(Region::new(0.into(), 2, 1));
    assert!(machine.push(&Event::Free(request)).is_ok());

    let request = Request::without_backtrace(Region::new(0.into(), 2, 1));
    assert!(matches!(
        machine.push(&Event::Free(request)),
        Err(Violation::MissingFree { .. })
    ));
}

#[test]
fn test_misaligned_alloc() {
    let mut machine = Machine::default();
    let region = Region::new(5.into(), 2, 4);

    let request = Request::without_backtrace(region);
    assert!(matches!(
        machine.push(&Event::Alloc(request)).unwrap_err(),
        Violation::MisalignedAlloc { .. }
    ));
}

#[test]
fn test_partial_free() {
    let mut machine = Machine::default();
    let existing = Region::new(100.into(), 100, 1);

    let request = Request::without_backtrace(existing);
    assert!(machine.push(&Event::Alloc(request)).is_ok());

    // No live region is keyed at address 150.
    let request = Request::without_backtrace(Region::new(150.into(), 50, 1));
    assert!(matches!(
        machine.push(&Event::Free(request)).unwrap_err(),
        Violation::MissingFree { .. }
    ));

    // Address 100 is live, but with size 100, not 50.
    let request = Request::without_backtrace(Region::new(100.into(), 50, 1));
    assert!(matches!(
        machine.push(&Event::Free(request)).unwrap_err(),
        Violation::IncompleteFree { .. }
    ));
}

#[test]
fn test_conflicting_alloc() {
    let mut machine = Machine::default();

    let first = Request::without_backtrace(Region::new(100.into(), 100, 1));
    assert!(machine.push(&Event::Alloc(first)).is_ok());

    // Address 150 falls within [100, 200).
    let second = Request::without_backtrace(Region::new(150.into(), 10, 1));
    assert!(matches!(
        machine.push(&Event::Alloc(second)).unwrap_err(),
        Violation::ConflictingAlloc { .. }
    ));

    // A later region that contains the start of an existing one conflicts
    // just the same.
    let third = Request::without_backtrace(Region::new(50.into(), 100, 1));
    assert!(matches!(
        machine.push(&Event::Alloc(third)).unwrap_err(),
        Violation::ConflictingAlloc { .. }
    ));
}

#[test]
fn test_misaligned_free() {
    let mut machine = Machine::default();

    let request = Request::without_backtrace(Region::new(8.into(), 16, 8));
    assert!(machine.push(&Event::Alloc(request)).is_ok());

    // Same address and size, but alignment metadata 4 instead of 8.
    let request = Request::without_backtrace(Region::new(8.into(), 16, 4));
    assert!(matches!(
        machine.push(&Event::Free(request)).unwrap_err(),
        Violation::MisalignedFree { .. }
    ));
}

#[test]
fn test_non_zeroed_alloc() {
    let mut machine = Machine::default();

    let request = Request::without_backtrace(Region::new(16.into(), 16, 4));
    assert!(matches!(
        machine
            .push(&Event::AllocZeroed(AllocZeroed::new(Some(false), request)))
            .unwrap_err(),
        Violation::NonZeroedAlloc { .. }
    ));

    // The refused region was never recorded live: freeing it is a missing
    // free.
    assert!(matches!(
        machine.push(&Event::Free(request)).unwrap_err(),
        Violation::MissingFree { .. }
    ));
}

#[test]
fn test_non_copied_realloc() {
    let mut machine = Machine::default();

    let old = Region::new(32.into(), 8, 4);
    assert!(machine
        .push(&Event::Alloc(Request::without_backtrace(old)))
        .is_ok());

    let grown = Region::new(64.into(), 16, 4);
    assert!(matches!(
        machine
            .push(&Event::Realloc(Realloc::without_backtrace(
                Some(false),
                old,
                grown
            )))
            .unwrap_err(),
        Violation::NonCopiedRealloc { .. }
    ));

    // Neither half was applied: the old region is still live.
    assert!(machine
        .push(&Event::Free(Request::without_backtrace(old)))
        .is_ok());
}

#[test]
fn test_realloc_moves_region() {
    let mut machine = Machine::default();

    let old = Region::new(32.into(), 8, 4);
    assert!(machine
        .push(&Event::Alloc(Request::without_backtrace(old)))
        .is_ok());

    let grown = Region::new(64.into(), 16, 4);
    assert!(machine
        .push(&Event::Realloc(Realloc::without_backtrace(
            Some(true),
            old,
            grown
        )))
        .is_ok());

    // The old region is gone, the new one is live.
    assert!(matches!(
        machine
            .push(&Event::Free(Request::without_backtrace(old)))
            .unwrap_err(),
        Violation::MissingFree { .. }
    ));
    assert!(machine
        .push(&Event::Free(Request::without_backtrace(grown)))
        .is_ok());
}

#[test]
fn test_realloc_null() {
    let mut machine = Machine::default();

    assert!(matches!(
        machine
            .push(&Event::ReallocNull(ReallocNull::new(None)))
            .unwrap_err(),
        Violation::ReallocNull { .. }
    ));
}

#[test]
fn test_failed_events_are_inert() {
    let mut machine = Machine::default();

    assert!(machine.push(&Event::AllocFailed).is_ok());
    assert!(machine.push(&Event::AllocZeroedFailed).is_ok());
    assert!(machine.push(&Event::ReallocFailed).is_ok());
    assert_eq!(0, machine.memory_used());
    assert!(machine.trailing_regions().is_empty());
}

#[test]
fn test_trailing_regions() {
    let mut machine = Machine::default();

    let one = Request::without_backtrace(Region::new(0x20.into(), 8, 8));
    let two = Request::without_backtrace(Region::new(0x10.into(), 8, 8));
    assert!(machine.push(&Event::Alloc(one)).is_ok());
    assert!(machine.push(&Event::Alloc(two)).is_ok());
    assert_eq!(16, machine.memory_used());

    // Trailing regions come out in address order, whatever the arrival order.
    let trailing = machine.trailing_regions();
    assert_eq!(2, trailing.len());
    assert_eq!(8, trailing[0].region.size);
    assert!(trailing[0].region.ptr < trailing[1].region.ptr);
}

#[test]
fn test_region_predicates() {
    let outer = Region::new(100.into(), 100, 4);
    let inner = Region::new(150.into(), 10, 4);

    assert!(outer.overlaps(inner));
    assert!(!inner.overlaps(outer));
    assert!(!outer.is_same_region_as(inner));
    assert!(outer.is_same_region_as(Region::new(100.into(), 100, 8)));

    let p = checkers::Pointer::new();
    assert!(p.is_aligned_with(1));
    assert_eq!(p.saturating_add(5), checkers::Pointer::from(5));
    assert_eq!(
        checkers::Pointer::from(usize::MAX).saturating_add(10),
        checkers::Pointer::from(usize::MAX)
    );
}
