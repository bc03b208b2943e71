//! Validating whole histories: the collected violations and the leak sweep.

use checkers::Event;
use checkers::Events;
use checkers::Region;
use checkers::Request;
use checkers::State;
use checkers::Violation;

fn alloc_of(region: Region) -> Event {
    Event::Alloc(Request::without_backtrace(region))
}

fn free_of(region: Region) -> Event {
    Event::Free(Request::without_backtrace(region))
}

#[test]
fn test_balanced_pair_is_clean() {
    let mut events = Events::new();
    let region = Region::new(0.into(), 2, 1);
    events.push(alloc_of(region));
    events.push(free_of(region));

    let mut violations = Vec::new();
    events.validate(&mut violations);
    assert!(violations.is_empty());
}

#[test]
fn test_free_then_double_free() {
    let mut events = Events::new();
    let region = Region::new(0.into(), 2, 1);
    events.push(alloc_of(region));
    events.push(free_of(region));
    events.push(free_of(region));

    let mut violations = Vec::new();
    events.validate(&mut violations);
    assert_eq!(1, violations.len());
    assert!(matches!(violations[0], Violation::MissingFree { .. }));
}

#[test]
fn test_unmatched_free() {
    let mut events = Events::new();
    events.push(free_of(Region::new(64.into(), 16, 4)));

    let mut violations = Vec::new();
    events.validate(&mut violations);
    assert_eq!(1, violations.len());
    assert!(matches!(violations[0], Violation::MissingFree { .. }));
}

#[test]
fn test_overlapping_allocs_conflict() {
    let mut events = Events::new();
    events.push(alloc_of(Region::new(100.into(), 100, 1)));
    events.push(alloc_of(Region::new(150.into(), 10, 1)));

    let mut violations = Vec::new();
    events.validate(&mut violations);

    // One conflict, and one leak for the first region, still live at the end.
    assert_eq!(2, violations.len());
    match &violations[0] {
        Violation::ConflictingAlloc { request, existing } => {
            assert_eq!(request.region.ptr, 150.into());
            assert_eq!(existing.region.ptr, 100.into());
        }
        other => panic!("expected a conflict, got: {}", other.message()),
    }
    assert!(violations[1].is_leaked_with(|r| r.size == 100));
}

#[test]
fn test_disjoint_allocs_do_not_conflict() {
    let mut events = Events::new();
    events.push(alloc_of(Region::new(100.into(), 100, 1)));
    events.push(alloc_of(Region::new(200.into(), 10, 1)));
    events.push(free_of(Region::new(100.into(), 100, 1)));
    events.push(free_of(Region::new(200.into(), 10, 1)));

    let mut violations = Vec::new();
    events.validate(&mut violations);
    assert!(violations.is_empty());
}

#[test]
fn test_misaligned_alloc_reported() {
    let mut events = Events::new();
    events.push(alloc_of(Region::new(5.into(), 2, 4)));

    let mut violations = Vec::new();
    events.validate(&mut violations);
    assert_eq!(1, violations.len());
    assert!(matches!(violations[0], Violation::MisalignedAlloc { .. }));
}

#[test]
fn test_partial_free_scenario() {
    let mut events = Events::new();
    events.push(alloc_of(Region::new(100.into(), 100, 1)));
    events.push(free_of(Region::new(150.into(), 50, 1)));
    events.push(free_of(Region::new(100.into(), 50, 1)));

    let mut violations = Vec::new();
    events.validate(&mut violations);

    // A missing free at 150, an incomplete free at 100, and the region
    // itself, never released, in the leak sweep.
    assert_eq!(3, violations.len());
    assert!(matches!(violations[0], Violation::MissingFree { .. }));
    assert!(matches!(violations[1], Violation::IncompleteFree { .. }));
    assert!(violations[2].is_leaked_with(|r| r.size == 100 && r.align == 1));
}

#[test]
fn test_max_memory_used() {
    let mut events = Events::new();
    events.push(alloc_of(Region::new(0x10.into(), 0x10, 1)));
    events.push(alloc_of(Region::new(0x20.into(), 0x10, 1)));
    events.push(free_of(Region::new(0x10.into(), 0x10, 1)));

    assert_eq!(0x20, events.max_memory_used().unwrap());
}

#[test]
fn test_max_memory_used_fail_fast() {
    let mut events = Events::new();
    events.push(free_of(Region::new(0x10.into(), 0x10, 1)));
    events.push(alloc_of(Region::new(0x20.into(), 0x10, 1)));

    assert!(matches!(
        events.max_memory_used(),
        Err(Violation::MissingFree { .. })
    ));
}

#[test]
fn test_leak_sweep_exact() {
    let mut events = Events::new();
    // Two regions are left live; a third is allocated and freed in between.
    events.push(alloc_of(Region::new(0x30.into(), 8, 8)));
    events.push(alloc_of(Region::new(0x10.into(), 4, 4)));
    events.push(alloc_of(Region::new(0x20.into(), 2, 2)));
    events.push(free_of(Region::new(0x20.into(), 2, 2)));

    let mut violations = Vec::new();
    events.validate(&mut violations);

    // Each leaked region appears exactly once, in address order.
    assert_eq!(2, violations.len());
    assert!(violations[0].is_leaked_with(|r| r.ptr == 0x10.into() && r.size == 4));
    assert!(violations[1].is_leaked_with(|r| r.ptr == 0x30.into() && r.size == 8));
}

#[test]
fn test_validate_is_idempotent() {
    let mut events = Events::new();
    events.push(alloc_of(Region::new(5.into(), 2, 4)));
    events.push(free_of(Region::new(64.into(), 8, 8)));
    events.push(alloc_of(Region::new(0x40.into(), 16, 16)));

    let mut first = Vec::new();
    events.validate(&mut first);
    let mut second = Vec::new();
    events.validate(&mut second);

    assert_eq!(first.len(), second.len());
    for (a, b) in first.iter().zip(second.iter()) {
        assert_eq!(a.message(), b.message());
    }
}

#[test]
fn test_state_collects_leak() {
    let mut state = State::new();
    state.reserve(16);
    state
        .events
        .push(alloc_of(Region::new(0x100.into(), 20, 4)));

    let mut violations = Vec::new();
    state.validate(&mut violations);
    assert_eq!(1, violations.len());
    assert!(violations[0].is_leaked_with(|region| region.size == 20 && region.align == 4));

    state.clear();
    let mut violations = Vec::new();
    state.validate(&mut violations);
    assert!(violations.is_empty());
}

#[test]
fn test_events_capacity_and_reserve() {
    let mut events = Events::new();
    assert!(events.is_empty());
    // A fresh log allocates nothing.
    assert_eq!(0, events.capacity());

    // After a reserve the log holds that many more events without growing.
    events.push(alloc_of(Region::new(0.into(), 1, 1)));
    events.reserve(100);
    assert!(events.capacity() >= events.len() + 100);

    // Clearing keeps the backing storage for the next window.
    let kept = events.capacity();
    events.clear();
    assert_eq!(0, events.len());
    assert_eq!(kept, events.capacity());
}
