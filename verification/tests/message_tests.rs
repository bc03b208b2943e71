//! The rendered diagnostics name the breach and the regions involved, with
//! their bounds, size and alignment.

use checkers::Realloc;
use checkers::ReallocNull;
use checkers::Region;
use checkers::Request;
use checkers::Violation;

#[test]
fn test_region_message() {
    let region = Region::new(42.into(), 20, 4);
    assert_eq!("42-62 (size: 20, align: 4)", region.message());

    let region = Region::new(0.into(), 0, 1);
    assert_eq!("0-0 (size: 0, align: 1)", region.message());

    // The upper bound saturates at the top of the address space.
    let region = Region::new(usize::MAX.into(), 10, 1);
    let expected = format!(
        "{}-{} (size: 10, align: 1)",
        usize::MAX,
        usize::MAX
    );
    assert_eq!(expected, region.message());
}

#[test]
fn test_leaked_message() {
    let alloc = Request::without_backtrace(Region::new(42.into(), 20, 4));
    let violation = Violation::Leaked { alloc };
    assert_eq!(
        "dangling region (42-62 (size: 20, align: 4))",
        violation.message()
    );
}

#[test]
fn test_misaligned_alloc_message() {
    let alloc = Request::without_backtrace(Region::new(5.into(), 2, 4));
    let violation = Violation::MisalignedAlloc { alloc };
    assert_eq!(
        "allocated region (5-7 (size: 2, align: 4)) is misaligned",
        violation.message()
    );
}

#[test]
fn test_conflicting_alloc_message() {
    let request = Request::without_backtrace(Region::new(150.into(), 10, 1));
    let existing = Request::without_backtrace(Region::new(100.into(), 100, 1));
    let violation = Violation::ConflictingAlloc { request, existing };
    assert_eq!(
        "requested allocation (150-160 (size: 10, align: 1)) overlaps with existing \
         (100-200 (size: 100, align: 1))",
        violation.message()
    );
}

#[test]
fn test_free_messages() {
    let request = Request::without_backtrace(Region::new(100.into(), 50, 1));
    let existing = Request::without_backtrace(Region::new(100.into(), 100, 1));
    let violation = Violation::IncompleteFree { request, existing };
    assert_eq!(
        "freed (100-150 (size: 50, align: 1)) only part of existing region \
         (100-200 (size: 100, align: 1))",
        violation.message()
    );

    let request = Request::without_backtrace(Region::new(8.into(), 16, 4));
    let existing = Request::without_backtrace(Region::new(8.into(), 16, 8));
    let violation = Violation::MisalignedFree { request, existing };
    assert_eq!(
        "freed region (8-24 (size: 16, align: 4)) has different alignment from existing \
         (8-24 (size: 16, align: 8))",
        violation.message()
    );

    let request = Request::without_backtrace(Region::new(150.into(), 50, 1));
    let violation = Violation::MissingFree { request };
    assert_eq!(
        "freed missing region (150-200 (size: 50, align: 1))",
        violation.message()
    );
}

#[test]
fn test_realloc_messages() {
    let violation = Violation::NonCopiedRealloc {
        realloc: Realloc::without_backtrace(
            Some(false),
            Region::new(32.into(), 8, 4),
            Region::new(64.into(), 16, 4),
        ),
    };
    assert_eq!(
        "relocating from (32-40 (size: 8, align: 4)) to (64-80 (size: 16, align: 4)) \
         did not correctly copy the prefixing bytes",
        violation.message()
    );

    let violation = Violation::ReallocNull {
        realloc: ReallocNull::new(None),
    };
    assert_eq!("tried to reallocate a null pointer", violation.message());
}

#[test]
fn test_non_zeroed_message() {
    let alloc = Request::without_backtrace(Region::new(4096.into(), 32, 1));
    let violation = Violation::NonZeroedAlloc { alloc };
    assert_eq!(
        "requested allocation (4096-4128 (size: 32, align: 1)) was not zeroed by the allocator",
        violation.message()
    );
}
