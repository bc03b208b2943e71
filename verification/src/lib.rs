//! A single-threaded memory-allocation auditor.
//!
//! The crate records every allocation-related request of a bounded
//! measurement window as an [`Event`] in an append-only [`Events`] log, and
//! replays the log through a validating state machine (the [`Machine`]) that
//! reconstructs the set of currently live memory regions and reports every
//! breach of the allocation discipline as a [`Violation`]: double frees,
//! partial frees, mismatched alignment, overlapping allocations, non-zeroed
//! "zeroing" allocations, non-relocated reallocations, and regions still live
//! at the end of the window.
//!
//! The machinery that intercepts real allocator calls and turns them into
//! events lives outside this crate; the auditor only consumes plain values.

use vstd::prelude::*;

pub mod allocator;
mod bt;
pub mod laws;
pub mod event;
pub mod events;
pub mod machine;
pub mod render;
pub mod violation;

pub use crate::allocator::Allocator;
pub use crate::bt::Backtrace;
pub use crate::event::Event;
pub use crate::events::events_wf;
pub use crate::events::validation_of;
pub use crate::events::Events;
pub use crate::machine::Machine;
pub use crate::machine::Region;
pub use crate::violation::Violation;

verus! {

/// The sum of `a` and `b`, saturating at the address-space limit.
pub open spec fn sat_add(a: nat, b: nat) -> nat {
    if a + b > usize::MAX { usize::MAX as nat } else { a + b }
}

/// The difference of `a` and `b`, saturating at zero.
pub open spec fn sat_sub(a: nat, b: nat) -> nat {
    if a >= b { (a - b) as nat } else { 0 }
}

/// A type-erased pointer: an opaque, totally ordered scalar standing for a
/// memory address. It is never dereferenced; the auditor only compares
/// addresses and takes offsets. The inner representation is specifically
/// _not_ a raw pointer, to avoid aliasing the pointers handled by the
/// allocator.
#[derive(Debug, Clone, Copy, Default, PartialEq, Eq, PartialOrd, Ord, Hash, Structural)]
pub struct Pointer(pub usize);

impl Pointer {
    /// The numeric address this pointer stands for.
    pub open spec fn addr(self) -> nat {
        self.0 as nat
    }

    /// Construct a new null pointer.
    pub fn new() -> (r: Self)
        ensures
            r.addr() == 0,
    {
        Pointer(0)
    }

    /// The address itself, as an unsigned integer.
    pub fn value(self) -> (r: usize)
        ensures
            r == self.addr(),
    {
        self.0
    }

    /// Add the given offset to the current pointer, saturating at the top of
    /// the address space.
    pub fn saturating_add(self, n: usize) -> (r: Self)
        ensures
            r.addr() == sat_add(self.addr(), n as nat),
    {
        if self.0 > usize::MAX - n {
            Pointer(usize::MAX)
        } else {
            Pointer(self.0 + n)
        }
    }

    /// Test if the pointer is aligned with the given alignment.
    pub fn is_aligned_with(self, n: usize) -> (r: bool)
        requires
            n >= 1,
        ensures
            r == (self.addr() % n as nat == 0),
    {
        self.0 % n == 0
    }
}

impl From<usize> for Pointer {
    fn from(value: usize) -> (r: Pointer) {
        Pointer(value)
    }
}

impl vstd::std_specs::convert::FromSpecImpl<usize> for Pointer {
    open spec fn obeys_from_spec() -> bool {
        true
    }

    open spec fn from_spec(value: usize) -> Pointer {
        Pointer(value)
    }
}

/// Metadata about an allocation request.
#[derive(Debug, Clone, Copy)]
#[non_exhaustive]
pub struct Request {
    /// The allocated region.
    pub region: Region,
    /// Captured backtrace, if present.
    pub backtrace: Option<Backtrace>,
}

impl Request {
    /// Construct a new request without a backtrace.
    pub fn without_backtrace(region: Region) -> (r: Self)
        ensures
            r.region == region,
            r.backtrace is None,
    {
        Request { region, backtrace: None }
    }
}

/// Description of an allocation that the allocator claims to have zeroed.
#[derive(Debug, Clone, Copy)]
#[non_exhaustive]
pub struct AllocZeroed {
    /// Whether the region was indeed zeroed: `Some(true)` when it was,
    /// `Some(false)` when it was not, `None` when the check was not made.
    pub is_zeroed: Option<bool>,
    /// The region that was allocated.
    pub request: Request,
}

impl AllocZeroed {
    /// Construct a new zeroing allocation.
    pub fn new(is_zeroed: Option<bool>, request: Request) -> (r: Self)
        ensures
            r == (AllocZeroed { is_zeroed, request }),
    {
        AllocZeroed { is_zeroed, request }
    }
}

/// Description of a reallocation: one region is released and another granted,
/// with a claim about whether the old contents were carried over.
#[derive(Debug, Clone, Copy)]
#[non_exhaustive]
pub struct Realloc {
    /// Whether the shared prefix of the old region was faithfully copied to
    /// the new one: `Some(false)` when it was not, `None` when the check was
    /// not made.
    pub is_relocated: Option<bool>,
    /// The region that was freed.
    pub free: Region,
    /// The region that was allocated.
    pub alloc: Region,
    /// Backtrace of the reallocation request, if present.
    pub backtrace: Option<Backtrace>,
}

impl Realloc {
    /// Construct a new reallocation without a backtrace.
    pub fn without_backtrace(is_relocated: Option<bool>, free: Region, alloc: Region) -> (r: Self)
        ensures
            r == (Realloc { is_relocated, free, alloc, backtrace: None }),
    {
        Realloc { is_relocated, free, alloc, backtrace: None }
    }

    /// Construct a new reallocation.
    pub fn new(
        is_relocated: Option<bool>,
        free: Region,
        alloc: Region,
        backtrace: Option<Backtrace>,
    ) -> (r: Self)
        ensures
            r == (Realloc { is_relocated, free, alloc, backtrace }),
    {
        Realloc { is_relocated, free, alloc, backtrace }
    }

    /// The released half of the reallocation, as a request.
    pub(crate) fn free(&self) -> (r: Request)
        ensures
            r == (Request { region: self.free, backtrace: self.backtrace }),
    {
        Request { region: self.free, backtrace: self.backtrace }
    }

    /// The granted half of the reallocation, as a request.
    pub(crate) fn alloc_request(&self) -> (r: Request)
        ensures
            r == (Request { region: self.alloc, backtrace: self.backtrace }),
    {
        Request { region: self.alloc, backtrace: self.backtrace }
    }
}

/// Description of a reallocation requested against an address that was never
/// tracked as allocated. These are always violations.
#[derive(Debug, Clone, Copy)]
#[non_exhaustive]
pub struct ReallocNull {
    /// Backtrace of the reallocation request, if present.
    pub backtrace: Option<Backtrace>,
}

impl ReallocNull {
    /// Construct a new null reallocation.
    pub fn new(backtrace: Option<Backtrace>) -> (r: Self)
        ensures
            r == (ReallocNull { backtrace }),
    {
        ReallocNull { backtrace }
    }
}

/// A snapshot of the events one measurement window collected.
pub struct Snapshot {
    /// Snapshot of all collected events.
    pub events: Events,
}

impl Snapshot {
    /// Validate the snapshot: replay its events and append every violation
    /// found, leaks included, to `errors`.
    ///
    /// See [`Events::validate`] for the full account.
    pub fn validate(&self, errors: &mut Vec<Violation>)
        requires
            events_wf(self.events@),
        ensures
            final(errors)@ == old(errors)@ + validation_of(self.events@),
    {
        self.events.validate(errors);
    }
}

/// The state one auditing context carries: the event log of the current
/// measurement window. Each single-threaded context owns one `State`; the
/// collaborator that intercepts allocator calls appends to it while tracking
/// is enabled.
pub struct State {
    /// Events collected.
    pub events: Events,
}

impl State {
    /// Construct a fresh auditing state with an empty event log.
    pub fn new() -> (r: Self)
        ensures
            r.events@ == Seq::<Event>::empty(),
            r.events.room() == 0,
    {
        State { events: Events::new() }
    }

    /// Reserve room for at least `cap` more events.
    ///
    /// See [`Events::reserve`] for the full account.
    pub fn reserve(&mut self, cap: usize)
        ensures
            final(self).events@ == old(self).events@,
            final(self).events.room() >= old(self).events@.len() + cap,
            final(self).events.room() >= old(self).events.room(),
    {
        self.events.reserve(cap);
    }

    /// Clear the collected events, keeping the backing storage for the next
    /// window.
    ///
    /// See [`Events::clear`] for the full account.
    pub fn clear(&mut self)
        ensures
            final(self).events@ == Seq::<Event>::empty(),
            final(self).events.room() == old(self).events.room(),
    {
        self.events.clear();
    }

    /// Validate the collected events and append every violation found, leaks
    /// included, to `errors`.
    ///
    /// See [`Events::validate`] for the full account.
    pub fn validate(&self, errors: &mut Vec<Violation>)
        requires
            events_wf(self.events@),
        ensures
            final(errors)@ == old(errors)@ + validation_of(self.events@),
    {
        self.events.validate(errors);
    }
}

} // verus!
