//! A single allocator event.

use vstd::prelude::*;

use crate::machine::region_wf;
use crate::machine::Region;
use crate::AllocZeroed;
use crate::Realloc;
use crate::ReallocNull;
use crate::Request;

verus! {

/// Metadata for a single allocation or deallocation request.
#[derive(Debug, Clone, Copy)]
#[non_exhaustive]
pub enum Event {
    /// An allocation.
    Alloc(Request),
    /// A deallocation.
    Free(Request),
    /// A zeroing allocation, with an optional claim about whether the region
    /// was actually zeroed.
    AllocZeroed(AllocZeroed),
    /// A reallocation that moves and resizes memory from one location to
    /// another.
    Realloc(Realloc),
    /// An allocation failed (produced null).
    AllocFailed,
    /// A zeroing allocation that failed (produced null).
    AllocZeroedFailed,
    /// The allocator was asked to reallocate memory it never allocated.
    ReallocNull(ReallocNull),
    /// A reallocation failed (produced null); the previous region is left
    /// unchanged.
    ReallocFailed,
}

/// The region an allocation-class event grants, when it grants one.
pub open spec fn alloc_class_region(e: Event) -> Option<Region> {
    match e {
        Event::Alloc(request) => Some(request.region),
        Event::AllocZeroed(az) => Some(az.request.region),
        _ => None,
    }
}

/// The region a free event releases, when it releases one.
pub open spec fn free_region(e: Event) -> Option<Region> {
    match e {
        Event::Free(request) => Some(request.region),
        _ => None,
    }
}

/// The event records a failed request from the underlying allocator.
pub open spec fn event_is_failed(e: Event) -> bool {
    match e {
        Event::AllocFailed | Event::AllocZeroedFailed | Event::ReallocFailed => true,
        _ => false,
    }
}

/// Every region whose alignment the machine will test carries an alignment of
/// at least one, so the alignment test never divides by zero.
pub open spec fn event_wf(e: Event) -> bool {
    match e {
        Event::Alloc(request) => region_wf(request.region),
        Event::AllocZeroed(az) => region_wf(az.request.region),
        Event::Realloc(re) => region_wf(re.alloc),
        _ => true,
    }
}

impl Event {
    /// Test if this event is an allocation (plain or zeroing) whose granted
    /// region matches the given predicate.
    pub fn is_alloc_with<F: FnOnce(Region) -> bool>(&self, f: F) -> (r: bool)
        requires
            alloc_class_region(*self) matches Some(region) ==> call_requires(f, (region,)),
        ensures
            match alloc_class_region(*self) {
                Some(region) => call_ensures(f, (region,), r),
                None => r == false,
            },
    {
        match self {
            Event::Alloc(request) => f(request.region),
            Event::AllocZeroed(az) => f(az.request.region),
            _ => false,
        }
    }

    /// Test if this event is a deallocation whose released region matches the
    /// given predicate.
    pub fn is_free_with<F: FnOnce(Region) -> bool>(&self, f: F) -> (r: bool)
        requires
            free_region(*self) matches Some(region) ==> call_requires(f, (region,)),
        ensures
            match free_region(*self) {
                Some(region) => call_ensures(f, (region,), r),
                None => r == false,
            },
    {
        match self {
            Event::Free(request) => f(request.region),
            _ => false,
        }
    }

    /// Test if this event is a zeroing allocation that matches the given
    /// predicate.
    pub fn is_alloc_zeroed_with<F: FnOnce(&AllocZeroed) -> bool>(&self, f: F) -> (r: bool)
        requires
            *self matches Event::AllocZeroed(az) ==> call_requires(f, (&az,)),
        ensures
            match *self {
                Event::AllocZeroed(az) => call_ensures(f, (&az,), r),
                _ => r == false,
            },
    {
        match self {
            Event::AllocZeroed(az) => f(az),
            _ => false,
        }
    }

    /// Test if this event is a reallocation that matches the given predicate.
    pub fn is_realloc_with<F: FnOnce(&Realloc) -> bool>(&self, f: F) -> (r: bool)
        requires
            *self matches Event::Realloc(re) ==> call_requires(f, (&re,)),
        ensures
            match *self {
                Event::Realloc(re) => call_ensures(f, (&re,), r),
                _ => r == false,
            },
    {
        match self {
            Event::Realloc(re) => f(re),
            _ => false,
        }
    }

    /// Test if this event records a failed request: one the underlying
    /// allocator answered with null.
    pub fn is_failed(&self) -> (r: bool)
        ensures
            r == event_is_failed(*self),
    {
        match self {
            Event::AllocFailed | Event::AllocZeroedFailed | Event::ReallocFailed => true,
            _ => false,
        }
    }
}

} // verus!
