//! The auditing allocator shell and the event it records for each answer the
//! delegate allocator gives.
//!
//! The unsafe hook that installs this shell as a global allocator lives
//! outside the crate; what is here is the decision logic: which event, if
//! any, each allocator call records, given whether tracking was muted and
//! whether the delegate answered null.

use vstd::prelude::*;

use std::alloc::System;

use crate::event::Event;
use crate::machine::Region;
use crate::AllocZeroed;
use crate::Backtrace;
use crate::Realloc;
use crate::ReallocNull;
use crate::Request;

verus! {

#[verifier::external_type_specification]
#[verifier::external_body]
pub struct ExSystem(System);

/// Relies on `std::alloc::System` being a unit struct: constructing the
/// handle is trivial and allocates nothing.
#[verifier::external_body]
fn system_delegate() -> System {
    System
}

/// An auditing allocator: delegates every request to the allocator it wraps
/// and records the answer as an event.
pub struct Allocator<T = System> {
    delegate: T,
}

impl<T> Allocator<T> {
    /// The allocator real work is delegated to.
    pub closed spec fn delegate(&self) -> T {
        self.delegate
    }

    /// Construct an auditing allocator around a custom delegate allocator.
    pub fn new(delegate: T) -> (r: Allocator<T>)
        ensures
            r.delegate() == delegate,
    {
        Allocator { delegate }
    }
}

impl Allocator<System> {
    /// Construct an auditing allocator around the system allocator.
    pub fn system() -> Allocator<System> {
        Allocator { delegate: system_delegate() }
    }
}

/// The event an allocation call records: a failed answer is recorded even
/// while tracking is muted, a successful one only while it is not.
pub fn alloc_event(muted: bool, failed: bool, request: Request) -> (r: Option<Event>)
    ensures
        r == if failed {
            Some(Event::AllocFailed)
        } else if muted {
            None::<Event>
        } else {
            Some(Event::Alloc(request))
        },
{
    if failed {
        Some(Event::AllocFailed)
    } else if muted {
        None
    } else {
        Some(Event::Alloc(request))
    }
}

/// The event a deallocation call records: nothing while tracking is muted.
pub fn dealloc_event(muted: bool, request: Request) -> (r: Option<Event>)
    ensures
        r == if muted {
            None::<Event>
        } else {
            Some(Event::Free(request))
        },
{
    if muted {
        None
    } else {
        Some(Event::Free(request))
    }
}

/// The event a zeroing allocation call records, with the collaborator's claim
/// about whether the granted region was in fact zeroed.
pub fn alloc_zeroed_event(
    muted: bool,
    failed: bool,
    is_zeroed: Option<bool>,
    request: Request,
) -> (r: Option<Event>)
    ensures
        r == if failed {
            Some(Event::AllocZeroedFailed)
        } else if muted {
            None::<Event>
        } else {
            Some(Event::AllocZeroed(AllocZeroed { is_zeroed, request }))
        },
{
    if failed {
        Some(Event::AllocZeroedFailed)
    } else if muted {
        None
    } else {
        Some(Event::AllocZeroed(AllocZeroed { is_zeroed, request }))
    }
}

/// The event a reallocation call records: reallocating an untracked null
/// address is recorded even while tracking is muted; a failed answer leaves
/// the old region in place and is recorded as failed; a successful answer
/// records the released and the granted region with the collaborator's claim
/// about whether the contents were carried over.
pub fn realloc_event(
    muted: bool,
    null_request: bool,
    failed: bool,
    is_relocated: Option<bool>,
    free: Region,
    granted: Region,
    backtrace: Option<Backtrace>,
) -> (r: Option<Event>)
    ensures
        r == if null_request {
            Some(Event::ReallocNull(ReallocNull { backtrace }))
        } else if muted {
            None::<Event>
        } else if failed {
            Some(Event::ReallocFailed)
        } else {
            Some(Event::Realloc(Realloc { is_relocated, free, alloc: granted, backtrace }))
        },
{
    if null_request {
        Some(Event::ReallocNull(ReallocNull { backtrace }))
    } else if muted {
        None
    } else if failed {
        Some(Event::ReallocFailed)
    } else {
        Some(Event::Realloc(Realloc { is_relocated, free, alloc: granted, backtrace }))
    }
}

} // verus!
