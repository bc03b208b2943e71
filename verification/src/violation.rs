//! The closed taxonomy of invariant breaches the machine can report.

use vstd::prelude::*;

use crate::machine::spec_region_message;
use crate::machine::Region;
use crate::Realloc;
use crate::ReallocNull;
use crate::Request;

verus! {

/// The diagnostic for a violation: which invariant was breached, with the
/// bounds, size and alignment of the region or regions involved.
pub open spec fn spec_violation_message(v: Violation) -> Seq<char> {
    match v {
        Violation::ConflictingAlloc { request, existing } => "requested allocation ("@
            + spec_region_message(request.region) + ") overlaps with existing ("@
            + spec_region_message(existing.region) + ")"@,
        Violation::NonZeroedAlloc { alloc } => "requested allocation ("@ + spec_region_message(
            alloc.region,
        ) + ") was not zeroed by the allocator"@,
        Violation::NonCopiedRealloc { realloc } => "relocating from ("@ + spec_region_message(
            realloc.free,
        ) + ") to ("@ + spec_region_message(realloc.alloc)
            + ") did not correctly copy the prefixing bytes"@,
        Violation::ReallocNull { realloc } => "tried to reallocate a null pointer"@,
        Violation::MisalignedAlloc { alloc } => "allocated region ("@ + spec_region_message(
            alloc.region,
        ) + ") is misaligned"@,
        Violation::IncompleteFree { request, existing } => "freed ("@ + spec_region_message(
            request.region,
        ) + ") only part of existing region ("@ + spec_region_message(existing.region) + ")"@,
        Violation::MisalignedFree { request, existing } => "freed region ("@ + spec_region_message(
            request.region,
        ) + ") has different alignment from existing ("@ + spec_region_message(existing.region)
            + ")"@,
        Violation::MissingFree { request } => "freed missing region ("@ + spec_region_message(
            request.region,
        ) + ")"@,
        Violation::Leaked { alloc } => "dangling region ("@ + spec_region_message(alloc.region)
            + ")"@,
    }
}

/// A single breach of the allocation discipline, as found while replaying an
/// event log. A violation is pure data: producing one never mutates the
/// machine beyond what the triggering event would have done had it succeeded.
#[derive(Debug, Clone, Copy)]
#[allow(inconsistent_fields)]
#[non_exhaustive]
pub enum Violation {
    /// An allocated region overlaps at least one existing live region.
    ConflictingAlloc {
        /// The allocated region.
        request: Request,
        /// The existing region.
        existing: Request,
    },
    /// A region the allocator claimed to zero was not zeroed.
    NonZeroedAlloc {
        /// The allocated region.
        alloc: Request,
    },
    /// A reallocated region was not copied appropriately: the shared prefix
    /// of the freed and the allocated region does not match.
    NonCopiedRealloc {
        /// The reallocation.
        realloc: Realloc,
    },
    /// The allocator was asked to reallocate an address it never allocated.
    ReallocNull {
        /// The null reallocation.
        realloc: ReallocNull,
    },
    /// An allocated region was not aligned as requested.
    MisalignedAlloc {
        /// The allocated region.
        alloc: Request,
    },
    /// A freed region covers only part of an existing live region: a free
    /// must exactly cover a previously granted region.
    IncompleteFree {
        /// The freed region.
        request: Request,
        /// The existing region.
        existing: Request,
    },
    /// A freed region carries alignment metadata different from the live
    /// region it releases.
    MisalignedFree {
        /// The freed region.
        request: Request,
        /// The existing region.
        existing: Request,
    },
    /// A freed region was not live at the time it was freed.
    MissingFree {
        /// The freed region.
        request: Request,
    },
    /// A region was leaked: allocated but still live at the end of the
    /// measurement window.
    Leaked {
        /// The leaked region.
        alloc: Request,
    },
}

impl Violation {
    /// Test if this violation reports a leaked region that matches the given
    /// predicate.
    pub fn is_leaked_with<F: FnOnce(Region) -> bool>(&self, f: F) -> (r: bool)
        requires
            *self matches Violation::Leaked { alloc } ==> call_requires(f, (alloc.region,)),
        ensures
            match *self {
                Violation::Leaked { alloc } => call_ensures(f, (alloc.region,), r),
                _ => r == false,
            },
    {
        match self {
            Violation::Leaked { alloc } => f(alloc.region),
            _ => false,
        }
    }

    /// Render the violation as a human-readable diagnostic, naming the breach
    /// and the bounds, size and alignment of the regions involved.
    pub fn message(&self) -> (r: String)
        ensures
            r@ == spec_violation_message(*self),
    {
        let mut out = String::new();
        match self {
            Violation::ConflictingAlloc { request, existing } => {
                out.append("requested allocation (");
                out.append(request.region.message().as_str());
                out.append(") overlaps with existing (");
                out.append(existing.region.message().as_str());
                out.append(")");
            },
            Violation::NonZeroedAlloc { alloc } => {
                out.append("requested allocation (");
                out.append(alloc.region.message().as_str());
                out.append(") was not zeroed by the allocator");
            },
            Violation::NonCopiedRealloc { realloc } => {
                out.append("relocating from (");
                out.append(realloc.free.message().as_str());
                out.append(") to (");
                out.append(realloc.alloc.message().as_str());
                out.append(") did not correctly copy the prefixing bytes");
            },
            Violation::ReallocNull { realloc: _ } => {
                out.append("tried to reallocate a null pointer");
            },
            Violation::MisalignedAlloc { alloc } => {
                out.append("allocated region (");
                out.append(alloc.region.message().as_str());
                out.append(") is misaligned");
            },
            Violation::IncompleteFree { request, existing } => {
                out.append("freed (");
                out.append(request.region.message().as_str());
                out.append(") only part of existing region (");
                out.append(existing.region.message().as_str());
                out.append(")");
            },
            Violation::MisalignedFree { request, existing } => {
                out.append("freed region (");
                out.append(request.region.message().as_str());
                out.append(") has different alignment from existing (");
                out.append(existing.region.message().as_str());
                out.append(")");
            },
            Violation::MissingFree { request } => {
                out.append("freed missing region (");
                out.append(request.region.message().as_str());
                out.append(")");
            },
            Violation::Leaked { alloc } => {
                out.append("dangling region (");
                out.append(alloc.region.message().as_str());
                out.append(")");
            },
        }
        proof {
            assert(out@ =~= spec_violation_message(*self));
        }
        out
    }
}

} // verus!
