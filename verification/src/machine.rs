//! The validating state machine that replays an allocation history.

use vstd::prelude::*;

use crate::event::event_wf;
use crate::event::Event;
use crate::render::push_decimal;
use crate::render::spec_decimal;
use crate::sat_add;
use crate::sat_sub;
use crate::violation::Violation;
use crate::Pointer;
use crate::Request;

verus! {

/// A memory region: its location in memory `ptr`, its `size` and alignment
/// `align`.
#[derive(Debug, Clone, Copy, PartialEq, Eq, PartialOrd, Ord, Hash, Structural)]
pub struct Region {
    /// The pointer of the allocation.
    pub ptr: Pointer,
    /// The size of the allocation.
    pub size: usize,
    /// The alignment of the allocation.
    pub align: usize,
}

/// `a`'s span `[a.ptr, a.ptr + a.size)` contains `b`'s address. The end of
/// the span saturates at the top of the address space.
pub open spec fn region_covers(a: Region, b: Region) -> bool {
    a.ptr.addr() <= b.ptr.addr() && b.ptr.addr() < sat_add(a.ptr.addr(), a.size as nat)
}

/// Two regions overlap when one's address falls within the other's span.
pub open spec fn regions_overlap(a: Region, b: Region) -> bool {
    region_covers(a, b) || region_covers(b, a)
}

/// Two regions are the same when address and size agree; alignment may
/// legitimately differ between an allocation and the free that answers it.
pub open spec fn same_region(a: Region, b: Region) -> bool {
    a.ptr.addr() == b.ptr.addr() && a.size == b.size
}

/// The region's address is a multiple of its stated alignment.
pub open spec fn region_aligned(r: Region) -> bool {
    r.ptr.addr() % r.align as nat == 0
}

/// The region carries an alignment the machine can test against: alignments
/// are at least one, so the alignment test never divides by zero.
pub open spec fn region_wf(r: Region) -> bool {
    r.align >= 1
}

impl Region {
    /// Construct a new region.
    pub fn new(ptr: Pointer, size: usize, align: usize) -> (r: Self)
        ensures
            r == (Region { ptr, size, align }),
    {
        Region { ptr, size, align }
    }

    /// Test if this region's span contains the other region's address.
    pub fn overlaps(self, other: Self) -> (r: bool)
        ensures
            r == region_covers(self, other),
    {
        self.ptr.value() <= other.ptr.value()
            && other.ptr.value() < self.ptr.saturating_add(self.size).value()
    }

    /// Test if regions are the same (minus alignment).
    pub fn is_same_region_as(self, other: Self) -> (r: bool)
        ensures
            r == same_region(self, other),
    {
        self.ptr.value() == other.ptr.value() && self.size == other.size
    }

    /// Render the region for a diagnostic: its bounds, size and alignment.
    pub fn message(self) -> (r: String)
        ensures
            r@ == spec_region_message(self),
    {
        let mut out = String::new();
        push_decimal(&mut out, self.ptr.value());
        out.append("-");
        push_decimal(&mut out, self.ptr.saturating_add(self.size).value());
        out.append(" (size: ");
        push_decimal(&mut out, self.size);
        out.append(", align: ");
        push_decimal(&mut out, self.align);
        out.append(")");
        proof {
            assert(out@ =~= spec_region_message(self));
        }
        out
    }
}

/// The rendering of a region: its bounds followed by its size and alignment.
pub open spec fn spec_region_message(r: Region) -> Seq<char> {
    spec_decimal(r.ptr.addr()) + "-"@ + spec_decimal(sat_add(r.ptr.addr(), r.size as nat))
        + " (size: "@ + spec_decimal(r.size as nat) + ", align: "@ + spec_decimal(r.align as nat)
        + ")"@
}

/// The live set is strictly sorted by address, so every address keys at most
/// one live region.
pub open spec fn live_sorted(live: Seq<Request>) -> bool {
    forall|i: int, j: int|
        0 <= i < j < live.len() ==> live[i].region.ptr.addr() < live[j].region.ptr.addr()
}

/// Some live region overlaps `r`.
pub open spec fn has_overlap(live: Seq<Request>, r: Region) -> bool {
    exists|i: int| 0 <= i < live.len() && regions_overlap(live[i].region, r)
}

/// The lowest index of a live region that overlaps `r`.
pub open spec fn first_overlap_idx(live: Seq<Request>, r: Region) -> int {
    choose|i: int|
        0 <= i < live.len() && regions_overlap(live[i].region, r) && (forall|j: int|
            0 <= j < i ==> !regions_overlap(live[j].region, r))
}

/// Some live region is keyed at address `addr`.
pub open spec fn has_addr(live: Seq<Request>, addr: nat) -> bool {
    exists|i: int| 0 <= i < live.len() && live[i].region.ptr.addr() == addr
}

/// The index of the live region keyed at `addr`. Unique while the live set is
/// sorted.
pub open spec fn addr_idx(live: Seq<Request>, addr: nat) -> int {
    choose|i: int| 0 <= i < live.len() && live[i].region.ptr.addr() == addr
}

/// `i` splits the sorted live set into the entries with addresses below
/// `addr` and the entries with addresses at or above it.
pub open spec fn is_insert_pos(live: Seq<Request>, addr: nat, i: int) -> bool {
    0 <= i <= live.len() && (forall|j: int|
        0 <= j < i ==> live[j].region.ptr.addr() < addr) && (forall|j: int|
        i <= j < live.len() ==> live[j].region.ptr.addr() >= addr)
}

/// The position at which a region with address `addr` stands, or would be
/// inserted to keep the live set sorted.
pub open spec fn insert_pos(live: Seq<Request>, addr: nat) -> int {
    choose|i: int| is_insert_pos(live, addr, i)
}

/// The live set after inserting `req` keyed by its address. An existing entry
/// at the same address is replaced, as in any map keyed by address; the
/// machine only reaches that case for zero-sized regions, since any other
/// region at an equal address would already have been reported as an overlap.
pub open spec fn live_insert(live: Seq<Request>, req: Request) -> Seq<Request> {
    let addr = req.region.ptr.addr();
    if has_addr(live, addr) {
        live.update(addr_idx(live, addr), req)
    } else {
        live.insert(insert_pos(live, addr), req)
    }
}

/// One allocation folded into the machine state `(live, mem)`: the granted
/// region must be aligned and must not overlap any live region; it is then
/// recorded live and its size added to the memory in use.
pub open spec fn spec_alloc(live: Seq<Request>, mem: nat, request: Request) -> (Seq<Request>, nat, Result<(), Violation>) {
    if !region_aligned(request.region) {
        (live, mem, Err(Violation::MisalignedAlloc { alloc: request }))
    } else if has_overlap(live, request.region) {
        (
            live,
            mem,
            Err(Violation::ConflictingAlloc {
                request,
                existing: live[first_overlap_idx(live, request.region)],
            }),
        )
    } else {
        (live_insert(live, request), sat_add(mem, request.region.size as nat), Ok(()))
    }
}

/// One free folded into the machine state `(live, mem)`: the released region
/// must be live at exactly the freed address, with the same size and the same
/// alignment; it is then removed and its size subtracted from the memory in
/// use.
pub open spec fn spec_free(live: Seq<Request>, mem: nat, request: Request) -> (Seq<Request>, nat, Result<(), Violation>) {
    let addr = request.region.ptr.addr();
    if !has_addr(live, addr) {
        (live, mem, Err(Violation::MissingFree { request }))
    } else {
        let existing = live[addr_idx(live, addr)];
        if !same_region(existing.region, request.region) {
            (live, mem, Err(Violation::IncompleteFree { request, existing }))
        } else if existing.region.align != request.region.align {
            (live, mem, Err(Violation::MisalignedFree { request, existing }))
        } else {
            (
                live.remove(addr_idx(live, addr)),
                sat_sub(mem, existing.region.size as nat),
                Ok(()),
            )
        }
    }
}

/// One event folded into the machine state `(live, mem)`: the transition
/// relation of the validating machine. A zeroing allocation known not to be
/// zeroed, a reallocation known not to be relocated, and a reallocation of an
/// untracked address fail outright; failed allocator answers are inert; a
/// reallocation otherwise frees its old region and then allocates its new
/// one, keeping whatever the free changed even when the allocation then
/// fails.
pub open spec fn spec_step(live: Seq<Request>, mem: nat, event: Event) -> (Seq<Request>, nat, Result<(), Violation>) {
    match event {
        Event::Alloc(request) => spec_alloc(live, mem, request),
        Event::Free(request) => spec_free(live, mem, request),
        Event::AllocZeroed(az) => if az.is_zeroed == Some(false) {
            (live, mem, Err(Violation::NonZeroedAlloc { alloc: az.request }))
        } else {
            spec_alloc(live, mem, az.request)
        },
        Event::Realloc(re) => if re.is_relocated == Some(false) {
            (live, mem, Err(Violation::NonCopiedRealloc { realloc: re }))
        } else {
            let freed = spec_free(
                live,
                mem,
                Request { region: re.free, backtrace: re.backtrace },
            );
            if freed.2 is Err {
                freed
            } else {
                spec_alloc(
                    freed.0,
                    freed.1,
                    Request { region: re.alloc, backtrace: re.backtrace },
                )
            }
        },
        Event::ReallocNull(rn) => (live, mem, Err(Violation::ReallocNull { realloc: rn })),
        Event::AllocFailed | Event::AllocZeroedFailed | Event::ReallocFailed => (live, mem, Ok(())),
    }
}

/// The validating machine: replays an allocation history and reports each
/// breach of the allocation discipline.
pub struct Machine {
    /// Live memory regions, sorted by address.
    regions: Vec<Request>,
    /// Memory currently in use according to the replayed allocations.
    memory_used: usize,
}

impl Default for Machine {
    /// A fresh machine: no live regions, no memory in use.
    fn default() -> (r: Self)
        ensures
            r.live() == Seq::<Request>::empty(),
            r.mem() == 0,
            r.wf(),
    {
        Machine { regions: Vec::new(), memory_used: 0 }
    }
}

impl Machine {
    /// The live regions, in address order.
    pub closed spec fn live(&self) -> Seq<Request> {
        self.regions@
    }

    /// The memory currently in use according to the replayed allocations.
    pub closed spec fn mem(&self) -> nat {
        self.memory_used as nat
    }

    /// Current memory in use according to the replayed allocations.
    pub fn memory_used(&self) -> (r: usize)
        ensures
            r == self.mem(),
    {
        self.memory_used
    }

    /// The live set is sorted by address. Holds for a fresh machine and is
    /// preserved by every event.
    pub open spec fn wf(&self) -> bool {
        live_sorted(self.live())
    }

    /// Push an event into the machine, following the transition relation
    /// [`spec_step`].
    pub fn push(&mut self, event: &Event) -> (r: Result<(), Violation>)
        requires
            old(self).wf(),
            event_wf(*event),
        ensures
            final(self).wf(),
            (final(self).live(), final(self).mem(), r) == spec_step(
                old(self).live(),
                old(self).mem(),
                *event,
            ),
    {
        match event {
            Event::Alloc(request) => self.handle_alloc(request),
            Event::Free(request) => self.free(request),
            Event::AllocZeroed(az) => {
                if matches!(az.is_zeroed, Some(false)) {
                    return Err(Violation::NonZeroedAlloc { alloc: az.request });
                }
                self.handle_alloc(&az.request)
            },
            Event::Realloc(re) => {
                if matches!(re.is_relocated, Some(false)) {
                    return Err(Violation::NonCopiedRealloc { realloc: *re });
                }
                match self.free(&re.free()) {
                    Err(v) => Err(v),
                    Ok(()) => self.handle_alloc(&re.alloc_request()),
                }
            },
            Event::ReallocNull(rn) => Err(Violation::ReallocNull { realloc: *rn }),
            Event::AllocFailed => Ok(()),
            Event::AllocZeroedFailed => Ok(()),
            Event::ReallocFailed => Ok(()),
        }
    }

    /// Process an allocation, following [`spec_alloc`].
    fn handle_alloc(&mut self, request: &Request) -> (r: Result<(), Violation>)
        requires
            old(self).wf(),
            region_wf(request.region),
        ensures
            final(self).wf(),
            (final(self).live(), final(self).mem(), r) == spec_alloc(
                old(self).live(),
                old(self).mem(),
                *request,
            ),
    {
        if !request.region.ptr.is_aligned_with(request.region.align) {
            return Err(Violation::MisalignedAlloc { alloc: *request });
        }

        if let Some(i) = find_region_overlaps(&self.regions, request.region) {
            return Err(
                Violation::ConflictingAlloc { request: *request, existing: self.regions[i] },
            );
        }

        self.memory_used = self.memory_used.saturating_add(request.region.size);

        let ghost live0 = self.regions@;
        let target = request.region.ptr.value();
        let mut pos: usize = 0;
        while pos < self.regions.len() && self.regions[pos].region.ptr.value() < target
            invariant
                pos <= self.regions@.len(),
                self.regions@ == live0,
                target == request.region.ptr.addr(),
                forall|j: int| 0 <= j < pos ==> live0[j].region.ptr.addr() < target as nat,
            decreases self.regions@.len() - pos,
        {
            pos = pos + 1;
        }

        proof {
            lemma_insert_pos_is(live0, request.region.ptr.addr(), pos as int);
        }

        if pos < self.regions.len() && self.regions[pos].region.ptr.value() == target {
            // An entry is already keyed at this address (necessarily a
            // zero-sized region, or it would have overlapped): replace it.
            proof {
                lemma_addr_idx_is(live0, request.region.ptr.addr(), pos as int);
            }
            self.regions.remove(pos);
            self.regions.insert(pos, *request);
            proof {
                assert(self.regions@ =~= live0.update(pos as int, *request));
                lemma_sorted_update(live0, pos as int, *request);
            }
        } else {
            proof {
                assert(!has_addr(live0, request.region.ptr.addr())) by {
                    assert forall|i: int|
                        0 <= i < live0.len() implies live0[i].region.ptr.addr()
                        != request.region.ptr.addr() by {
                        if i >= pos {
                            assert(live0[i].region.ptr.addr() >= live0[pos as int].region.ptr.addr());
                        }
                    }
                }
            }
            self.regions.insert(pos, *request);
            proof {
                lemma_sorted_insert(live0, pos as int, *request);
            }
        }
        Ok(())
    }

    /// Process a free, following [`spec_free`].
    fn free(&mut self, request: &Request) -> (r: Result<(), Violation>)
        requires
            old(self).wf(),
        ensures
            final(self).wf(),
            (final(self).live(), final(self).mem(), r) == spec_free(
                old(self).live(),
                old(self).mem(),
                *request,
            ),
    {
        let ghost live0 = self.regions@;
        let target = request.region.ptr.value();
        let mut i: usize = 0;
        while i < self.regions.len() && self.regions[i].region.ptr.value() != target
            invariant
                i <= self.regions@.len(),
                self.regions@ == live0,
                target == request.region.ptr.addr(),
                forall|j: int| 0 <= j < i ==> live0[j].region.ptr.addr() != target as nat,
            decreases self.regions@.len() - i,
        {
            i = i + 1;
        }

        if i == self.regions.len() {
            assert(!has_addr(live0, request.region.ptr.addr()));
            return Err(Violation::MissingFree { request: *request });
        }

        proof {
            lemma_addr_idx_is(live0, request.region.ptr.addr(), i as int);
        }
        let existing = self.regions[i];

        if !existing.region.is_same_region_as(request.region) {
            return Err(Violation::IncompleteFree { request: *request, existing });
        }

        if existing.region.align != request.region.align {
            return Err(Violation::MisalignedFree { request: *request, existing });
        }

        self.regions.remove(i);
        self.memory_used = self.memory_used.saturating_sub(existing.region.size);
        proof {
            lemma_sorted_remove(live0, i as int);
        }
        Ok(())
    }

    /// All trailing regions: the ones still live, in address order. After the
    /// last event of a window these are precisely the leaked regions.
    pub fn trailing_regions(&self) -> (r: Vec<Request>)
        ensures
            r@ == self.live(),
    {
        let mut out: Vec<Request> = Vec::new();
        let mut i: usize = 0;
        while i < self.regions.len()
            invariant
                i <= self.regions@.len(),
                out@ == self.regions@.take(i as int),
            decreases self.regions@.len() - i,
        {
            out.push(self.regions[i]);
            proof {
                assert(out@ =~= self.regions@.take(i as int + 1));
            }
            i = i + 1;
        }
        proof {
            assert(self.regions@.take(self.regions@.len() as int) =~= self.regions@);
        }
        out
    }
}

/// Find the live region with the lowest index that overlaps `needle`.
fn find_region_overlaps(regions: &Vec<Request>, needle: Region) -> (r: Option<usize>)
    ensures
        match r {
            Some(i) => has_overlap(regions@, needle) && i == first_overlap_idx(regions@, needle)
                && i < regions@.len(),
            None => !has_overlap(regions@, needle),
        },
{
    let mut i: usize = 0;
    while i < regions.len()
        invariant
            i <= regions@.len(),
            forall|j: int| 0 <= j < i ==> !regions_overlap(regions@[j].region, needle),
        decreases regions@.len() - i,
    {
        let req = regions[i];
        if req.region.overlaps(needle) || needle.overlaps(req.region) {
            proof {
                lemma_first_overlap_idx_is(regions@, needle, i as int);
            }
            return Some(i);
        }
        i = i + 1;
    }
    None
}

/// The scan that stopped at `i` found the first overlap: `i` is what
/// [`first_overlap_idx`] denotes.
pub(crate) proof fn lemma_first_overlap_idx_is(live: Seq<Request>, r: Region, i: int)
    requires
        0 <= i < live.len(),
        regions_overlap(live[i].region, r),
        forall|j: int| 0 <= j < i ==> !regions_overlap(live[j].region, r),
    ensures
        has_overlap(live, r),
        first_overlap_idx(live, r) == i,
{
    assert(has_overlap(live, r));
    let w = first_overlap_idx(live, r);
    assert(0 <= w < live.len() && regions_overlap(live[w].region, r) && (forall|j: int|
        0 <= j < w ==> !regions_overlap(live[j].region, r))) by {
        assert(0 <= i < live.len() && regions_overlap(live[i].region, r) && (forall|j: int|
            0 <= j < i ==> !regions_overlap(live[j].region, r)));
    }
}

/// In a sorted live set, the entry found at `i` with a matching address is
/// the entry [`addr_idx`] denotes.
pub(crate) proof fn lemma_addr_idx_is(live: Seq<Request>, addr: nat, i: int)
    requires
        live_sorted(live),
        0 <= i < live.len(),
        live[i].region.ptr.addr() == addr,
    ensures
        has_addr(live, addr),
        addr_idx(live, addr) == i,
{
    assert(has_addr(live, addr));
    let w = addr_idx(live, addr);
    assert(0 <= w < live.len() && live[w].region.ptr.addr() == addr);
    if w < i {
        assert(live[w].region.ptr.addr() < live[i].region.ptr.addr());
    }
    if i < w {
        assert(live[i].region.ptr.addr() < live[w].region.ptr.addr());
    }
}

/// In a sorted live set, the scan that stopped at `pos` found the insertion
/// position [`insert_pos`] denotes.
pub(crate) proof fn lemma_insert_pos_is(live: Seq<Request>, addr: nat, pos: int)
    requires
        live_sorted(live),
        0 <= pos <= live.len(),
        forall|j: int| 0 <= j < pos ==> live[j].region.ptr.addr() < addr,
        pos < live.len() ==> live[pos].region.ptr.addr() >= addr,
    ensures
        insert_pos(live, addr) == pos,
{
    assert forall|j: int| pos <= j < live.len() implies live[j].region.ptr.addr() >= addr by {
        if j > pos {
            assert(live[pos].region.ptr.addr() < live[j].region.ptr.addr());
        }
    }
    assert(is_insert_pos(live, addr, pos));
    let w = insert_pos(live, addr);
    assert(is_insert_pos(live, addr, w));
    if w < pos {
        assert(live[w].region.ptr.addr() < addr);
        assert(live[w].region.ptr.addr() >= addr);
    }
    if pos < w {
        assert(live[pos].region.ptr.addr() < addr);
        assert(live[pos].region.ptr.addr() >= addr);
    }
}

/// Replacing an entry by one with the same address keeps the live set sorted.
pub(crate) proof fn lemma_sorted_update(live: Seq<Request>, i: int, req: Request)
    requires
        live_sorted(live),
        0 <= i < live.len(),
        live[i].region.ptr.addr() == req.region.ptr.addr(),
    ensures
        live_sorted(live.update(i, req)),
{
}

/// Inserting at the position that splits smaller from not-smaller addresses
/// keeps the live set sorted.
pub(crate) proof fn lemma_sorted_insert(live: Seq<Request>, pos: int, req: Request)
    requires
        live_sorted(live),
        0 <= pos <= live.len(),
        forall|j: int| 0 <= j < pos ==> live[j].region.ptr.addr() < req.region.ptr.addr(),
        forall|j: int| pos <= j < live.len() ==> live[j].region.ptr.addr() > req.region.ptr.addr(),
    ensures
        live_sorted(live.insert(pos, req)),
{
    let live2 = live.insert(pos, req);
    assert forall|i: int, j: int|
        0 <= i < j < live2.len() implies live2[i].region.ptr.addr()
        < live2[j].region.ptr.addr() by {
        if i < pos {
            assert(live2[i] == live[i]);
        } else if i > pos {
            assert(live2[i] == live[i - 1]);
        }
        if j < pos {
            assert(live2[j] == live[j]);
        } else if j > pos {
            assert(live2[j] == live[j - 1]);
        }
    }
}

/// Removing an entry keeps the live set sorted.
pub(crate) proof fn lemma_sorted_remove(live: Seq<Request>, i: int)
    requires
        live_sorted(live),
        0 <= i < live.len(),
    ensures
        live_sorted(live.remove(i)),
{
    let live2 = live.remove(i);
    assert forall|p: int, q: int|
        0 <= p < q < live2.len() implies live2[p].region.ptr.addr()
        < live2[q].region.ptr.addr() by {
        if p < i {
            assert(live2[p] == live[p]);
        } else {
            assert(live2[p] == live[p + 1]);
        }
        if q < i {
            assert(live2[q] == live[q]);
        } else {
            assert(live2[q] == live[q + 1]);
        }
    }
}

/// Among the live regions that overlap `r`, some index is the lowest.
proof fn lemma_least_overlap(live: Seq<Request>, r: Region, k: int)
    requires
        0 <= k < live.len(),
        regions_overlap(live[k].region, r),
    ensures
        exists|i: int|
            0 <= i < live.len() && regions_overlap(live[i].region, r) && (forall|j: int|
                0 <= j < i ==> !regions_overlap(live[j].region, r)),
    decreases k,
{
    if forall|j: int| 0 <= j < k ==> !regions_overlap(#[trigger] live[j].region, r) {
        assert(0 <= k < live.len() && regions_overlap(live[k].region, r) && (forall|j: int|
            0 <= j < k ==> !regions_overlap(live[j].region, r)));
    } else {
        let j = choose|j: int| 0 <= j < k && regions_overlap(#[trigger] live[j].region, r);
        lemma_least_overlap(live, r, j);
    }
}

/// When some live region overlaps `r`, [`first_overlap_idx`] denotes a live
/// region that overlaps `r` and is the lowest-addressed one to do so.
pub proof fn lemma_first_overlap_exists(live: Seq<Request>, r: Region)
    requires
        has_overlap(live, r),
    ensures
        0 <= first_overlap_idx(live, r) < live.len(),
        regions_overlap(live[first_overlap_idx(live, r)].region, r),
        forall|j: int|
            0 <= j < first_overlap_idx(live, r) ==> !regions_overlap(#[trigger] live[j].region, r),
{
    let k = choose|i: int| 0 <= i < live.len() && regions_overlap(#[trigger] live[i].region, r);
    lemma_least_overlap(live, r, k);
}

/// In a sorted live set there is a position that splits the addresses below
/// `addr` from those at or above it.
pub(crate) proof fn lemma_insert_pos_exists(live: Seq<Request>, addr: nat)
    requires
        live_sorted(live),
    ensures
        exists|i: int| is_insert_pos(live, addr, i),
    decreases live.len(),
{
    if live.len() == 0 {
        assert(is_insert_pos(live, addr, 0));
    } else if live.last().region.ptr.addr() < addr {
        assert(is_insert_pos(live, addr, live.len() as int)) by {
            assert forall|j: int| 0 <= j < live.len() implies live[j].region.ptr.addr() < addr by {
                if j < live.len() - 1 {
                    assert(live[j].region.ptr.addr() < live[live.len() - 1].region.ptr.addr());
                }
            }
        }
    } else {
        let front = live.drop_last();
        assert(live_sorted(front));
        lemma_insert_pos_exists(front, addr);
        let w = choose|i: int| is_insert_pos(front, addr, i);
        assert(is_insert_pos(front, addr, w));
        assert forall|j: int| 0 <= j < w implies live[j].region.ptr.addr() < addr by {
            assert(live[j] == front[j]);
        }
        assert forall|j: int| w <= j < live.len() implies live[j].region.ptr.addr() >= addr by {
            if j < live.len() - 1 {
                assert(live[j] == front[j]);
                assert(front[j].region.ptr.addr() >= addr);
            } else {
                assert(live[j] == live.last());
            }
        }
        assert(is_insert_pos(live, addr, w));
    }
}

/// An allocation keeps the live set sorted.
pub proof fn lemma_alloc_sorted(live: Seq<Request>, mem: nat, request: Request)
    requires
        live_sorted(live),
    ensures
        live_sorted(spec_alloc(live, mem, request).0),
{
    if region_aligned(request.region) && !has_overlap(live, request.region) {
        let addr = request.region.ptr.addr();
        if has_addr(live, addr) {
            let w = addr_idx(live, addr);
            assert(0 <= w < live.len() && live[w].region.ptr.addr() == addr);
            lemma_sorted_update(live, w, request);
        } else {
            lemma_insert_pos_exists(live, addr);
            let w = insert_pos(live, addr);
            assert(is_insert_pos(live, addr, w));
            assert forall|j: int| w <= j < live.len() implies live[j].region.ptr.addr() > addr by {
                if live[j].region.ptr.addr() == addr {
                    assert(has_addr(live, addr));
                }
            }
            lemma_sorted_insert(live, w, request);
        }
    }
}

/// A free keeps the live set sorted.
pub proof fn lemma_free_sorted(live: Seq<Request>, mem: nat, request: Request)
    requires
        live_sorted(live),
    ensures
        live_sorted(spec_free(live, mem, request).0),
{
    let addr = request.region.ptr.addr();
    if has_addr(live, addr) {
        let w = addr_idx(live, addr);
        assert(0 <= w < live.len() && live[w].region.ptr.addr() == addr);
        let existing = live[w];
        if same_region(existing.region, request.region) && existing.region.align
            == request.region.align {
            lemma_sorted_remove(live, w);
        }
    }
}

/// Every transition of the machine keeps the live set sorted.
pub proof fn lemma_step_sorted(live: Seq<Request>, mem: nat, event: Event)
    requires
        live_sorted(live),
    ensures
        live_sorted(spec_step(live, mem, event).0),
{
    match event {
        Event::Alloc(request) => lemma_alloc_sorted(live, mem, request),
        Event::Free(request) => lemma_free_sorted(live, mem, request),
        Event::AllocZeroed(az) => {
            if az.is_zeroed != Some(false) {
                lemma_alloc_sorted(live, mem, az.request);
            }
        },
        Event::Realloc(re) => {
            if re.is_relocated != Some(false) {
                let freed = spec_free(
                    live,
                    mem,
                    Request { region: re.free, backtrace: re.backtrace },
                );
                lemma_free_sorted(live, mem, Request { region: re.free, backtrace: re.backtrace });
                if !(freed.2 is Err) {
                    lemma_alloc_sorted(
                        freed.0,
                        freed.1,
                        Request { region: re.alloc, backtrace: re.backtrace },
                    );
                }
            }
        },
        _ => (),
    }
}

} // verus!
