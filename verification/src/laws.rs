//! The laws the auditor obeys, stated over the replay model and proved once
//! and for all.

use vstd::prelude::*;

use crate::event::Event;
use crate::events::leaks_of;
use crate::events::replay;
use crate::events::validation_of;
use crate::machine::has_addr;
use crate::machine::has_overlap;
use crate::machine::insert_pos;
use crate::machine::is_insert_pos;
use crate::machine::lemma_first_overlap_exists;
use crate::machine::lemma_step_sorted;
use crate::machine::live_insert;
use crate::machine::live_sorted;
use crate::machine::region_aligned;
use crate::machine::region_wf;
use crate::machine::regions_overlap;
use crate::machine::spec_alloc;
use crate::machine::spec_free;
use crate::machine::first_overlap_idx;
use crate::machine::addr_idx;
use crate::violation::Violation;
use crate::Request;

verus! {

/// Replaying any log from a fresh machine leaves the live set sorted by
/// address.
pub proof fn lemma_replay_sorted(events: Seq<Event>)
    ensures
        live_sorted(replay(events).0),
    decreases events.len(),
{
    if events.len() > 0 {
        lemma_replay_sorted(events.drop_last());
        let prev = replay(events.drop_last());
        lemma_step_sorted(prev.0, prev.1, events.last());
    }
}

/// A balanced pair is clean: one allocation followed by a free of exactly the
/// same region (address, size and alignment alike) validates without a single
/// violation, and the leak sweep is empty. The granted region must be aligned,
/// or the allocation itself would already be a violation.
pub proof fn lemma_balanced_pair_is_clean(grant: Request, release: Request)
    requires
        grant.region == release.region,
        region_wf(grant.region),
        region_aligned(grant.region),
    ensures
        validation_of(seq![Event::Alloc(grant), Event::Free(release)]) =~= Seq::<
            Violation,
        >::empty(),
        replay(seq![Event::Alloc(grant), Event::Free(release)]).0 =~= Seq::<Request>::empty(),
{
    reveal_with_fuel(replay, 4);
    let log = seq![Event::Alloc(grant), Event::Free(release)];
    let addr = grant.region.ptr.addr();
    let none = Seq::<Request>::empty();

    assert(log.drop_last() =~= seq![Event::Alloc(grant)]);
    assert(seq![Event::Alloc(grant)].drop_last() =~= Seq::<Event>::empty());

    // The allocation lands on an empty live set: nothing overlaps, nothing is
    // keyed at its address, and it is inserted at the front.
    assert(!has_overlap(none, grant.region));
    assert(!has_addr(none, addr));
    assert(is_insert_pos(none, addr, 0));
    let w = insert_pos(none, addr);
    assert(is_insert_pos(none, addr, w));
    let live1 = live_insert(none, grant);
    assert(live1 =~= seq![grant]);

    // The free finds exactly the granted region and removes it.
    assert(has_addr(live1, addr)) by {
        assert(live1[0].region.ptr.addr() == addr);
    }
    let k = addr_idx(live1, addr);
    assert(0 <= k < live1.len() && live1[k].region.ptr.addr() == addr);
    assert(live1[k] == grant);
    assert(live1.remove(k) =~= none);

    assert(replay(log).2 =~= Seq::<Violation>::empty());
    assert(leaks_of(replay(log).0) =~= Seq::<Violation>::empty());
}

/// A free with no live region keyed at its address yields exactly a
/// `MissingFree` carrying that request, and changes nothing.
pub proof fn lemma_missing_free(live: Seq<Request>, mem: nat, request: Request)
    requires
        forall|i: int|
            0 <= i < live.len() ==> (#[trigger] live[i]).region.ptr.addr()
                != request.region.ptr.addr(),
    ensures
        spec_free(live, mem, request) == (
            live,
            mem,
            Err::<(), Violation>(Violation::MissingFree { request }),
        ),
{
    assert(!has_addr(live, request.region.ptr.addr()));
}

/// A free on an empty history yields exactly one `MissingFree` and nothing
/// else, the leak sweep included.
pub proof fn lemma_unmatched_free_reported(request: Request)
    ensures
        validation_of(seq![Event::Free(request)]) =~= seq![
            Violation::MissingFree { request },
        ],
{
    reveal_with_fuel(replay, 4);
    let log = seq![Event::Free(request)];
    assert(log.drop_last() =~= Seq::<Event>::empty());
    assert(!has_addr(Seq::<Request>::empty(), request.region.ptr.addr()));
    assert(replay(log).2 =~= seq![Violation::MissingFree { request }]);
    assert(leaks_of(replay(log).0) =~= Seq::<Violation>::empty());
}

/// An aligned allocation that overlaps some live region is refused with a
/// `ConflictingAlloc` naming the first such region, and changes nothing.
pub proof fn lemma_overlapping_alloc_conflicts(
    live: Seq<Request>,
    mem: nat,
    request: Request,
    witness: int,
)
    requires
        region_aligned(request.region),
        0 <= witness < live.len(),
        regions_overlap(live[witness].region, request.region),
    ensures
        spec_alloc(live, mem, request) == (
            live,
            mem,
            Err::<(), Violation>(
                Violation::ConflictingAlloc {
                    request,
                    existing: live[first_overlap_idx(live, request.region)],
                },
            ),
        ),
        regions_overlap(live[first_overlap_idx(live, request.region)].region, request.region),
{
    assert(has_overlap(live, request.region));
    lemma_first_overlap_exists(live, request.region);
}

/// An aligned allocation that overlaps no live region is accepted.
pub proof fn lemma_nonconflicting_alloc_accepted(live: Seq<Request>, mem: nat, request: Request)
    requires
        region_aligned(request.region),
        forall|i: int|
            0 <= i < live.len() ==> !regions_overlap((#[trigger] live[i]).region, request.region),
    ensures
        spec_alloc(live, mem, request).2 == Ok::<(), Violation>(()),
{
    assert(!has_overlap(live, request.region));
}

/// Two aligned allocations where the second's address falls within the span
/// of the first (which does not reach past the top of the address space)
/// yield exactly one `ConflictingAlloc` naming the two.
pub proof fn lemma_second_alloc_conflicts(first: Request, second: Request)
    requires
        region_wf(first.region),
        region_wf(second.region),
        region_aligned(first.region),
        region_aligned(second.region),
        first.region.ptr.addr() + first.region.size <= usize::MAX,
        first.region.ptr.addr() <= second.region.ptr.addr(),
        second.region.ptr.addr() < first.region.ptr.addr() + first.region.size,
    ensures
        replay(seq![Event::Alloc(first), Event::Alloc(second)]).2 =~= seq![
            Violation::ConflictingAlloc { request: second, existing: first },
        ],
{
    reveal_with_fuel(replay, 4);
    let log = seq![Event::Alloc(first), Event::Alloc(second)];
    let addr = first.region.ptr.addr();
    let none = Seq::<Request>::empty();

    assert(log.drop_last() =~= seq![Event::Alloc(first)]);
    assert(seq![Event::Alloc(first)].drop_last() =~= Seq::<Event>::empty());

    // The first allocation lands on the empty live set.
    assert(!has_overlap(none, first.region));
    assert(!has_addr(none, addr));
    assert(is_insert_pos(none, addr, 0));
    let w = insert_pos(none, addr);
    assert(is_insert_pos(none, addr, w));
    let live1 = live_insert(none, first);
    assert(live1 =~= seq![first]);

    // The second allocation overlaps the first, which is the lowest (and
    // only) live region.
    assert(regions_overlap(live1[0].region, second.region));
    assert(has_overlap(live1, second.region));
    lemma_first_overlap_exists(live1, second.region);
    assert(first_overlap_idx(live1, second.region) == 0);
    assert(replay(log).2 =~= seq![
        Violation::ConflictingAlloc { request: second, existing: first },
    ]);
}

/// Two aligned allocations of non-overlapping regions yield no violation at
/// all: in particular, never a `ConflictingAlloc`.
pub proof fn lemma_disjoint_allocs_conflict_free(first: Request, second: Request)
    requires
        region_wf(first.region),
        region_wf(second.region),
        region_aligned(first.region),
        region_aligned(second.region),
        !regions_overlap(first.region, second.region),
    ensures
        replay(seq![Event::Alloc(first), Event::Alloc(second)]).2 =~= Seq::<Violation>::empty(),
{
    reveal_with_fuel(replay, 4);
    let log = seq![Event::Alloc(first), Event::Alloc(second)];
    let addr = first.region.ptr.addr();
    let none = Seq::<Request>::empty();

    assert(log.drop_last() =~= seq![Event::Alloc(first)]);
    assert(seq![Event::Alloc(first)].drop_last() =~= Seq::<Event>::empty());

    assert(!has_overlap(none, first.region));
    assert(!has_addr(none, addr));
    assert(is_insert_pos(none, addr, 0));
    let w = insert_pos(none, addr);
    assert(is_insert_pos(none, addr, w));
    let live1 = live_insert(none, first);
    assert(live1 =~= seq![first]);

    assert(!has_overlap(live1, second.region)) by {
        assert(forall|i: int|
            0 <= i < live1.len() ==> !regions_overlap((#[trigger] live1[i]).region, second.region));
    }
}

/// An allocation whose address is not a multiple of its alignment is refused
/// with a `MisalignedAlloc` carrying the request, whatever the live set, and
/// changes nothing.
pub proof fn lemma_misaligned_alloc_reported(live: Seq<Request>, mem: nat, request: Request)
    requires
        region_wf(request.region),
        !region_aligned(request.region),
    ensures
        spec_alloc(live, mem, request) == (
            live,
            mem,
            Err::<(), Violation>(Violation::MisalignedAlloc { alloc: request }),
        ),
{
}

/// A lone misaligned allocation validates to exactly one `MisalignedAlloc`,
/// the leak sweep included: the refused region is never recorded live.
pub proof fn lemma_misaligned_alloc_log(request: Request)
    requires
        region_wf(request.region),
        !region_aligned(request.region),
    ensures
        validation_of(seq![Event::Alloc(request)]) =~= seq![
            Violation::MisalignedAlloc { alloc: request },
        ],
{
    reveal_with_fuel(replay, 4);
    let log = seq![Event::Alloc(request)];
    assert(log.drop_last() =~= Seq::<Event>::empty());
    assert(replay(log).2 =~= seq![Violation::MisalignedAlloc { alloc: request }]);
    assert(leaks_of(replay(log).0) =~= Seq::<Violation>::empty());
}

/// The leak sweep is exact: it reports the regions still live after the whole
/// replay, one `Leaked` per region, in address order and without duplicates,
/// whatever allocations and frees touched other addresses before.
pub proof fn lemma_leak_sweep_exact(events: Seq<Event>)
    ensures
        leaks_of(replay(events).0).len() == replay(events).0.len(),
        forall|i: int|
            0 <= i < replay(events).0.len() ==> leaks_of(replay(events).0)[i] == (
            Violation::Leaked { alloc: replay(events).0[i] }),
        forall|i: int, j: int|
            0 <= i < j < replay(events).0.len() ==> leaks_of(replay(events).0)[i] != leaks_of(
                replay(events).0,
            )[j],
{
    lemma_replay_sorted(events);
    let live = replay(events).0;
    assert forall|i: int, j: int|
        0 <= i < j < live.len() implies leaks_of(live)[i] != leaks_of(live)[j] by {
        assert(live[i].region.ptr.addr() < live[j].region.ptr.addr());
        assert(leaks_of(live)[i] == (Violation::Leaked { alloc: live[i] }));
        assert(leaks_of(live)[j] == (Violation::Leaked { alloc: live[j] }));
    }
}

/// Validation is idempotent: it is a pure function of the recorded events, so
/// two validations of the same untouched log report the same violations in
/// the same order.
pub proof fn lemma_validate_deterministic(
    events: Seq<Event>,
    first: Seq<Violation>,
    second: Seq<Violation>,
)
    requires
        first == validation_of(events),
        second == validation_of(events),
    ensures
        first == second,
{
}

} // verus!
