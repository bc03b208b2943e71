//! The append-only log of allocator events collected during one measurement
//! window.

use vstd::prelude::*;

use crate::event::alloc_class_region;
use crate::event::event_wf;
use crate::event::Event;
use crate::machine::spec_step;
use crate::machine::Machine;
use crate::violation::Violation;
use crate::Request;

verus! {

/// Every event of the log is well formed (see [`event_wf`]).
pub open spec fn events_wf(s: Seq<Event>) -> bool {
    forall|i: int| 0 <= i < s.len() ==> event_wf(#[trigger] s[i])
}

/// The event grants a region: a plain or a zeroing allocation.
pub open spec fn is_alloc_event(e: Event) -> bool {
    alloc_class_region(e) is Some
}

/// The event is a reallocation.
pub open spec fn is_realloc_event(e: Event) -> bool {
    e is Realloc
}

/// The event is a deallocation.
pub open spec fn is_free_event(e: Event) -> bool {
    e is Free
}

/// How many events of `s` grant a region.
pub open spec fn count_allocs(s: Seq<Event>) -> nat
    decreases s.len(),
{
    if s.len() == 0 {
        0
    } else {
        count_allocs(s.drop_last()) + if is_alloc_event(s.last()) {
            1nat
        } else {
            0nat
        }
    }
}

/// How many events of `s` are reallocations.
pub open spec fn count_reallocs(s: Seq<Event>) -> nat
    decreases s.len(),
{
    if s.len() == 0 {
        0
    } else {
        count_reallocs(s.drop_last()) + if is_realloc_event(s.last()) {
            1nat
        } else {
            0nat
        }
    }
}

/// How many events of `s` are deallocations.
pub open spec fn count_frees(s: Seq<Event>) -> nat
    decreases s.len(),
{
    if s.len() == 0 {
        0
    } else {
        count_frees(s.drop_last()) + if is_free_event(s.last()) {
            1nat
        } else {
            0nat
        }
    }
}

/// The machine state and the violations collected after replaying `events` in
/// order through a fresh machine: the live regions, the memory in use, and
/// every violation in the order it was found.
pub open spec fn replay(events: Seq<Event>) -> (Seq<Request>, nat, Seq<Violation>)
    decreases events.len(),
{
    if events.len() == 0 {
        (Seq::<Request>::empty(), 0nat, Seq::<Violation>::empty())
    } else {
        let prev = replay(events.drop_last());
        let step = spec_step(prev.0, prev.1, events.last());
        (
            step.0,
            step.1,
            if step.2 is Err {
                prev.2.push(step.2->Err_0)
            } else {
                prev.2
            },
        )
    }
}

/// One `Leaked` violation per region still live, in address order.
pub open spec fn leaks_of(live: Seq<Request>) -> Seq<Violation> {
    live.map(|i: int, req: Request| Violation::Leaked { alloc: req })
}

/// Everything `validate` reports for a log: the violations of the replay, in
/// the order they were found, followed by one leak per region still live.
pub open spec fn validation_of(events: Seq<Event>) -> Seq<Violation> {
    replay(events).2 + leaks_of(replay(events).0)
}

/// The fail-fast replay of `events` through a fresh machine: the first
/// violation found, or the machine state together with the high-water mark of
/// the memory in use.
pub open spec fn replay_strict(events: Seq<Event>) -> Result<(Seq<Request>, nat, nat), Violation>
    decreases events.len(),
{
    if events.len() == 0 {
        Ok((Seq::<Request>::empty(), 0nat, 0nat))
    } else {
        match replay_strict(events.drop_last()) {
            Err(v) => Err(v),
            Ok(prev) => {
                let step = spec_step(prev.0, prev.1, events.last());
                match step.2 {
                    Err(v) => Err(v),
                    Ok(_) => Ok(
                        (
                            step.0,
                            step.1,
                            if step.1 > prev.2 {
                                step.1
                            } else {
                                prev.2
                            },
                        ),
                    ),
                }
            },
        }
    }
}

/// The ordered, growable collection of events of one measurement window, in
/// arrival order: the timeline the machine replays.
#[derive(Clone)]
pub struct Events {
    data: Vec<Event>,
    /// The capacity floor: how many events the backing storage is known to
    /// hold without reallocating. `Vec::new` starts at zero; `reserve` raises
    /// the floor per `Vec::reserve`'s guarantee; nothing the log does shrinks
    /// the storage, so the floor stays valid across pushes and across `clear`.
    room_floor: Ghost<nat>,
}

impl View for Events {
    type V = Seq<Event>;

    closed spec fn view(&self) -> Seq<Event> {
        self.data@
    }
}

/// Relies on `Vec::capacity`: the number of events the backing storage can
/// hold without reallocating. It is never below the length, and never below
/// the log's capacity floor: the floor only records what `Vec::new` (zero)
/// and `Vec::reserve` (length plus the requested room) established, and no
/// call the log makes — `push`, `reserve` or `clear` — ever shrinks the
/// backing storage.
#[verifier::external_body]
fn log_capacity(log: &Events) -> (r: usize)
    ensures
        r >= log@.len(),
        r >= log.room(),
{
    log.data.capacity()
}

/// Relies on `Vec::reserve`: afterwards the backing storage holds at least
/// `additional` events beyond the current length without reallocating, and it
/// is never smaller than before. The secured room is recorded in the log's
/// capacity floor.
#[verifier::external_body]
fn log_reserve(log: &mut Events, additional: usize)
    ensures
        final(log)@ == old(log)@,
        final(log).room() >= old(log)@.len() + additional,
        final(log).room() >= old(log).room(),
{
    log.data.reserve(additional);
}

impl Events {
    /// The capacity floor: how many events the backing storage is known to
    /// hold without reallocating. Zero for a fresh log, where nothing is
    /// allocated yet; [`Events::reserve`] raises it; [`Events::clear`] keeps
    /// the backing storage and with it the floor.
    pub closed spec fn room(&self) -> nat {
        self.room_floor@
    }

    /// Construct a new, empty collection of events. Nothing is allocated:
    /// the capacity floor starts at zero.
    pub fn new() -> (r: Self)
        ensures
            r@ == Seq::<Event>::empty(),
            r.room() == 0,
    {
        Events { data: Vec::new(), room_floor: Ghost(0nat) }
    }

    /// The number of events in this collection.
    pub fn len(&self) -> (r: usize)
        ensures
            r == self@.len(),
    {
        self.data.len()
    }

    /// Test if the collection is empty.
    pub fn is_empty(&self) -> (r: bool)
        ensures
            r == (self@.len() == 0),
    {
        self.data.is_empty()
    }

    /// The capacity of the backing storage. Never below the length, nor
    /// below the capacity floor; beyond that it is the allocator's choice.
    pub fn capacity(&self) -> (r: usize)
        ensures
            r >= self@.len(),
            r >= self.room(),
    {
        log_capacity(self)
    }

    /// Pre-grow the backing storage to hold at least `cap` more events
    /// without reallocating, so that a tight measurement window sees no
    /// per-push growth. The recorded events stay untouched, and the capacity
    /// floor records the secured room.
    pub fn reserve(&mut self, cap: usize)
        ensures
            final(self)@ == old(self)@,
            final(self).room() >= old(self)@.len() + cap,
            final(self).room() >= old(self).room(),
    {
        log_reserve(self, cap);
    }

    /// All recorded events, as a slice.
    pub fn as_slice(&self) -> (r: &[Event])
        ensures
            r@ == self@,
    {
        self.data.as_slice()
    }

    /// All recorded events, as a mutable slice.
    pub fn as_slice_mut(&mut self) -> (r: &mut [Event])
        ensures
            r@ == old(self)@,
            final(r)@ == final(self)@,
    {
        self.data.as_mut_slice()
    }

    /// Clear the collection of events without releasing the backing storage:
    /// the capacity floor is kept, the next window reuses the storage, and
    /// the measured program's allocations stay decoupled from the log's own
    /// bookkeeping.
    pub fn clear(&mut self)
        ensures
            final(self)@ == Seq::<Event>::empty(),
            final(self).room() == old(self).room(),
    {
        self.data.clear();
    }

    /// Append a single event at the end of the log.
    ///
    /// Any growth of the backing storage happens inside this call, at the one
    /// point where the log mutates. A collaborator that must not observe the
    /// log's own allocations suspends its tracking around this call, so the
    /// log never records its own growth.
    pub fn push(&mut self, event: Event)
        ensures
            final(self)@ == old(self)@.push(event),
            final(self).room() >= old(self).room(),
    {
        if log_capacity(self) == self.data.len() {
            log_reserve(self, 1);
        }
        self.data.push(event);
    }

    /// Count the events that granted a region: plain and zeroing allocations.
    pub fn allocs(&self) -> (r: usize)
        ensures
            r == count_allocs(self@),
    {
        let mut n: usize = 0;
        let mut i: usize = 0;
        while i < self.data.len()
            invariant
                i <= self.data@.len(),
                n == count_allocs(self.data@.take(i as int)),
                n <= i,
            decreases self.data@.len() - i,
        {
            let counted = match self.data[i] {
                Event::Alloc(_) => true,
                Event::AllocZeroed(_) => true,
                _ => false,
            };
            if counted {
                n = n + 1;
            }
            proof {
                assert(self.data@.take(i + 1).drop_last() =~= self.data@.take(i as int));
                assert(self.data@.take(i + 1).last() == self.data@[i as int]);
            }
            i = i + 1;
        }
        proof {
            assert(self.data@.take(self.data@.len() as int) =~= self.data@);
        }
        n
    }

    /// Count the reallocations in this collection of events.
    pub fn reallocs(&self) -> (r: usize)
        ensures
            r == count_reallocs(self@),
    {
        let mut n: usize = 0;
        let mut i: usize = 0;
        while i < self.data.len()
            invariant
                i <= self.data@.len(),
                n == count_reallocs(self.data@.take(i as int)),
                n <= i,
            decreases self.data@.len() - i,
        {
            let counted = match self.data[i] {
                Event::Realloc(_) => true,
                _ => false,
            };
            if counted {
                n = n + 1;
            }
            proof {
                assert(self.data@.take(i + 1).drop_last() =~= self.data@.take(i as int));
                assert(self.data@.take(i + 1).last() == self.data@[i as int]);
            }
            i = i + 1;
        }
        proof {
            assert(self.data@.take(self.data@.len() as int) =~= self.data@);
        }
        n
    }

    /// Count the deallocations in this collection of events.
    pub fn frees(&self) -> (r: usize)
        ensures
            r == count_frees(self@),
    {
        let mut n: usize = 0;
        let mut i: usize = 0;
        while i < self.data.len()
            invariant
                i <= self.data@.len(),
                n == count_frees(self.data@.take(i as int)),
                n <= i,
            decreases self.data@.len() - i,
        {
            let counted = match self.data[i] {
                Event::Free(_) => true,
                _ => false,
            };
            if counted {
                n = n + 1;
            }
            proof {
                assert(self.data@.take(i + 1).drop_last() =~= self.data@.take(i as int));
                assert(self.data@.take(i + 1).last() == self.data@[i as int]);
            }
            i = i + 1;
        }
        proof {
            assert(self.data@.take(self.data@.len() as int) =~= self.data@);
        }
        n
    }

    /// Replay every recorded event, in order, through a fresh machine and
    /// append each violation found to `errors`, followed by one `Leaked`
    /// violation per region still live after the replay: the leak sweep.
    pub fn validate(&self, errors: &mut Vec<Violation>)
        requires
            events_wf(self@),
        ensures
            final(errors)@ == old(errors)@ + validation_of(self@),
    {
        let mut machine = Machine::default();
        let mut i: usize = 0;
        while i < self.data.len()
            invariant
                i <= self.data@.len(),
                events_wf(self.data@),
                machine.wf(),
                machine.live() == replay(self.data@.take(i as int)).0,
                machine.mem() == replay(self.data@.take(i as int)).1,
                errors@ == old(errors)@ + replay(self.data@.take(i as int)).2,
            decreases self.data@.len() - i,
        {
            let event = self.data[i];
            let outcome = machine.push(&event);
            proof {
                assert(self.data@.take(i + 1).drop_last() =~= self.data@.take(i as int));
                assert(self.data@.take(i + 1).last() == self.data@[i as int]);
            }
            match outcome {
                Err(v) => errors.push(v),
                Ok(()) => (),
            }
            i = i + 1;
        }
        proof {
            assert(self.data@.take(self.data@.len() as int) =~= self.data@);
        }

        let trailing = machine.trailing_regions();
        let ghost live = machine.live();
        let mut j: usize = 0;
        while j < trailing.len()
            invariant
                j <= trailing@.len(),
                trailing@ == live,
                errors@ == old(errors)@ + replay(self.data@).2 + leaks_of(live).take(j as int),
                self.data@ == self@,
            decreases trailing@.len() - j,
        {
            errors.push(Violation::Leaked { alloc: trailing[j] });
            proof {
                assert(leaks_of(live).take(j + 1) =~= leaks_of(live).take(j as int).push(
                    Violation::Leaked { alloc: live[j as int] },
                ));
            }
            j = j + 1;
        }
        proof {
            assert(leaks_of(live).take(live.len() as int) =~= leaks_of(live));
        }
    }

    /// The high-water mark of the memory in use across the whole replay, or
    /// the first violation encountered: the fail-fast counterpart of
    /// [`Events::validate`].
    pub fn max_memory_used(&self) -> (r: Result<usize, Violation>)
        requires
            events_wf(self@),
        ensures
            match replay_strict(self@) {
                Ok(t) => r == Ok::<usize, Violation>(t.2 as usize),
                Err(v) => r == Err::<usize, Violation>(v),
            },
    {
        let mut machine = Machine::default();
        let mut max: usize = 0;
        let mut i: usize = 0;
        while i < self.data.len()
            invariant
                i <= self.data@.len(),
                events_wf(self.data@),
                machine.wf(),
                replay_strict(self.data@.take(i as int)) matches Ok(t) && t.0 == machine.live()
                    && t.1 == machine.mem() && t.2 == max as nat,
            decreases self.data@.len() - i,
        {
            let event = self.data[i];
            let outcome = machine.push(&event);
            proof {
                assert(self.data@.take(i + 1).drop_last() =~= self.data@.take(i as int));
                assert(self.data@.take(i + 1).last() == self.data@[i as int]);
            }
            match outcome {
                Err(v) => {
                    proof {
                        assert(self.data@.take(self.data@.len() as int) =~= self.data@);
                        lemma_replay_strict_err(self.data@, (i + 1) as int, v);
                    }
                    return Err(v);
                },
                Ok(()) => (),
            }
            let m = machine.memory_used();
            if m > max {
                max = m;
            }
            i = i + 1;
        }
        proof {
            assert(self.data@.take(self.data@.len() as int) =~= self.data@);
        }
        Ok(max)
    }
}

/// Once the strict replay of a prefix has failed with `v`, the strict replay
/// of every longer prefix, and of the whole log, fails with the same `v`.
proof fn lemma_replay_strict_err(events: Seq<Event>, k: int, v: Violation)
    requires
        0 <= k <= events.len(),
        replay_strict(events.take(k)) == Err::<(Seq<Request>, nat, nat), Violation>(v),
    ensures
        replay_strict(events) == Err::<(Seq<Request>, nat, nat), Violation>(v),
    decreases events.len() - k,
{
    if k == events.len() {
        assert(events.take(k) =~= events);
    } else {
        assert(events.take(k + 1).drop_last() =~= events.take(k));
        lemma_replay_strict_err(events, k + 1, v);
    }
}

} // verus!
