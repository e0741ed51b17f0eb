//! A time-ordered queue of pending events with a horizon.

use crate::event::schedulable::SchedulableEvent;
use vstd::multiset::Multiset;
use vstd::prelude::*;

verus! {

/// `earliest` is pending and no pending event takes place before it.
pub open spec fn is_earliest<E: SchedulableEvent>(pending: Multiset<E>, earliest: E) -> bool {
    &&& pending.contains(earliest)
    &&& forall|other: E| #[trigger]
        pending.contains(other) ==> earliest.spec_time_stamp() <= other.spec_time_stamp()
}

/// No pending event takes place at or before `horizon`.
pub open spec fn all_beyond<E: SchedulableEvent>(pending: Multiset<E>, horizon: usize) -> bool {
    forall|event: E| #[trigger] pending.contains(event) ==> event.spec_time_stamp() > horizon
}

/// `dequeued` is what may come out of `pending` when an earliest pending
/// event is taken again and again.
pub open spec fn dequeued_in_turn<E: SchedulableEvent>(pending: Multiset<E>, dequeued: Seq<E>) -> bool
    decreases dequeued.len(),
{
    dequeued.len() > 0 ==> {
        &&& is_earliest(pending, dequeued[0])
        &&& dequeued_in_turn(pending.remove(dequeued[0]), dequeued.drop_first())
    }
}

/// Events taken one after the other are pending at the start.
pub proof fn lemma_dequeued_were_pending<E: SchedulableEvent>(
    pending: Multiset<E>,
    dequeued: Seq<E>,
    index: int,
)
    requires
        dequeued_in_turn(pending, dequeued),
        0 <= index < dequeued.len(),
    ensures
        pending.contains(dequeued[index]),
    decreases dequeued.len(),
{
    if index > 0 {
        let rest = pending.remove(dequeued[0]);
        lemma_dequeued_were_pending(rest, dequeued.drop_first(), index - 1);
        assert(dequeued.drop_first()[index - 1] == dequeued[index]);
        assert(rest.count(dequeued[index]) > 0);
        assert(pending.count(dequeued[index]) > 0);
    }
}

/// Time ordering: whatever was inserted, the events that repeated dequeuing
/// hands out come in non-decreasing order of timestamp.
pub proof fn lemma_time_ordering<E: SchedulableEvent>(
    pending: Multiset<E>,
    dequeued: Seq<E>,
    earlier: int,
    later: int,
)
    requires
        dequeued_in_turn(pending, dequeued),
        0 <= earlier <= later < dequeued.len(),
    ensures
        dequeued[earlier].spec_time_stamp() <= dequeued[later].spec_time_stamp(),
    decreases dequeued.len(),
{
    if earlier == 0 {
        lemma_dequeued_were_pending(pending, dequeued, later);
    } else {
        let rest = dequeued.drop_first();
        assert(rest[earlier - 1] == dequeued[earlier]);
        assert(rest[later - 1] == dequeued[later]);
        lemma_time_ordering(pending.remove(dequeued[0]), rest, earlier - 1, later - 1);
    }
}

/// The position above `position` in the heap.
spec fn above(position: int) -> int {
    (position - 1) / 2
}

/// The event at `below` takes place no earlier than the event above it.
spec fn in_order<E: SchedulableEvent>(queue: Seq<E>, below: int) -> bool {
    queue[above(below)].spec_time_stamp() <= queue[below].spec_time_stamp()
}

/// The queue is a heap: no event takes place before the event above it, so
/// that the earliest event is in front.
spec fn is_heap<E: SchedulableEvent>(queue: Seq<E>) -> bool {
    forall|below: int| 0 < below < queue.len() ==> #[trigger] in_order(queue, below)
}

/// The queue is a heap but for the event at `hole`, which may take place
/// before the event above it; the events below `hole` take place no earlier
/// than the event above it.
spec fn is_heap_but_above<E: SchedulableEvent>(queue: Seq<E>, hole: int) -> bool {
    &&& forall|below: int|
        0 < below < queue.len() && below != hole ==> #[trigger] in_order(queue, below)
    &&& forall|below: int|
        0 < below < queue.len() && above(below) == hole && hole > 0 ==> queue[above(
            hole,
        )].spec_time_stamp() <= (#[trigger] queue[below]).spec_time_stamp()
}

/// The queue is a heap but for the events just below `hole`, which may take
/// place before the event at `hole`; they take place no earlier than the
/// event above `hole`.
spec fn is_heap_but_below<E: SchedulableEvent>(queue: Seq<E>, hole: int) -> bool {
    &&& forall|below: int|
        0 < below < queue.len() && above(below) != hole ==> #[trigger] in_order(queue, below)
    &&& forall|below: int|
        0 < below < queue.len() && above(below) == hole && hole > 0 ==> queue[above(
            hole,
        )].spec_time_stamp() <= (#[trigger] queue[below]).spec_time_stamp()
}

/// In a heap no event takes place before the event in front.
proof fn lemma_front_is_earliest<E: SchedulableEvent>(queue: Seq<E>, position: int)
    requires
        is_heap(queue),
        0 <= position < queue.len(),
    ensures
        queue[0].spec_time_stamp() <= queue[position].spec_time_stamp(),
    decreases position,
{
    if position > 0 {
        assert(in_order(queue, position));
        lemma_front_is_earliest(queue, above(position));
    }
}

/// Two events that change places leave the queue with the same events.
proof fn lemma_exchange<E>(queue: Seq<E>, first: int, second: int)
    requires
        0 <= first < second < queue.len(),
    ensures
        queue.update(first, queue[second]).update(second, queue[first]).to_multiset()
            == queue.to_multiset(),
{
    let half = queue.update(first, queue[second]);
    let whole = half.update(second, queue[first]);
    vstd::seq_lib::to_multiset_update(queue, first, queue[second]);
    vstd::seq_lib::to_multiset_update(half, second, queue[first]);
    queue.to_multiset_ensures();
    half.to_multiset_ensures();
    assert(queue.to_multiset().count(queue[first]) > 0) by {
        assert(queue.contains(queue[first]));
    }
    assert(queue.to_multiset().count(queue[second]) > 0) by {
        assert(queue.contains(queue[second]));
    }
    assert(whole.to_multiset() =~= queue.to_multiset());
}

/// Let the events at `first` and `second` change places.
fn exchange<E>(queue: &mut Vec<E>, first: usize, second: usize)
    requires
        first < second < old(queue)@.len(),
    ensures
        final(queue)@ == old(queue)@.update(first as int, old(queue)@[second as int]).update(
            second as int,
            old(queue)@[first as int],
        ),
{
    let tail = queue.len() - 1;
    let mut held = queue.swap_remove(second);
    core::mem::swap(&mut held, &mut queue[first]);
    queue.push(held);
    if second < tail {
        let moved = queue.swap_remove(second);
        queue.push(moved);
    }
    assert(queue@ =~= old(queue)@.update(first as int, old(queue)@[second as int]).update(
        second as int,
        old(queue)@[first as int],
    ));
}

/// Let the event at `from`, which may take place before the events above
/// it, rise to its place.
fn sift_up<E: SchedulableEvent>(queue: &mut Vec<E>, from: usize)
    requires
        from < old(queue)@.len(),
        is_heap_but_above(old(queue)@, from as int),
    ensures
        is_heap(final(queue)@),
        final(queue)@.to_multiset() == old(queue)@.to_multiset(),
{
    let mut at = from;
    while at > 0
        invariant
            at < queue@.len(),
            queue@.to_multiset() == old(queue)@.to_multiset(),
            is_heap_but_above(queue@, at as int),
        decreases at,
    {
        let over = (at - 1) / 2;
        if queue[over].get_time_stamp() <= queue[at].get_time_stamp() {
            assert(in_order(queue@, at as int));
            return ;
        }
        let ghost before = queue@;
        exchange(queue, over, at);
        proof {
            lemma_exchange(before, over as int, at as int);
            let after = queue@;
            assert forall|below: int|
                0 < below < after.len() && below != over implies #[trigger] in_order(
                after,
                below,
            ) by {
                if below == at {
                } else if above(below) == at {
                    assert(before[over as int].spec_time_stamp() <= before[below].spec_time_stamp());
                } else if above(below) == over {
                    assert(in_order(before, below));
                } else {
                    assert(in_order(before, below));
                }
            }
            assert forall|below: int|
                0 < below < after.len() && above(below) == over && over > 0 implies after[above(
                over as int,
            )].spec_time_stamp() <= (#[trigger] after[below]).spec_time_stamp() by {
                assert(in_order(before, over as int));
                if below != at {
                    assert(in_order(before, below));
                }
            }
        }
        at = over;
    }
}

/// Let the event at `from`, which may take place after the events below it,
/// sink to its place.
fn sift_down<E: SchedulableEvent>(queue: &mut Vec<E>, from: usize)
    requires
        from < old(queue)@.len(),
        is_heap_but_below(old(queue)@, from as int),
    ensures
        is_heap(final(queue)@),
        final(queue)@.to_multiset() == old(queue)@.to_multiset(),
{
    let mut at = from;
    let length = queue.len();
    while at <= (length - 1) / 2
        invariant
            at < queue@.len(),
            length == queue@.len(),
            queue@.to_multiset() == old(queue)@.to_multiset(),
            is_heap_but_below(queue@, at as int),
        decreases length - at,
    {
        let left = 2 * at + 1;
        if left >= length {
            proof {
                assert forall|below: int| 0 < below < queue@.len() implies #[trigger] in_order(
                    queue@,
                    below,
                ) by {
                    if above(below) == at {
                        assert(below >= 2 * at + 1);
                    }
                }
            }
            return ;
        }
        let right = left + 1;
        let least = if right < length && queue[right].get_time_stamp()
            < queue[left].get_time_stamp() {
            right
        } else {
            left
        };
        if queue[at].get_time_stamp() <= queue[least].get_time_stamp() {
            proof {
                assert forall|below: int| 0 < below < queue@.len() implies #[trigger] in_order(
                    queue@,
                    below,
                ) by {
                    if above(below) == at {
                        assert(below == left || below == right);
                    }
                }
            }
            return ;
        }
        let ghost before = queue@;
        exchange(queue, at, least);
        proof {
            lemma_exchange(before, at as int, least as int);
            let after = queue@;
            assert forall|below: int|
                0 < below < after.len() && above(below) != least implies #[trigger] in_order(
                after,
                below,
            ) by {
                if below == least {
                } else if above(below) == at {
                    assert(below == left || below == right);
                } else if below == at {
                    assert(before[above(at as int)].spec_time_stamp()
                        <= before[least as int].spec_time_stamp());
                } else {
                    assert(in_order(before, below));
                }
            }
            assert forall|below: int|
                0 < below < after.len() && above(below) == least && least > 0 implies after[above(
                least as int,
            )].spec_time_stamp() <= (#[trigger] after[below]).spec_time_stamp() by {
                assert(in_order(before, below));
            }
        }
        at = least;
    }
    proof {
        assert forall|below: int| 0 < below < queue@.len() implies #[trigger] in_order(
            queue@,
            below,
        ) by {
            if above(below) == at {
                assert(below >= 2 * at + 1);
            }
        }
    }
}

/// A queue of pending events, handed out earliest first, together with the
/// current simulation time and the runtime, the inclusive horizon past which
/// no event is handed out. The queue is kept as a heap.
pub struct Scheduler<E: SchedulableEvent> {
    current_time: usize,
    runtime: usize,
    event_queue: Vec<E>,
}

impl<E: SchedulableEvent> Scheduler<E> {
    #[verifier::type_invariant]
    spec fn queue_is_heap(&self) -> bool {
        is_heap(self.event_queue@)
    }

    /// The timestamp of the event dequeued last, or zero before any dequeue.
    pub closed spec fn spec_current_time(&self) -> usize {
        self.current_time
    }

    /// The inclusive upper bound on the timestamps of events handed out.
    pub closed spec fn spec_runtime(&self) -> usize {
        self.runtime
    }

    /// The events waiting to be handed out.
    pub closed spec fn pending(&self) -> Multiset<E> {
        self.event_queue@.to_multiset()
    }

    /// Create a scheduler with a given runtime.
    pub fn new(runtime: usize) -> (created: Scheduler<E>)
        ensures
            created.spec_current_time() == 0,
            created.spec_runtime() == runtime,
            created.pending() == Multiset::<E>::empty(),
    {
        let created = Scheduler { current_time: 0, runtime, event_queue: Vec::new() };
        proof {
            created.event_queue@.to_multiset_ensures();
            assert(created.pending() =~= Multiset::<E>::empty());
        }
        created
    }

    /// The current simulation time.
    pub fn current_time(&self) -> (current_time: usize)
        ensures
            current_time == self.spec_current_time(),
    {
        self.current_time
    }

    /// The horizon of the simulation.
    pub fn runtime(&self) -> (runtime: usize)
        ensures
            runtime == self.spec_runtime(),
    {
        self.runtime
    }

    /// The number of pending events.
    pub fn pending_count(&self) -> (count: usize)
        ensures
            count == self.pending().len(),
    {
        proof {
            self.event_queue@.to_multiset_ensures();
        }
        self.event_queue.len()
    }

    /// Whether no pending event takes place at or before the runtime.
    pub fn is_exhausted(&self) -> (exhausted: bool)
        ensures
            exhausted == all_beyond(self.pending(), self.spec_runtime()),
    {
        proof {
            self.event_queue@.to_multiset_ensures();
        }
        let mut index: usize = 0;
        while index < self.event_queue.len()
            invariant
                index <= self.event_queue@.len(),
                forall|i: int|
                    0 <= i < index ==> (#[trigger] self.event_queue@[i]).spec_time_stamp()
                        > self.runtime,
            decreases self.event_queue@.len() - index,
        {
            if self.event_queue[index].get_time_stamp() <= self.runtime {
                proof {
                    self.event_queue@.to_multiset_ensures();
                    let within = self.event_queue@[index as int];
                    assert(self.event_queue@.contains(within));
                    assert(self.event_queue@.to_multiset().count(within) > 0);
                    assert(self.pending().contains(within));
                    assert(!(within.spec_time_stamp() > self.runtime));
                }
                return false;
            }
            index += 1;
        }
        proof {
            assert forall|event: E| #[trigger] self.pending().contains(event) implies event.spec_time_stamp()
                > self.runtime by {
                assert(self.event_queue@.contains(event));
                let i = choose|i: int| 0 <= i < self.event_queue@.len() && self.event_queue@[i] == event;
                assert(self.event_queue@[i] == event);
            }
        }
        true
    }

    /// Add an event to the scheduler. The timestamp is not held against the
    /// current time or the runtime: an event may be scheduled in the past or
    /// beyond the horizon.
    pub fn add_event(&mut self, event: E)
        ensures
            final(self).pending() == old(self).pending().insert(event),
            final(self).spec_current_time() == old(self).spec_current_time(),
            final(self).spec_runtime() == old(self).spec_runtime(),
    {
        proof {
            use_type_invariant(&*self);
            self.event_queue@.to_multiset_ensures();
        }
        let mut queue: Vec<E> = Vec::new();
        core::mem::swap(&mut queue, &mut self.event_queue);
        queue.push(event);
        let last = queue.len() - 1;
        proof {
            let grown = queue@;
            let before = old(self).event_queue@;
            assert forall|below: int|
                0 < below < grown.len() && below != last implies #[trigger] in_order(
                grown,
                below,
            ) by {
                assert(in_order(before, below));
            }
        }
        sift_up(&mut queue, last);
        self.event_queue = queue;
    }

    /// Take an earliest pending event out of the queue; the times stay as
    /// they are.
    fn take_front(&mut self) -> (event: E)
        requires
            old(self).pending().len() > 0,
        ensures
            is_earliest(old(self).pending(), event),
            final(self).pending() == old(self).pending().remove(event),
            final(self).spec_runtime() == old(self).spec_runtime(),
            final(self).spec_current_time() == old(self).spec_current_time(),
    {
        proof {
            use_type_invariant(&*self);
            self.event_queue@.to_multiset_ensures();
        }
        let ghost before = self.event_queue@;
        let mut queue: Vec<E> = Vec::new();
        core::mem::swap(&mut queue, &mut self.event_queue);
        let event = queue.swap_remove(0);
        proof {
            let turned = before.update(0, before.last());
            vstd::seq_lib::to_multiset_update(before, 0, before.last());
            vstd::seq_lib::to_multiset_remove(turned, turned.len() - 1);
            assert(queue@ =~= turned.remove(turned.len() - 1));
            assert(before.to_multiset().count(event) > 0) by {
                assert(before.contains(event));
            }
            assert(before.to_multiset().count(before.last()) > 0) by {
                assert(before.contains(before.last()));
            }
            assert(queue@.to_multiset() =~= before.to_multiset().remove(event));
            assert forall|other: E| #[trigger]
                before.to_multiset().contains(other) implies event.spec_time_stamp()
                <= other.spec_time_stamp() by {
                assert(before.contains(other));
                let i = choose|i: int| 0 <= i < before.len() && before[i] == other;
                lemma_front_is_earliest(before, i);
            }
        }
        if queue.len() > 0 {
            proof {
                assert forall|below: int|
                    0 < below < queue@.len() && above(below) != 0 implies #[trigger] in_order(
                    queue@,
                    below,
                ) by {
                    assert(in_order(before, below));
                }
            }
            sift_down(&mut queue, 0);
        }
        self.event_queue = queue;
        event
    }

    /// Get the next event from the scheduler.
    ///
    /// An earliest pending event leaves the queue. If it takes place within
    /// the runtime it is handed out and the current time becomes its
    /// timestamp. If it lies beyond the runtime it is discarded, not kept for
    /// a later call, and the result is `None`, as it is for an empty queue.
    /// Which of several earliest events leaves is not fixed.
    pub fn next_event(&mut self) -> (next: Option<E>)
        ensures
            final(self).spec_runtime() == old(self).spec_runtime(),
            old(self).pending().len() == 0 ==> {
                &&& next is None
                &&& final(self).pending() == old(self).pending()
                &&& final(self).spec_current_time() == old(self).spec_current_time()
            },
            old(self).pending().len() > 0 ==> exists|earliest: E|
                {
                    &&& is_earliest(old(self).pending(), earliest)
                    &&& final(self).pending() == old(self).pending().remove(earliest)
                    &&& if earliest.spec_time_stamp() > old(self).spec_runtime() {
                        &&& next is None
                        &&& final(self).spec_current_time() == old(self).spec_current_time()
                    } else {
                        &&& next == Some(earliest)
                        &&& final(self).spec_current_time() == earliest.spec_time_stamp()
                    }
                },
            next is None <==> all_beyond(old(self).pending(), old(self).spec_runtime()),
            next is None ==> all_beyond(final(self).pending(), final(self).spec_runtime()),
            next matches Some(event) ==> {
                &&& is_earliest(old(self).pending(), event)
                &&& event.spec_time_stamp() <= final(self).spec_runtime()
                &&& final(self).spec_current_time() == event.spec_time_stamp()
                &&& forall|other: E| #[trigger]
                    final(self).pending().contains(other) ==> event.spec_time_stamp()
                        <= other.spec_time_stamp()
            },
    {
        proof {
            self.event_queue@.to_multiset_ensures();
        }
        if self.event_queue.len() == 0 {
            return None;
        }
        let event = self.take_front();
        proof {
            use_type_invariant(&*self);
            assert forall|other: E| #[trigger]
                self.pending().contains(other) implies event.spec_time_stamp()
                <= other.spec_time_stamp() by {
                assert(old(self).pending().count(other) > 0);
                assert(old(self).pending().contains(other));
            }
        }
        if event.get_time_stamp() > self.runtime {
            None
        } else {
            self.current_time = event.get_time_stamp();
            Some(event)
        }
    }

    /// Take the next event from the scheduler whether or not it lies within
    /// the runtime: an earliest pending event leaves the queue and is handed
    /// out, and the current time becomes its timestamp. There has to be a
    /// pending event.
    pub fn force_next_event(&mut self) -> (event: E)
        requires
            old(self).pending().len() > 0,
        ensures
            is_earliest(old(self).pending(), event),
            final(self).pending() == old(self).pending().remove(event),
            final(self).spec_runtime() == old(self).spec_runtime(),
            final(self).spec_current_time() == event.spec_time_stamp(),
    {
        let event = self.take_front();
        proof {
            use_type_invariant(&*self);
        }
        self.current_time = event.get_time_stamp();
        event
    }
}

} // verus!
