//! Runs a simulation for any environment.

use crate::des::scheduler::{all_beyond, is_earliest, Scheduler};
use crate::environment::env::{DispatchError, Environment, Handling};
use crate::event::schedulable::SchedulableEvent;
use crate::statistics::data_point::DataPoint;
use crate::statistics::stats::{recorded, Stats};
use crate::statistics::timeseries::TimeSeriesView;
use vstd::multiset::Multiset;
use vstd::prelude::*;

verus! {

/// The label under which a run records how many events it dispatched.
pub open spec fn events_ran_label() -> Seq<char> {
    "Events Ran"@
}

/// The unit in which a run records how many events it dispatched.
pub open spec fn events_ran_unit() -> Seq<char> {
    "Count"@
}

/// One dispatch: the environment as it was and as it became, and the
/// handling of the event in between.
pub struct Dispatch<Env: Environment> {
    pub environment_before: Env,
    pub environment_after: Env,
    pub handling: Handling<Env::Event>,
}

/// The environment of the dispatch did what it says it does with an event.
pub open spec fn was_applied<Env: Environment>(dispatch: Dispatch<Env>) -> bool {
    dispatch.environment_after.applied(&dispatch.environment_before, dispatch.handling)
}

/// The event of the dispatch was taken from `queue` as the scheduler hands
/// events out: it was an earliest pending event, it lies within the runtime,
/// and it was dispatched at its own time, with the rest of the queue
/// pending.
pub open spec fn taken_from<Env: Environment>(
    queue: Scheduler<Env::Event>,
    dispatch: Dispatch<Env>,
) -> bool {
    let event = dispatch.handling.event;
    let at = dispatch.handling.scheduler_before;
    &&& is_earliest(queue.pending(), event)
    &&& event.spec_time_stamp() <= queue.spec_runtime()
    &&& at.pending() == queue.pending().remove(event)
    &&& at.spec_current_time() == event.spec_time_stamp()
    &&& at.spec_runtime() == queue.spec_runtime()
}

/// The dispatch is that of the terminating event: the event is what the
/// environment hands out as its terminating event, it takes place at the
/// runtime and was dispatched then, and nothing else was pending within the
/// runtime.
pub open spec fn is_finale<Env: Environment>(dispatch: Dispatch<Env>, runtime: usize) -> bool {
    let event = dispatch.handling.event;
    let at = dispatch.handling.scheduler_before;
    &&& dispatch.environment_before.terminates(event)
    &&& event.spec_time_stamp() == runtime
    &&& at.spec_current_time() == runtime
    &&& at.spec_runtime() == runtime
    &&& all_beyond(at.pending(), runtime)
}

/// `next` went on from what `previous` left of the environment and of the
/// statistics.
pub open spec fn continues<Env: Environment>(previous: Dispatch<Env>, next: Dispatch<Env>) -> bool {
    &&& next.environment_before == previous.environment_after
    &&& next.handling.statistics_before == previous.handling.statistics_after
}

/// A scheduler, the environment that its events are applied to, and the
/// statistics of the run.
pub struct Simulation<Env: Environment> {
    scheduler: Scheduler<Env::Event>,
    environment: Env,
    statistics: Stats,
    history: Ghost<Seq<Dispatch<Env>>>,
    finalizations: Ghost<nat>,
}

impl<Env: Environment> Simulation<Env> {
    /// The scheduler of the simulation.
    pub closed spec fn scheduler(&self) -> Scheduler<Env::Event> {
        self.scheduler
    }

    /// The environment of the simulation.
    pub closed spec fn spec_environment(&self) -> Env {
        self.environment
    }

    /// The statistics recorded so far.
    pub closed spec fn spec_statistics(&self) -> Stats {
        self.statistics
    }

    /// Every dispatch so far, in order.
    pub closed spec fn history(&self) -> Seq<Dispatch<Env>> {
        self.history@
    }

    /// How many times the terminating event of the environment was
    /// dispatched.
    pub closed spec fn finalizations(&self) -> nat {
        self.finalizations@
    }

    /// Create a simulation with the given runtime, environment and initial
    /// event. The initial event kicks the simulation off: events schedule
    /// their successors, so without it nothing happens.
    pub fn new(runtime: usize, environment: Env, initial_event: Env::Event) -> (created: Self)
        ensures
            created.scheduler().spec_runtime() == runtime,
            created.scheduler().spec_current_time() == 0,
            created.scheduler().pending() == Multiset::<Env::Event>::empty().insert(initial_event),
            created.spec_environment() == environment,
            created.spec_statistics()@ == Seq::<TimeSeriesView>::empty(),
            created.history() == Seq::<Dispatch<Env>>::empty(),
            created.finalizations() == 0,
    {
        let mut sim = Simulation {
            scheduler: Scheduler::new(runtime),
            environment,
            statistics: Stats::new(),
            history: Ghost(Seq::empty()),
            finalizations: Ghost(0),
        };
        sim.scheduler.add_event(initial_event);
        sim
    }

    /// Enqueue an event from outside the environment.
    pub fn add_arbitrary_event(&mut self, from: Env::Event)
        ensures
            final(self).scheduler().pending() == old(self).scheduler().pending().insert(from),
            final(self).scheduler().spec_runtime() == old(self).scheduler().spec_runtime(),
            final(self).scheduler().spec_current_time() == old(self).scheduler().spec_current_time(),
            final(self).spec_environment() == old(self).spec_environment(),
            final(self).spec_statistics() == old(self).spec_statistics(),
            final(self).history() == old(self).history(),
            final(self).finalizations() == old(self).finalizations(),
    {
        self.scheduler.add_event(from);
    }

    /// The environment of the simulation.
    pub fn environment(&self) -> (environment: &Env)
        ensures
            *environment == self.spec_environment(),
    {
        &self.environment
    }

    /// The statistics recorded so far.
    pub fn statistics(&self) -> (statistics: &Stats)
        ensures
            *statistics == self.spec_statistics(),
    {
        &self.statistics
    }

    /// Take the simulation apart into its environment and its statistics.
    pub fn into_parts(self) -> (parts: (Env, Stats))
        ensures
            parts.0 == self.spec_environment(),
            parts.1 == self.spec_statistics(),
    {
        (self.environment, self.statistics)
    }

    /// The current simulation time.
    pub fn current_time(&self) -> (current_time: usize)
        ensures
            current_time == self.scheduler().spec_current_time(),
    {
        self.scheduler.current_time()
    }

    /// Take the next event from the scheduler, as `Scheduler::next_event`
    /// does.
    pub fn next_event(&mut self) -> (next: Option<Env::Event>)
        ensures
            final(self).scheduler().spec_runtime() == old(self).scheduler().spec_runtime(),
            final(self).spec_environment() == old(self).spec_environment(),
            final(self).spec_statistics() == old(self).spec_statistics(),
            final(self).history() == old(self).history(),
            final(self).finalizations() == old(self).finalizations(),
            next is None <==> all_beyond(
                old(self).scheduler().pending(),
                old(self).scheduler().spec_runtime(),
            ),
            old(self).scheduler().pending().len() == 0 ==> {
                &&& next is None
                &&& final(self).scheduler().pending() == old(self).scheduler().pending()
                &&& final(self).scheduler().spec_current_time() == old(
                    self,
                ).scheduler().spec_current_time()
            },
            old(self).scheduler().pending().len() > 0 ==> exists|earliest: Env::Event|
                {
                    &&& is_earliest(old(self).scheduler().pending(), earliest)
                    &&& final(self).scheduler().pending() == old(self).scheduler().pending().remove(
                        earliest,
                    )
                    &&& if earliest.spec_time_stamp() > old(self).scheduler().spec_runtime() {
                        &&& next is None
                        &&& final(self).scheduler().spec_current_time() == old(
                            self,
                        ).scheduler().spec_current_time()
                    } else {
                        &&& next == Some(earliest)
                        &&& final(self).scheduler().spec_current_time()
                            == earliest.spec_time_stamp()
                    }
                },
            next is None ==> all_beyond(
                final(self).scheduler().pending(),
                final(self).scheduler().spec_runtime(),
            ),
            next matches Some(event) ==> {
                &&& is_earliest(old(self).scheduler().pending(), event)
                &&& event.spec_time_stamp() <= final(self).scheduler().spec_runtime()
                &&& final(self).scheduler().spec_current_time() == event.spec_time_stamp()
            },
    {
        self.scheduler.next_event()
    }

    /// Hand `event` to the environment. The dispatch goes down in the
    /// history: the event, what the environment answered, and the
    /// environment, the scheduler and the statistics before and after.
    pub fn dispatch(&mut self, event: Env::Event) -> (outcome: Result<(), DispatchError>)
        ensures
            final(self).history() == old(self).history().push(
                Dispatch {
                    environment_before: old(self).spec_environment(),
                    environment_after: final(self).spec_environment(),
                    handling: Handling {
                        event,
                        scheduler_before: old(self).scheduler(),
                        scheduler_after: final(self).scheduler(),
                        statistics_before: old(self).spec_statistics()@,
                        statistics_after: final(self).spec_statistics()@,
                        outcome,
                    },
                },
            ),
            was_applied(final(self).history().last()),
            final(self).finalizations() == old(self).finalizations(),
            final(self).scheduler().spec_runtime() == old(self).scheduler().spec_runtime(),
    {
        let ghost environment_before = self.environment;
        let ghost scheduler_before = self.scheduler;
        let ghost statistics_before = self.statistics@;
        let ghost before = self.history@;
        let outcome = self.environment.apply_event(&mut self.scheduler, &mut self.statistics, event);
        self.history = Ghost(
            before.push(
                Dispatch {
                    environment_before,
                    environment_after: self.environment,
                    handling: Handling {
                        event,
                        scheduler_before,
                        scheduler_after: self.scheduler,
                        statistics_before,
                        statistics_after: self.statistics@,
                        outcome,
                    },
                },
            ),
        );
        outcome
    }

    /// Drop the events that are still pending at or before the runtime.
    fn discard_pending(&mut self)
        ensures
            all_beyond(final(self).scheduler().pending(), final(self).scheduler().spec_runtime()),
            final(self).scheduler().spec_runtime() == old(self).scheduler().spec_runtime(),
            final(self).history() == old(self).history(),
            final(self).finalizations() == old(self).finalizations(),
            final(self).spec_environment() == old(self).spec_environment(),
            final(self).spec_statistics() == old(self).spec_statistics(),
    {
        loop
            invariant
                self.scheduler.spec_runtime() == old(self).scheduler.spec_runtime(),
                self.history == old(self).history,
                self.finalizations == old(self).finalizations,
                self.environment == old(self).environment,
                self.statistics == old(self).statistics,
            ensures
                all_beyond(self.scheduler.pending(), self.scheduler.spec_runtime()),
            decreases self.scheduler.pending().len(),
        {
            let ghost before = self.scheduler.pending();
            let next = self.scheduler.next_event();
            if next.is_none() {
                break;
            }
            assert(before.len() > 0);
        }
    }

    /// Settle accounts: the terminating event of the environment is enqueued,
    /// taken out again whatever the runtime, and dispatched at the runtime.
    /// Whatever was still pending at or before the runtime is dropped first,
    /// so the terminating event is the one that comes out.
    pub fn terminal_event(&mut self) -> (outcome: Result<(), DispatchError>)
        ensures
            final(self).history().len() == old(self).history().len() + 1,
            final(self).history().drop_last() == old(self).history(),
            is_finale(final(self).history().last(), old(self).scheduler().spec_runtime()),
            was_applied(final(self).history().last()),
            final(self).history().last().environment_before == old(self).spec_environment(),
            final(self).history().last().handling.statistics_before == old(
                self,
            ).spec_statistics()@,
            all_beyond(old(self).scheduler().pending(), old(self).scheduler().spec_runtime())
                ==> final(self).history().last().handling.scheduler_before.pending() == old(
                self,
            ).scheduler().pending(),
            final(self).history().last().handling.outcome == outcome,
            final(self).history().last().environment_after == final(self).spec_environment(),
            final(self).history().last().handling.scheduler_after == final(self).scheduler(),
            final(self).history().last().handling.statistics_after == final(self).spec_statistics()@,
            final(self).finalizations() == old(self).finalizations() + 1,
            final(self).scheduler().spec_runtime() == old(self).scheduler().spec_runtime(),
    {
        if !self.scheduler.is_exhausted() {
            self.discard_pending();
        }
        let completion_event = self.environment.terminating_event(&self.scheduler);
        let ghost waiting = self.scheduler.pending();
        self.scheduler.add_event(completion_event);
        proof {
            assert(waiting.insert(completion_event).count(completion_event) > 0);
            assert(waiting.insert(completion_event).len() > 0);
        }
        let last_event = self.scheduler.force_next_event();
        proof {
            assert(waiting.insert(completion_event).contains(completion_event));
            if last_event != completion_event {
                assert(waiting.contains(last_event));
            }
            assert(self.scheduler.pending() =~= waiting);
        }
        self.finalizations = Ghost(self.finalizations@ + 1);
        let outcome = self.dispatch(last_event);
        assert(self.history@.drop_last() =~= old(self).history@);
        outcome
    }

    /// Run the simulation to completion.
    ///
    /// Events are taken from the scheduler and applied to the environment
    /// until the scheduler hands out no more. Then the terminating event of
    /// the environment is dispatched, and the number of events that ran is
    /// recorded under "Events Ran" at the final simulation time. A fatal
    /// condition reported by the environment ends the run at once: the run
    /// returns what the last dispatch returned. No more events are
    /// dispatched than a machine word can count; what is still pending
    /// within the runtime after that many is dropped.
    pub fn run(&mut self) -> (outcome: Result<(), DispatchError>)
        ensures
            is_run(*old(self), *final(self), outcome),
    {
        let mut event_count: usize = 0;
        let ghost start = self.history@.len() as int;
        let ghost runtime = self.scheduler.spec_runtime();
        assert(self.history@.subrange(0, start) =~= old(self).history@);
        while event_count < usize::MAX
            invariant_except_break
                event_count == 0 ==> self.scheduler == old(self).scheduler,
                event_count > 0 ==> self.scheduler
                    == self.history@.last().handling.scheduler_after,
            invariant
                start == old(self).history@.len(),
                runtime == old(self).scheduler.spec_runtime(),
                self.scheduler.spec_runtime() == runtime,
                self.finalizations == old(self).finalizations,
                self.history@.len() == start + event_count,
                self.history@.subrange(0, start) == old(self).history@,
                event_count == 0 ==> self.environment == old(self).environment && self.statistics
                    == old(self).statistics,
                event_count > 0 ==> ordinary_so_far(*old(self), self.history@, event_count as int),
                event_count > 0 ==> self.environment == self.history@.last().environment_after
                    && self.statistics@ == self.history@.last().handling.statistics_after,
                event_count > 0 ==> forall|i: int|
                    start <= i < self.history@.len() ==> (
                    #[trigger] self.history@[i]).handling.outcome is Ok,
            ensures
                start == old(self).history@.len(),
                self.scheduler.spec_runtime() == runtime,
                self.finalizations == old(self).finalizations,
                self.history@.len() == start + event_count,
                self.history@.subrange(0, start) == old(self).history@,
                event_count == 0 ==> self.environment == old(self).environment && self.statistics
                    == old(self).statistics,
                event_count > 0 ==> ordinary_so_far(*old(self), self.history@, event_count as int),
                event_count > 0 ==> self.environment == self.history@.last().environment_after
                    && self.statistics@ == self.history@.last().handling.statistics_after,
                event_count > 0 ==> forall|i: int|
                    start <= i < self.history@.len() ==> (
                    #[trigger] self.history@[i]).handling.outcome is Ok,
                event_count < usize::MAX ==> all_beyond(
                    queue_left(*old(self), self.history@, event_count as int).pending(),
                    runtime,
                ),
                all_beyond(self.scheduler.pending(), runtime) || event_count == usize::MAX,
            decreases usize::MAX - event_count,
        {
            let ghost queue = self.scheduler;
            let ghost before = self.history@;
            match self.scheduler.next_event() {
                Some(event) => {
                    let outcome = self.dispatch(event);
                    proof {
                        let now = self.history@;
                        assert(now.subrange(0, start) =~= before.subrange(0, start));
                        assert forall|i: int| start <= i < before.len() implies (#[trigger] now[i])
                            == before[i] by {}
                        assert(taken_from(queue, now.last()));
                        assert(ordinary_so_far(*old(self), now, event_count as int + 1)) by {
                            if event_count > 0 {
                                assert(ordinary_so_far(*old(self), before, event_count as int));
                                assert forall|i: int| start < i < start + event_count + 1 implies {
                                    &&& taken_from((#[trigger] now[i - 1]).handling.scheduler_after, now[i])
                                    &&& continues(now[i - 1], now[i])
                                } by {
                                    if i < start + event_count {
                                        assert(now[i - 1] == before[i - 1]);
                                        assert(now[i] == before[i]);
                                    }
                                }
                            }
                        }
                    }
                    if outcome.is_err() {
                        proof {
                            assert(is_run(*old(self), *self, outcome));
                        }
                        return outcome;
                    }
                    event_count += 1;
                },
                None => {
                    break;
                },
            }
        }
        let ghost before = self.history@;
        let outcome = self.terminal_event();
        proof {
            let now = self.history@;
            assert(now.drop_last() == before);
            assert(now.subrange(0, start) =~= before.subrange(0, start));
            assert forall|i: int| start <= i < before.len() implies (#[trigger] now[i]) == before[i] by {}
            if event_count > 0 {
                assert(ordinary_so_far(*old(self), before, event_count as int));
                assert(ordinary_so_far(*old(self), now, event_count as int)) by {
                    assert forall|i: int| start < i < start + event_count implies {
                        &&& taken_from((#[trigger] now[i - 1]).handling.scheduler_after, now[i])
                        &&& continues(now[i - 1], now[i])
                    } by {
                        assert(now[i - 1] == before[i - 1]);
                        assert(now[i] == before[i]);
                    }
                }
                assert(now[now.len() - 2] == before.last());
            }
        }
        if outcome.is_err() {
            return outcome;
        }
        let data_point = DataPoint::new(self.scheduler.current_time(), event_count, "Count".to_string());
        self.statistics.add_statistic(data_point, "Events Ran".to_string());
        outcome
    }
}

/// Terminal finalization: a run in which every dispatch ends well ends well,
/// and it dispatches the terminating event of the environment exactly once,
/// last and at the runtime, whatever ordinary events came before it.
pub proof fn lemma_terminal_finalization<Env: Environment>(
    before: Simulation<Env>,
    after: Simulation<Env>,
    outcome: Result<(), DispatchError>,
)
    requires
        is_run(before, after, outcome),
        forall|i: int|
            before.history().len() <= i < after.history().len() ==> (
            #[trigger] after.history()[i]).handling.outcome is Ok,
    ensures
        outcome is Ok,
        after.finalizations() == before.finalizations() + 1,
        is_finale(after.history().last(), before.scheduler().spec_runtime()),
        after.history().last().handling.event.spec_time_stamp() == before.scheduler().spec_runtime(),
        after.history().last().handling.scheduler_before.spec_current_time()
            == before.scheduler().spec_runtime(),
{
    assert(after.history()[after.history().len() - 1].handling.outcome is Ok);
}

/// The first `ordinary` dispatches of `history` after those of `before` are
/// ordinary dispatches of a run: each took its event from the queue that the
/// one before it left, the first from the queue of `before`, and each went on
/// from what the one before it left, the first from `before`; and each
/// environment did what it says it does.
pub open spec fn ordinary_so_far<Env: Environment>(
    before: Simulation<Env>,
    history: Seq<Dispatch<Env>>,
    ordinary: int,
) -> bool {
    let start = before.history().len() as int;
    &&& taken_from(before.scheduler(), history[start])
    &&& history[start].environment_before == before.spec_environment()
    &&& history[start].handling.statistics_before == before.spec_statistics()@
    &&& forall|i: int| start <= i < start + ordinary ==> was_applied(#[trigger] history[i])
    &&& forall|i: int|
        start < i < start + ordinary ==> {
            &&& taken_from((#[trigger] history[i - 1]).handling.scheduler_after, history[i])
            &&& continues(history[i - 1], history[i])
        }
}

/// The queue that the last of `ordinary` ordinary dispatches left: that of
/// `before` where there was none.
pub open spec fn queue_left<Env: Environment>(
    before: Simulation<Env>,
    history: Seq<Dispatch<Env>>,
    ordinary: int,
) -> Scheduler<Env::Event> {
    if ordinary == 0 {
        before.scheduler()
    } else {
        history[before.history().len() + ordinary - 1].handling.scheduler_after
    }
}

/// `after` and `outcome` are what a run makes of `before`.
///
/// The history grows by the dispatches of the run. First come the ordinary
/// dispatches: each takes an earliest pending event within the runtime from
/// the queue that the dispatch before it left. They end when nothing within
/// the runtime is pending any more, or when there were as many as a machine
/// word can count. Then comes the dispatch of the terminating event, at the
/// runtime. Every dispatch but the last ended well, and the run returns what
/// the last returned; a dispatch that fails is the last, so that the
/// terminating event is dispatched once unless an ordinary dispatch failed.
/// A run that ends well records the number of ordinary dispatches under
/// "Events Ran", at the final time, on top of the statistics as the last
/// dispatch left them; a run that fails records nothing.
pub open spec fn is_run<Env: Environment>(
    before: Simulation<Env>,
    after: Simulation<Env>,
    outcome: Result<(), DispatchError>,
) -> bool {
    let start = before.history().len() as int;
    let runtime = before.scheduler().spec_runtime();
    let history = after.history();
    let finale = after.finalizations() == before.finalizations() + 1;
    let ordinary = if finale {
        history.len() - start - 1
    } else {
        history.len() - start
    };
    &&& after.scheduler().spec_runtime() == runtime
    &&& history.len() > start
    &&& history.subrange(0, start) == before.history()
    &&& finale || (after.finalizations() == before.finalizations() && outcome is Err)
    &&& ordinary <= usize::MAX
    &&& ordinary > 0 ==> ordinary_so_far(before, history, ordinary)
    &&& finale ==> {
        &&& is_finale(history.last(), runtime)
        &&& was_applied(history.last())
        &&& history.last().environment_before == if ordinary == 0 {
            before.spec_environment()
        } else {
            history[history.len() - 2].environment_after
        }
        &&& history.last().handling.statistics_before == if ordinary == 0 {
            before.spec_statistics()@
        } else {
            history[history.len() - 2].handling.statistics_after
        }
        &&& ordinary < usize::MAX ==> all_beyond(
            queue_left(before, history, ordinary).pending(),
            runtime,
        )
    }
    &&& all_beyond(before.scheduler().pending(), runtime) ==> ordinary == 0 && finale
    &&& forall|i: int| start <= i < history.len() - 1 ==> (#[trigger] history[i]).handling.outcome is Ok
    &&& outcome == history.last().handling.outcome
    &&& after.spec_environment() == history.last().environment_after
    &&& after.scheduler() == history.last().handling.scheduler_after
    &&& outcome is Ok ==> {
        &&& finale
        &&& after.spec_statistics()@ == recorded(
            history.last().handling.statistics_after,
            events_ran_label(),
            after.scheduler().spec_current_time(),
            ordinary as usize,
            events_ran_unit(),
        )
    }
    &&& outcome is Err ==> after.spec_statistics()@ == history.last().handling.statistics_after
}

} // verus!
