//! What the simulation driver needs from a domain.

use crate::des::scheduler::Scheduler;
use crate::event::schedulable::SchedulableEvent;
use crate::statistics::stats::Stats;
use crate::statistics::timeseries::TimeSeriesView;
use vstd::prelude::*;

verus! {

/// A condition that an environment cannot recover from. A run stops at the
/// first one.
#[derive(Debug, Clone, Copy, PartialEq, Eq, Structural)]
pub enum DispatchError {
    /// The discriminator of the event names no kind the environment handles.
    UnknownEventType,
    /// The payload of the event does not decode to what its kind requires.
    UndecodablePayload,
    /// The event refers to an entity that the environment does not hold.
    MissingEntity,
}

/// The handling of one event: the event, the scheduler and the statistics
/// as they were handed to the environment and as it left them, and what the
/// environment answered.
pub struct Handling<E: SchedulableEvent> {
    pub event: E,
    pub scheduler_before: Scheduler<E>,
    pub scheduler_after: Scheduler<E>,
    pub statistics_before: Seq<TimeSeriesView>,
    pub statistics_after: Seq<TimeSeriesView>,
    pub outcome: Result<(), DispatchError>,
}

/// A pluggable domain state machine that interprets events and emits further
/// events.
pub trait Environment: Sized {
    /// The events this environment interprets.
    type Event: SchedulableEvent;

    /// `self` is what the environment may be after `handling`, if it was
    /// `before`. Unless an environment says what it does with an event, it
    /// may do anything.
    open spec fn applied(&self, before: &Self, handling: Handling<Self::Event>) -> bool {
        true
    }

    /// `event` is what the environment may hand out as its terminating
    /// event. Unless an environment says what its terminating event is, any
    /// event may be.
    open spec fn terminates(&self, event: Self::Event) -> bool {
        true
    }

    /// The sole state-mutation entry point: interpret `event`, possibly
    /// enqueue further events and record statistics. The runtime of the
    /// scheduler is left as it is.
    fn apply_event(
        &mut self,
        scheduler: &mut Scheduler<Self::Event>,
        stat_recorder: &mut Stats,
        event: Self::Event,
    ) -> (outcome: Result<(), DispatchError>)
        ensures
            final(scheduler).spec_runtime() == old(scheduler).spec_runtime(),
            final(self).applied(
                old(self),
                (Handling {
                    event,
                    scheduler_before: *old(scheduler),
                    scheduler_after: *final(scheduler),
                    statistics_before: old(stat_recorder)@,
                    statistics_after: final(stat_recorder)@,
                    outcome,
                }),
            ),
    ;

    /// A snapshot of the state, for people and programs to read.
    fn get_state(&self) -> String;

    /// The event that settles accounts when the run ends. It takes place
    /// exactly at the runtime of the scheduler.
    fn terminating_event(&self, scheduler: &Scheduler<Self::Event>) -> (event: Self::Event)
        ensures
            event.spec_time_stamp() == scheduler.spec_runtime(),
            self.terminates(event),
    ;
}

} // verus!
