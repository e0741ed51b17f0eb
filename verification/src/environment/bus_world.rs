//! An example environment: buses carry passengers along a line of stops.

pub mod bus;
pub mod bus_environment;
pub mod bus_scenario_traits;
pub mod bus_stop;
pub mod bus_world_events;
pub mod passenger;
pub mod passenger_map;
pub mod utils;

use crate::des::scheduler::Scheduler;
use crate::environment::env::{DispatchError, Environment, Handling};
use crate::event::schedulable::SchedulableEvent;
use crate::statistics::stats::Stats;
use crate::text::{clip, decimal, decimal_text, sat_add};
use bus_world_events::BusEventTypes;
use bus_scenario_traits::{cause_of, follows, later, next_uid};
use bus_world_events::new_bus::NewBusEvent;
use bus_world_events::terminal_event::TerminalEvent;
use bus_world_events::BusWorldEvent;
use vstd::prelude::*;

verus! {

/// The smallest bus world: it only counts its buses. Every new bus brings
/// the next one a second later, for as long as the run lasts.
pub struct BusWorld {
    pub number_of_buses: usize,
}

/// The payload of the events with which a `BusWorld` keeps itself going.
pub open spec fn dummy_payload() -> Seq<char> {
    "dummy_bus_event"@
}

/// The texts of the first `upto` buses, one after the other.
pub open spec fn bus_numbers(upto: nat) -> Seq<char>
    decreases upto,
{
    if upto == 0 {
        Seq::empty()
    } else {
        bus_numbers((upto - 1) as nat) + "Bus "@ + decimal_text((upto - 1) as nat)
    }
}

impl BusWorld {
    /// A world without buses.
    pub fn new() -> (created: BusWorld)
        ensures
            created.number_of_buses == 0,
    {
        BusWorld { number_of_buses: 0 }
    }

    /// A new bus: the world counts it and schedules the next one, a second
    /// later.
    pub fn apply_new_bus_event(
        &mut self,
        scheduler: &mut Scheduler<BusWorldEvent>,
        event: BusWorldEvent,
    )
        ensures
            final(self).number_of_buses == clip(old(self).number_of_buses as nat + 1),
            final(scheduler).spec_runtime() == old(scheduler).spec_runtime(),
            final(scheduler).spec_current_time() == old(scheduler).spec_current_time(),
            exists|next: BusWorldEvent|
                {
                    &&& #[trigger] follows(
                        next,
                        "NewBus"@,
                        next_uid(cause_of(event)),
                        later(cause_of(event), 1),
                        dummy_payload(),
                    )
                    &&& final(scheduler).pending() == old(scheduler).pending().insert(next)
                },
    {
        self.number_of_buses = sat_add(self.number_of_buses, 1);
        let dummy_event = NewBusEvent::new(
            sat_add(event.get_uid(), 1),
            sat_add(event.get_time_stamp(), 1),
            "dummy_bus_event".to_string(),
        );
        let next = BusWorldEvent::NewBus(dummy_event);
        assert(follows(next, "NewBus"@, next_uid(cause_of(event)), later(cause_of(event), 1), dummy_payload()));
        scheduler.add_event(next);
    }

    /// The world as text: its buses by number.
    pub fn to_text(&self) -> (text: String)
        ensures
            text@ == bus_numbers(self.number_of_buses as nat),
    {
        let mut text = String::new();
        let mut number: usize = 0;
        while number < self.number_of_buses
            invariant
                number <= self.number_of_buses,
                text@ == bus_numbers(number as nat),
            decreases self.number_of_buses - number,
        {
            text = text.concat("Bus ").concat(decimal(number).as_str());
            number += 1;
        }
        text
    }
}

impl Environment for BusWorld {
    type Event = BusWorldEvent;

    /// A new bus is counted and brings the next one, a second later. The
    /// terminating event changes nothing. Any other event is of a kind this
    /// world does not know, which is fatal and changes nothing either. The
    /// statistics and the current time stay as they are in any case.
    open spec fn applied(&self, before: &BusWorld, handling: Handling<BusWorldEvent>) -> bool {
        let event = handling.event;
        &&& handling.statistics_after == handling.statistics_before
        &&& handling.scheduler_after.spec_current_time()
            == handling.scheduler_before.spec_current_time()
        &&& handling.outcome == (match event {
            BusWorldEvent::NewBus(_) => Ok::<(), DispatchError>(()),
            BusWorldEvent::Terminal(_) => Ok(()),
            _ => Err(DispatchError::UnknownEventType),
        })
        &&& event is NewBus ==> {
            &&& self.number_of_buses == clip(before.number_of_buses as nat + 1)
            &&& exists|next: BusWorldEvent|
                {
                    &&& #[trigger] follows(
                        next,
                        "NewBus"@,
                        next_uid(cause_of(event)),
                        later(cause_of(event), 1),
                        dummy_payload(),
                    )
                    &&& handling.scheduler_after.pending()
                        == handling.scheduler_before.pending().insert(next)
                }
        }
        &&& !(event is NewBus) ==> {
            &&& self.number_of_buses == before.number_of_buses
            &&& handling.scheduler_after.pending() == handling.scheduler_before.pending()
        }
    }

    /// The terminating event is a `Terminal` event.
    open spec fn terminates(&self, event: BusWorldEvent) -> bool {
        event is Terminal
    }

    /// A new bus is counted and brings the next one. The terminating event
    /// changes nothing. Any other event is of a kind this world does not
    /// know, which is fatal and leaves everything as it was.
    fn apply_event(
        &mut self,
        scheduler: &mut Scheduler<BusWorldEvent>,
        stat_recorder: &mut Stats,
        event: BusWorldEvent,
    ) -> (outcome: Result<(), DispatchError>)
        ensures
            final(stat_recorder)@ == old(stat_recorder)@,
            final(scheduler).spec_current_time() == old(scheduler).spec_current_time(),
            outcome == (match event {
                BusWorldEvent::NewBus(_) => Ok::<(), DispatchError>(()),
                BusWorldEvent::Terminal(_) => Ok(()),
                _ => Err(DispatchError::UnknownEventType),
            }),
            event is NewBus ==> {
                &&& final(self).number_of_buses == clip(old(self).number_of_buses as nat + 1)
                &&& exists|next: BusWorldEvent|
                    {
                        &&& #[trigger] follows(
                            next,
                            "NewBus"@,
                            next_uid(cause_of(event)),
                            later(cause_of(event), 1),
                            dummy_payload(),
                        )
                        &&& final(scheduler).pending() == old(scheduler).pending().insert(next)
                    }
            },
            !(event is NewBus) ==> {
                &&& final(self).number_of_buses == old(self).number_of_buses
                &&& final(scheduler).pending() == old(scheduler).pending()
            },
    {
        match event.kind() {
            BusEventTypes::NewBus => {
                self.apply_new_bus_event(scheduler, event);
                Ok(())
            },
            BusEventTypes::TerminalEvent => Ok(()),
            _ => Err(DispatchError::UnknownEventType),
        }
    }

    /// The number of buses, in words.
    fn get_state(&self) -> (state: String)
        ensures
            state@ == "Number of buses: "@ + decimal_text(self.number_of_buses as nat),
    {
        "Number of buses: ".to_string().concat(decimal(self.number_of_buses).as_str())
    }

    fn terminating_event(&self, scheduler: &Scheduler<BusWorldEvent>) -> (event: BusWorldEvent)
        ensures
            event is Terminal,
    {
        BusWorldEvent::Terminal(TerminalEvent::new(usize::MAX, scheduler.runtime(), String::new()))
    }
}

} // verus!
