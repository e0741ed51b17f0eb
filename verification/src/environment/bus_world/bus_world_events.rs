//! The events of the bus world.

pub mod import_bus;
pub mod load_passengers;
pub mod move_bus_to_stop;
pub mod new_bus;
pub mod terminal_event;
pub mod unload_passengers;

use crate::event::schedulable::{DecodeError, SchedulableEvent};
use import_bus::ImportBusEvent;
use load_passengers::LoadPassengersEvent;
use move_bus_to_stop::MoveBusToStopEvent;
use new_bus::NewBusEvent;
use terminal_event::TerminalEvent;
use unload_passengers::UnloadPassengersEvent;
use vstd::prelude::*;

verus! {

/// Any event of the bus world.
pub enum BusWorldEvent {
    Terminal(TerminalEvent),
    ImportBus(ImportBusEvent),
    NewBus(NewBusEvent),
    MoveBusToStop(MoveBusToStopEvent),
    LoadPassengers(LoadPassengersEvent),
    UnloadPassengers(UnloadPassengersEvent),
}

impl SchedulableEvent for BusWorldEvent {
    open spec fn spec_event_type(&self) -> Seq<char> {
        match self {
            BusWorldEvent::Terminal(event) => event.spec_event_type(),
            BusWorldEvent::ImportBus(event) => event.spec_event_type(),
            BusWorldEvent::NewBus(event) => event.spec_event_type(),
            BusWorldEvent::MoveBusToStop(event) => event.spec_event_type(),
            BusWorldEvent::LoadPassengers(event) => event.spec_event_type(),
            BusWorldEvent::UnloadPassengers(event) => event.spec_event_type(),
        }
    }

    open spec fn spec_uid(&self) -> usize {
        match self {
            BusWorldEvent::Terminal(event) => event.spec_uid(),
            BusWorldEvent::ImportBus(event) => event.spec_uid(),
            BusWorldEvent::NewBus(event) => event.spec_uid(),
            BusWorldEvent::MoveBusToStop(event) => event.spec_uid(),
            BusWorldEvent::LoadPassengers(event) => event.spec_uid(),
            BusWorldEvent::UnloadPassengers(event) => event.spec_uid(),
        }
    }

    open spec fn spec_time_stamp(&self) -> usize {
        match self {
            BusWorldEvent::Terminal(event) => event.spec_time_stamp(),
            BusWorldEvent::ImportBus(event) => event.spec_time_stamp(),
            BusWorldEvent::NewBus(event) => event.spec_time_stamp(),
            BusWorldEvent::MoveBusToStop(event) => event.spec_time_stamp(),
            BusWorldEvent::LoadPassengers(event) => event.spec_time_stamp(),
            BusWorldEvent::UnloadPassengers(event) => event.spec_time_stamp(),
        }
    }

    open spec fn spec_data(&self) -> Result<Seq<char>, DecodeError> {
        match self {
            BusWorldEvent::Terminal(event) => event.spec_data(),
            BusWorldEvent::ImportBus(event) => event.spec_data(),
            BusWorldEvent::NewBus(event) => event.spec_data(),
            BusWorldEvent::MoveBusToStop(event) => event.spec_data(),
            BusWorldEvent::LoadPassengers(event) => event.spec_data(),
            BusWorldEvent::UnloadPassengers(event) => event.spec_data(),
        }
    }

    fn get_event_type(&self) -> (event_type: &str) {
        match self {
            BusWorldEvent::Terminal(event) => event.get_event_type(),
            BusWorldEvent::ImportBus(event) => event.get_event_type(),
            BusWorldEvent::NewBus(event) => event.get_event_type(),
            BusWorldEvent::MoveBusToStop(event) => event.get_event_type(),
            BusWorldEvent::LoadPassengers(event) => event.get_event_type(),
            BusWorldEvent::UnloadPassengers(event) => event.get_event_type(),
        }
    }

    fn get_uid(&self) -> (uid: usize) {
        match self {
            BusWorldEvent::Terminal(event) => event.get_uid(),
            BusWorldEvent::ImportBus(event) => event.get_uid(),
            BusWorldEvent::NewBus(event) => event.get_uid(),
            BusWorldEvent::MoveBusToStop(event) => event.get_uid(),
            BusWorldEvent::LoadPassengers(event) => event.get_uid(),
            BusWorldEvent::UnloadPassengers(event) => event.get_uid(),
        }
    }

    fn get_time_stamp(&self) -> (time_stamp: usize) {
        match self {
            BusWorldEvent::Terminal(event) => event.get_time_stamp(),
            BusWorldEvent::ImportBus(event) => event.get_time_stamp(),
            BusWorldEvent::NewBus(event) => event.get_time_stamp(),
            BusWorldEvent::MoveBusToStop(event) => event.get_time_stamp(),
            BusWorldEvent::LoadPassengers(event) => event.get_time_stamp(),
            BusWorldEvent::UnloadPassengers(event) => event.get_time_stamp(),
        }
    }

    fn get_data(&self) -> (data: Result<String, DecodeError>) {
        match self {
            BusWorldEvent::Terminal(event) => event.get_data(),
            BusWorldEvent::ImportBus(event) => event.get_data(),
            BusWorldEvent::NewBus(event) => event.get_data(),
            BusWorldEvent::MoveBusToStop(event) => event.get_data(),
            BusWorldEvent::LoadPassengers(event) => event.get_data(),
            BusWorldEvent::UnloadPassengers(event) => event.get_data(),
        }
    }
}

/// The kinds of events of the bus world.
#[derive(Debug, Clone, Copy, PartialEq, Eq, Structural)]
pub enum BusEventTypes {
    TerminalEvent,
    ImportBus,
    NewBus,
    MoveBusToStop,
    LoadPassengers,
    UnloadPassengers,
}

/// The kind of an event.
pub open spec fn kind_of_event(event: BusWorldEvent) -> BusEventTypes {
    match event {
        BusWorldEvent::Terminal(_) => BusEventTypes::TerminalEvent,
        BusWorldEvent::ImportBus(_) => BusEventTypes::ImportBus,
        BusWorldEvent::NewBus(_) => BusEventTypes::NewBus,
        BusWorldEvent::MoveBusToStop(_) => BusEventTypes::MoveBusToStop,
        BusWorldEvent::LoadPassengers(_) => BusEventTypes::LoadPassengers,
        BusWorldEvent::UnloadPassengers(_) => BusEventTypes::UnloadPassengers,
    }
}

impl BusWorldEvent {
    /// The kind of the event.
    pub fn kind(&self) -> (kind: BusEventTypes)
        ensures
            kind == kind_of_event(*self),
    {
        match self {
            BusWorldEvent::Terminal(_) => BusEventTypes::TerminalEvent,
            BusWorldEvent::ImportBus(_) => BusEventTypes::ImportBus,
            BusWorldEvent::NewBus(_) => BusEventTypes::NewBus,
            BusWorldEvent::MoveBusToStop(_) => BusEventTypes::MoveBusToStop,
            BusWorldEvent::LoadPassengers(_) => BusEventTypes::LoadPassengers,
            BusWorldEvent::UnloadPassengers(_) => BusEventTypes::UnloadPassengers,
        }
    }

    /// The event as text: the text of the event it holds.
    pub fn to_text(&self) -> (text: String)
        ensures
            text@ == (match self {
                BusWorldEvent::Terminal(event) => terminal_event::terminal_text(*event),
                BusWorldEvent::ImportBus(event) => import_bus::import_text(*event),
                BusWorldEvent::NewBus(event) => new_bus::new_bus_text(*event),
                BusWorldEvent::MoveBusToStop(event) => move_bus_to_stop::move_text(*event),
                BusWorldEvent::LoadPassengers(event) => load_passengers::load_text(*event),
                BusWorldEvent::UnloadPassengers(event) => unload_passengers::unload_text(*event),
            }),
    {
        match self {
            BusWorldEvent::Terminal(event) => event.to_text(),
            BusWorldEvent::ImportBus(event) => event.to_text(),
            BusWorldEvent::NewBus(event) => event.to_text(),
            BusWorldEvent::MoveBusToStop(event) => event.to_text(),
            BusWorldEvent::LoadPassengers(event) => event.to_text(),
            BusWorldEvent::UnloadPassengers(event) => event.to_text(),
        }
    }
}

} // verus!
