//! What the events of the bus world do to it, one capability per kind of
//! change, and how the bus world provides each.

use super::bus::{bus_of_facts, bus_views, Bus, BusView};
use super::bus_environment::{
    lemma_stop_position, lemma_stop_position_same_names, lemma_stop_with_bus, same_names,
    stop_names_of, stop_position, stop_with_bus, with_bus_at, without_bus, BusEnvironment,
    BusEnvironmentSettings,
};
use super::bus_stop::{
    alighted_stop, boarded_count, boarded_stop, bus_position, lemma_bus_position, BusStopView,
};
use super::bus_world_events::import_bus::ImportBusesJson;
use super::bus_world_events::load_passengers::{LoadPassengersEvent, LoadPassengersJson};
use super::bus_world_events::move_bus_to_stop::{BusToStopMappingJson, MoveBusToStopEvent};
use super::bus_world_events::new_bus::NewBusesJson;
use super::bus_world_events::unload_passengers::{UnloadPassengersEvent, UnloadPassengersJson};
use super::bus_world_events::BusWorldEvent;
use super::passenger_map::bound_for;
use crate::des::scheduler::Scheduler;
use crate::environment::env::DispatchError;
use crate::event::schedulable::{DecodeError, SchedulableEvent};
use crate::json::{
    buses_of_json, count_pair_of_json, json_of_texts, single_text_of_json, text_pair_of_json,
    BusFacts,
};
use crate::statistics::data_point::DataPoint;
use crate::statistics::stats::{recorded, Stats};
use crate::statistics::timeseries::TimeSeriesView;
use crate::text::{clip, lemma_clip_product, lemma_clip_sum, sat_add, sat_mul};
use vstd::multiset::Multiset;
use vstd::prelude::*;

verus! {

/// The bus world at one moment: its stops, the events that are pending, and
/// the statistics.
pub struct Moment {
    pub bus_stops: Seq<BusStopView>,
    pub pending: Multiset<BusWorldEvent>,
    pub statistics: Seq<TimeSeriesView>,
}

/// `next` is an event of the given kind, origin and time with the given
/// payload.
pub open spec fn follows(
    next: BusWorldEvent,
    event_type: Seq<char>,
    uid: usize,
    time_stamp: usize,
    data: Seq<char>,
) -> bool {
    &&& next.spec_event_type() == event_type
    &&& next.spec_uid() == uid
    &&& next.spec_time_stamp() == time_stamp
    &&& next.spec_data() == Ok::<Seq<char>, DecodeError>(data)
}

/// What the events that follow an event go by: its origin and its time.
pub struct Cause {
    pub uid: usize,
    pub time_stamp: usize,
}

/// The origin and the time of `event`.
pub open spec fn cause_of(event: BusWorldEvent) -> Cause {
    Cause { uid: event.spec_uid(), time_stamp: event.spec_time_stamp() }
}

/// The origin of the events that follow: one more than that of their cause,
/// as far as numbers go.
pub open spec fn next_uid(cause: Cause) -> usize {
    clip(cause.uid as nat + 1)
}

/// The time `delay` after the cause, as far as numbers go.
pub open spec fn later(cause: Cause, delay: nat) -> usize {
    clip(cause.time_stamp as nat + delay)
}

/// The bus that the payload of `event` names, if the payload is the JSON of
/// one identifier.
pub open spec fn named_bus(event: BusWorldEvent) -> Option<Seq<char>> {
    match event.spec_data() {
        Ok(data) => single_text_of_json(data),
        Err(_) => None,
    }
}

/// The payload that names one bus.
pub open spec fn bus_payload(uuid: Seq<char>) -> Seq<char> {
    json_of_texts(seq![uuid])
}

/// The payload that names a bus and the stop it moves to.
pub open spec fn move_payload(uuid: Seq<char>, stop_name: Seq<char>) -> Seq<char> {
    json_of_texts(seq![uuid, stop_name])
}

/// The label of the series of passengers who got off a bus.
pub open spec fn unloaded_label(uuid: Seq<char>) -> Seq<char> {
    "Bus "@ + uuid + ": Passengers Unloaded"@
}

/// The label of the series of passengers who got on a bus.
pub open spec fn loaded_label(uuid: Seq<char>) -> Seq<char> {
    "Bus "@ + uuid + ": Passengers Loaded"@
}

/// The seconds it takes one passenger to get off a bus.
pub const UNLOAD_SECONDS: usize = 4;

/// What unloading does where `event` names a bus: see `bus_unloaded`.
pub open spec fn unloaded(before: Moment, event: BusWorldEvent, after: Moment) -> bool {
    bus_unloaded(before, cause_of(event), named_bus(event)->Some_0, after)
}

/// What the unloading of the bus `uuid` does. Where the bus stands at a
/// stop, its passengers for that stop get off, boarding is scheduled for
/// when they are off, and their number is recorded. Where the bus stands
/// nowhere, nothing happens.
pub open spec fn bus_unloaded(before: Moment, cause: Cause, uuid: Seq<char>, after: Moment) -> bool {
    let at = stop_with_bus(before.bus_stops, uuid);
    if at < before.bus_stops.len() {
        let stop = before.bus_stops[at];
        let bus_at = bus_position(stop.buses_at_stop, uuid);
        let left = bound_for(stop.buses_at_stop[bus_at].passengers, stop.name).len();
        &&& after.bus_stops == before.bus_stops.update(
            at,
            alighted_stop(stop, bus_at, cause.time_stamp),
        )
        &&& exists|next: BusWorldEvent|
            {
                &&& #[trigger] follows(
                    next,
                    "LoadPassengers"@,
                    next_uid(cause),
                    later(cause, left * UNLOAD_SECONDS as nat),
                    bus_payload(uuid),
                )
                &&& after.pending == before.pending.insert(next)
            }
        &&& after.statistics == recorded(
            before.statistics,
            unloaded_label(uuid),
            cause.time_stamp,
            left as usize,
            "Passengers (ct)"@,
        )
    } else {
        after == before
    }
}

/// What boarding does where `event` names a bus: see `bus_loaded`.
pub open spec fn loaded(
    before: Moment,
    settings: BusEnvironmentSettings,
    event: BusWorldEvent,
    after: Moment,
) -> bool {
    bus_loaded(before, settings, cause_of(event), named_bus(event)->Some_0, after)
}

/// What the boarding of the bus `uuid` does. The bus takes on who waits for
/// the stops of its route at the stop where it stands, as far as it has
/// room. If its route goes on, its move to the next stop is scheduled for
/// when everybody is on board. The number of passengers who got on is
/// recorded.
pub open spec fn bus_loaded(
    before: Moment,
    settings: BusEnvironmentSettings,
    cause: Cause,
    uuid: Seq<char>,
    after: Moment,
) -> bool {
    let at = stop_with_bus(before.bus_stops, uuid);
    let stop = before.bus_stops[at];
    let bus_at = bus_position(stop.buses_at_stop, uuid);
    let bus = stop.buses_at_stop[bus_at];
    let count = clip(boarded_count(stop, bus_at));
    &&& after.bus_stops == before.bus_stops.update(at, boarded_stop(stop, bus_at))
    &&& if bus.current_stop + 1 < bus.serviced_stop_names.len() {
        exists|next: BusWorldEvent|
            {
                &&& #[trigger] follows(
                    next,
                    "MoveBusToStop"@,
                    next_uid(cause),
                    later(cause, count as nat * settings.pickup_delay as nat),
                    move_payload(uuid, bus.serviced_stop_names[bus.current_stop + 1]),
                )
                &&& after.pending == before.pending.insert(next)
            }
    } else {
        after.pending == before.pending
    }
    &&& after.statistics == recorded(
        before.statistics,
        loaded_label(uuid),
        cause.time_stamp,
        count,
        "passengers loaded"@,
    )
}

/// How boarding ends: a payload that names no bus is fatal, and so is a bus
/// that stands at no stop.
pub open spec fn load_outcome(stops: Seq<BusStopView>, event: BusWorldEvent) -> Result<
    (),
    DispatchError,
> {
    match named_bus(event) {
        None => Err(DispatchError::UndecodablePayload),
        Some(uuid) => found_bus(stops, uuid),
    }
}

/// Whether the bus `uuid` stands at a stop: it is a fatal condition if it
/// does not.
pub open spec fn found_bus(stops: Seq<BusStopView>, uuid: Seq<char>) -> Result<(), DispatchError> {
    if stop_with_bus(stops, uuid) < stops.len() {
        Ok(())
    } else {
        Err(DispatchError::MissingEntity)
    }
}

/// How unloading ends: a payload that names no bus is fatal.
pub open spec fn unload_outcome(event: BusWorldEvent) -> Result<(), DispatchError> {
    match named_bus(event) {
        None => Err(DispatchError::UndecodablePayload),
        Some(uuid) => Ok(()),
    }
}

/// Passengers get on and off buses.
pub trait PassengerTransportHandler {
    fn load_passengers(
        &mut self,
        scheduler: &mut Scheduler<BusWorldEvent>,
        stat_recorder: &mut Stats,
        event: BusWorldEvent,
    ) -> Result<(), DispatchError>;

    fn unload_passengers(
        &mut self,
        scheduler: &mut Scheduler<BusWorldEvent>,
        stat_recorder: &mut Stats,
        event: BusWorldEvent,
    ) -> Result<(), DispatchError>;
}

impl PassengerTransportHandler for BusEnvironment {
    /// Boarding: see `loaded`. A payload that names no bus is fatal, and so
    /// is a bus that stands at no stop; the world is then left as it was.
    fn load_passengers(
        &mut self,
        scheduler: &mut Scheduler<BusWorldEvent>,
        stat_recorder: &mut Stats,
        event: BusWorldEvent,
    ) -> (outcome: Result<(), DispatchError>)
        ensures
            final(self)@.settings == old(self)@.settings,
            final(scheduler).spec_runtime() == old(scheduler).spec_runtime(),
            final(scheduler).spec_current_time() == old(scheduler).spec_current_time(),
            outcome == load_outcome(old(self)@.bus_stops, event),
            outcome is Err ==> {
                &&& final(self)@ == old(self)@
                &&& final(scheduler).pending() == old(scheduler).pending()
                &&& final(stat_recorder)@ == old(stat_recorder)@
            },
            outcome is Ok ==> loaded(
                Moment {
                    bus_stops: old(self)@.bus_stops,
                    pending: old(scheduler).pending(),
                    statistics: old(stat_recorder)@,
                },
                old(self)@.settings,
                event,
                Moment {
                    bus_stops: final(self)@.bus_stops,
                    pending: final(scheduler).pending(),
                    statistics: final(stat_recorder)@,
                },
            ),
    {
        let data = match event.get_data() {
            Ok(data) => data,
            Err(_) => {
                return Err(DispatchError::UndecodablePayload);
            },
        };
        let bus_uuid = match LoadPassengersJson::from_json(data.as_str()) {
            Some(payload) => payload.bus_uuid,
            None => {
                return Err(DispatchError::UndecodablePayload);
            },
        };
        self.load_bus(
            scheduler,
            stat_recorder,
            event.get_uid(),
            event.get_time_stamp(),
            bus_uuid,
        )
    }

    /// Unloading: see `unloaded`. A payload that names no bus is fatal; the
    /// world is then left as it was.
    fn unload_passengers(
        &mut self,
        scheduler: &mut Scheduler<BusWorldEvent>,
        stat_recorder: &mut Stats,
        event: BusWorldEvent,
    ) -> (outcome: Result<(), DispatchError>)
        ensures
            final(self)@.settings == old(self)@.settings,
            final(scheduler).spec_runtime() == old(scheduler).spec_runtime(),
            final(scheduler).spec_current_time() == old(scheduler).spec_current_time(),
            outcome == unload_outcome(event),
            outcome is Err ==> {
                &&& final(self)@ == old(self)@
                &&& final(scheduler).pending() == old(scheduler).pending()
                &&& final(stat_recorder)@ == old(stat_recorder)@
            },
            outcome is Ok ==> unloaded(
                Moment {
                    bus_stops: old(self)@.bus_stops,
                    pending: old(scheduler).pending(),
                    statistics: old(stat_recorder)@,
                },
                event,
                Moment {
                    bus_stops: final(self)@.bus_stops,
                    pending: final(scheduler).pending(),
                    statistics: final(stat_recorder)@,
                },
            ),
    {
        let data = match event.get_data() {
            Ok(data) => data,
            Err(_) => {
                return Err(DispatchError::UndecodablePayload);
            },
        };
        let bus_uuid = match UnloadPassengersJson::from_json(data.as_str()) {
            Some(payload) => payload.bus_uuid,
            None => {
                return Err(DispatchError::UndecodablePayload);
            },
        };
        self.unload_bus(
            scheduler,
            stat_recorder,
            event.get_uid(),
            event.get_time_stamp(),
            bus_uuid,
        )
    }
}

/// The bus and the stop that the payload of `event` names, if the payload is
/// the JSON of two texts.
pub open spec fn named_move(event: BusWorldEvent) -> Option<(Seq<char>, Seq<char>)> {
    match event.spec_data() {
        Ok(data) => text_pair_of_json(data),
        Err(_) => None,
    }
}

/// The label of the series of buses at a stop.
pub open spec fn arrivals_label(stop_name: Seq<char>) -> Seq<char> {
    "stop "@ + stop_name + ": buses"@
}

/// What a move does where `event` names a bus and a stop: see
/// `bus_advanced`.
pub open spec fn advanced(
    before: Moment,
    settings: BusEnvironmentSettings,
    event: BusWorldEvent,
    after: Moment,
) -> bool {
    let (uuid, stop_name) = named_move(event)->Some_0;
    bus_advanced(before, settings, cause_of(event), uuid, stop_name, after)
}

/// What the move of the bus `uuid` to the stop `stop_name` does. The bus
/// leaves the stop it stands at and is put, one place further on its route,
/// at the stop of that name. Unloading is scheduled for when it arrives, and
/// the number of buses at the stop of arrival is recorded.
pub open spec fn bus_advanced(
    before: Moment,
    settings: BusEnvironmentSettings,
    cause: Cause,
    uuid: Seq<char>,
    stop_name: Seq<char>,
    after: Moment,
) -> bool {
    let from = stop_with_bus(before.bus_stops, uuid);
    let bus = before.bus_stops[from].buses_at_stop[bus_position(
        before.bus_stops[from].buses_at_stop,
        uuid,
    )];
    let departed = without_bus(before.bus_stops, uuid);
    let to = stop_position(before.bus_stops, stop_name);
    let moved = BusView { current_stop: clip(bus.current_stop as nat + 1), ..bus };
    &&& after.bus_stops == with_bus_at(departed, to, moved)
    &&& exists|next: BusWorldEvent|
        {
            &&& #[trigger] follows(
                next,
                "UnloadPassengers"@,
                next_uid(cause),
                later(cause, settings.next_stop_delay as nat),
                bus_payload(uuid),
            )
            &&& after.pending == before.pending.insert(next)
        }
    &&& after.statistics == recorded(
        before.statistics,
        arrivals_label(stop_name),
        cause.time_stamp,
        (departed[to].buses_at_stop.len() + 1) as usize,
        "bus_count"@,
    )
}

/// How a move ends: a payload that names no bus and stop is fatal, and so is
/// a bus that stands at no stop or a stop that is not on the line.
pub open spec fn advance_outcome(stops: Seq<BusStopView>, event: BusWorldEvent) -> Result<
    (),
    DispatchError,
> {
    match named_move(event) {
        None => Err(DispatchError::UndecodablePayload),
        Some((uuid, stop_name)) => found_bus_and_stop(stops, uuid, stop_name),
    }
}

/// Whether the bus `uuid` stands at a stop and the line has a stop named
/// `stop_name`: it is a fatal condition if not.
pub open spec fn found_bus_and_stop(
    stops: Seq<BusStopView>,
    uuid: Seq<char>,
    stop_name: Seq<char>,
) -> Result<(), DispatchError> {
    if stop_with_bus(stops, uuid) < stops.len() && stop_position(stops, stop_name) < stops.len() {
        Ok(())
    } else {
        Err(DispatchError::MissingEntity)
    }
}

/// Buses move along the line.
pub trait AdvanceVehicleHandler {
    fn advance_bus_to_next_stop(
        &mut self,
        scheduler: &mut Scheduler<BusWorldEvent>,
        stat_recorder: &mut Stats,
        event: BusWorldEvent,
    ) -> Result<(), DispatchError>;
}

impl AdvanceVehicleHandler for BusEnvironment {
    /// A move: see `advanced`. A payload that names no bus and stop is fatal,
    /// and so is a bus that stands at no stop or a stop that is not on the
    /// line; the world is then left as it was.
    fn advance_bus_to_next_stop(
        &mut self,
        scheduler: &mut Scheduler<BusWorldEvent>,
        stat_recorder: &mut Stats,
        event: BusWorldEvent,
    ) -> (outcome: Result<(), DispatchError>)
        ensures
            final(self)@.settings == old(self)@.settings,
            final(scheduler).spec_runtime() == old(scheduler).spec_runtime(),
            final(scheduler).spec_current_time() == old(scheduler).spec_current_time(),
            outcome == advance_outcome(old(self)@.bus_stops, event),
            outcome is Err ==> {
                &&& final(self)@ == old(self)@
                &&& final(scheduler).pending() == old(scheduler).pending()
                &&& final(stat_recorder)@ == old(stat_recorder)@
            },
            outcome is Ok ==> advanced(
                Moment {
                    bus_stops: old(self)@.bus_stops,
                    pending: old(scheduler).pending(),
                    statistics: old(stat_recorder)@,
                },
                old(self)@.settings,
                event,
                Moment {
                    bus_stops: final(self)@.bus_stops,
                    pending: final(scheduler).pending(),
                    statistics: final(stat_recorder)@,
                },
            ),
    {
        let data = match event.get_data() {
            Ok(data) => data,
            Err(_) => {
                return Err(DispatchError::UndecodablePayload);
            },
        };
        let bus_and_new_stop = match BusToStopMappingJson::from_json(data.as_str()) {
            Some(payload) => payload,
            None => {
                return Err(DispatchError::UndecodablePayload);
            },
        };
        self.move_bus(
            scheduler,
            stat_recorder,
            event.get_uid(),
            event.get_time_stamp(),
            bus_and_new_stop.bus_uuid,
            bus_and_new_stop.stop_name,
        )
    }
}

/// How many buses of which capacity the payload of `event` asks for, if the
/// payload is the JSON of two numbers.
pub open spec fn named_fleet(event: BusWorldEvent) -> Option<(usize, usize)> {
    match event.spec_data() {
        Ok(data) => count_pair_of_json(data),
        Err(_) => None,
    }
}

/// The buses that the payload of `event` holds, if the payload is the JSON of
/// a list of buses.
pub open spec fn named_imports(event: BusWorldEvent) -> Option<Seq<BusView>> {
    match event.spec_data() {
        Ok(data) => match buses_of_json(data) {
            Some(facts) => Some(facts.map_values(|record: BusFacts| bus_of_facts(record))),
            None => None,
        },
        Err(_) => None,
    }
}

/// `bus` is a new bus of the given capacity on the given route: it stands at
/// the start of the route and has no passengers.
pub open spec fn is_new_bus(bus: BusView, capacity: usize, route: Seq<Seq<char>>) -> bool {
    &&& bus.passengers.len() == 0
    &&& bus.serviced_stop_names == route
    &&& bus.current_stop == 0
    &&& bus.capacity == capacity
}

/// The stops with `buses` put at the first of them, in order; unchanged where
/// there are no buses to put.
pub open spec fn with_fleet(stops: Seq<BusStopView>, buses: Seq<BusView>) -> Seq<BusStopView> {
    if buses.len() == 0 {
        stops
    } else {
        stops.update(
            0,
            BusStopView { buses_at_stop: stops[0].buses_at_stop + buses, ..stops[0] },
        )
    }
}

/// For every one of `buses` there is one of `events`, in the same place,
/// that schedules its first unloading `delay` after the cause.
pub open spec fn starts_scheduled(
    buses: Seq<BusView>,
    events: Seq<BusWorldEvent>,
    cause: Cause,
    delay: usize,
) -> bool {
    &&& events.len() == buses.len()
    &&& forall|k: int|
        0 <= k < buses.len() ==> follows(
            #[trigger] events[k],
            "UnloadPassengers"@,
            next_uid(cause),
            later(cause, delay as nat),
            bus_payload(buses[k].uuid),
        )
}

/// `buses` and `events` are what the creation of `number` new buses of the
/// given capacity makes: the new buses, on the route along all stops, put at
/// the first stop, and the first unloading of each.
pub open spec fn is_fleet(
    buses: Seq<BusView>,
    events: Seq<BusWorldEvent>,
    before: Moment,
    settings: BusEnvironmentSettings,
    cause: Cause,
    number: usize,
    capacity: usize,
    after: Moment,
) -> bool {
    &&& buses.len() == number
    &&& forall|k: int|
        0 <= k < buses.len() ==> is_new_bus(#[trigger] buses[k], capacity, stop_names_of(before.bus_stops))
    &&& starts_scheduled(buses, events, cause, settings.initial_delay)
    &&& after.bus_stops == with_fleet(before.bus_stops, buses)
    &&& after.pending == before.pending.add(events.to_multiset())
    &&& after.statistics == before.statistics
}

/// What the creation of the new buses that `event` asks for does: see
/// `buses_created`.
pub open spec fn fleet_created(
    before: Moment,
    settings: BusEnvironmentSettings,
    event: BusWorldEvent,
    after: Moment,
) -> bool {
    let (number, capacity) = named_fleet(event)->Some_0;
    buses_created(before, settings, cause_of(event), number, capacity, after)
}

/// What the creation of `number` new buses of the given capacity does: see
/// `is_fleet`.
pub open spec fn buses_created(
    before: Moment,
    settings: BusEnvironmentSettings,
    cause: Cause,
    number: usize,
    capacity: usize,
    after: Moment,
) -> bool {
    exists|buses: Seq<BusView>, events: Seq<BusWorldEvent>| #[trigger]
        is_fleet(buses, events, before, settings, cause, number, capacity, after)
}

/// `bus` can be put on the line: it stands at a stop of its route, and the
/// line has a stop of that name.
pub open spec fn importable(stops: Seq<BusStopView>, bus: BusView) -> bool {
    &&& bus.current_stop < bus.serviced_stop_names.len()
    &&& stop_position(stops, bus.serviced_stop_names[bus.current_stop as int]) < stops.len()
}

/// Every one of `buses` can be put on the line.
pub open spec fn all_importable(stops: Seq<BusStopView>, buses: Seq<BusView>) -> bool {
    forall|k: int| 0 <= k < buses.len() ==> importable(stops, #[trigger] buses[k])
}

/// The stops after the first `upto` of `buses` were put on the line, each at
/// the first stop that has the name of its current stop.
pub open spec fn imported(stops: Seq<BusStopView>, buses: Seq<BusView>, upto: int) -> Seq<
    BusStopView,
>
    decreases upto,
{
    if upto <= 0 {
        stops
    } else {
        let so_far = imported(stops, buses, upto - 1);
        let bus = buses[upto - 1];
        with_bus_at(
            so_far,
            stop_position(so_far, bus.serviced_stop_names[bus.current_stop as int]),
            bus,
        )
    }
}

/// `events` are what the import of `buses` schedules: the first unloading of
/// each of them.
pub open spec fn is_import(
    events: Seq<BusWorldEvent>,
    before: Moment,
    settings: BusEnvironmentSettings,
    cause: Cause,
    buses: Seq<BusView>,
    after: Moment,
) -> bool {
    &&& starts_scheduled(buses, events, cause, settings.initial_delay)
    &&& after.bus_stops == imported(before.bus_stops, buses, buses.len() as int)
    &&& after.pending == before.pending.add(events.to_multiset())
    &&& after.statistics == before.statistics
}

/// What the import of the buses that `event` holds does: see
/// `buses_placed`.
pub open spec fn fleet_imported(
    before: Moment,
    settings: BusEnvironmentSettings,
    event: BusWorldEvent,
    after: Moment,
) -> bool {
    buses_placed(before, settings, cause_of(event), named_imports(event)->Some_0, after)
}

/// What the import of `buses` does: they are put on the line, and the first
/// unloading of each is scheduled.
pub open spec fn buses_placed(
    before: Moment,
    settings: BusEnvironmentSettings,
    cause: Cause,
    buses: Seq<BusView>,
    after: Moment,
) -> bool {
    exists|events: Seq<BusWorldEvent>| #[trigger]
        is_import(events, before, settings, cause, buses, after)
}

/// Putting buses on the line leaves the names of the stops as they are.
pub proof fn lemma_imported_names(stops: Seq<BusStopView>, buses: Seq<BusView>, upto: int)
    requires
        0 <= upto <= buses.len(),
        forall|k: int| 0 <= k < upto ==> importable(stops, #[trigger] buses[k]),
    ensures
        same_names(stops, imported(stops, buses, upto)),
    decreases upto,
{
    if upto > 0 {
        lemma_imported_names(stops, buses, upto - 1);
        let so_far = imported(stops, buses, upto - 1);
        let bus = buses[upto - 1];
        assert(importable(stops, bus));
        lemma_stop_position_same_names(
            stops,
            so_far,
            bus.serviced_stop_names[bus.current_stop as int],
        );
        let now = imported(stops, buses, upto);
        let position = stop_position(so_far, bus.serviced_stop_names[bus.current_stop as int]);
        lemma_stop_position(so_far, bus.serviced_stop_names[bus.current_stop as int]);
        assert(0 <= position < so_far.len());
        assert(now == with_bus_at(so_far, position, bus));
        assert(now.len() == so_far.len());
        assert forall|i: int| 0 <= i < stops.len() implies (#[trigger] stops[i]).name
            == now[i].name by {
            assert(stops[i].name == so_far[i].name);
        }
    }
}

/// How the creation of new buses ends: a payload that does not say how many
/// buses of which capacity is fatal, and so is a line without stops when at
/// least one bus is asked for.
pub open spec fn create_outcome(stops: Seq<BusStopView>, event: BusWorldEvent) -> Result<
    (),
    DispatchError,
> {
    match named_fleet(event) {
        None => Err(DispatchError::UndecodablePayload),
        Some((number, capacity)) => found_start(stops, number),
    }
}

/// Whether `number` new buses have a stop to start at: it is a fatal
/// condition if there is a bus and no stop.
pub open spec fn found_start(stops: Seq<BusStopView>, number: usize) -> Result<(), DispatchError> {
    if number > 0 && stops.len() == 0 {
        Err(DispatchError::MissingEntity)
    } else {
        Ok(())
    }
}

/// How an import ends: a payload that holds no list of buses is fatal, and so
/// is a bus that cannot be put on the line.
pub open spec fn import_outcome(stops: Seq<BusStopView>, event: BusWorldEvent) -> Result<
    (),
    DispatchError,
> {
    match named_imports(event) {
        None => Err(DispatchError::UndecodablePayload),
        Some(buses) => found_places(stops, buses),
    }
}

/// Whether every one of `buses` can be put on the line: it is a fatal
/// condition if one cannot.
pub open spec fn found_places(stops: Seq<BusStopView>, buses: Seq<BusView>) -> Result<
    (),
    DispatchError,
> {
    if all_importable(stops, buses) {
        Ok(())
    } else {
        Err(DispatchError::MissingEntity)
    }
}

/// Buses enter the line.
pub trait NewVehicleHandler {
    fn create_new_bus(
        &mut self,
        scheduler: &mut Scheduler<BusWorldEvent>,
        stat_recorder: &mut Stats,
        event: BusWorldEvent,
    ) -> Result<(), DispatchError>;

    fn import_buses(
        &mut self,
        scheduler: &mut Scheduler<BusWorldEvent>,
        stat_recorder: &mut Stats,
        event: BusWorldEvent,
    ) -> Result<(), DispatchError>;
}

impl NewVehicleHandler for BusEnvironment {
    /// The creation of new buses: see `fleet_created`. A payload that does
    /// not say how many buses of which capacity is fatal, and so is a line
    /// without stops when at least one bus is asked for; the world is then
    /// left as it was.
    fn create_new_bus(
        &mut self,
        scheduler: &mut Scheduler<BusWorldEvent>,
        stat_recorder: &mut Stats,
        event: BusWorldEvent,
    ) -> (outcome: Result<(), DispatchError>)
        ensures
            final(self)@.settings == old(self)@.settings,
            final(scheduler).spec_runtime() == old(scheduler).spec_runtime(),
            final(scheduler).spec_current_time() == old(scheduler).spec_current_time(),
            outcome == create_outcome(old(self)@.bus_stops, event),
            outcome is Err ==> {
                &&& final(self)@ == old(self)@
                &&& final(scheduler).pending() == old(scheduler).pending()
                &&& final(stat_recorder)@ == old(stat_recorder)@
            },
            outcome is Ok ==> fleet_created(
                Moment {
                    bus_stops: old(self)@.bus_stops,
                    pending: old(scheduler).pending(),
                    statistics: old(stat_recorder)@,
                },
                old(self)@.settings,
                event,
                Moment {
                    bus_stops: final(self)@.bus_stops,
                    pending: final(scheduler).pending(),
                    statistics: final(stat_recorder)@,
                },
            ),
    {
        let data = match event.get_data() {
            Ok(data) => data,
            Err(_) => {
                return Err(DispatchError::UndecodablePayload);
            },
        };
        let bus_mapping = match NewBusesJson::from_json(data.as_str()) {
            Some(payload) => payload,
            None => {
                return Err(DispatchError::UndecodablePayload);
            },
        };
        self.create_buses(
            scheduler,
            stat_recorder,
            event.get_uid(),
            event.get_time_stamp(),
            bus_mapping.number_of_buses,
            bus_mapping.capacity,
        )
    }

    /// An import: see `fleet_imported`. A payload that holds no list of buses
    /// is fatal, and so is a bus that stands beyond its route or at a stop
    /// that is not on the line; the world is then left as it was.
    fn import_buses(
        &mut self,
        scheduler: &mut Scheduler<BusWorldEvent>,
        stat_recorder: &mut Stats,
        event: BusWorldEvent,
    ) -> (outcome: Result<(), DispatchError>)
        ensures
            final(self)@.settings == old(self)@.settings,
            final(scheduler).spec_runtime() == old(scheduler).spec_runtime(),
            final(scheduler).spec_current_time() == old(scheduler).spec_current_time(),
            outcome == import_outcome(old(self)@.bus_stops, event),
            outcome is Err ==> {
                &&& final(self)@ == old(self)@
                &&& final(scheduler).pending() == old(scheduler).pending()
                &&& final(stat_recorder)@ == old(stat_recorder)@
            },
            outcome is Ok ==> fleet_imported(
                Moment {
                    bus_stops: old(self)@.bus_stops,
                    pending: old(scheduler).pending(),
                    statistics: old(stat_recorder)@,
                },
                old(self)@.settings,
                event,
                Moment {
                    bus_stops: final(self)@.bus_stops,
                    pending: final(scheduler).pending(),
                    statistics: final(stat_recorder)@,
                },
            ),
    {
        let data = match event.get_data() {
            Ok(data) => data,
            Err(_) => {
                return Err(DispatchError::UndecodablePayload);
            },
        };
        let imported_buses = match ImportBusesJson::from_json(data.as_str()) {
            Some(payload) => payload.buses,
            None => {
                return Err(DispatchError::UndecodablePayload);
            },
        };
        self.place_buses(
            scheduler,
            stat_recorder,
            event.get_uid(),
            event.get_time_stamp(),
            imported_buses,
        )
    }
}

impl BusEnvironment {
    /// Let the bus `bus_uuid` take on passengers: see `bus_loaded`. A bus that
    /// stands at no stop is fatal; the world is then left as it was.
    /// `cause_uid` and `cause_time` are the origin and the time of the event
    /// that asks for it.
    pub fn load_bus(
        &mut self,
        scheduler: &mut Scheduler<BusWorldEvent>,
        stat_recorder: &mut Stats,
        cause_uid: usize,
        cause_time: usize,
        bus_uuid: String,
    ) -> (outcome: Result<(), DispatchError>)
        ensures
            final(self)@.settings == old(self)@.settings,
            final(scheduler).spec_runtime() == old(scheduler).spec_runtime(),
            final(scheduler).spec_current_time() == old(scheduler).spec_current_time(),
            outcome == found_bus(old(self)@.bus_stops, bus_uuid@),
            outcome is Err ==> {
                &&& final(self)@ == old(self)@
                &&& final(scheduler).pending() == old(scheduler).pending()
                &&& final(stat_recorder)@ == old(stat_recorder)@
            },
            outcome is Ok ==> bus_loaded(
                Moment {
                    bus_stops: old(self)@.bus_stops,
                    pending: old(scheduler).pending(),
                    statistics: old(stat_recorder)@,
                },
                old(self)@.settings,
                (Cause { uid: cause_uid, time_stamp: cause_time }),
                bus_uuid@,
                Moment {
                    bus_stops: final(self)@.bus_stops,
                    pending: final(scheduler).pending(),
                    statistics: final(stat_recorder)@,
                },
            ),
    {
        let ghost cause = Cause { uid: cause_uid, time_stamp: cause_time };
        let at = self.find_stop_by_bus_uuid(&bus_uuid);
        if at >= self.bus_stops.len() {
            return Err(DispatchError::MissingEntity);
        }
        proof {
            lemma_stop_with_bus(self@.bus_stops, bus_uuid@);
            lemma_bus_position(self@.bus_stops[at as int].buses_at_stop, bus_uuid@);
        }
        let bus_at = self.bus_stops[at].find_bus(&bus_uuid);
        let ghost stops_before = self.bus_stops@;
        let ghost before = self@.bus_stops;
        let onboarded_passengers_count = self.bus_stops[at].board(bus_at);
        proof {
            assert forall|i: int| 0 <= i < self.bus_stops@.len() && i != at implies (
            #[trigger] self@.bus_stops[i]) == before[i] by {
                assert(self.bus_stops@[i] == stops_before[i]);
            }
            assert(self@.bus_stops[at as int] == self.bus_stops@[at as int]@);
            assert(before[at as int] == stops_before[at as int]@);
            assert(self@.bus_stops =~= before.update(
                at as int,
                boarded_stop(before[at as int], bus_at as int),
            ));
        }
        let uid = sat_add(cause_uid, 1);
        let time_stamp = cause_time;
        proof {
            let stop_now = self.bus_stops@[at as int];
            assert(stop_now@ == boarded_stop(before[at as int], bus_at as int));
            assert(stop_now@.buses_at_stop.len() == stop_now.buses_at_stop@.len());
            assert(stop_now@.buses_at_stop[bus_at as int] == stop_now.buses_at_stop@[bus_at as int]@);
        }
        let bus = &self.bus_stops[at].buses_at_stop[bus_at];
        match bus.get_next_stop() {
            Some(next_stop) => {
                let payload = BusToStopMappingJson::new(bus_uuid.clone(), next_stop.clone());
                proof {
                    lemma_clip_product(
                        boarded_count(before[at as int], bus_at as int),
                        self.settings.pickup_delay,
                    );
                    lemma_clip_sum(
                        time_stamp as nat,
                        onboarded_passengers_count as nat * self.settings.pickup_delay as nat,
                    );
                }
                let advance = MoveBusToStopEvent::new(
                    uid,
                    sat_add(time_stamp, sat_mul(onboarded_passengers_count, self.settings.pickup_delay)),
                    payload.to_json(),
                );
                let next = BusWorldEvent::MoveBusToStop(advance);
                assert(follows(
                    next,
                    "MoveBusToStop"@,
                    next_uid(cause),
                    later(
                        cause,
                        onboarded_passengers_count as nat * self.settings.pickup_delay as nat,
                    ),
                    move_payload(
                        bus_uuid@,
                        before[at as int].buses_at_stop[bus_at as int].serviced_stop_names[
                            before[at as int].buses_at_stop[bus_at as int].current_stop + 1],
                    ),
                ));
                scheduler.add_event(next);
            },
            None => {},
        }
        let label = "Bus ".to_string().concat(bus_uuid.as_str()).concat(": Passengers Loaded");
        stat_recorder.add_statistic(
            DataPoint::new(time_stamp, onboarded_passengers_count, "passengers loaded".to_string()),
            label,
        );
        Ok(())
    }

    /// Let the passengers of the bus `bus_uuid` get off: see `bus_unloaded`.
    /// `cause_uid` and `cause_time` are the origin and the time of the event
    /// that asks for it.
    pub fn unload_bus(
        &mut self,
        scheduler: &mut Scheduler<BusWorldEvent>,
        stat_recorder: &mut Stats,
        cause_uid: usize,
        cause_time: usize,
        bus_uuid: String,
    ) -> (outcome: Result<(), DispatchError>)
        ensures
            final(self)@.settings == old(self)@.settings,
            final(scheduler).spec_runtime() == old(scheduler).spec_runtime(),
            final(scheduler).spec_current_time() == old(scheduler).spec_current_time(),
            outcome == Ok::<(), DispatchError>(()),
            outcome is Err ==> {
                &&& final(self)@ == old(self)@
                &&& final(scheduler).pending() == old(scheduler).pending()
                &&& final(stat_recorder)@ == old(stat_recorder)@
            },
            outcome is Ok ==> bus_unloaded(
                Moment {
                    bus_stops: old(self)@.bus_stops,
                    pending: old(scheduler).pending(),
                    statistics: old(stat_recorder)@,
                },
                (Cause { uid: cause_uid, time_stamp: cause_time }),
                bus_uuid@,
                Moment {
                    bus_stops: final(self)@.bus_stops,
                    pending: final(scheduler).pending(),
                    statistics: final(stat_recorder)@,
                },
            ),
    {
        let ghost cause = Cause { uid: cause_uid, time_stamp: cause_time };
        let at = self.find_stop_by_bus_uuid(&bus_uuid);
        if at < self.bus_stops.len() {
            proof {
                lemma_stop_with_bus(self@.bus_stops, bus_uuid@);
                lemma_bus_position(self@.bus_stops[at as int].buses_at_stop, bus_uuid@);
            }
            let bus_at = self.bus_stops[at].find_bus(&bus_uuid);
            let time_stamp = cause_time;
            let ghost stops_before = self.bus_stops@;
            let ghost before = self@.bus_stops;
            let unloaded_passenger_count = self.bus_stops[at].alight(bus_at, time_stamp);
            proof {
                assert forall|i: int| 0 <= i < self.bus_stops@.len() && i != at implies (
                #[trigger] self@.bus_stops[i]) == before[i] by {
                    assert(self.bus_stops@[i] == stops_before[i]);
                }
                assert(self@.bus_stops[at as int] == self.bus_stops@[at as int]@);
                assert(before[at as int] == stops_before[at as int]@);
                assert(self@.bus_stops =~= before.update(
                    at as int,
                    alighted_stop(before[at as int], bus_at as int, time_stamp),
                ));
                lemma_clip_sum(
                    time_stamp as nat,
                    unloaded_passenger_count as nat * UNLOAD_SECONDS as nat,
                );
            }
            let payload = LoadPassengersJson::new(bus_uuid.clone());
            let load = LoadPassengersEvent::new(
                sat_add(cause_uid, 1),
                sat_add(time_stamp, sat_mul(unloaded_passenger_count, UNLOAD_SECONDS)),
                payload.to_json(),
            );
            let next = BusWorldEvent::LoadPassengers(load);
            assert(follows(
                next,
                "LoadPassengers"@,
                next_uid(cause),
                later(cause, unloaded_passenger_count as nat * UNLOAD_SECONDS as nat),
                bus_payload(bus_uuid@),
            ));
            scheduler.add_event(next);
            let label = "Bus ".to_string().concat(bus_uuid.as_str()).concat(
                ": Passengers Unloaded",
            );
            stat_recorder.add_statistic(
                DataPoint::new(time_stamp, unloaded_passenger_count, "Passengers (ct)".to_string()),
                label,
            );
        }
        Ok(())
    }

    /// Move the bus `bus_uuid` to the stop `new_stop`: see `bus_advanced`. A
    /// bus that stands at no stop is fatal, and so is a stop that is not on
    /// the line; the world is then left as it was. `cause_uid` and
    /// `cause_time` are the origin and the time of the event that asks for
    /// it.
    pub fn move_bus(
        &mut self,
        scheduler: &mut Scheduler<BusWorldEvent>,
        stat_recorder: &mut Stats,
        cause_uid: usize,
        cause_time: usize,
        bus_uuid: String,
        new_stop: String,
    ) -> (outcome: Result<(), DispatchError>)
        ensures
            final(self)@.settings == old(self)@.settings,
            final(scheduler).spec_runtime() == old(scheduler).spec_runtime(),
            final(scheduler).spec_current_time() == old(scheduler).spec_current_time(),
            outcome == found_bus_and_stop(old(self)@.bus_stops, bus_uuid@, new_stop@),
            outcome is Err ==> {
                &&& final(self)@ == old(self)@
                &&& final(scheduler).pending() == old(scheduler).pending()
                &&& final(stat_recorder)@ == old(stat_recorder)@
            },
            outcome is Ok ==> bus_advanced(
                Moment {
                    bus_stops: old(self)@.bus_stops,
                    pending: old(scheduler).pending(),
                    statistics: old(stat_recorder)@,
                },
                old(self)@.settings,
                (Cause { uid: cause_uid, time_stamp: cause_time }),
                bus_uuid@,
                new_stop@,
                Moment {
                    bus_stops: final(self)@.bus_stops,
                    pending: final(scheduler).pending(),
                    statistics: final(stat_recorder)@,
                },
            ),
    {
        let ghost cause = Cause { uid: cause_uid, time_stamp: cause_time };
        let to = self.find_stop_by_name(&new_stop);
        if to >= self.bus_stops.len() {
            return Err(DispatchError::MissingEntity);
        }
        let ghost uuid = bus_uuid@;
        let ghost stop_name = new_stop@;
        let ghost before = self@.bus_stops;
        proof {
            lemma_stop_with_bus(before, uuid);
            lemma_stop_position(before, stop_name);
        }
        let mut bus = match self.drain_bus_by_uuid(bus_uuid.clone()) {
            Some(bus) => bus,
            None => {
                return Err(DispatchError::MissingEntity);
            },
        };
        bus.advance_to_next_stop();
        let time_stamp = cause_time;
        let payload = UnloadPassengersJson::new(bus.uuid.clone());
        let unload = UnloadPassengersEvent::new(
            sat_add(cause_uid, 1),
            sat_add(time_stamp, self.settings.next_stop_delay),
            payload.to_json(),
        );
        let next = BusWorldEvent::UnloadPassengers(unload);
        assert(follows(
            next,
            "UnloadPassengers"@,
            next_uid(cause),
            later(cause, self.settings.next_stop_delay as nat),
            bus_payload(uuid),
        ));
        scheduler.add_event(next);
        let ghost departed = self@.bus_stops;
        let ghost stops_departed = self.bus_stops@;
        proof {
            assert(departed == without_bus(before, uuid));
            assert(departed.len() == before.len());
            assert(stops_departed.len() == departed.len());
            assert(before[to as int].name == stop_name);
            assert(departed[to as int].name == stop_name);
        }
        self.bus_stops[to].add_bus(bus);
        proof {
            assert forall|i: int| 0 <= i < self.bus_stops@.len() && i != to implies (
            #[trigger] self@.bus_stops[i]) == departed[i] by {
                assert(self.bus_stops@[i] == stops_departed[i]);
            }
            assert(self@.bus_stops[to as int] == self.bus_stops@[to as int]@);
            assert(departed[to as int] == stops_departed[to as int]@);
            assert(self@.bus_stops =~= with_bus_at(departed, to as int, bus@));
        }
        let stop = &self.bus_stops[to];
        let arrived = stop.buses_at_stop.len();
        assert(arrived == departed[to as int].buses_at_stop.len() + 1) by {
            assert(stop@.buses_at_stop.len() == stop.buses_at_stop@.len());
        }
        let label = "stop ".to_string().concat(stop.name.as_str()).concat(": buses");
        stat_recorder.add_statistic(
            DataPoint::new(time_stamp, arrived, "bus_count".to_string()),
            label,
        );
        Ok(())
    }

    /// Create `number_of_buses` new buses of the given capacity: see
    /// `buses_created`. A line without stops is fatal when at least one bus
    /// is asked for; the world is then left as it was. `cause_uid` and
    /// `cause_time` are the origin and the time of the event that asks for
    /// it.
    pub fn create_buses(
        &mut self,
        scheduler: &mut Scheduler<BusWorldEvent>,
        stat_recorder: &mut Stats,
        cause_uid: usize,
        cause_time: usize,
        number_of_buses: usize,
        capacity: usize,
    ) -> (outcome: Result<(), DispatchError>)
        ensures
            final(self)@.settings == old(self)@.settings,
            final(scheduler).spec_runtime() == old(scheduler).spec_runtime(),
            final(scheduler).spec_current_time() == old(scheduler).spec_current_time(),
            outcome == found_start(old(self)@.bus_stops, number_of_buses),
            outcome is Err ==> {
                &&& final(self)@ == old(self)@
                &&& final(scheduler).pending() == old(scheduler).pending()
                &&& final(stat_recorder)@ == old(stat_recorder)@
            },
            outcome is Ok ==> buses_created(
                Moment {
                    bus_stops: old(self)@.bus_stops,
                    pending: old(scheduler).pending(),
                    statistics: old(stat_recorder)@,
                },
                old(self)@.settings,
                (Cause { uid: cause_uid, time_stamp: cause_time }),
                number_of_buses,
                capacity,
                Moment {
                    bus_stops: final(self)@.bus_stops,
                    pending: final(scheduler).pending(),
                    statistics: final(stat_recorder)@,
                },
            ),
    {
        let ghost cause = Cause { uid: cause_uid, time_stamp: cause_time };
        if number_of_buses > 0 && self.bus_stops.len() == 0 {
            return Err(DispatchError::MissingEntity);
        }
        let uid = sat_add(cause_uid, 1);
        let time_stamp = sat_add(cause_time, self.settings.initial_delay);
        let ghost before = self@.bus_stops;
        let ghost waiting = scheduler.pending();
        let ghost mut buses: Seq<BusView> = Seq::empty();
        let ghost mut events: Seq<BusWorldEvent> = Seq::empty();
        let mut created: usize = 0;
        proof {
            events.to_multiset_ensures();
            assert(waiting.add(events.to_multiset()) =~= waiting);
        }
        while created < number_of_buses
            invariant
                created <= number_of_buses,
                number_of_buses > 0 ==> before.len() > 0,
                self.settings == old(self).settings,
                uid == next_uid(cause),
                time_stamp == later(cause, self.settings.initial_delay as nat),
                buses.len() == created,
                forall|k: int|
                    0 <= k < buses.len() ==> is_new_bus(
                        #[trigger] buses[k],
                        capacity,
                        stop_names_of(before),
                    ),
                starts_scheduled(buses, events, cause, self.settings.initial_delay),
                self@.bus_stops == with_fleet(before, buses),
                scheduler.pending() == waiting.add(events.to_multiset()),
                scheduler.spec_runtime() == old(scheduler).spec_runtime(),
                scheduler.spec_current_time() == old(scheduler).spec_current_time(),
            decreases number_of_buses - created,
        {
            let mut bus = Bus::new(capacity);
            let names = self.stop_names();
            bus.serviced_stop_names = names;
            proof {
                assert(self@.bus_stops.len() == before.len());
                assert forall|i: int| 0 <= i < before.len() implies (#[trigger] self@.bus_stops[i]).name
                    == before[i].name by {}
                assert(bus@.serviced_stop_names =~= stop_names_of(before));
            }
            let payload = UnloadPassengersJson::new(bus.uuid.clone());
            let unload = UnloadPassengersEvent::new(uid, time_stamp, payload.to_json());
            let next = BusWorldEvent::UnloadPassengers(unload);
            proof {
                assert(follows(
                    next,
                    "UnloadPassengers"@,
                    next_uid(cause),
                    later(cause, self.settings.initial_delay as nat),
                    bus_payload(bus@.uuid),
                ));
                events.to_multiset_ensures();
                assert(waiting.add(events.push(next).to_multiset()) =~= waiting.add(
                    events.to_multiset(),
                ).insert(next));
            }
            scheduler.add_event(next);
            let ghost so_far = self@.bus_stops;
            let ghost stops_so_far = self.bus_stops@;
            self.bus_stops[0].add_bus(bus);
            proof {
                assert forall|i: int| 0 < i < self.bus_stops@.len() implies (
                #[trigger] self@.bus_stops[i]) == so_far[i] by {
                    assert(self.bus_stops@[i] == stops_so_far[i]);
                }
                assert(self@.bus_stops[0] == self.bus_stops@[0]@);
                assert(so_far[0] == stops_so_far[0]@);
                assert(before[0].buses_at_stop + buses.push(bus@) =~= (before[0].buses_at_stop
                    + buses).push(bus@));
                if buses.len() == 0 {
                    assert(before[0].buses_at_stop + buses =~= before[0].buses_at_stop);
                }
                assert(self@.bus_stops =~= with_fleet(before, buses.push(bus@)));
                buses = buses.push(bus@);
                events = events.push(next);
            }
            created += 1;
        }
        proof {
            assert(is_fleet(
                buses,
                events,
                Moment {
                    bus_stops: old(self)@.bus_stops,
                    pending: old(scheduler).pending(),
                    statistics: old(stat_recorder)@,
                },
                old(self)@.settings,
                cause,
                number_of_buses,
                capacity,
                Moment {
                    bus_stops: self@.bus_stops,
                    pending: scheduler.pending(),
                    statistics: stat_recorder@,
                },
            ));
        }
        Ok(())
    }

    /// Put `imported_buses` on the line: see `buses_placed`. A bus that
    /// stands beyond its route or at a stop that is not on the line is fatal;
    /// the world is then left as it was. `cause_uid` and `cause_time` are
    /// the origin and the time of the event that asks for them.
    pub fn place_buses(
        &mut self,
        scheduler: &mut Scheduler<BusWorldEvent>,
        stat_recorder: &mut Stats,
        cause_uid: usize,
        cause_time: usize,
        imported_buses: Vec<Bus>,
    ) -> (outcome: Result<(), DispatchError>)
        ensures
            final(self)@.settings == old(self)@.settings,
            final(scheduler).spec_runtime() == old(scheduler).spec_runtime(),
            final(scheduler).spec_current_time() == old(scheduler).spec_current_time(),
            outcome == found_places(old(self)@.bus_stops, bus_views(imported_buses@)),
            outcome is Err ==> {
                &&& final(self)@ == old(self)@
                &&& final(scheduler).pending() == old(scheduler).pending()
                &&& final(stat_recorder)@ == old(stat_recorder)@
            },
            outcome is Ok ==> buses_placed(
                Moment {
                    bus_stops: old(self)@.bus_stops,
                    pending: old(scheduler).pending(),
                    statistics: old(stat_recorder)@,
                },
                old(self)@.settings,
                (Cause { uid: cause_uid, time_stamp: cause_time }),
                bus_views(imported_buses@),
                Moment {
                    bus_stops: final(self)@.bus_stops,
                    pending: final(scheduler).pending(),
                    statistics: final(stat_recorder)@,
                },
            ),
    {
        let ghost cause = Cause { uid: cause_uid, time_stamp: cause_time };
        let ghost buses = bus_views(imported_buses@);
        let ghost before = self@.bus_stops;
        let mut checked: usize = 0;
        let mut places: Vec<usize> = Vec::new();
        while checked < imported_buses.len()
            invariant
                checked <= imported_buses@.len(),
                self@ == old(self)@,
                scheduler.pending() == old(scheduler).pending(),
                scheduler.spec_runtime() == old(scheduler).spec_runtime(),
                scheduler.spec_current_time() == old(scheduler).spec_current_time(),
                stat_recorder@ == old(stat_recorder)@,
                buses == bus_views(imported_buses@),
                before == self@.bus_stops,
                forall|k: int| 0 <= k < checked ==> importable(before, #[trigger] buses[k]),
                places@.len() == checked,
                forall|k: int|
                    0 <= k < checked ==> (#[trigger] places@[k]) == stop_position(
                        before,
                        buses[k].serviced_stop_names[buses[k].current_stop as int],
                    ),
            decreases imported_buses@.len() - checked,
        {
            let bus = &imported_buses[checked];
            assert(bus@ == buses[checked as int]);
            let place = match bus.get_current_stop() {
                Some(stop) => self.find_stop_by_name(stop),
                None => self.bus_stops.len(),
            };
            places.push(place);
            if place >= self.bus_stops.len() {
                proof {
                    assert(!importable(before, buses[checked as int]));
                    assert(before == old(self)@.bus_stops);
                    assert(0 <= checked < buses.len());
                    assert(!all_importable(old(self)@.bus_stops, buses));
                }
                return Err(DispatchError::MissingEntity);
            }
            checked += 1;
        }
        let uid = sat_add(cause_uid, 1);
        let time_stamp = sat_add(cause_time, self.settings.initial_delay);
        let ghost waiting = scheduler.pending();
        let ghost mut events: Seq<BusWorldEvent> = Seq::empty();
        let mut index: usize = 0;
        proof {
            events.to_multiset_ensures();
            assert(waiting.add(events.to_multiset()) =~= waiting);
        }
        while index < imported_buses.len()
            invariant
                index <= imported_buses@.len(),
                buses == bus_views(imported_buses@),
                forall|k: int| 0 <= k < buses.len() ==> importable(before, #[trigger] buses[k]),
                places@.len() == buses.len(),
                forall|k: int|
                    0 <= k < buses.len() ==> (#[trigger] places@[k]) == stop_position(
                        before,
                        buses[k].serviced_stop_names[buses[k].current_stop as int],
                    ),
                self.settings == old(self).settings,
                uid == next_uid(cause),
                time_stamp == later(cause, self.settings.initial_delay as nat),
                starts_scheduled(buses.take(index as int), events, cause, self.settings.initial_delay),
                self@.bus_stops == imported(before, buses, index as int),
                scheduler.pending() == waiting.add(events.to_multiset()),
                scheduler.spec_runtime() == old(scheduler).spec_runtime(),
                scheduler.spec_current_time() == old(scheduler).spec_current_time(),
            decreases imported_buses@.len() - index,
        {
            let bus = imported_buses[index].clone();
            assert(bus@ == buses[index as int]);
            proof {
                lemma_imported_names(before, buses, index as int);
                assert(importable(before, buses[index as int]));
                lemma_stop_position_same_names(
                    before,
                    self@.bus_stops,
                    bus@.serviced_stop_names[bus@.current_stop as int],
                );
            }
            let payload = UnloadPassengersJson::new(bus.uuid.clone());
            let unload = UnloadPassengersEvent::new(uid, time_stamp, payload.to_json());
            let next = BusWorldEvent::UnloadPassengers(unload);
            proof {
                assert(follows(
                    next,
                    "UnloadPassengers"@,
                    next_uid(cause),
                    later(cause, self.settings.initial_delay as nat),
                    bus_payload(bus@.uuid),
                ));
                events.to_multiset_ensures();
                assert(waiting.add(events.push(next).to_multiset()) =~= waiting.add(
                    events.to_multiset(),
                ).insert(next));
            }
            scheduler.add_event(next);
            let at = places[index];
            let ghost so_far = self@.bus_stops;
            let ghost stops_so_far = self.bus_stops@;
            assert(so_far.len() == before.len());
            self.bus_stops[at].add_bus(bus);
            proof {
                assert forall|i: int| 0 <= i < self.bus_stops@.len() && i != at implies (
                #[trigger] self@.bus_stops[i]) == so_far[i] by {
                    assert(self.bus_stops@[i] == stops_so_far[i]);
                }
                assert(self@.bus_stops[at as int] == self.bus_stops@[at as int]@);
                assert(so_far[at as int] == stops_so_far[at as int]@);
                assert(self@.bus_stops =~= with_bus_at(so_far, at as int, buses[index as int]));
            }
            proof {
                let taken = buses.take(index as int + 1);
                let grown = events.push(next);
                assert forall|k: int| 0 <= k < taken.len() implies follows(
                    #[trigger] grown[k],
                    "UnloadPassengers"@,
                    next_uid(cause),
                    later(cause, self.settings.initial_delay as nat),
                    bus_payload(taken[k].uuid),
                ) by {
                    if k < index {
                        assert(grown[k] == events[k]);
                        assert(taken[k] == buses.take(index as int)[k]);
                    }
                }
                events = grown;
            }
            index += 1;
        }
        proof {
            assert(buses.take(index as int) =~= buses);
            assert(is_import(
                events,
                Moment {
                    bus_stops: old(self)@.bus_stops,
                    pending: old(scheduler).pending(),
                    statistics: old(stat_recorder)@,
                },
                old(self)@.settings,
                cause,
                buses,
                Moment {
                    bus_stops: self@.bus_stops,
                    pending: scheduler.pending(),
                    statistics: stat_recorder@,
                },
            ));
        }
        Ok(())
    }
}

} // verus!
