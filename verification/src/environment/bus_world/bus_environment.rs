//! The bus world: a line of stops, the buses on it, and what its events do.

use super::bus::{Bus, BusView};
use super::bus_scenario_traits::{
    advance_outcome, advanced, create_outcome, fleet_created, fleet_imported, import_outcome,
    load_outcome, loaded, unload_outcome, unloaded, AdvanceVehicleHandler, Moment,
    NewVehicleHandler, PassengerTransportHandler,
};
use super::bus_world_events::terminal_event::TerminalEvent;
use super::bus_world_events::{kind_of_event, BusEventTypes, BusWorldEvent};
use crate::des::scheduler::Scheduler;
use crate::environment::env::{DispatchError, Environment, Handling};
use crate::event::schedulable::{DecodeError, SchedulableEvent};
use super::bus_stop::{
    bus_position, has_bus, riders, riders_wait, settled_stop, stop_facts, stop_text, stop_views,
    BusStop, BusStopView,
};
use super::passenger::{Passenger, PassengerView};
use super::passenger_map::{head_count, with_passenger};
use crate::json::{encode_stops, json_of_stops, StopRecord};
use crate::statistics::data_point::DataPoint;
use crate::statistics::stats::{recorded, Stats};
use crate::text::{
    char_text, clip, decimal, decimal_text, lemma_clip_product, lemma_clip_sum, letter, sat_add,
    sat_mul,
};
use vstd::prelude::*;

verus! {

/// The delays of the bus world, in seconds of simulation time.
#[derive(Clone, Copy)]
pub struct BusEnvironmentSettings {
    pub pickup_delay: usize,
    pub drop_off_delay: usize,
    pub next_stop_delay: usize,
    pub initial_delay: usize,
}

impl BusEnvironmentSettings {
    pub fn new(
        pickup_delay: usize,
        drop_off_delay: usize,
        next_stop_delay: usize,
        initial_delay: usize,
    ) -> (settings: Self)
        ensures
            settings == (BusEnvironmentSettings {
                pickup_delay,
                drop_off_delay,
                next_stop_delay,
                initial_delay,
            }),
    {
        BusEnvironmentSettings { pickup_delay, drop_off_delay, next_stop_delay, initial_delay }
    }
}

impl BusEnvironmentSettings {
    /// The settings as text.
    pub fn to_text(&self) -> (text: String)
        ensures
            text@ == "pickup_delay: "@ + decimal_text(self.pickup_delay as nat)
                + ", drop_off_delay: "@ + decimal_text(self.drop_off_delay as nat)
                + ", next_stop_delay: "@ + decimal_text(self.next_stop_delay as nat)
                + ", initial_delay: "@ + decimal_text(self.initial_delay as nat),
    {
        "pickup_delay: ".to_string().concat(decimal(self.pickup_delay).as_str()).concat(
            ", drop_off_delay: ",
        ).concat(decimal(self.drop_off_delay).as_str()).concat(", next_stop_delay: ").concat(
            decimal(self.next_stop_delay).as_str(),
        ).concat(", initial_delay: ").concat(decimal(self.initial_delay).as_str())
    }
}

impl Default for BusEnvironmentSettings {
    /// A minute to pick a passenger up, half a minute to drop one off, ten
    /// minutes to the next stop, ten minutes before the first bus moves.
    fn default() -> (settings: Self)
        ensures
            settings == (BusEnvironmentSettings {
                pickup_delay: 60,
                drop_off_delay: 30,
                next_stop_delay: 600,
                initial_delay: 600,
            }),
    {
        BusEnvironmentSettings {
            pickup_delay: 60,
            drop_off_delay: 30,
            next_stop_delay: 600,
            initial_delay: 600,
        }
    }
}

/// What a [`BusEnvironment`] holds, as mathematical values.
pub struct BusEnvironmentView {
    pub bus_stops: Seq<BusStopView>,
    pub settings: BusEnvironmentSettings,
}

/// The stops of the line, in order, and the delays.
pub struct BusEnvironment {
    pub bus_stops: Vec<BusStop>,
    pub settings: BusEnvironmentSettings,
}

impl View for BusEnvironment {
    type V = BusEnvironmentView;

    open spec fn view(&self) -> BusEnvironmentView {
        BusEnvironmentView { bus_stops: stop_views(self.bus_stops@), settings: self.settings }
    }
}

/// The greatest number of stops a line can have: stops are named by single
/// characters from `'A'` on, and the characters run out at the surrogates.
pub const MAX_BUS_STOPS: usize = 55231;

/// The letter of the stop with the given number: the character that many
/// places after `'A'`.
pub open spec fn stop_letter(number: int) -> char {
    ((65 + number) as u32) as char
}

/// `name` is the name of the stop with the given number: its letter and
/// nothing else.
pub open spec fn is_stop_name(name: Seq<char>, number: int) -> bool {
    name == seq![stop_letter(number)]
}

/// The position of the first stop named `name`, or the number of stops if
/// there is none.
pub open spec fn stop_position(stops: Seq<BusStopView>, name: Seq<char>) -> int
    decreases stops.len(),
{
    if stops.len() == 0 {
        0
    } else if stops[0].name == name {
        0
    } else {
        1 + stop_position(stops.drop_first(), name)
    }
}

/// The position of the first stop at which a bus with the identifier `uuid`
/// stands, or the number of stops if there is none.
pub open spec fn stop_with_bus(stops: Seq<BusStopView>, uuid: Seq<char>) -> int
    decreases stops.len(),
{
    if stops.len() == 0 {
        0
    } else if has_bus(stops[0], uuid) {
        0
    } else {
        1 + stop_with_bus(stops.drop_first(), uuid)
    }
}

/// The number of passengers who wait at some stops.
pub open spec fn waiting_total(stops: Seq<BusStopView>) -> nat
    decreases stops.len(),
{
    if stops.len() == 0 {
        0
    } else {
        waiting_total(stops.drop_last()) + head_count(stops.last().waiting_passengers)
    }
}

/// The number of passengers who got off at some stops.
pub open spec fn completed_total(stops: Seq<BusStopView>) -> nat
    decreases stops.len(),
{
    if stops.len() == 0 {
        0
    } else {
        completed_total(stops.drop_last()) + stops.last().completed_passengers.len()
    }
}

/// The sum of the wait times of the passengers who got off at some stops.
pub open spec fn completed_wait(stops: Seq<BusStopView>) -> nat
    decreases stops.len(),
{
    if stops.len() == 0 {
        0
    } else {
        completed_wait(stops.drop_last()) + super::passenger_map::wait_sum(
            stops.last().completed_passengers,
        )
    }
}

/// The number of passengers on the buses at some stops.
pub open spec fn pending_total(stops: Seq<BusStopView>) -> nat
    decreases stops.len(),
{
    if stops.len() == 0 {
        0
    } else {
        pending_total(stops.drop_last()) + riders(stops.last().buses_at_stop)
    }
}

/// The sum of the wait times of the passengers on the buses at some stops.
pub open spec fn pending_wait(stops: Seq<BusStopView>) -> nat
    decreases stops.len(),
{
    if stops.len() == 0 {
        0
    } else {
        pending_wait(stops.drop_last()) + riders_wait(stops.last().buses_at_stop)
    }
}

/// `stop_position` is within bounds, names a stop of that name where it is
/// below the length, and passes over no such stop.
pub proof fn lemma_stop_position(stops: Seq<BusStopView>, name: Seq<char>)
    ensures
        0 <= stop_position(stops, name) <= stops.len(),
        stop_position(stops, name) < stops.len() ==> stops[stop_position(stops, name)].name == name,
        forall|i: int| 0 <= i < stop_position(stops, name) ==> (#[trigger] stops[i]).name != name,
    decreases stops.len(),
{
    if stops.len() != 0 && stops[0].name != name {
        let rest = stops.drop_first();
        lemma_stop_position(rest, name);
        assert forall|i: int| 0 <= i < stop_position(stops, name) implies (#[trigger] stops[i]).name
            != name by {
            if i > 0 {
                assert(stops[i] == rest[i - 1]);
            }
        }
    }
}

/// A position whose stop has the name, with none before it that has, is
/// `stop_position`.
pub proof fn lemma_stop_position_is(stops: Seq<BusStopView>, name: Seq<char>, position: int)
    requires
        0 <= position <= stops.len(),
        position < stops.len() ==> stops[position].name == name,
        forall|i: int| 0 <= i < position ==> (#[trigger] stops[i]).name != name,
    ensures
        stop_position(stops, name) == position,
{
    lemma_stop_position(stops, name);
    let first = stop_position(stops, name);
    if first < position {
        assert(stops[first].name != name);
    }
}

/// The two series have the same stops by name.
pub open spec fn same_names(first: Seq<BusStopView>, second: Seq<BusStopView>) -> bool {
    &&& first.len() == second.len()
    &&& forall|i: int| 0 <= i < first.len() ==> (#[trigger] first[i]).name == second[i].name
}

/// Stops of the same names are found at the same positions.
pub proof fn lemma_stop_position_same_names(
    first: Seq<BusStopView>,
    second: Seq<BusStopView>,
    name: Seq<char>,
)
    requires
        same_names(first, second),
    ensures
        stop_position(first, name) == stop_position(second, name),
{
    lemma_stop_position(first, name);
    let position = stop_position(first, name);
    assert forall|i: int| 0 <= i < position implies (#[trigger] second[i]).name != name by {
        assert(first[i].name != name);
    }
    if position < first.len() {
        assert(first[position].name == second[position].name);
    }
    lemma_stop_position_is(second, name, position);
}

/// `stop_with_bus` is within bounds, names a stop with the bus where it is
/// below the length, and passes over no such stop.
pub proof fn lemma_stop_with_bus(stops: Seq<BusStopView>, uuid: Seq<char>)
    ensures
        0 <= stop_with_bus(stops, uuid) <= stops.len(),
        stop_with_bus(stops, uuid) < stops.len() ==> has_bus(stops[stop_with_bus(stops, uuid)], uuid),
        forall|i: int| 0 <= i < stop_with_bus(stops, uuid) ==> !has_bus(#[trigger] stops[i], uuid),
    decreases stops.len(),
{
    if stops.len() != 0 && !has_bus(stops[0], uuid) {
        let rest = stops.drop_first();
        lemma_stop_with_bus(rest, uuid);
        assert forall|i: int| 0 <= i < stop_with_bus(stops, uuid) implies !has_bus(
            #[trigger] stops[i],
            uuid,
        ) by {
            if i > 0 {
                assert(stops[i] == rest[i - 1]);
            }
        }
    }
}

/// A position whose stop has the bus, with none before it that has, is
/// `stop_with_bus`.
pub proof fn lemma_stop_with_bus_is(stops: Seq<BusStopView>, uuid: Seq<char>, position: int)
    requires
        0 <= position <= stops.len(),
        position < stops.len() ==> has_bus(stops[position], uuid),
        forall|i: int| 0 <= i < position ==> !has_bus(#[trigger] stops[i], uuid),
    ensures
        stop_with_bus(stops, uuid) == position,
{
    lemma_stop_with_bus(stops, uuid);
    let first = stop_with_bus(stops, uuid);
    if first < position {
        assert(!has_bus(stops[first], uuid));
    }
}

/// One more passenger waiting at one stop is one more passenger waiting.
pub proof fn lemma_waiting_total_update(stops: Seq<BusStopView>, position: int, stop: BusStopView)
    requires
        0 <= position < stops.len(),
    ensures
        waiting_total(stops.update(position, stop)) + head_count(
            stops[position].waiting_passengers,
        ) == waiting_total(stops) + head_count(stop.waiting_passengers),
    decreases stops.len(),
{
    let changed = stops.update(position, stop);
    if position == stops.len() - 1 {
        assert(changed.drop_last() =~= stops.drop_last());
    } else {
        lemma_waiting_total_update(stops.drop_last(), position, stop);
        assert(changed.drop_last() =~= stops.drop_last().update(position, stop));
    }
}

/// The lines of the first `upto` stops, one line for each.
pub open spec fn stop_lines(stops: Seq<BusStopView>, upto: int) -> Seq<char>
    decreases upto,
{
    if upto <= 0 {
        Seq::empty()
    } else {
        stop_lines(stops, upto - 1) + stop_text(stops[upto - 1]) + " \n"@
    }
}

/// The bus world as text: a heading, a line for every stop, and an empty
/// line.
pub open spec fn world_text(stops: Seq<BusStopView>) -> Seq<char> {
    "Bus Stops:\tBuses:\n"@ + stop_lines(stops, stops.len() as int) + "\n"@
}

/// The message for an empty line.
pub open spec fn no_bus_stops() -> Seq<char> {
    "No bus stops exist"@
}

/// The stops with `bus` put at the stop at `position`.
pub open spec fn with_bus_at(stops: Seq<BusStopView>, position: int, bus: BusView) -> Seq<
    BusStopView,
> {
    stops.update(
        position,
        BusStopView { buses_at_stop: stops[position].buses_at_stop.push(bus), ..stops[position] },
    )
}

/// The stops without the first bus that has the identifier `uuid`.
pub open spec fn without_bus(stops: Seq<BusStopView>, uuid: Seq<char>) -> Seq<BusStopView> {
    let position = stop_with_bus(stops, uuid);
    stops.update(
        position,
        BusStopView {
            buses_at_stop: stops[position].buses_at_stop.remove(
                bus_position(stops[position].buses_at_stop, uuid),
            ),
            ..stops[position]
        },
    )
}

/// The stops after `timestamp` was added to the wait time of everybody on a
/// bus.
pub open spec fn settled(stops: Seq<BusStopView>, timestamp: usize) -> Seq<BusStopView> {
    stops.map_values(|stop: BusStopView| settled_stop(stop, timestamp))
}

/// The names of some stops, in order.
pub open spec fn stop_names_of(stops: Seq<BusStopView>) -> Seq<Seq<char>> {
    stops.map_values(|stop: BusStopView| stop.name)
}

/// The stops after `passenger` began to wait at the first stop that has the
/// name of their source; unchanged where no stop has it.
pub open spec fn with_waiting(stops: Seq<BusStopView>, passenger: PassengerView) -> Seq<
    BusStopView,
> {
    let position = stop_position(stops, passenger.source);
    if position < stops.len() {
        stops.update(
            position,
            BusStopView {
                waiting_passengers: with_passenger(stops[position].waiting_passengers, passenger),
                ..stops[position]
            },
        )
    } else {
        stops
    }
}

/// The stops after the first `upto` of `passengers` began to wait, one after
/// the other.
pub open spec fn distributed(
    stops: Seq<BusStopView>,
    passengers: Seq<PassengerView>,
    upto: int,
) -> Seq<BusStopView>
    decreases upto,
{
    if upto <= 0 {
        stops
    } else {
        with_waiting(distributed(stops, passengers, upto - 1), passengers[upto - 1])
    }
}

/// `passenger` has the given number, has not waited yet, and travels from
/// one of the stops, where they are, to a later one.
pub open spec fn travels(passenger: PassengerView, number: int, names: Seq<Seq<char>>) -> bool {
    &&& passenger.uid == number
    &&& passenger.wait_time == 0
    &&& passenger.location == passenger.source
    &&& exists|from: int, to: int|
        {
            &&& 0 <= from < to < names.len()
            &&& passenger.source == names[from]
            &&& passenger.destination == names[to]
        }
}

/// `passengers` are `count` passengers who travel along the line, numbered
/// from zero, and `after` are the stops at which they wait.
pub open spec fn is_distribution(
    passengers: Seq<PassengerView>,
    before: Seq<BusStopView>,
    count: int,
    after: Seq<BusStopView>,
) -> bool {
    &&& passengers.len() == count
    &&& forall|k: int|
        0 <= k < count ==> travels(#[trigger] passengers[k], k, stop_names_of(before))
    &&& after == distributed(before, passengers, count)
}

/// Who comes later does not matter to where the earlier passengers wait.
pub proof fn lemma_distributed_prefix(
    stops: Seq<BusStopView>,
    first: Seq<PassengerView>,
    second: Seq<PassengerView>,
    upto: int,
)
    requires
        0 <= upto <= first.len() <= second.len(),
        forall|k: int| 0 <= k < upto ==> first[k] == second[k],
    ensures
        distributed(stops, first, upto) == distributed(stops, second, upto),
    decreases upto,
{
    if upto > 0 {
        lemma_distributed_prefix(stops, first, second, upto - 1);
    }
}

/// The two series agree in everything but who waits at the stops.
pub open spec fn same_but_waiting(before: Seq<BusStopView>, after: Seq<BusStopView>) -> bool {
    &&& after.len() == before.len()
    &&& forall|i: int|
        0 <= i < before.len() ==> {
            &&& (#[trigger] after[i]).name == before[i].name
            &&& after[i].completed_passengers == before[i].completed_passengers
            &&& after[i].buses_at_stop == before[i].buses_at_stop
        }
}

/// The name of the stop with the given number.
pub fn stop_name(number: usize) -> (name: String)
    requires
        number < MAX_BUS_STOPS,
    ensures
        is_stop_name(name@, number as int),
{
    let code: u32 = 65 + (number as u32);
    char_text(letter(code))
}

/// The label of the series of passengers who got off.
pub open spec fn completed_label() -> Seq<char> {
    "Completed Passengers"@
}

/// The label of the series of passengers on buses.
pub open spec fn pending_label() -> Seq<char> {
    "Pending Passengers"@
}

/// The label of the series of passengers still waiting at stops.
pub open spec fn forgotten_label() -> Seq<char> {
    "Forgotten Passengers"@
}

/// The label of the series of the wait time of everybody.
pub open spec fn total_wait_label() -> Seq<char> {
    "Total Passenger Wait Time"@
}

/// The statistics after the wait times at `timestamp` were recorded: how
/// many passengers are on buses, how many still wait at a stop, and the wait
/// time of all of them, where who still waits has waited since the start.
pub open spec fn wait_time_recorded(
    all: Seq<crate::statistics::timeseries::TimeSeriesView>,
    stops: Seq<BusStopView>,
    timestamp: usize,
) -> Seq<crate::statistics::timeseries::TimeSeriesView> {
    let pending = recorded(all, pending_label(), timestamp, clip(pending_total(stops)), "count"@);
    let forgotten = recorded(
        pending,
        forgotten_label(),
        timestamp,
        clip(waiting_total(stops)),
        "count"@,
    );
    recorded(
        forgotten,
        total_wait_label(),
        timestamp,
        clip(pending_wait(stops) + waiting_total(stops) * timestamp as nat),
        "seconds"@,
    )
}

impl BusEnvironment {
    /// Create a bus world without stops.
    pub fn new(settings: BusEnvironmentSettings) -> (created: BusEnvironment)
        ensures
            created@ == (BusEnvironmentView { bus_stops: Seq::empty(), settings }),
    {
        let created = BusEnvironment { bus_stops: Vec::new(), settings };
        assert(created@.bus_stops =~= Seq::<BusStopView>::empty());
        created
    }

    /// Put a bus at the first stop. A world without stops is an error.
    pub fn add_bus_to_start(&mut self, bus: Bus) -> (outcome: Result<(), String>)
        ensures
            outcome is Ok <==> old(self)@.bus_stops.len() > 0,
            outcome is Ok ==> final(self)@ == (BusEnvironmentView {
                bus_stops: with_bus_at(old(self)@.bus_stops, 0, bus@),
                ..old(self)@
            }),
            outcome matches Err(message) ==> message@ == no_bus_stops() && final(self)@ == old(
                self,
            )@,
    {
        if self.bus_stops.len() > 0 {
            let ghost before = self.bus_stops@;
            self.bus_stops[0].add_bus(bus);
            proof {
                assert forall|i: int| 0 < i < self.bus_stops@.len() implies (
                #[trigger] self.bus_stops@[i]) == before[i] by {}
                assert(self@.bus_stops =~= with_bus_at(old(self)@.bus_stops, 0, bus@));
            }
            Ok(())
        } else {
            Err("No bus stops exist".to_string())
        }
    }

    /// The position of the first stop named `stop_name`.
    pub fn find_stop_by_name(&self, stop_name: &String) -> (position: usize)
        ensures
            position == stop_position(self@.bus_stops, stop_name@),
            position <= self.bus_stops@.len(),
    {
        let mut position: usize = 0;
        while position < self.bus_stops.len()
            invariant
                position <= self.bus_stops@.len(),
                forall|i: int| 0 <= i < position ==> (#[trigger] self@.bus_stops[i]).name != stop_name@,
            decreases self.bus_stops@.len() - position,
        {
            if self.bus_stops[position].name == *stop_name {
                proof {
                    lemma_stop_position_is(self@.bus_stops, stop_name@, position as int);
                }
                return position;
            }
            position += 1;
        }
        proof {
            lemma_stop_position_is(self@.bus_stops, stop_name@, position as int);
        }
        position
    }

    /// The position of the first stop at which a bus with the identifier
    /// `uuid` stands.
    pub fn find_stop_by_bus_uuid(&self, uuid: &String) -> (position: usize)
        ensures
            position == stop_with_bus(self@.bus_stops, uuid@),
            position <= self.bus_stops@.len(),
    {
        let mut position: usize = 0;
        while position < self.bus_stops.len()
            invariant
                position <= self.bus_stops@.len(),
                forall|i: int| 0 <= i < position ==> !has_bus(#[trigger] self@.bus_stops[i], uuid@),
            decreases self.bus_stops@.len() - position,
        {
            let stop = &self.bus_stops[position];
            if stop.find_bus(uuid) < stop.buses_at_stop.len() {
                proof {
                    lemma_stop_with_bus_is(self@.bus_stops, uuid@, position as int);
                }
                return position;
            }
            position += 1;
        }
        proof {
            lemma_stop_with_bus_is(self@.bus_stops, uuid@, position as int);
        }
        position
    }

    /// Take the first bus with the identifier `bus_uuid` away from its stop,
    /// if it stands at any.
    pub fn drain_bus_by_uuid(&mut self, bus_uuid: String) -> (bus: Option<Bus>)
        ensures
            bus is Some <==> stop_with_bus(old(self)@.bus_stops, bus_uuid@) < old(
                self,
            )@.bus_stops.len(),
            bus is None ==> final(self)@ == old(self)@,
            bus matches Some(drained) ==> {
                let position = stop_with_bus(old(self)@.bus_stops, bus_uuid@);
                &&& drained@ == old(self)@.bus_stops[position].buses_at_stop[bus_position(
                    old(self)@.bus_stops[position].buses_at_stop,
                    bus_uuid@,
                )]
                &&& drained@.uuid == bus_uuid@
                &&& final(self)@ == (BusEnvironmentView {
                    bus_stops: without_bus(old(self)@.bus_stops, bus_uuid@),
                    ..old(self)@
                })
            },
    {
        let position = self.find_stop_by_bus_uuid(&bus_uuid);
        proof {
            lemma_stop_with_bus(self@.bus_stops, bus_uuid@);
        }
        if position < self.bus_stops.len() {
            let ghost before = self.bus_stops@;
            let bus = self.bus_stops[position].drain_bus(bus_uuid);
            proof {
                assert forall|i: int|
                    0 <= i < self.bus_stops@.len() && i != position implies (
                #[trigger] self.bus_stops@[i]) == before[i] by {}
                assert(self@.bus_stops =~= without_bus(old(self)@.bus_stops, bus_uuid@));
            }
            Some(bus)
        } else {
            None
        }
    }

    /// Append `count` stops without passengers or buses. The stops are named
    /// by single characters: `'A'`, `'B'` and so on.
    pub fn create_bus_stops(&mut self, count: usize)
        requires
            count <= MAX_BUS_STOPS,
        ensures
            final(self)@.settings == old(self)@.settings,
            final(self)@.bus_stops.len() == old(self)@.bus_stops.len() + count,
            final(self)@.bus_stops.subrange(0, old(self)@.bus_stops.len() as int) == old(
                self,
            )@.bus_stops,
            forall|j: int|
                old(self)@.bus_stops.len() <= j < final(self)@.bus_stops.len() ==> {
                    let stop = #[trigger] final(self)@.bus_stops[j];
                    &&& is_stop_name(stop.name, j - old(self)@.bus_stops.len())
                    &&& stop.waiting_passengers.len() == 0
                    &&& stop.completed_passengers.len() == 0
                    &&& stop.buses_at_stop.len() == 0
                },
    {
        let mut number: usize = 0;
        let ghost start = self@.bus_stops.len();
        assert(self@.bus_stops.subrange(0, start as int) =~= old(self)@.bus_stops);
        while number < count
            invariant
                number <= count <= MAX_BUS_STOPS,
                start == old(self)@.bus_stops.len(),
                self.settings == old(self).settings,
                self@.bus_stops.len() == start + number,
                self@.bus_stops.subrange(0, start as int) == old(self)@.bus_stops,
                forall|j: int|
                    start <= j < start + number ==> {
                        let stop = #[trigger] self@.bus_stops[j];
                        &&& is_stop_name(stop.name, j - start)
                        &&& stop.waiting_passengers.len() == 0
                        &&& stop.completed_passengers.len() == 0
                        &&& stop.buses_at_stop.len() == 0
                    },
            decreases count - number,
        {
            let ghost before = self@.bus_stops;
            self.bus_stops.push(BusStop::new(stop_name(number)));
            proof {
                assert(self@.bus_stops =~= before.push(self.bus_stops@.last()@));
                assert(self@.bus_stops.subrange(0, start as int) =~= before.subrange(0, start as int));
                assert forall|j: int| start <= j < start + number + 1 implies {
                    let stop = #[trigger] self@.bus_stops[j];
                    &&& is_stop_name(stop.name, j - start)
                    &&& stop.waiting_passengers.len() == 0
                    &&& stop.completed_passengers.len() == 0
                    &&& stop.buses_at_stop.len() == 0
                } by {
                    if j < start + number {
                        assert(self@.bus_stops[j] == before[j]);
                    }
                }
            }
            number += 1;
        }
    }

    /// The names of the stops, in order.
    pub fn stop_names(&self) -> (names: Vec<String>)
        ensures
            names@.len() == self@.bus_stops.len(),
            forall|i: int| 0 <= i < names@.len() ==> (#[trigger] names@[i])@ == self@.bus_stops[i].name,
    {
        let mut names: Vec<String> = Vec::new();
        let mut index: usize = 0;
        while index < self.bus_stops.len()
            invariant
                index <= self.bus_stops@.len(),
                names@.len() == index,
                forall|i: int| 0 <= i < index ==> (#[trigger] names@[i])@ == self@.bus_stops[i].name,
            decreases self.bus_stops@.len() - index,
        {
            names.push(self.bus_stops[index].name.clone());
            index += 1;
        }
        names
    }

    /// Create `count` passengers and distribute them among the stops.
    ///
    /// Every passenger travels from one stop to a later one, both drawn at
    /// random, and waits at the first stop that has the name of their source.
    /// The passengers are numbered from zero. The world needs a stop, and two
    /// stops for a passenger to travel.
    pub fn initialize_bus_stops_with_passengers(&mut self, count: usize)
        requires
            old(self)@.bus_stops.len() >= 1,
            count > 0 ==> old(self)@.bus_stops.len() >= 2,
        ensures
            final(self)@.settings == old(self)@.settings,
            exists|passengers: Seq<PassengerView>| #[trigger]
                is_distribution(
                    passengers,
                    old(self)@.bus_stops,
                    count as int,
                    final(self)@.bus_stops,
                ),
            same_but_waiting(old(self)@.bus_stops, final(self)@.bus_stops),
            waiting_total(final(self)@.bus_stops) == waiting_total(old(self)@.bus_stops) + count,
    {
        let bus_stop_names = self.stop_names();
        let mut number: usize = 0;
        let ghost mut added: Seq<PassengerView> = Seq::empty();
        let ghost names = stop_names_of(self@.bus_stops);
        while number < count
            invariant
                number <= count,
                self.settings == old(self).settings,
                names == stop_names_of(old(self)@.bus_stops),
                bus_stop_names@.len() == names.len(),
                count > 0 ==> bus_stop_names@.len() >= 2,
                forall|i: int|
                    0 <= i < bus_stop_names@.len() ==> (#[trigger] bus_stop_names@[i])@ == names[i],
                added.len() == number,
                forall|k: int| 0 <= k < number ==> travels(#[trigger] added[k], k, names),
                self@.bus_stops == distributed(old(self)@.bus_stops, added, number as int),
                same_but_waiting(old(self)@.bus_stops, self@.bus_stops),
                waiting_total(self@.bus_stops) == waiting_total(old(self)@.bus_stops) + number,
            decreases count - number,
        {
            let passenger = Passenger::new_random_passenger(number, &bus_stop_names);
            let position = self.find_stop_by_name(&passenger.source);
            proof {
                lemma_stop_position(self@.bus_stops, passenger@.source);
                let (from, to) = choose|from: int, to: int|
                    {
                        &&& 0 <= from < to < bus_stop_names@.len()
                        &&& passenger@.source == bus_stop_names@[from]@
                        &&& passenger@.destination == bus_stop_names@[to]@
                    };
                assert(names[from] == passenger@.source);
                assert(names[to] == passenger@.destination);
                assert(self@.bus_stops[from].name == passenger@.source);
                assert(travels(passenger@, number as int, names));
                lemma_distributed_prefix(
                    old(self)@.bus_stops,
                    added,
                    added.push(passenger@),
                    number as int,
                );
            }
            let ghost before = self@.bus_stops;
            let ghost stops_before = self.bus_stops@;
            if position < self.bus_stops.len() {
                self.bus_stops[position].add_passenger(passenger);
                proof {
                    assert forall|i: int|
                        0 <= i < self.bus_stops@.len() && i != position implies (
                    #[trigger] self@.bus_stops[i]) == before[i] by {
                        assert(self.bus_stops@[i] == stops_before[i]);
                    }
                    assert(self@.bus_stops[position as int] == self.bus_stops@[position as int]@);
                    assert(before[position as int] == stops_before[position as int]@);
                    assert(self@.bus_stops =~= with_waiting(before, passenger@));
                    lemma_waiting_total_update(
                        before,
                        position as int,
                        self@.bus_stops[position as int],
                    );
                }
            }
            proof {
                added = added.push(passenger@);
            }
            number += 1;
        }
        proof {
            assert(is_distribution(added, old(self)@.bus_stops, count as int, self@.bus_stops));
        }
    }
}

impl BusEnvironment {
    /// The number of passengers who wait at the stops, or the greatest number
    /// that fits if there are more.
    pub fn waiting_count(&self) -> (count: usize)
        ensures
            count == clip(waiting_total(self@.bus_stops)),
    {
        let mut count: usize = 0;
        let mut index: usize = 0;
        let ghost stops = self@.bus_stops;
        while index < self.bus_stops.len()
            invariant
                index <= self.bus_stops@.len(),
                stops == self@.bus_stops,
                count == clip(waiting_total(stops.take(index as int))),
            decreases self.bus_stops@.len() - index,
        {
            assert(stops.take(index as int + 1).drop_last() =~= stops.take(index as int));
            proof {
                lemma_clip_sum(
                    waiting_total(stops.take(index as int)),
                    head_count(stops[index as int].waiting_passengers),
                );
            }
            count = sat_add(count, self.bus_stops[index].waiting_passengers.count());
            index += 1;
        }
        assert(stops.take(index as int) =~= stops);
        count
    }

    /// Record how many passengers got off, under "Completed Passengers". The
    /// answer is the sum of their wait times, or the greatest number that
    /// fits if it is more.
    pub fn completed_passengers_wait_time(
        &self,
        timestamp: usize,
        stat_recorder: &mut Stats,
    ) -> (wait: usize)
        ensures
            wait == clip(completed_wait(self@.bus_stops)),
            final(stat_recorder)@ == recorded(
                old(stat_recorder)@,
                completed_label(),
                timestamp,
                clip(completed_total(self@.bus_stops)),
                "count"@,
            ),
    {
        let mut wait: usize = 0;
        let mut completed: usize = 0;
        let mut index: usize = 0;
        let ghost stops = self@.bus_stops;
        while index < self.bus_stops.len()
            invariant
                index <= self.bus_stops@.len(),
                stops == self@.bus_stops,
                wait == clip(completed_wait(stops.take(index as int))),
                completed == clip(completed_total(stops.take(index as int))),
            decreases self.bus_stops@.len() - index,
        {
            assert(stops.take(index as int + 1).drop_last() =~= stops.take(index as int));
            proof {
                lemma_clip_sum(
                    completed_wait(stops.take(index as int)),
                    super::passenger_map::wait_sum(stops[index as int].completed_passengers),
                );
            }
            let stop = &self.bus_stops[index];
            wait = sat_add(wait, super::passenger_map::wait_time_of(&stop.completed_passengers));
            completed = sat_add(completed, stop.completed_passengers.len());
            index += 1;
        }
        assert(stops.take(index as int) =~= stops);
        stat_recorder.add_statistic(
            DataPoint::new(timestamp, completed, "count".to_string()),
            "Completed Passengers".to_string(),
        );
        wait
    }

    /// Record how many passengers are on buses, under "Pending Passengers".
    /// The answer is the sum of their wait times, or the greatest number that
    /// fits if it is more.
    pub fn pending_passengers_wait_time(
        &self,
        timestamp: usize,
        stat_recorder: &mut Stats,
    ) -> (wait: usize)
        ensures
            wait == clip(pending_wait(self@.bus_stops)),
            final(stat_recorder)@ == recorded(
                old(stat_recorder)@,
                pending_label(),
                timestamp,
                clip(pending_total(self@.bus_stops)),
                "count"@,
            ),
    {
        let mut wait: usize = 0;
        let mut pending: usize = 0;
        let mut index: usize = 0;
        let ghost stops = self@.bus_stops;
        while index < self.bus_stops.len()
            invariant
                index <= self.bus_stops@.len(),
                stops == self@.bus_stops,
                wait == clip(pending_wait(stops.take(index as int))),
                pending == clip(pending_total(stops.take(index as int))),
            decreases self.bus_stops@.len() - index,
        {
            assert(stops.take(index as int + 1).drop_last() =~= stops.take(index as int));
            proof {
                lemma_clip_sum(
                    pending_wait(stops.take(index as int)),
                    riders_wait(stops[index as int].buses_at_stop),
                );
                lemma_clip_sum(
                    pending_total(stops.take(index as int)),
                    riders(stops[index as int].buses_at_stop),
                );
            }
            let stop = &self.bus_stops[index];
            wait = sat_add(wait, stop.riders_wait_time());
            pending = sat_add(pending, stop.riders());
            index += 1;
        }
        assert(stops.take(index as int) =~= stops);
        stat_recorder.add_statistic(
            DataPoint::new(timestamp, pending, "count".to_string()),
            "Pending Passengers".to_string(),
        );
        wait
    }

    /// Record how many passengers still wait at a stop, under "Forgotten
    /// Passengers". The answer is their wait time: each of them has waited
    /// since the start, that is for `timestamp`.
    pub fn forgotten_passengers_wait_time(
        &self,
        timestamp: usize,
        stat_recorder: &mut Stats,
    ) -> (wait: usize)
        ensures
            wait == clip(waiting_total(self@.bus_stops) * timestamp as nat),
            final(stat_recorder)@ == recorded(
                old(stat_recorder)@,
                forgotten_label(),
                timestamp,
                clip(waiting_total(self@.bus_stops)),
                "count"@,
            ),
    {
        let forgotten = self.waiting_count();
        proof {
            lemma_clip_product(waiting_total(self@.bus_stops), timestamp);
        }
        stat_recorder.add_statistic(
            DataPoint::new(timestamp, forgotten, "count".to_string()),
            "Forgotten Passengers".to_string(),
        );
        sat_mul(forgotten, timestamp)
    }

    /// Record the wait time of everybody who has not arrived, under "Total
    /// Passenger Wait Time", after the numbers of passengers on buses and at
    /// stops.
    pub fn record_total_wait_time(&self, timestamp: usize, stat_recorder: &mut Stats)
        ensures
            final(stat_recorder)@ == wait_time_recorded(
                old(stat_recorder)@,
                self@.bus_stops,
                timestamp,
            ),
    {
        let pending_passengers_wait = self.pending_passengers_wait_time(timestamp, stat_recorder);
        let forgotten_passengers = self.forgotten_passengers_wait_time(timestamp, stat_recorder);
        proof {
            lemma_clip_sum(
                pending_wait(self@.bus_stops),
                waiting_total(self@.bus_stops) * timestamp as nat,
            );
        }
        let total_wait_time = sat_add(pending_passengers_wait, forgotten_passengers);
        stat_recorder.add_statistic(
            DataPoint::new(timestamp, total_wait_time, "seconds".to_string()),
            "Total Passenger Wait Time".to_string(),
        );
    }

    /// Add `timestamp` to the wait time of everybody on a bus.
    pub fn settle(&mut self, timestamp: usize)
        ensures
            final(self)@ == (BusEnvironmentView {
                bus_stops: settled(old(self)@.bus_stops, timestamp),
                ..old(self)@
            }),
    {
        let mut index: usize = 0;
        while index < self.bus_stops.len()
            invariant
                index <= self.bus_stops@.len(),
                self.bus_stops@.len() == old(self).bus_stops@.len(),
                self.settings == old(self).settings,
                forall|i: int|
                    0 <= i < index ==> (#[trigger] self@.bus_stops[i]) == settled_stop(
                        old(self)@.bus_stops[i],
                        timestamp,
                    ),
                forall|i: int|
                    index <= i < self.bus_stops@.len() ==> (#[trigger] self@.bus_stops[i]) == old(
                        self,
                    )@.bus_stops[i],
            decreases self.bus_stops@.len() - index,
        {
            let ghost before = self@.bus_stops;
            let ghost stops_before = self.bus_stops@;
            self.bus_stops[index].settle(timestamp);
            proof {
                assert forall|i: int|
                    0 <= i < self.bus_stops@.len() && i != index implies (
                #[trigger] self@.bus_stops[i]) == before[i] by {
                    assert(self.bus_stops@[i] == stops_before[i]);
                }
                assert(self@.bus_stops[index as int] == self.bus_stops@[index as int]@);
                assert(before[index as int] == stops_before[index as int]@);
                assert(self@.bus_stops[index as int] == settled_stop(
                    old(self)@.bus_stops[index as int],
                    timestamp,
                ));
            }
            index += 1;
        }
        assert(self@.bus_stops =~= settled(old(self)@.bus_stops, timestamp));
    }

    /// The bus world as text.
    pub fn to_text(&self) -> (text: String)
        ensures
            text@ == world_text(self@.bus_stops),
    {
        let mut text = "Bus Stops:\tBuses:\n".to_string();
        let mut index: usize = 0;
        assert(text@ + stop_lines(self@.bus_stops, 0) =~= text@);
        while index < self.bus_stops.len()
            invariant
                index <= self.bus_stops@.len(),
                text@ == "Bus Stops:\tBuses:\n"@ + stop_lines(self@.bus_stops, index as int),
            decreases self.bus_stops@.len() - index,
        {
            let ghost before = text@;
            let line = self.bus_stops[index].to_text();
            text = text.concat(line.as_str()).concat(" \n");
            assert(text@ =~= "Bus Stops:\tBuses:\n"@ + stop_lines(
                self@.bus_stops,
                index as int + 1,
            ));
            index += 1;
        }
        text.concat("\n")
    }

    /// The state as JSON: the stops with their passengers and buses.
    pub fn state_json(&self) -> (json: String)
        ensures
            json@ == json_of_stops(
                self@.bus_stops.map_values(|stop: BusStopView| stop_facts(stop)),
            ),
    {
        let mut records: Vec<StopRecord> = Vec::new();
        let mut index: usize = 0;
        while index < self.bus_stops.len()
            invariant
                index <= self.bus_stops@.len(),
                records@.len() == index,
                forall|i: int|
                    0 <= i < index ==> (#[trigger] records@[i]).deep_view() == stop_facts(
                        self.bus_stops@[i]@,
                    ),
            decreases self.bus_stops@.len() - index,
        {
            records.push(self.bus_stops[index].to_record());
            index += 1;
        }
        assert(records.deep_view() =~= self@.bus_stops.map_values(
            |stop: BusStopView| stop_facts(stop),
        ));
        encode_stops(&records)
    }
}

impl Clone for BusEnvironment {
    fn clone(&self) -> (copy: BusEnvironment)
        ensures
            copy@ == self@,
    {
        let mut stops: Vec<BusStop> = Vec::new();
        let mut index: usize = 0;
        while index < self.bus_stops.len()
            invariant
                index <= self.bus_stops@.len(),
                stops@.len() == index,
                forall|i: int| 0 <= i < index ==> (#[trigger] stops@[i])@ == self.bus_stops@[i]@,
            decreases self.bus_stops@.len() - index,
        {
            stops.push(self.bus_stops[index].clone());
            index += 1;
        }
        let copy = BusEnvironment { bus_stops: stops, settings: self.settings };
        assert(copy@.bus_stops =~= self@.bus_stops);
        copy
    }
}

impl Default for BusEnvironment {
    fn default() -> (created: BusEnvironment)
        ensures
            created@.bus_stops == Seq::<BusStopView>::empty(),
    {
        BusEnvironment::new(BusEnvironmentSettings::default())
    }
}

/// The kind that a discriminator names, if it names one.
pub open spec fn kind_of(event_type: Seq<char>) -> Option<BusEventTypes> {
    if event_type == "Terminal"@ {
        Some(BusEventTypes::TerminalEvent)
    } else if event_type == "ImportBus"@ {
        Some(BusEventTypes::ImportBus)
    } else if event_type == "NewBus"@ {
        Some(BusEventTypes::NewBus)
    } else if event_type == "MoveBusToStop"@ {
        Some(BusEventTypes::MoveBusToStop)
    } else if event_type == "LoadPassengers"@ {
        Some(BusEventTypes::LoadPassengers)
    } else if event_type == "UnloadPassengers"@ {
        Some(BusEventTypes::UnloadPassengers)
    } else {
        None
    }
}

/// Every event of the bus world names its own kind.
pub proof fn lemma_kind_of_event(event: BusWorldEvent)
    ensures
        kind_of(event.spec_event_type()) == Some(kind_of_event(event)),
{
    reveal_strlit("Terminal");
    reveal_strlit("ImportBus");
    reveal_strlit("NewBus");
    reveal_strlit("MoveBusToStop");
    reveal_strlit("LoadPassengers");
    reveal_strlit("UnloadPassengers");
    assert("Terminal"@.len() == 8);
    assert("ImportBus"@.len() == 9);
    assert("NewBus"@.len() == 6);
    assert("MoveBusToStop"@.len() == 13);
    assert("LoadPassengers"@.len() == 14);
    assert("UnloadPassengers"@.len() == 16);
    match event {
        BusWorldEvent::Terminal(inner) => {
            assert(inner.spec_event_type() == "Terminal"@);
        },
        BusWorldEvent::ImportBus(inner) => {
            assert(inner.spec_event_type() == "ImportBus"@);
        },
        BusWorldEvent::NewBus(inner) => {
            assert(inner.spec_event_type() == "NewBus"@);
        },
        BusWorldEvent::MoveBusToStop(inner) => {
            assert(inner.spec_event_type() == "MoveBusToStop"@);
        },
        BusWorldEvent::LoadPassengers(inner) => {
            assert(inner.spec_event_type() == "LoadPassengers"@);
        },
        BusWorldEvent::UnloadPassengers(inner) => {
            assert(inner.spec_event_type() == "UnloadPassengers"@);
        },
    }
}

impl BusEventTypes {
    /// The kind that a discriminator names; an error where it names none.
    pub fn from_str(s: &str) -> (kind: Result<BusEventTypes, ()>)
        ensures
            kind == (match kind_of(s@) {
                Some(kind) => Ok::<BusEventTypes, ()>(kind),
                None => Err(()),
            }),
    {
        let text = s.to_string();
        if text == "Terminal".to_string() {
            Ok(BusEventTypes::TerminalEvent)
        } else if text == "ImportBus".to_string() {
            Ok(BusEventTypes::ImportBus)
        } else if text == "NewBus".to_string() {
            Ok(BusEventTypes::NewBus)
        } else if text == "MoveBusToStop".to_string() {
            Ok(BusEventTypes::MoveBusToStop)
        } else if text == "LoadPassengers".to_string() {
            Ok(BusEventTypes::LoadPassengers)
        } else if text == "UnloadPassengers".to_string() {
            Ok(BusEventTypes::UnloadPassengers)
        } else {
            Err(())
        }
    }
}

/// What the end of the run does: `timestamp` of the terminating event is
/// added to the wait time of everybody on a bus, and the wait times are
/// recorded.
pub open spec fn terminated(before: Moment, event: BusWorldEvent, after: Moment) -> bool {
    &&& after.bus_stops == settled(before.bus_stops, event.spec_time_stamp())
    &&& after.pending == before.pending
    &&& after.statistics == wait_time_recorded(
        before.statistics,
        after.bus_stops,
        event.spec_time_stamp(),
    )
}

/// How the handling of `event` ends: an event of no known kind is fatal, and
/// an event of a known kind ends as its kind says.
pub open spec fn outcome_of(stops: Seq<BusStopView>, event: BusWorldEvent) -> Result<
    (),
    DispatchError,
> {
    match kind_of(event.spec_event_type()) {
        None => Err(DispatchError::UnknownEventType),
        Some(BusEventTypes::TerminalEvent) => Ok(()),
        Some(BusEventTypes::ImportBus) => import_outcome(stops, event),
        Some(BusEventTypes::NewBus) => create_outcome(stops, event),
        Some(BusEventTypes::MoveBusToStop) => advance_outcome(stops, event),
        Some(BusEventTypes::LoadPassengers) => load_outcome(stops, event),
        Some(BusEventTypes::UnloadPassengers) => unload_outcome(event),
    }
}

/// What the handling of `event` does where it ends well.
pub open spec fn effect_of(
    before: Moment,
    settings: BusEnvironmentSettings,
    event: BusWorldEvent,
    after: Moment,
) -> bool {
    match kind_of(event.spec_event_type()) {
        None => after == before,
        Some(BusEventTypes::TerminalEvent) => terminated(before, event, after),
        Some(BusEventTypes::ImportBus) => fleet_imported(before, settings, event, after),
        Some(BusEventTypes::NewBus) => fleet_created(before, settings, event, after),
        Some(BusEventTypes::MoveBusToStop) => advanced(before, settings, event, after),
        Some(BusEventTypes::LoadPassengers) => loaded(before, settings, event, after),
        Some(BusEventTypes::UnloadPassengers) => unloaded(before, event, after),
    }
}

impl BusEnvironment {
    /// The end of the run: see `terminated`.
    pub fn terminate_bus_sim(&mut self, stat_recorder: &mut Stats, event: BusWorldEvent)
        ensures
            final(self)@ == (BusEnvironmentView {
                bus_stops: settled(old(self)@.bus_stops, event.spec_time_stamp()),
                ..old(self)@
            }),
            final(stat_recorder)@ == wait_time_recorded(
                old(stat_recorder)@,
                final(self)@.bus_stops,
                event.spec_time_stamp(),
            ),
    {
        let timestamp = event.get_time_stamp();
        self.settle(timestamp);
        self.record_total_wait_time(timestamp, stat_recorder);
    }
}

impl Environment for BusEnvironment {
    type Event = BusWorldEvent;

    /// The kind of the event decides how its handling ends and what it
    /// does: see `outcome_of` and `effect_of`. A fatal condition leaves the
    /// world, the pending events and the statistics as they were. The
    /// settings and the current time stay as they are in any case.
    open spec fn applied(&self, before: &BusEnvironment, handling: Handling<BusWorldEvent>) -> bool {
        &&& self@.settings == before@.settings
        &&& handling.scheduler_after.spec_current_time()
            == handling.scheduler_before.spec_current_time()
        &&& handling.outcome == outcome_of(before@.bus_stops, handling.event)
        &&& handling.outcome is Err ==> {
            &&& self@ == before@
            &&& handling.scheduler_after.pending() == handling.scheduler_before.pending()
            &&& handling.statistics_after == handling.statistics_before
        }
        &&& handling.outcome is Ok ==> effect_of(
            Moment {
                bus_stops: before@.bus_stops,
                pending: handling.scheduler_before.pending(),
                statistics: handling.statistics_before,
            },
            before@.settings,
            handling.event,
            Moment {
                bus_stops: self@.bus_stops,
                pending: handling.scheduler_after.pending(),
                statistics: handling.statistics_after,
            },
        )
    }

    /// The terminating event of the bus world is a `Terminal` event with the
    /// greatest origin there is and no payload.
    open spec fn terminates(&self, event: BusWorldEvent) -> bool {
        &&& event is Terminal
        &&& event.spec_uid() == usize::MAX
        &&& event.spec_data() == Ok::<Seq<char>, DecodeError>(Seq::<char>::empty())
    }

    /// Handle an event: the kind of the event decides what is done. The bus
    /// world knows every kind of its events. A fatal condition leaves the
    /// world, the scheduler and the statistics as they were.
    fn apply_event(
        &mut self,
        scheduler: &mut Scheduler<BusWorldEvent>,
        stat_recorder: &mut Stats,
        event: BusWorldEvent,
    ) -> (outcome: Result<(), DispatchError>)
        ensures
            final(self)@.settings == old(self)@.settings,
            final(scheduler).spec_current_time() == old(scheduler).spec_current_time(),
            outcome == outcome_of(old(self)@.bus_stops, event),
            outcome != Err::<(), DispatchError>(DispatchError::UnknownEventType),
            outcome is Err ==> {
                &&& final(self)@ == old(self)@
                &&& final(scheduler).pending() == old(scheduler).pending()
                &&& final(stat_recorder)@ == old(stat_recorder)@
            },
            outcome is Ok ==> effect_of(
                Moment {
                    bus_stops: old(self)@.bus_stops,
                    pending: old(scheduler).pending(),
                    statistics: old(stat_recorder)@,
                },
                old(self)@.settings,
                event,
                Moment {
                    bus_stops: final(self)@.bus_stops,
                    pending: final(scheduler).pending(),
                    statistics: final(stat_recorder)@,
                },
            ),
    {
        proof {
            lemma_kind_of_event(event);
        }
        match event.kind() {
            BusEventTypes::TerminalEvent => {
                self.terminate_bus_sim(stat_recorder, event);
                Ok(())
            },
            BusEventTypes::ImportBus => self.import_buses(scheduler, stat_recorder, event),
            BusEventTypes::NewBus => self.create_new_bus(scheduler, stat_recorder, event),
            BusEventTypes::MoveBusToStop => self.advance_bus_to_next_stop(
                scheduler,
                stat_recorder,
                event,
            ),
            BusEventTypes::LoadPassengers => self.load_passengers(scheduler, stat_recorder, event),
            BusEventTypes::UnloadPassengers => self.unload_passengers(
                scheduler,
                stat_recorder,
                event,
            ),
        }
    }

    /// The stops with their passengers and buses, as JSON.
    fn get_state(&self) -> (state: String)
        ensures
            state@ == json_of_stops(
                self@.bus_stops.map_values(|stop: BusStopView| stop_facts(stop)),
            ),
    {
        self.state_json()
    }

    /// The terminating event of the bus world: it has the greatest origin
    /// there is and no payload.
    fn terminating_event(&self, scheduler: &Scheduler<BusWorldEvent>) -> (event: BusWorldEvent)
        ensures
            event is Terminal,
            event.spec_uid() == usize::MAX,
            event.spec_data() == Ok::<Seq<char>, DecodeError>(Seq::<char>::empty()),
    {
        BusWorldEvent::Terminal(TerminalEvent::new(usize::MAX, scheduler.runtime(), String::new()))
    }
}

} // verus!
