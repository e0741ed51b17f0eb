//! The stops of the line.

use super::bus::{bus_facts, bus_views, clone_buses, Bus, BusView};
use super::passenger::{all_waited, passenger_views, passengers_facts, Passenger, PassengerView};
use super::passenger_map::{
    bound_for, groups_facts, groups_waited, head_count, lemma_with_group, wait_total, with_group,
    with_passenger, PassengerGroupView, PassengerMap,
};
use crate::json::{BusRecord, StopFacts, StopRecord};
use crate::text::{clip, decimal, decimal_text, joined, lemma_clip_sum, sat_add};
use vstd::prelude::*;

verus! {

/// What a [`BusStop`] holds, as mathematical values.
pub struct BusStopView {
    pub name: Seq<char>,
    pub waiting_passengers: Seq<PassengerGroupView>,
    pub completed_passengers: Seq<PassengerView>,
    pub buses_at_stop: Seq<BusView>,
}

/// A stop: the passengers who wait there, by destination, the passengers who
/// got off there, and the buses that stand there.
pub struct BusStop {
    pub name: String,
    pub waiting_passengers: PassengerMap,
    pub completed_passengers: Vec<Passenger>,
    pub buses_at_stop: Vec<Bus>,
}

impl View for BusStop {
    type V = BusStopView;

    open spec fn view(&self) -> BusStopView {
        BusStopView {
            name: self.name@,
            waiting_passengers: self.waiting_passengers@,
            completed_passengers: passenger_views(self.completed_passengers@),
            buses_at_stop: bus_views(self.buses_at_stop@),
        }
    }
}

/// The views of some stops, in order.
pub open spec fn stop_views(stops: Seq<BusStop>) -> Seq<BusStopView> {
    stops.map_values(|stop: BusStop| stop@)
}

/// A stop as the record that is written to JSON.
pub open spec fn stop_facts(stop: BusStopView) -> StopFacts {
    (
        stop.name,
        groups_facts(stop.waiting_passengers),
        passengers_facts(stop.completed_passengers),
        stop.buses_at_stop.map_values(|bus: BusView| bus_facts(bus)),
    )
}

/// The position of the first bus with the identifier `uuid`, or the number of
/// buses if there is none.
pub open spec fn bus_position(buses: Seq<BusView>, uuid: Seq<char>) -> int
    decreases buses.len(),
{
    if buses.len() == 0 {
        0
    } else if buses[0].uuid == uuid {
        0
    } else {
        1 + bus_position(buses.drop_first(), uuid)
    }
}

/// `bus_position` is within bounds, names a bus with the identifier where it
/// is below the length, and passes over no such bus.
pub proof fn lemma_bus_position(buses: Seq<BusView>, uuid: Seq<char>)
    ensures
        0 <= bus_position(buses, uuid) <= buses.len(),
        bus_position(buses, uuid) < buses.len() ==> buses[bus_position(buses, uuid)].uuid == uuid,
        forall|i: int| 0 <= i < bus_position(buses, uuid) ==> (#[trigger] buses[i]).uuid != uuid,
    decreases buses.len(),
{
    if buses.len() != 0 && buses[0].uuid != uuid {
        let rest = buses.drop_first();
        lemma_bus_position(rest, uuid);
        assert forall|i: int| 0 <= i < bus_position(buses, uuid) implies (#[trigger] buses[i]).uuid
            != uuid by {
            if i > 0 {
                assert(buses[i] == rest[i - 1]);
            }
        }
    }
}

/// A position whose bus has the identifier, with none before it that has, is
/// `bus_position`.
pub proof fn lemma_bus_position_is(buses: Seq<BusView>, uuid: Seq<char>, position: int)
    requires
        0 <= position <= buses.len(),
        position < buses.len() ==> buses[position].uuid == uuid,
        forall|i: int| 0 <= i < position ==> (#[trigger] buses[i]).uuid != uuid,
    ensures
        bus_position(buses, uuid) == position,
{
    lemma_bus_position(buses, uuid);
    let first = bus_position(buses, uuid);
    if first < position {
        assert(buses[first].uuid != uuid);
    }
}

/// Where boarding stands: who still waits at the stop, who is on the bus, and
/// how many have boarded.
pub struct Boarding {
    pub waiting: Seq<PassengerGroupView>,
    pub on_board: Seq<PassengerGroupView>,
    pub boarded: nat,
}

/// Boarding for one destination: as long as somebody waits for it and the bus
/// has room, the passenger who came to wait last gets on.
pub open spec fn board_for(state: Boarding, capacity: usize, destination: Seq<char>) -> Boarding
    decreases bound_for(state.waiting, destination).len(),
{
    let queue = bound_for(state.waiting, destination);
    if queue.len() == 0 || head_count(state.on_board) >= capacity {
        state
    } else {
        proof {
            lemma_with_group(state.waiting, destination, queue.drop_last(), destination);
        }
        board_for(
            Boarding {
                waiting: with_group(state.waiting, destination, queue.drop_last()),
                on_board: with_passenger(state.on_board, queue.last()),
                boarded: state.boarded + 1,
            },
            capacity,
            destination,
        )
    }
}

/// Boarding along the first `upto` stops of a route, one destination after
/// the other.
pub open spec fn board_along(
    state: Boarding,
    capacity: usize,
    route: Seq<Seq<char>>,
    upto: int,
) -> Boarding
    decreases upto,
{
    if upto <= 0 {
        state
    } else {
        board_for(board_along(state, capacity, route, upto - 1), capacity, route[upto - 1])
    }
}

/// The stop after the bus at `position` took on who waits for the stops of
/// its route.
pub open spec fn boarded_stop(stop: BusStopView, position: int) -> BusStopView {
    let bus = stop.buses_at_stop[position];
    let end = board_along(
        Boarding { waiting: stop.waiting_passengers, on_board: bus.passengers, boarded: 0 },
        bus.capacity,
        bus.serviced_stop_names,
        bus.serviced_stop_names.len() as int,
    );
    BusStopView {
        waiting_passengers: end.waiting,
        buses_at_stop: stop.buses_at_stop.update(
            position,
            BusView { passengers: end.on_board, ..bus },
        ),
        ..stop
    }
}

/// How many passengers get on the bus at `position`.
pub open spec fn boarded_count(stop: BusStopView, position: int) -> nat {
    let bus = stop.buses_at_stop[position];
    board_along(
        Boarding { waiting: stop.waiting_passengers, on_board: bus.passengers, boarded: 0 },
        bus.capacity,
        bus.serviced_stop_names,
        bus.serviced_stop_names.len() as int,
    ).boarded
}

/// Boarding for one destination loses nobody: who leaves the stop is on the
/// bus, and the bus is not filled beyond its capacity unless it was before.
pub proof fn lemma_board_for(state: Boarding, capacity: usize, destination: Seq<char>)
    ensures
        head_count(board_for(state, capacity, destination).waiting) + head_count(
            board_for(state, capacity, destination).on_board,
        ) == head_count(state.waiting) + head_count(state.on_board),
        head_count(board_for(state, capacity, destination).on_board) == head_count(state.on_board)
            + board_for(state, capacity, destination).boarded - state.boarded,
        board_for(state, capacity, destination).boarded >= state.boarded,
        head_count(state.on_board) <= capacity ==> head_count(
            board_for(state, capacity, destination).on_board,
        ) <= capacity,
    decreases bound_for(state.waiting, destination).len(),
{
    let queue = bound_for(state.waiting, destination);
    if !(queue.len() == 0 || head_count(state.on_board) >= capacity) {
        lemma_with_group(state.waiting, destination, queue.drop_last(), destination);
        let next = Boarding {
            waiting: with_group(state.waiting, destination, queue.drop_last()),
            on_board: with_passenger(state.on_board, queue.last()),
            boarded: state.boarded + 1,
        };
        lemma_board_for(next, capacity, destination);
        super::passenger_map::lemma_group_position(state.waiting, destination);
        super::passenger_map::lemma_head_count_update(
            state.waiting,
            super::passenger_map::group_position(state.waiting, destination),
            queue.drop_last(),
        );
        super::passenger_map::lemma_head_count_with_passenger(state.on_board, queue.last());
    }
}

/// Boarding along a route loses nobody: see `lemma_board_for`.
pub proof fn lemma_board_along(state: Boarding, capacity: usize, route: Seq<Seq<char>>, upto: int)
    ensures
        head_count(board_along(state, capacity, route, upto).waiting) + head_count(
            board_along(state, capacity, route, upto).on_board,
        ) == head_count(state.waiting) + head_count(state.on_board),
        head_count(board_along(state, capacity, route, upto).on_board) == head_count(
            state.on_board,
        ) + board_along(state, capacity, route, upto).boarded - state.boarded,
        board_along(state, capacity, route, upto).boarded >= state.boarded,
        head_count(state.on_board) <= capacity ==> head_count(
            board_along(state, capacity, route, upto).on_board,
        ) <= capacity,
    decreases upto,
{
    if upto > 0 {
        lemma_board_along(state, capacity, route, upto - 1);
        lemma_board_for(board_along(state, capacity, route, upto - 1), capacity, route[upto - 1]);
    }
}

/// The number of passengers on some buses.
pub open spec fn riders(buses: Seq<BusView>) -> nat
    decreases buses.len(),
{
    if buses.len() == 0 {
        0
    } else {
        riders(buses.drop_last()) + head_count(buses.last().passengers)
    }
}

/// The sum of the wait times of the passengers on some buses.
pub open spec fn riders_wait(buses: Seq<BusView>) -> nat
    decreases buses.len(),
{
    if buses.len() == 0 {
        0
    } else {
        riders_wait(buses.drop_last()) + wait_total(buses.last().passengers)
    }
}

/// The stop after the passengers of the bus at `position` who are bound for
/// the stop got off: `timestamp` is added to the wait time of each, and they
/// count as completed.
pub open spec fn alighted_stop(stop: BusStopView, position: int, timestamp: usize) -> BusStopView {
    let bus = stop.buses_at_stop[position];
    BusStopView {
        completed_passengers: stop.completed_passengers + all_waited(
            bound_for(bus.passengers, stop.name),
            timestamp,
        ),
        buses_at_stop: stop.buses_at_stop.update(
            position,
            BusView { passengers: with_group(bus.passengers, stop.name, Seq::empty()), ..bus },
        ),
        ..stop
    }
}

/// The stop after `timestamp` was added to the wait time of everybody on its
/// buses.
pub open spec fn settled_stop(stop: BusStopView, timestamp: usize) -> BusStopView {
    BusStopView {
        buses_at_stop: stop.buses_at_stop.map_values(
            |bus: BusView| BusView { passengers: groups_waited(bus.passengers, timestamp), ..bus },
        ),
        ..stop
    }
}

/// The texts of some buses, in order.
pub open spec fn bus_texts(buses: Seq<BusView>) -> Seq<Seq<char>> {
    buses.map_values(|bus: BusView| "[Bus "@ + bus.uuid + "]"@)
}

/// A stop as text: its name, how many wait and how many arrived, and its
/// buses.
pub open spec fn stop_text(stop: BusStopView) -> Seq<char> {
    "["@ + stop.name + "] ("@ + decimal_text(clip(head_count(stop.waiting_passengers)) as nat)
        + "|"@ + decimal_text(stop.completed_passengers.len()) + ") \t"@ + joined(
        bus_texts(stop.buses_at_stop),
        " "@,
    )
}

/// Whether a bus with the identifier `uuid` stands at the stop.
pub open spec fn has_bus(stop: BusStopView, uuid: Seq<char>) -> bool {
    bus_position(stop.buses_at_stop, uuid) < stop.buses_at_stop.len()
}

impl BusStop {
    /// Create a stop without passengers and without buses.
    pub fn new(name: String) -> (created: BusStop)
        ensures
            created@ == (BusStopView {
                name: name@,
                waiting_passengers: Seq::empty(),
                completed_passengers: Seq::empty(),
                buses_at_stop: Seq::empty(),
            }),
    {
        let created = BusStop {
            name,
            waiting_passengers: PassengerMap::new(),
            completed_passengers: Vec::new(),
            buses_at_stop: Vec::new(),
        };
        assert(created@.completed_passengers =~= Seq::<PassengerView>::empty());
        assert(created@.buses_at_stop =~= Seq::<BusView>::empty());
        created
    }

    /// Let a passenger wait at the stop.
    pub fn add_passenger(&mut self, passenger: Passenger)
        ensures
            final(self)@ == (BusStopView {
                waiting_passengers: with_passenger(old(self)@.waiting_passengers, passenger@),
                ..old(self)@
            }),
            head_count(final(self)@.waiting_passengers) == head_count(
                old(self)@.waiting_passengers,
            ) + 1,
    {
        self.waiting_passengers.add_passenger(passenger);
    }

    /// Let a bus stand at the stop.
    pub fn add_bus(&mut self, bus: Bus)
        ensures
            final(self)@ == (BusStopView {
                buses_at_stop: old(self)@.buses_at_stop.push(bus@),
                ..old(self)@
            }),
    {
        self.buses_at_stop.push(bus);
        assert(self@.buses_at_stop =~= old(self)@.buses_at_stop.push(bus@));
    }

    /// The position of the first bus with the identifier `bus_uuid`.
    pub fn find_bus(&self, bus_uuid: &String) -> (position: usize)
        ensures
            position == bus_position(self@.buses_at_stop, bus_uuid@),
            position <= self.buses_at_stop@.len(),
    {
        let mut position: usize = 0;
        while position < self.buses_at_stop.len()
            invariant
                position <= self.buses_at_stop@.len(),
                forall|i: int|
                    0 <= i < position ==> (#[trigger] self@.buses_at_stop[i]).uuid != bus_uuid@,
            decreases self.buses_at_stop@.len() - position,
        {
            if self.buses_at_stop[position].uuid == *bus_uuid {
                proof {
                    lemma_bus_position_is(self@.buses_at_stop, bus_uuid@, position as int);
                }
                return position;
            }
            position += 1;
        }
        proof {
            lemma_bus_position_is(self@.buses_at_stop, bus_uuid@, position as int);
        }
        position
    }

    /// Take the first bus with the identifier `bus_uuid` away from the stop.
    /// The bus has to stand there.
    pub fn drain_bus(&mut self, bus_uuid: String) -> (bus: Bus)
        requires
            has_bus(old(self)@, bus_uuid@),
        ensures
            bus@ == old(self)@.buses_at_stop[bus_position(old(self)@.buses_at_stop, bus_uuid@)],
            bus@.uuid == bus_uuid@,
            final(self)@ == (BusStopView {
                buses_at_stop: old(self)@.buses_at_stop.remove(
                    bus_position(old(self)@.buses_at_stop, bus_uuid@),
                ),
                ..old(self)@
            }),
    {
        let position = self.find_bus(&bus_uuid);
        proof {
            lemma_bus_position(self@.buses_at_stop, bus_uuid@);
        }
        let bus = self.buses_at_stop.remove(position);
        assert(self@.buses_at_stop =~= old(self)@.buses_at_stop.remove(position as int));
        bus
    }

    /// Let the bus at `position` take on the passengers who wait for the stops
    /// of its route, in the order of the route, as long as it has room. The
    /// answer is how many got on.
    pub fn board(&mut self, position: usize) -> (boarded: usize)
        requires
            position < old(self)@.buses_at_stop.len(),
        ensures
            final(self)@ == boarded_stop(old(self)@, position as int),
            boarded == clip(boarded_count(old(self)@, position as int)),
    {
        let ghost bus = self@.buses_at_stop[position as int];
        let ghost start = Boarding {
            waiting: self@.waiting_passengers,
            on_board: bus.passengers,
            boarded: 0,
        };
        let ghost mut now = start;
        let mut boarded: usize = 0;
        let mut index: usize = 0;
        let stops = self.buses_at_stop[position].serviced_stop_names.len();
        let capacity = self.buses_at_stop[position].capacity;
        assert(self@.buses_at_stop =~= old(self)@.buses_at_stop.update(
            position as int,
            BusView { passengers: now.on_board, ..bus },
        ));
        while index < stops
            invariant
                position < self.buses_at_stop@.len(),
                position < old(self)@.buses_at_stop.len(),
                bus == old(self)@.buses_at_stop[position as int],
                stops == bus.serviced_stop_names.len(),
                capacity == bus.capacity,
                index <= stops,
                now == board_along(start, capacity, bus.serviced_stop_names, index as int),
                boarded == clip(now.boarded),
                self@ == (BusStopView {
                    waiting_passengers: now.waiting,
                    buses_at_stop: old(self)@.buses_at_stop.update(
                        position as int,
                        BusView { passengers: now.on_board, ..bus },
                    ),
                    ..old(self)@
                }),
            decreases stops - index,
        {
            assert(self@.buses_at_stop[position as int] == (BusView {
                passengers: now.on_board,
                ..bus
            }));
            let destination = self.buses_at_stop[position].serviced_stop_names[index].clone();
            assert(destination@ == bus.serviced_stop_names[index as int]);
            let ghost entered = now;
            loop
                invariant
                    position < self.buses_at_stop@.len(),
                    position < old(self)@.buses_at_stop.len(),
                    bus == old(self)@.buses_at_stop[position as int],
                    capacity == bus.capacity,
                    board_for(now, capacity, destination@) == board_for(
                        entered,
                        capacity,
                        destination@,
                    ),
                    boarded == clip(now.boarded),
                    self@ == (BusStopView {
                        waiting_passengers: now.waiting,
                        buses_at_stop: old(self)@.buses_at_stop.update(
                            position as int,
                            BusView { passengers: now.on_board, ..bus },
                        ),
                        ..old(self)@
                    }),
                ensures
                    now == board_for(entered, capacity, destination@),
                decreases bound_for(now.waiting, destination@).len(),
            {
                assert(self@.buses_at_stop[position as int] == (BusView {
                    passengers: now.on_board,
                    ..bus
                }));
                if self.buses_at_stop[position].current_passenger_count() >= capacity {
                    break;
                }
                let ghost queue = bound_for(now.waiting, destination@);
                let ghost entered_bus = now.on_board;
                match self.waiting_passengers.pop_for(&destination) {
                    Some(passenger) => {
                        let ghost buses_before = self.buses_at_stop@;
                        self.buses_at_stop[position].add_passenger(passenger);
                        proof {
                            lemma_with_group(
                                now.waiting,
                                destination@,
                                queue.drop_last(),
                                destination@,
                            );
                            now = Boarding {
                                waiting: with_group(now.waiting, destination@, queue.drop_last()),
                                on_board: with_passenger(now.on_board, queue.last()),
                                boarded: now.boarded + 1,
                            };
                            let held = bus_views(buses_before);
                            let target = old(self)@.buses_at_stop.update(
                                position as int,
                                BusView { passengers: now.on_board, ..bus },
                            );
                            assert(held.len() == buses_before.len());
                            assert(self@.buses_at_stop.len() == target.len());
                            assert forall|i: int| 0 <= i < target.len() implies self@.buses_at_stop[i]
                                == target[i] by {
                                assert(held[i] == buses_before[i]@);
                                if i != position {
                                    assert(self.buses_at_stop@[i] == buses_before[i]);
                                }
                            }
                            assert(self@.buses_at_stop =~= target);
                        }
                        boarded = sat_add(boarded, 1);
                    },
                    None => {
                        break;
                    },
                }
            }
            index += 1;
        }
        boarded
    }

    /// Let the passengers of the bus at `position` who are bound for this
    /// stop get off. `timestamp` is added to the wait time of each. The
    /// answer is how many got off.
    pub fn alight(&mut self, position: usize, timestamp: usize) -> (left: usize)
        requires
            position < old(self)@.buses_at_stop.len(),
        ensures
            final(self)@ == alighted_stop(old(self)@, position as int, timestamp),
            left == bound_for(
                old(self)@.buses_at_stop[position as int].passengers,
                old(self)@.name,
            ).len(),
    {
        let name = self.name.clone();
        let ghost buses_before = self.buses_at_stop@;
        let mut leaving = self.buses_at_stop[position].passengers.take_for(&name);
        Passenger::wait_all(&mut leaving, timestamp);
        let left = leaving.len();
        let ghost arrived = passenger_views(leaving@);
        self.completed_passengers.append(&mut leaving);
        proof {
            assert forall|i: int|
                0 <= i < self.buses_at_stop@.len() && i != position implies (
            #[trigger] self.buses_at_stop@[i]) == buses_before[i] by {}
            assert(self@.buses_at_stop =~= alighted_stop(
                old(self)@,
                position as int,
                timestamp,
            ).buses_at_stop);
            assert(self@.completed_passengers =~= old(self)@.completed_passengers + arrived);
        }
        left
    }

    /// Add `timestamp` to the wait time of everybody on the buses at the
    /// stop.
    pub fn settle(&mut self, timestamp: usize)
        ensures
            final(self)@ == settled_stop(old(self)@, timestamp),
    {
        let mut index: usize = 0;
        while index < self.buses_at_stop.len()
            invariant
                index <= self.buses_at_stop@.len(),
                self.buses_at_stop@.len() == old(self).buses_at_stop@.len(),
                self@.name == old(self)@.name,
                self@.waiting_passengers == old(self)@.waiting_passengers,
                self@.completed_passengers == old(self)@.completed_passengers,
                forall|i: int|
                    0 <= i < index ==> (#[trigger] self@.buses_at_stop[i]) == (BusView {
                        passengers: groups_waited(old(self)@.buses_at_stop[i].passengers, timestamp),
                        ..old(self)@.buses_at_stop[i]
                    }),
                forall|i: int|
                    index <= i < self.buses_at_stop@.len() ==> (#[trigger] self@.buses_at_stop[i])
                        == old(self)@.buses_at_stop[i],
            decreases self.buses_at_stop@.len() - index,
        {
            let ghost before = self@.buses_at_stop;
            let ghost buses_before = self.buses_at_stop@;
            self.buses_at_stop[index].passengers.wait_all(timestamp);
            proof {
                assert forall|i: int|
                    0 <= i < self.buses_at_stop@.len() && i != index implies (
                #[trigger] self@.buses_at_stop[i]) == before[i] by {
                    assert(self.buses_at_stop@[i] == buses_before[i]);
                }
                assert(self.buses_at_stop@[index as int]@ == (BusView {
                    passengers: groups_waited(before[index as int].passengers, timestamp),
                    ..before[index as int]
                }));
            }
            index += 1;
        }
        assert(self@.buses_at_stop =~= settled_stop(old(self)@, timestamp).buses_at_stop);
    }

    /// The number of passengers on the buses at the stop, or the greatest
    /// number that fits if there are more.
    pub fn riders(&self) -> (count: usize)
        ensures
            count == clip(riders(self@.buses_at_stop)),
    {
        let mut count: usize = 0;
        let mut index: usize = 0;
        let ghost buses = self@.buses_at_stop;
        while index < self.buses_at_stop.len()
            invariant
                index <= self.buses_at_stop@.len(),
                buses == self@.buses_at_stop,
                count == clip(riders(buses.take(index as int))),
            decreases self.buses_at_stop@.len() - index,
        {
            assert(buses.take(index as int + 1).drop_last() =~= buses.take(index as int));
            proof {
                lemma_clip_sum(
                    riders(buses.take(index as int)),
                    head_count(buses[index as int].passengers),
                );
            }
            count = sat_add(count, self.buses_at_stop[index].current_passenger_count());
            index += 1;
        }
        assert(buses.take(index as int) =~= buses);
        count
    }

    /// The sum of the wait times of the passengers on the buses at the stop,
    /// or the greatest number that fits if it is more.
    pub fn riders_wait_time(&self) -> (total: usize)
        ensures
            total == clip(riders_wait(self@.buses_at_stop)),
    {
        let mut total: usize = 0;
        let mut index: usize = 0;
        let ghost buses = self@.buses_at_stop;
        while index < self.buses_at_stop.len()
            invariant
                index <= self.buses_at_stop@.len(),
                buses == self@.buses_at_stop,
                total == clip(riders_wait(buses.take(index as int))),
            decreases self.buses_at_stop@.len() - index,
        {
            assert(buses.take(index as int + 1).drop_last() =~= buses.take(index as int));
            proof {
                lemma_clip_sum(
                    riders_wait(buses.take(index as int)),
                    wait_total(buses[index as int].passengers),
                );
            }
            total = sat_add(total, self.buses_at_stop[index].passengers.wait_time());
            index += 1;
        }
        assert(buses.take(index as int) =~= buses);
        total
    }

    /// The stop as text.
    pub fn to_text(&self) -> (text: String)
        ensures
            text@ == stop_text(self@),
    {
        let mut display_buses = String::new();
        let mut index: usize = 0;
        let ghost all = bus_texts(self@.buses_at_stop);
        while index < self.buses_at_stop.len()
            invariant
                index <= self.buses_at_stop@.len(),
                all == bus_texts(self@.buses_at_stop),
                display_buses@ == joined(all.take(index as int), " "@),
            decreases self.buses_at_stop@.len() - index,
        {
            let bus_text = self.buses_at_stop[index].to_text();
            proof {
                assert(all.take(index as int + 1).drop_last() =~= all.take(index as int));
                assert(all.take(index as int + 1).last() == bus_text@);
            }
            if index > 0 {
                display_buses = display_buses.concat(" ");
            } else {
                assert(display_buses@ + bus_text@ =~= bus_text@);
            }
            display_buses = display_buses.concat(bus_text.as_str());
            index += 1;
        }
        assert(all.take(index as int) =~= all);
        "[".to_string().concat(self.name.as_str()).concat("] (").concat(
            decimal(self.waiting_passengers.count()).as_str(),
        ).concat("|").concat(decimal(self.completed_passengers.len()).as_str()).concat(
            ") \t",
        ).concat(display_buses.as_str())
    }

    /// The stop as a record.
    pub fn to_record(&self) -> (record: StopRecord)
        ensures
            record.deep_view() == stop_facts(self@),
    {
        let mut buses: Vec<BusRecord> = Vec::new();
        let mut index: usize = 0;
        while index < self.buses_at_stop.len()
            invariant
                index <= self.buses_at_stop@.len(),
                buses@.len() == index,
                forall|i: int|
                    0 <= i < index ==> (#[trigger] buses@[i]).deep_view() == bus_facts(
                        self.buses_at_stop@[i]@,
                    ),
            decreases self.buses_at_stop@.len() - index,
        {
            buses.push(self.buses_at_stop[index].to_record());
            index += 1;
        }
        assert(buses.deep_view() =~= self@.buses_at_stop.map_values(|bus: BusView| bus_facts(bus)));
        (
            self.name.clone(),
            self.waiting_passengers.to_records(),
            Passenger::to_records(&self.completed_passengers),
            buses,
        )
    }
}

impl Clone for BusStop {
    fn clone(&self) -> (copy: BusStop)
        ensures
            copy@ == self@,
    {
        BusStop {
            name: self.name.clone(),
            waiting_passengers: self.waiting_passengers.clone(),
            completed_passengers: Passenger::clone_all(&self.completed_passengers),
            buses_at_stop: clone_buses(&self.buses_at_stop),
        }
    }
}

} // verus!
