//! The buses, which are also the individuals that evolve.

use super::passenger::Passenger;
use super::passenger_map::{
    distinct_destinations, groups_facts, groups_of_facts, head_count, with_passenger,
    PassengerGroupView, PassengerMap,
};
use crate::chance::{draw, random_below, random_uuid};
use crate::genetic_learning::evolution::{Breedable, Dna, Fitness};
use crate::json::{encode_bus, json_of_bus, BusFacts, BusRecord};
use crate::text::{clip, clip_word, find_text, lemma_text_position, text_position, texts};
use vstd::prelude::*;

verus! {

/// What a [`Bus`] holds, as mathematical values.
pub struct BusView {
    pub uuid: Seq<char>,
    pub passengers: Seq<PassengerGroupView>,
    pub serviced_stop_names: Seq<Seq<char>>,
    pub current_stop: usize,
    pub capacity: usize,
}

/// A bus: its passengers by destination, the stops it services in the order
/// of its route, the position of its current stop on the route, and how many
/// passengers it takes.
#[derive(Debug)]
pub struct Bus {
    pub uuid: String,
    pub passengers: PassengerMap,
    pub serviced_stop_names: Vec<String>,
    pub current_stop: usize,
    pub capacity: usize,
}

impl View for Bus {
    type V = BusView;

    open spec fn view(&self) -> BusView {
        BusView {
            uuid: self.uuid@,
            passengers: self.passengers@,
            serviced_stop_names: texts(self.serviced_stop_names@),
            current_stop: self.current_stop,
            capacity: self.capacity,
        }
    }
}

/// The views of some buses, in order.
pub open spec fn bus_views(buses: Seq<Bus>) -> Seq<BusView> {
    buses.map_values(|bus: Bus| bus@)
}

/// A bus as the record that is written to JSON.
pub open spec fn bus_facts(bus: BusView) -> BusFacts {
    (
        bus.uuid,
        groups_facts(bus.passengers),
        bus.serviced_stop_names,
        bus.current_stop as u64,
        bus.capacity as u64,
    )
}

/// The bus that a record read from JSON stands for.
pub open spec fn bus_of_facts(facts: BusFacts) -> BusView {
    BusView {
        uuid: facts.0,
        passengers: groups_of_facts(facts.1),
        serviced_stop_names: facts.2,
        current_stop: clip(facts.3 as nat),
        capacity: clip(facts.4 as nat),
    }
}

/// The message for a stop that a bus does not service.
pub open spec fn stop_not_found(stop: Seq<char>) -> Seq<char> {
    "Stop "@ + stop + " not found"@
}

/// The route a child inherits, as far as the first `bound` stops of the longer
/// route of its parents decide: a stop that both parents service is kept, and
/// any other stop is kept where its coin says so.
pub open spec fn inherited_below(
    longer: Seq<Seq<char>>,
    shorter: Seq<Seq<char>>,
    flips: Seq<bool>,
    bound: int,
) -> Seq<Seq<char>>
    decreases bound,
{
    if bound <= 0 {
        Seq::empty()
    } else if shorter.contains(longer[bound - 1]) || flips[bound - 1] {
        inherited_below(longer, shorter, flips, bound - 1).push(longer[bound - 1])
    } else {
        inherited_below(longer, shorter, flips, bound - 1)
    }
}

/// The route a child inherits from the routes of its parents, given one coin
/// for every stop of the longer route.
pub open spec fn inherited(longer: Seq<Seq<char>>, shorter: Seq<Seq<char>>, flips: Seq<bool>) -> Seq<
    Seq<char>,
> {
    inherited_below(longer, shorter, flips, longer.len() as int)
}

/// The route without the stop at position `drawn`, taken off where that stop
/// first occurs.
pub open spec fn without_stop(route: Seq<Seq<char>>, drawn: int) -> Seq<Seq<char>> {
    route.remove(text_position(route, route[drawn]))
}

/// The route of the first parent unless the second services more stops.
pub open spec fn longer_route(first: Seq<Seq<char>>, second: Seq<Seq<char>>) -> Seq<Seq<char>> {
    if second.len() > first.len() {
        second
    } else {
        first
    }
}

/// The route of the second parent unless it services more stops than the
/// first.
pub open spec fn shorter_route(first: Seq<Seq<char>>, second: Seq<Seq<char>>) -> Seq<Seq<char>> {
    if second.len() > first.len() {
        first
    } else {
        second
    }
}

/// The route a child inherits from the routes of its parents.
pub fn inherit_stops(longer: &Vec<String>, shorter: &Vec<String>, flips: &Vec<bool>) -> (route: Vec<
    String,
>)
    requires
        flips@.len() == longer@.len(),
    ensures
        texts(route@) == inherited(texts(longer@), texts(shorter@), flips@),
{
    let mut route: Vec<String> = Vec::new();
    let mut index: usize = 0;
    assert(texts(route@) =~= Seq::<Seq<char>>::empty());
    while index < longer.len()
        invariant
            index <= longer@.len(),
            flips@.len() == longer@.len(),
            texts(route@) == inherited_below(
                texts(longer@),
                texts(shorter@),
                flips@,
                index as int,
            ),
        decreases longer@.len() - index,
    {
        let stop = &longer[index];
        proof {
            lemma_text_position(texts(shorter@), stop@);
        }
        let ghost before = texts(route@);
        if find_text(shorter, stop) < shorter.len() || flips[index] {
            route.push(stop.clone());
            assert(texts(route@) =~= before.push(stop@));
        }
        index += 1;
    }
    route
}

impl Bus {
    /// Create a bus without passengers and without a route, under a fresh
    /// random identifier.
    pub fn new(capacity: usize) -> (created: Bus)
        ensures
            created@.passengers == Seq::<PassengerGroupView>::empty(),
            created@.serviced_stop_names == Seq::<Seq<char>>::empty(),
            created@.current_stop == 0,
            created@.capacity == capacity,
    {
        let created = Bus {
            uuid: random_uuid(),
            passengers: PassengerMap::new(),
            serviced_stop_names: Vec::new(),
            current_stop: 0,
            capacity,
        };
        assert(created@.serviced_stop_names =~= Seq::<Seq<char>>::empty());
        created
    }

    /// Put the bus back to the start: no passengers, no route.
    pub fn reset(&mut self)
        ensures
            final(self)@ == (BusView {
                passengers: Seq::empty(),
                serviced_stop_names: Seq::empty(),
                current_stop: 0,
                ..old(self)@
            }),
    {
        self.passengers.clear();
        self.serviced_stop_names.clear();
        self.current_stop = 0;
        assert(self@.serviced_stop_names =~= Seq::<Seq<char>>::empty());
    }

    /// Take a passenger on board. The capacity is not held against it.
    pub fn add_passenger(&mut self, passenger: Passenger)
        ensures
            final(self)@ == (BusView {
                passengers: with_passenger(old(self)@.passengers, passenger@),
                ..old(self)@
            }),
            head_count(final(self)@.passengers) == head_count(old(self)@.passengers) + 1,
    {
        self.passengers.add_passenger(passenger);
    }

    /// Append a stop to the route.
    pub fn add_serviced_stop(&mut self, stop: String)
        ensures
            final(self)@ == (BusView {
                serviced_stop_names: old(self)@.serviced_stop_names.push(stop@),
                ..old(self)@
            }),
    {
        self.serviced_stop_names.push(stop);
        assert(self@.serviced_stop_names =~= old(self)@.serviced_stop_names.push(stop@));
    }

    /// Take a stop off the route, where it first occurs. A stop that is not on
    /// the route is an error, and the bus stays as it is.
    pub fn remove_services_stop(&mut self, stop: String) -> (outcome: Result<(), String>)
        ensures
            outcome is Ok <==> old(self)@.serviced_stop_names.contains(stop@),
            outcome is Ok ==> final(self)@ == (BusView {
                serviced_stop_names: old(self)@.serviced_stop_names.remove(
                    text_position(old(self)@.serviced_stop_names, stop@),
                ),
                ..old(self)@
            }),
            outcome matches Err(message) ==> {
                &&& message@ == stop_not_found(stop@)
                &&& final(self)@ == old(self)@
            },
    {
        let index = find_text(&self.serviced_stop_names, &stop);
        proof {
            lemma_text_position(self@.serviced_stop_names, stop@);
        }
        if index < self.serviced_stop_names.len() {
            self.serviced_stop_names.remove(index);
            assert(self@.serviced_stop_names =~= old(self)@.serviced_stop_names.remove(
                index as int,
            ));
            Ok(())
        } else {
            Err("Stop ".to_string().concat(stop.as_str()).concat(" not found"))
        }
    }

    /// The number of passengers on board, or the greatest number that fits
    /// if there are more.
    pub fn current_passenger_count(&self) -> (count: usize)
        ensures
            count == clip(head_count(self@.passengers)),
    {
        self.passengers.count()
    }

    /// The stop the bus is at, if its route reaches that far.
    pub fn get_current_stop(&self) -> (stop: Option<&String>)
        ensures
            stop is Some <==> self@.current_stop < self@.serviced_stop_names.len(),
            stop matches Some(name) ==> name@ == self@.serviced_stop_names[self@.current_stop as int],
    {
        if self.current_stop < self.serviced_stop_names.len() {
            Some(&self.serviced_stop_names[self.current_stop])
        } else {
            None
        }
    }

    /// Move the bus one stop along, whether or not the route has one. The
    /// position stays at the greatest number that fits.
    pub fn advance_to_next_stop(&mut self)
        ensures
            final(self)@ == (BusView {
                current_stop: clip(old(self)@.current_stop as nat + 1),
                ..old(self)@
            }),
    {
        self.current_stop = self.current_stop.saturating_add(1);
    }

    /// The stop after the one the bus is at, if the route has one.
    pub fn get_next_stop(&self) -> (stop: Option<&String>)
        ensures
            stop is Some <==> self@.current_stop + 1 < self@.serviced_stop_names.len(),
            stop matches Some(name) ==> name@ == self@.serviced_stop_names[self@.current_stop + 1],
    {
        if self.current_stop < self.serviced_stop_names.len() && self.current_stop + 1
            < self.serviced_stop_names.len() {
            Some(&self.serviced_stop_names[self.current_stop + 1])
        } else {
            None
        }
    }

    /// The bus as a record.
    pub fn to_record(&self) -> (record: BusRecord)
        ensures
            record.deep_view() == bus_facts(self@),
    {
        let mut stops: Vec<String> = Vec::new();
        let mut index: usize = 0;
        while index < self.serviced_stop_names.len()
            invariant
                index <= self.serviced_stop_names@.len(),
                stops@.len() == index,
                forall|i: int| 0 <= i < index ==> (#[trigger] stops@[i])@ == self.serviced_stop_names@[i]@,
            decreases self.serviced_stop_names@.len() - index,
        {
            stops.push(self.serviced_stop_names[index].clone());
            index += 1;
        }
        assert(stops.deep_view() =~= self@.serviced_stop_names);
        (
            self.uuid.clone(),
            self.passengers.to_records(),
            stops,
            self.current_stop as u64,
            self.capacity as u64,
        )
    }

    /// The bus that a record stands for. No two groups of its passengers are
    /// bound for the same destination.
    pub fn from_record(record: &BusRecord) -> (bus: Bus)
        ensures
            bus@ == bus_of_facts(record.deep_view()),
            distinct_destinations(bus@.passengers),
    {
        let mut stops: Vec<String> = Vec::new();
        let mut index: usize = 0;
        while index < record.2.len()
            invariant
                index <= record.2@.len(),
                stops@.len() == index,
                forall|i: int| 0 <= i < index ==> (#[trigger] stops@[i])@ == record.2@[i]@,
            decreases record.2@.len() - index,
        {
            stops.push(record.2[index].clone());
            index += 1;
        }
        assert(texts(stops@) =~= record.2.deep_view());
        Bus {
            uuid: record.0.clone(),
            passengers: PassengerMap::from_records(&record.1),
            serviced_stop_names: stops,
            current_stop: clip_word(record.3),
            capacity: clip_word(record.4),
        }
    }

    /// The bus as text.
    pub fn to_text(&self) -> (text: String)
        ensures
            text@ == "[Bus "@ + self@.uuid + "]"@,
    {
        "[Bus ".to_string().concat(self.uuid.as_str()).concat("]")
    }
}

/// Copies of some buses, in order.
pub fn clone_buses(buses: &Vec<Bus>) -> (copies: Vec<Bus>)
    ensures
        bus_views(copies@) == bus_views(buses@),
{
    let mut copies: Vec<Bus> = Vec::new();
    let mut index: usize = 0;
    while index < buses.len()
        invariant
            index <= buses@.len(),
            copies@.len() == index,
            forall|i: int| 0 <= i < index ==> (#[trigger] copies@[i])@ == buses@[i]@,
        decreases buses@.len() - index,
    {
        copies.push(buses[index].clone());
        index += 1;
    }
    assert(bus_views(copies@) =~= bus_views(buses@));
    copies
}

impl Clone for Bus {
    fn clone(&self) -> (copy: Bus)
        ensures
            copy@ == self@,
    {
        let mut stops: Vec<String> = Vec::new();
        let mut index: usize = 0;
        while index < self.serviced_stop_names.len()
            invariant
                index <= self.serviced_stop_names@.len(),
                stops@.len() == index,
                forall|i: int| 0 <= i < index ==> (#[trigger] stops@[i])@ == self.serviced_stop_names@[i]@,
            decreases self.serviced_stop_names@.len() - index,
        {
            stops.push(self.serviced_stop_names[index].clone());
            index += 1;
        }
        assert(texts(stops@) =~= self@.serviced_stop_names);
        Bus {
            uuid: self.uuid.clone(),
            passengers: self.passengers.clone(),
            serviced_stop_names: stops,
            current_stop: self.current_stop,
            capacity: self.capacity,
        }
    }
}

/// A bus of which no two groups of passengers are bound for the same
/// destination is the same bus after it was written to a record and read
/// back.
pub proof fn lemma_bus_facts_round_trip(bus: BusView)
    requires
        distinct_destinations(bus.passengers),
    ensures
        bus_of_facts(bus_facts(bus)) == bus,
{
    super::passenger_map::lemma_groups_facts_round_trip(bus.passengers);
}

impl Breedable for Bus {
    /// A child of two buses takes as many passengers as the larger of them.
    /// Its route follows the longer route of its parents: a stop that both
    /// parents service is kept, and any other stop is kept on the toss of a
    /// coin. Two buses can always breed.
    fn reproduce(&self, second: &Bus) -> (outcome: Result<Bus, String>)
        ensures
            outcome matches Ok(child) && {
                &&& child@.capacity == if self@.capacity > second@.capacity {
                    self@.capacity
                } else {
                    second@.capacity
                }
                &&& child@.passengers == Seq::<PassengerGroupView>::empty()
                &&& child@.current_stop == 0
                &&& exists|flips: Seq<bool>|
                    {
                        &&& flips.len() == longer_route(
                            self@.serviced_stop_names,
                            second@.serviced_stop_names,
                        ).len()
                        &&& child@.serviced_stop_names == inherited(
                            longer_route(self@.serviced_stop_names, second@.serviced_stop_names),
                            shorter_route(self@.serviced_stop_names, second@.serviced_stop_names),
                            flips,
                        )
                    }
            },
    {
        let larger_capacity = if self.capacity > second.capacity {
            self.capacity
        } else {
            second.capacity
        };
        let mut child = Bus::new(larger_capacity);
        let second_is_longer = second.serviced_stop_names.len() > self.serviced_stop_names.len();
        let longer = if second_is_longer {
            &second.serviced_stop_names
        } else {
            &self.serviced_stop_names
        };
        let shorter = if second_is_longer {
            &self.serviced_stop_names
        } else {
            &second.serviced_stop_names
        };
        let mut flips: Vec<bool> = Vec::new();
        while flips.len() < longer.len()
            invariant
                flips@.len() <= longer@.len(),
            decreases longer@.len() - flips@.len(),
        {
            flips.push(draw(1, 2));
        }
        child.serviced_stop_names = inherit_stops(longer, shorter, &flips);
        proof {
            let long = longer_route(self@.serviced_stop_names, second@.serviced_stop_names);
            let short = shorter_route(self@.serviced_stop_names, second@.serviced_stop_names);
            assert(texts(longer@) == long);
            assert(texts(shorter@) == short);
            assert(flips@.len() == long.len());
            assert(child@.serviced_stop_names == inherited(long, short, flips@));
        }
        Ok(child)
    }

    /// A mutation takes one stop off the route: the bus is as before but
    /// for one stop of the route, which is gone where it first occurred. A
    /// bus without a route stays as it is.
    open spec fn mutation_of(&self, before: &Bus) -> bool {
        if before@.serviced_stop_names.len() == 0 {
            self@ == before@
        } else {
            exists|drawn: int|
                {
                    &&& 0 <= drawn < before@.serviced_stop_names.len()
                    &&& self@ == (BusView {
                        serviced_stop_names: #[trigger] without_stop(
                            before@.serviced_stop_names,
                            drawn,
                        ),
                        ..before@
                    })
                }
        }
    }

    /// Take one stop off the route: a stop is drawn at random, and the route
    /// loses it where it first occurs.
    fn mutate(&mut self) {
        if self.serviced_stop_names.len() > 0 {
            let drawn = random_below(self.serviced_stop_names.len());
            let stop = self.serviced_stop_names[drawn].clone();
            assert(self@.serviced_stop_names[drawn as int] == stop@);
            assert(self@.serviced_stop_names.contains(stop@));
            let _ = self.remove_services_stop(stop);
            assert(self@.serviced_stop_names == without_stop(
                old(self)@.serviced_stop_names,
                drawn as int,
            ));
        }
    }
}

impl Dna for Bus {
    /// The whole bus, as JSON.
    fn get_dna(&self) -> (dna: String)
        ensures
            dna@ == json_of_bus(bus_facts(self@)),
    {
        encode_bus(&self.to_record())
    }

    fn get_species(&self) -> (species: &'static str)
        ensures
            species@ == "bus"@,
    {
        "bus"
    }
}

impl Fitness for Bus {
    /// Every bus is as fit as any other.
    fn evaluate_fitness(&self) -> (fitness: u32)
        ensures
            fitness == 10,
    {
        10
    }
}

} // verus!
