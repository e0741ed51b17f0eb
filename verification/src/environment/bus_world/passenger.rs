//! The people that the buses carry.

use crate::chance::{choose_position, random_below, random_name};
use crate::json::{PassengerFacts, PassengerRecord};
use crate::text::{clip, clip_word};
use vstd::prelude::*;

verus! {

/// What a [`Passenger`] holds, as mathematical values.
pub struct PassengerView {
    pub uid: usize,
    pub name: Seq<char>,
    pub source: Seq<char>,
    pub destination: Seq<char>,
    pub location: Seq<char>,
    pub wait_time: u32,
}

/// Somebody who travels from one stop to another.
#[derive(Debug)]
pub struct Passenger {
    pub uid: usize,
    pub name: String,
    pub source: String,
    pub destination: String,
    pub location: String,
    pub wait_time: u32,
}

impl View for Passenger {
    type V = PassengerView;

    open spec fn view(&self) -> PassengerView {
        PassengerView {
            uid: self.uid,
            name: self.name@,
            source: self.source@,
            destination: self.destination@,
            location: self.location@,
            wait_time: self.wait_time,
        }
    }
}

impl Clone for Passenger {
    fn clone(&self) -> (copy: Passenger)
        ensures
            copy@ == self@,
    {
        Passenger {
            uid: self.uid,
            name: self.name.clone(),
            source: self.source.clone(),
            destination: self.destination.clone(),
            location: self.location.clone(),
            wait_time: self.wait_time,
        }
    }
}

/// A passenger as the record that is written to JSON.
pub open spec fn passenger_facts(passenger: PassengerView) -> PassengerFacts {
    (
        passenger.uid as u64,
        passenger.name,
        passenger.source,
        passenger.destination,
        passenger.location,
        passenger.wait_time,
    )
}

/// The passenger that a record read from JSON stands for.
pub open spec fn passenger_of_facts(facts: PassengerFacts) -> PassengerView {
    PassengerView {
        uid: clip(facts.0 as nat),
        name: facts.1,
        source: facts.2,
        destination: facts.3,
        location: facts.4,
        wait_time: facts.5,
    }
}

/// Some passengers as records, in order.
pub open spec fn passengers_facts(passengers: Seq<PassengerView>) -> Seq<PassengerFacts> {
    passengers.map_values(|passenger: PassengerView| passenger_facts(passenger))
}

/// The passengers that some records stand for, in order.
pub open spec fn passengers_of_facts(facts: Seq<PassengerFacts>) -> Seq<PassengerView> {
    facts.map_values(|record: PassengerFacts| passenger_of_facts(record))
}

/// The passenger after `timestamp` was added to their wait time, which stops
/// at the greatest number it can hold.
pub open spec fn waited(passenger: PassengerView, timestamp: usize) -> PassengerView {
    PassengerView {
        wait_time: if passenger.wait_time + timestamp > u32::MAX {
            u32::MAX
        } else {
            (passenger.wait_time + timestamp) as u32
        },
        ..passenger
    }
}

/// Some passengers after `timestamp` was added to the wait time of each.
pub open spec fn all_waited(passengers: Seq<PassengerView>, timestamp: usize) -> Seq<PassengerView> {
    passengers.map_values(|passenger: PassengerView| waited(passenger, timestamp))
}

/// The views of some passengers, in order.
pub open spec fn passenger_views(passengers: Seq<Passenger>) -> Seq<PassengerView> {
    passengers.map_values(|passenger: Passenger| passenger@)
}

impl Passenger {
    /// Create a passenger who waits at `source` and has not waited yet.
    pub fn new(id: usize, name: String, source: String, destination: String) -> (created: Passenger)
        ensures
            created@ == (PassengerView {
                uid: id,
                name: name@,
                source: source@,
                destination: destination@,
                location: source@,
                wait_time: 0,
            }),
    {
        Passenger {
            uid: id,
            name,
            source: source.clone(),
            destination,
            location: source,
            wait_time: 0,
        }
    }

    /// Create a passenger with a made-up name who travels from one of the
    /// stops to a later one, both drawn at random.
    pub fn new_random_passenger(id: usize, bus_stops: &Vec<String>) -> (created: Passenger)
        requires
            bus_stops@.len() >= 2,
        ensures
            created@.uid == id,
            created@.wait_time == 0,
            created@.location == created@.source,
            exists|from: int, to: int|
                {
                    &&& 0 <= from < to < bus_stops@.len()
                    &&& created@.source == bus_stops@[from]@
                    &&& created@.destination == bus_stops@[to]@
                },
    {
        let source_index = random_below(bus_stops.len() - 1);
        let mut later: Vec<usize> = Vec::new();
        let mut position: usize = source_index + 1;
        while position < bus_stops.len()
            invariant
                source_index < position <= bus_stops@.len(),
                later@.len() == position - source_index - 1,
                forall|k: int|
                    0 <= k < later@.len() ==> source_index < (#[trigger] later@[k]) < bus_stops@.len(),
            decreases bus_stops@.len() - position,
        {
            later.push(position);
            position += 1;
        }
        let destination_index = choose_position(&later);
        let source = bus_stops[source_index].clone();
        let destination = bus_stops[destination_index].clone();
        let name = random_name();
        let created = Passenger::new(id, name, source, destination);
        assert(created@.source == bus_stops@[source_index as int]@);
        assert(created@.destination == bus_stops@[destination_index as int]@);
        created
    }

    /// Add `timestamp` to the wait time, which stops at the greatest number it
    /// can hold.
    pub fn wait(&mut self, timestamp: usize)
        ensures
            final(self)@ == waited(old(self)@, timestamp),
    {
        let added: u32 = if timestamp > 0xffff_ffff {
            0xffff_ffff
        } else {
            timestamp as u32
        };
        self.wait_time = self.wait_time.saturating_add(added);
    }

    /// Add `timestamp` to the wait time of every passenger.
    pub fn wait_all(passengers: &mut Vec<Passenger>, timestamp: usize)
        ensures
            passenger_views(final(passengers)@) == all_waited(
                passenger_views(old(passengers)@),
                timestamp,
            ),
    {
        let mut index: usize = 0;
        while index < passengers.len()
            invariant
                index <= passengers@.len(),
                passengers@.len() == old(passengers)@.len(),
                forall|i: int|
                    0 <= i < index ==> (#[trigger] passengers@[i])@ == waited(
                        old(passengers)@[i]@,
                        timestamp,
                    ),
                forall|i: int|
                    index <= i < passengers@.len() ==> (#[trigger] passengers@[i])@ == old(
                        passengers,
                    )@[i]@,
            decreases passengers@.len() - index,
        {
            passengers[index].wait(timestamp);
            index += 1;
        }
        assert(passenger_views(passengers@) =~= all_waited(
            passenger_views(old(passengers)@),
            timestamp,
        ));
    }

    /// Copies of some passengers, in order.
    pub fn clone_all(passengers: &Vec<Passenger>) -> (copies: Vec<Passenger>)
        ensures
            passenger_views(copies@) == passenger_views(passengers@),
    {
        let mut copies: Vec<Passenger> = Vec::new();
        let mut index: usize = 0;
        while index < passengers.len()
            invariant
                index <= passengers@.len(),
                copies@.len() == index,
                forall|i: int| 0 <= i < index ==> (#[trigger] copies@[i])@ == passengers@[i]@,
            decreases passengers@.len() - index,
        {
            copies.push(passengers[index].clone());
            index += 1;
        }
        assert(passenger_views(copies@) =~= passenger_views(passengers@));
        copies
    }

    /// Whether the passenger is where they want to be.
    pub fn at_destination(&self) -> (arrived: bool)
        ensures
            arrived == (self@.location == self@.destination),
    {
        self.location == self.destination
    }

    /// The passenger as a record.
    pub fn to_record(&self) -> (record: PassengerRecord)
        ensures
            record.deep_view() == passenger_facts(self@),
    {
        (
            self.uid as u64,
            self.name.clone(),
            self.source.clone(),
            self.destination.clone(),
            self.location.clone(),
            self.wait_time,
        )
    }

    /// The passenger that a record stands for.
    pub fn from_record(record: &PassengerRecord) -> (passenger: Passenger)
        ensures
            passenger@ == passenger_of_facts(record.deep_view()),
    {
        Passenger {
            uid: clip_word(record.0),
            name: record.1.clone(),
            source: record.2.clone(),
            destination: record.3.clone(),
            location: record.4.clone(),
            wait_time: record.5,
        }
    }

    /// Some passengers as records, in order.
    pub fn to_records(passengers: &Vec<Passenger>) -> (records: Vec<PassengerRecord>)
        ensures
            records.deep_view() == passengers_facts(passenger_views(passengers@)),
    {
        let mut records: Vec<PassengerRecord> = Vec::new();
        let mut index: usize = 0;
        while index < passengers.len()
            invariant
                index <= passengers@.len(),
                records@.len() == index,
                forall|i: int|
                    0 <= i < index ==> (#[trigger] records@[i]).deep_view() == passenger_facts(
                        passengers@[i]@,
                    ),
            decreases passengers@.len() - index,
        {
            records.push(passengers[index].to_record());
            index += 1;
        }
        assert(records.deep_view() =~= passengers_facts(passenger_views(passengers@)));
        records
    }

    /// The passengers that some records stand for, in order.
    pub fn from_records(records: &Vec<PassengerRecord>) -> (passengers: Vec<Passenger>)
        ensures
            passenger_views(passengers@) == passengers_of_facts(records.deep_view()),
    {
        let mut passengers: Vec<Passenger> = Vec::new();
        let mut index: usize = 0;
        while index < records.len()
            invariant
                index <= records@.len(),
                passengers@.len() == index,
                forall|i: int|
                    0 <= i < index ==> (#[trigger] passengers@[i])@ == passenger_of_facts(
                        records@[i].deep_view(),
                    ),
            decreases records@.len() - index,
        {
            passengers.push(Passenger::from_record(&records[index]));
            index += 1;
        }
        assert(passenger_views(passengers@) =~= passengers_of_facts(records.deep_view()));
        passengers
    }

    /// The passenger as text.
    pub fn to_text(&self) -> (text: String)
        ensures
            text@ == "Passenger "@ + crate::text::decimal_text(self.uid as nat),
    {
        "Passenger ".to_string().concat(crate::text::decimal(self.uid).as_str())
    }
}

} // verus!
