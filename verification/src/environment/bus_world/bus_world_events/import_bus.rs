//! Buses made elsewhere enter the line.

use crate::event::schedulable::{DecodeError, SchedulableEvent};
use crate::environment::bus_world::bus::{bus_facts, bus_of_facts, bus_views, Bus, BusView};
use crate::json::{buses_of_json, decode_buses, encode_buses, json_of_buses, BusFacts, BusRecord};
use crate::text::{debug_text, decimal, decimal_text, quoted};
use vstd::prelude::*;

verus! {

/// The JSON of some buses.
pub open spec fn json_of_fleet(buses: Seq<BusView>) -> Seq<char> {
    json_of_buses(buses.map_values(|bus: BusView| bus_facts(bus)))
}

/// The payload of an import: the buses.
pub struct ImportBusesJson {
    pub buses: Vec<Bus>,
}

impl ImportBusesJson {
    pub fn new(buses: Vec<Bus>) -> (payload: ImportBusesJson)
        ensures
            payload.buses == buses,
    {
        ImportBusesJson { buses }
    }

    /// The payload as JSON.
    pub fn to_json(&self) -> (json: String)
        ensures
            json@ == json_of_fleet(bus_views(self.buses@)),
    {
        buses_to_json(&self.buses)
    }

    /// The payload that a JSON text holds, if it holds one.
    pub fn from_json(json: &str) -> (payload: Option<ImportBusesJson>)
        ensures
            payload is Some <==> buses_of_json(json@) is Some,
            payload matches Some(read) ==> bus_views(read.buses@) == buses_of_json(
                json@,
            )->Some_0.map_values(|facts: BusFacts| bus_of_facts(facts)),
    {
        match decode_buses(json) {
            Some(records) => {
                let mut buses: Vec<Bus> = Vec::new();
                let mut index: usize = 0;
                while index < records.len()
                    invariant
                        index <= records@.len(),
                        buses@.len() == index,
                        forall|i: int|
                            0 <= i < index ==> (#[trigger] buses@[i])@ == bus_of_facts(
                                records@[i].deep_view(),
                            ),
                    decreases records@.len() - index,
                {
                    buses.push(Bus::from_record(&records[index]));
                    index += 1;
                }
                assert(bus_views(buses@) =~= records.deep_view().map_values(
                    |facts: BusFacts| bus_of_facts(facts),
                ));
                Some(ImportBusesJson { buses })
            },
            None => None,
        }
    }
}

/// Some buses as JSON.
pub fn buses_to_json(buses: &Vec<Bus>) -> (json: String)
    ensures
        json@ == json_of_fleet(bus_views(buses@)),
{
    let mut records: Vec<BusRecord> = Vec::new();
    let mut index: usize = 0;
    while index < buses.len()
        invariant
            index <= buses@.len(),
            records@.len() == index,
            forall|i: int|
                0 <= i < index ==> (#[trigger] records@[i]).deep_view() == bus_facts(buses@[i]@),
        decreases buses@.len() - index,
    {
        records.push(buses[index].to_record());
        index += 1;
    }
    assert(records.deep_view() =~= bus_views(buses@).map_values(|bus: BusView| bus_facts(bus)));
    encode_buses(&records)
}

/// Buses that exist already, with their routes, are put at their current stops.
pub struct ImportBusEvent {
    uid: usize,
    timestamp: usize,
    data: String,
}

/// The text of the event.
pub open spec fn import_text(event: ImportBusEvent) -> Seq<char> {
    "ImportBusEvent: uid: "@ + decimal_text(event.spec_uid() as nat) + ", data: "@ + debug_text(
                event.spec_data()->Ok_0,
            )
}

impl ImportBusEvent {
    pub fn new(uid: usize, timestamp: usize, data: String) -> (event: ImportBusEvent)
        ensures
            event.spec_uid() == uid,
            event.spec_time_stamp() == timestamp,
            event.spec_data() == Ok::<Seq<char>, DecodeError>(data@),
    {
        ImportBusEvent { uid, timestamp, data }
    }

    /// The event as text.
    pub fn to_text(&self) -> (text: String)
        ensures
            text@ == import_text(*self),
    {
        "ImportBusEvent: uid: ".to_string().concat(decimal(self.uid).as_str()).concat(", data: ").concat(
            quoted(self.data.as_str()).as_str(),
        )
    }
}

impl SchedulableEvent for ImportBusEvent {
    open spec fn spec_event_type(&self) -> Seq<char> {
        "ImportBus"@
    }

    closed spec fn spec_uid(&self) -> usize {
        self.uid
    }

    closed spec fn spec_time_stamp(&self) -> usize {
        self.timestamp
    }

    closed spec fn spec_data(&self) -> Result<Seq<char>, DecodeError> {
        Ok(self.data@)
    }

    fn get_event_type(&self) -> (event_type: &str) {
        "ImportBus"
    }

    fn get_uid(&self) -> (uid: usize) {
        self.uid
    }

    fn get_time_stamp(&self) -> (time_stamp: usize) {
        self.timestamp
    }

    fn get_data(&self) -> (data: Result<String, DecodeError>) {
        Ok(self.data.clone())
    }
}

} // verus!
