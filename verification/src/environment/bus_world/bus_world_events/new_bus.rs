//! New buses enter the line.

use crate::event::schedulable::{DecodeError, SchedulableEvent};
use crate::json::{count_pair_of_json, decode_count_pair, encode_count_pair, json_of_counts};
use crate::text::{decimal, decimal_text};
use vstd::prelude::*;

verus! {

/// The payload of new buses: how many there are and how many passengers each
/// of them takes.
pub struct NewBusesJson {
    pub number_of_buses: usize,
    pub capacity: usize,
}

impl NewBusesJson {
    pub fn new(number_of_buses: usize, capacity: usize) -> (payload: NewBusesJson)
        ensures
            payload.number_of_buses == number_of_buses,
            payload.capacity == capacity,
    {
        NewBusesJson { number_of_buses, capacity }
    }

    /// The payload as JSON.
    pub fn to_json(&self) -> (json: String)
        ensures
            json@ == json_of_counts(seq![self.number_of_buses as u64, self.capacity as u64]),
    {
        encode_count_pair(self.number_of_buses, self.capacity)
    }

    /// The payload that a JSON text holds, if it holds one.
    pub fn from_json(json: &str) -> (payload: Option<NewBusesJson>)
        ensures
            payload is Some <==> count_pair_of_json(json@) is Some,
            payload matches Some(read) ==> Some((read.number_of_buses, read.capacity))
                == count_pair_of_json(json@),
    {
        match decode_count_pair(json) {
            Some((number_of_buses, capacity)) => Some(NewBusesJson { number_of_buses, capacity }),
            None => None,
        }
    }
}

/// A number of new buses of one capacity start at the first stop.
pub struct NewBusEvent {
    uid: usize,
    timestamp: usize,
    data: String,
}

/// The text of the event.
pub open spec fn new_bus_text(event: NewBusEvent) -> Seq<char> {
    "NewBusEvent: uid: "@
        + decimal_text(event.spec_uid() as nat)
        + " for bus uid: "@
        + event.spec_data()->Ok_0
}

impl NewBusEvent {
    pub fn new(uid: usize, timestamp: usize, data: String) -> (event: NewBusEvent)
        ensures
            event.spec_uid() == uid,
            event.spec_time_stamp() == timestamp,
            event.spec_data() == Ok::<Seq<char>, DecodeError>(data@),
    {
        NewBusEvent { uid, timestamp, data }
    }

    /// The event as text.
    pub fn to_text(&self) -> (text: String)
        ensures
            text@ == new_bus_text(*self),
    {
        "NewBusEvent: uid: ".to_string().concat(decimal(self.uid).as_str()).concat(
            " for bus uid: ",
        ).concat(self.data.as_str())
    }
}

impl SchedulableEvent for NewBusEvent {
    open spec fn spec_event_type(&self) -> Seq<char> {
        "NewBus"@
    }

    closed spec fn spec_uid(&self) -> usize {
        self.uid
    }

    closed spec fn spec_time_stamp(&self) -> usize {
        self.timestamp
    }

    closed spec fn spec_data(&self) -> Result<Seq<char>, DecodeError> {
        Ok(self.data@)
    }

    fn get_event_type(&self) -> (event_type: &str) {
        "NewBus"
    }

    fn get_uid(&self) -> (uid: usize) {
        self.uid
    }

    fn get_time_stamp(&self) -> (time_stamp: usize) {
        self.timestamp
    }

    fn get_data(&self) -> (data: Result<String, DecodeError>) {
        Ok(self.data.clone())
    }
}

} // verus!
