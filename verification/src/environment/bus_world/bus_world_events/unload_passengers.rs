//! Passengers leave a bus.

use crate::event::schedulable::{DecodeError, SchedulableEvent};
use crate::json::{decode_single_text, encode_single_text, json_of_texts, single_text_of_json};
use crate::text::{decimal, decimal_text};
use vstd::prelude::*;

verus! {

/// The payload of an alighting event: the bus that is left.
pub struct UnloadPassengersJson {
    pub bus_uuid: String,
}

impl UnloadPassengersJson {
    pub fn new(bus_uuid: String) -> (payload: UnloadPassengersJson)
        ensures
            payload.bus_uuid@ == bus_uuid@,
    {
        UnloadPassengersJson { bus_uuid }
    }

    /// The payload as JSON.
    pub fn to_json(&self) -> (json: String)
        ensures
            json@ == json_of_texts(seq![self.bus_uuid@]),
    {
        encode_single_text(&self.bus_uuid)
    }

    /// The payload that a JSON text holds, if it holds one.
    pub fn from_json(json: &str) -> (payload: Option<UnloadPassengersJson>)
        ensures
            payload is Some <==> single_text_of_json(json@) is Some,
            payload matches Some(read) ==> Some(read.bus_uuid@) == single_text_of_json(json@),
    {
        match decode_single_text(json) {
            Some(bus_uuid) => Some(UnloadPassengersJson { bus_uuid }),
            None => None,
        }
    }
}

/// The passengers of a bus who have reached their destination get off.
pub struct UnloadPassengersEvent {
    uid: usize,
    timestamp: usize,
    data: String,
}

/// The text of the event.
pub open spec fn unload_text(event: UnloadPassengersEvent) -> Seq<char> {
    "UnloadPassengersEvent: uid: "@
        + decimal_text(event.spec_uid() as nat)
        + " for bus uid: "@
        + event.spec_data()->Ok_0
}

impl UnloadPassengersEvent {
    pub fn new(uid: usize, timestamp: usize, data: String) -> (event: UnloadPassengersEvent)
        ensures
            event.spec_uid() == uid,
            event.spec_time_stamp() == timestamp,
            event.spec_data() == Ok::<Seq<char>, DecodeError>(data@),
    {
        UnloadPassengersEvent { uid, timestamp, data }
    }

    /// The event as text.
    pub fn to_text(&self) -> (text: String)
        ensures
            text@ == unload_text(*self),
    {
        "UnloadPassengersEvent: uid: ".to_string().concat(decimal(self.uid).as_str()).concat(
            " for bus uid: ",
        ).concat(self.data.as_str())
    }
}

impl SchedulableEvent for UnloadPassengersEvent {
    open spec fn spec_event_type(&self) -> Seq<char> {
        "UnloadPassengers"@
    }

    closed spec fn spec_uid(&self) -> usize {
        self.uid
    }

    closed spec fn spec_time_stamp(&self) -> usize {
        self.timestamp
    }

    closed spec fn spec_data(&self) -> Result<Seq<char>, DecodeError> {
        Ok(self.data@)
    }

    fn get_event_type(&self) -> (event_type: &str) {
        "UnloadPassengers"
    }

    fn get_uid(&self) -> (uid: usize) {
        self.uid
    }

    fn get_time_stamp(&self) -> (time_stamp: usize) {
        self.timestamp
    }

    fn get_data(&self) -> (data: Result<String, DecodeError>) {
        Ok(self.data.clone())
    }
}

} // verus!
