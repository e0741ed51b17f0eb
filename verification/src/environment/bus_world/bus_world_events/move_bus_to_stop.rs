//! A bus moves on to a stop.

use crate::event::schedulable::{DecodeError, SchedulableEvent};
use crate::json::{decode_text_pair, encode_text_pair, json_of_texts, text_pair_of_json};
use crate::text::{decimal, decimal_text};
use vstd::prelude::*;

verus! {

/// The payload of a move: the bus that moves and the stop it moves to.
pub struct BusToStopMappingJson {
    pub bus_uuid: String,
    pub stop_name: String,
}

impl BusToStopMappingJson {
    pub fn new(bus_uuid: String, stop_name: String) -> (payload: BusToStopMappingJson)
        ensures
            payload.bus_uuid@ == bus_uuid@,
            payload.stop_name@ == stop_name@,
    {
        BusToStopMappingJson { bus_uuid, stop_name }
    }

    /// The payload as JSON.
    pub fn to_json(&self) -> (json: String)
        ensures
            json@ == json_of_texts(seq![self.bus_uuid@, self.stop_name@]),
    {
        encode_text_pair(&self.bus_uuid, &self.stop_name)
    }

    /// The payload that a JSON text holds, if it holds one.
    pub fn from_json(json: &str) -> (payload: Option<BusToStopMappingJson>)
        ensures
            payload is Some <==> text_pair_of_json(json@) is Some,
            payload matches Some(read) ==> Some((read.bus_uuid@, read.stop_name@))
                == text_pair_of_json(json@),
    {
        match decode_text_pair(json) {
            Some((bus_uuid, stop_name)) => Some(BusToStopMappingJson { bus_uuid, stop_name }),
            None => None,
        }
    }
}

/// A bus leaves the stop it stands at and arrives at another.
pub struct MoveBusToStopEvent {
    uid: usize,
    timestamp: usize,
    data: String,
}

/// The text of the event.
pub open spec fn move_text(event: MoveBusToStopEvent) -> Seq<char> {
    "MoveBusToStopEvent: event uid: "@
        + decimal_text(event.spec_uid() as nat)
        + ", Data: "@
        + event.spec_data()->Ok_0
}

impl MoveBusToStopEvent {
    pub fn new(uid: usize, timestamp: usize, data: String) -> (event: MoveBusToStopEvent)
        ensures
            event.spec_uid() == uid,
            event.spec_time_stamp() == timestamp,
            event.spec_data() == Ok::<Seq<char>, DecodeError>(data@),
    {
        MoveBusToStopEvent { uid, timestamp, data }
    }

    /// The event as text.
    pub fn to_text(&self) -> (text: String)
        ensures
            text@ == move_text(*self),
    {
        "MoveBusToStopEvent: event uid: ".to_string().concat(decimal(self.uid).as_str()).concat(
            ", Data: ",
        ).concat(self.data.as_str())
    }
}

impl SchedulableEvent for MoveBusToStopEvent {
    open spec fn spec_event_type(&self) -> Seq<char> {
        "MoveBusToStop"@
    }

    closed spec fn spec_uid(&self) -> usize {
        self.uid
    }

    closed spec fn spec_time_stamp(&self) -> usize {
        self.timestamp
    }

    closed spec fn spec_data(&self) -> Result<Seq<char>, DecodeError> {
        Ok(self.data@)
    }

    fn get_event_type(&self) -> (event_type: &str) {
        "MoveBusToStop"
    }

    fn get_uid(&self) -> (uid: usize) {
        self.uid
    }

    fn get_time_stamp(&self) -> (time_stamp: usize) {
        self.timestamp
    }

    fn get_data(&self) -> (data: Result<String, DecodeError>) {
        Ok(self.data.clone())
    }
}

} // verus!
