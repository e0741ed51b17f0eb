//! A plain event of the bus world, of no kind that an environment handles.

use crate::event::schedulable::{DecodeError, SchedulableEvent};
use vstd::prelude::*;

verus! {

/// An event that carries its data and nothing else.
pub struct BusEvent {
    uid: usize,
    timestamp: usize,
    data: String,
}

impl BusEvent {
    pub fn new(uid: usize, timestamp: usize, data: String) -> (event: BusEvent)
        ensures
            event.spec_uid() == uid,
            event.spec_time_stamp() == timestamp,
            event.spec_data() == Ok::<Seq<char>, DecodeError>(data@),
    {
        BusEvent { uid, timestamp, data }
    }
}

impl SchedulableEvent for BusEvent {
    open spec fn spec_event_type(&self) -> Seq<char> {
        "BusEvent"@
    }

    closed spec fn spec_uid(&self) -> usize {
        self.uid
    }

    closed spec fn spec_time_stamp(&self) -> usize {
        self.timestamp
    }

    closed spec fn spec_data(&self) -> Result<Seq<char>, DecodeError> {
        Ok(self.data@)
    }

    fn get_event_type(&self) -> (event_type: &str) {
        "BusEvent"
    }

    fn get_uid(&self) -> (uid: usize) {
        self.uid
    }

    fn get_time_stamp(&self) -> (time_stamp: usize) {
        self.timestamp
    }

    fn get_data(&self) -> (data: Result<String, DecodeError>) {
        Ok(self.data.clone())
    }
}

} // verus!
