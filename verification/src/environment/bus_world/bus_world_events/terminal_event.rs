//! The run ends.

use crate::event::schedulable::{DecodeError, SchedulableEvent};
use crate::text::{decimal, decimal_text};
use vstd::prelude::*;

verus! {

/// The event that settles accounts at the end of a run.
pub struct TerminalEvent {
    uid: usize,
    timestamp: usize,
    data: String,
}

/// The text of the event.
pub open spec fn terminal_text(event: TerminalEvent) -> Seq<char> {
    "TerminalEvent: uid: "@ + decimal_text(event.spec_uid() as nat) + " "@
}

impl TerminalEvent {
    pub fn new(uid: usize, timestamp: usize, data: String) -> (event: TerminalEvent)
        ensures
            event.spec_uid() == uid,
            event.spec_time_stamp() == timestamp,
            event.spec_data() == Ok::<Seq<char>, DecodeError>(data@),
    {
        TerminalEvent { uid, timestamp, data }
    }

    /// The event as text.
    pub fn to_text(&self) -> (text: String)
        ensures
            text@ == terminal_text(*self),
    {
        "TerminalEvent: uid: ".to_string().concat(decimal(self.uid).as_str()).concat(" ")
    }
}

impl SchedulableEvent for TerminalEvent {
    open spec fn spec_event_type(&self) -> Seq<char> {
        "Terminal"@
    }

    closed spec fn spec_uid(&self) -> usize {
        self.uid
    }

    closed spec fn spec_time_stamp(&self) -> usize {
        self.timestamp
    }

    closed spec fn spec_data(&self) -> Result<Seq<char>, DecodeError> {
        Ok(self.data@)
    }

    fn get_event_type(&self) -> (event_type: &str) {
        "Terminal"
    }

    fn get_uid(&self) -> (uid: usize) {
        self.uid
    }

    fn get_time_stamp(&self) -> (time_stamp: usize) {
        self.timestamp
    }

    fn get_data(&self) -> (data: Result<String, DecodeError>) {
        Ok(self.data.clone())
    }
}

} // verus!
