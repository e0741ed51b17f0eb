//! What the scheduler needs to know of an event.

use vstd::prelude::*;

verus! {

/// The payload of an event could not be produced.
#[derive(Debug, Clone, Copy, PartialEq, Eq, Structural)]
pub enum DecodeError {
    /// The event holds no payload that can be handed out as text.
    Unreadable,
}

/// An immutable, timestamped unit of causality.
///
/// An event names its kind by a string discriminator, carries the identifier
/// of its origin (which need not be unique), the logical time at which it
/// takes place, and a serialized payload whose structure belongs to whoever
/// consumes the event. Events are ordered by timestamp alone.
pub trait SchedulableEvent: Sized {
    /// The discriminator used for dispatch.
    spec fn spec_event_type(&self) -> Seq<char>;

    /// The identifier of the origin of the event.
    spec fn spec_uid(&self) -> usize;

    /// The logical time at which the event takes place.
    spec fn spec_time_stamp(&self) -> usize;

    /// The serialized payload, or why there is none.
    spec fn spec_data(&self) -> Result<Seq<char>, DecodeError>;

    fn get_event_type(&self) -> (event_type: &str)
        ensures
            event_type@ == self.spec_event_type(),
    ;

    fn get_uid(&self) -> (uid: usize)
        ensures
            uid == self.spec_uid(),
    ;

    fn get_time_stamp(&self) -> (time_stamp: usize)
        ensures
            time_stamp == self.spec_time_stamp(),
    ;

    /// Stringified payload for arbitrary event handling.
    fn get_data(&self) -> (data: Result<String, DecodeError>)
        ensures
            match data {
                Ok(text) => self.spec_data() == Ok::<Seq<char>, DecodeError>(text@),
                Err(error) => self.spec_data() == Err::<Seq<char>, DecodeError>(error),
            },
    ;
}

} // verus!
