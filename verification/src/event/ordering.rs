//! How events compare: by timestamp alone.

use crate::event::schedulable::SchedulableEvent;
use std::cmp::Ordering;
use vstd::prelude::*;

verus! {

/// Compare two events by their timestamps. The event that takes place
/// earlier is the greater of the two, so that the greatest of some events is
/// the one to be handed out first; events that take place at the same time
/// are equal.
pub fn cmp<E: SchedulableEvent>(first: &E, second: &E) -> (ordering: Ordering)
    ensures
        ordering == (if first.spec_time_stamp() < second.spec_time_stamp() {
            Ordering::Greater
        } else if first.spec_time_stamp() == second.spec_time_stamp() {
            Ordering::Equal
        } else {
            Ordering::Less
        }),
{
    let first_time = first.get_time_stamp();
    let second_time = second.get_time_stamp();
    if first_time < second_time {
        Ordering::Greater
    } else if first_time == second_time {
        Ordering::Equal
    } else {
        Ordering::Less
    }
}

/// Compare two events by their timestamps: any two events compare, as
/// `cmp` says.
pub fn partial_cmp<E: SchedulableEvent>(first: &E, second: &E) -> (ordering: Option<Ordering>)
    ensures
        ordering == Some(
            if first.spec_time_stamp() < second.spec_time_stamp() {
                Ordering::Greater
            } else if first.spec_time_stamp() == second.spec_time_stamp() {
                Ordering::Equal
            } else {
                Ordering::Less
            },
        ),
{
    Some(cmp(first, second))
}

/// Whether two events take place at the same time, which is all that makes
/// them equal.
pub fn eq<E: SchedulableEvent>(first: &E, second: &E) -> (same: bool)
    ensures
        same == (first.spec_time_stamp() == second.spec_time_stamp()),
{
    first.get_time_stamp() == second.get_time_stamp()
}

} // verus!
