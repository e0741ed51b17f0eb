use discrete_event_simulator::des::scheduler::Scheduler;
use discrete_event_simulator::environment::bus_world::bus_world_events::terminal_event::TerminalEvent;
use discrete_event_simulator::event::schedulable::SchedulableEvent;
use discrete_event_simulator::event::ordering;

fn event_at(uid: usize, timestamp: usize) -> TerminalEvent {
    TerminalEvent::new(uid, timestamp, String::new())
}

#[test]
fn new_scheduler_starts_at_zero() {
    let scheduler: Scheduler<TerminalEvent> = Scheduler::new(100);
    assert_eq!(scheduler.current_time(), 0);
    assert_eq!(scheduler.runtime(), 100);
    assert_eq!(scheduler.pending_count(), 0);
}

#[test]
fn next_event_on_empty_scheduler_is_none() {
    let mut scheduler: Scheduler<TerminalEvent> = Scheduler::new(100);
    assert!(scheduler.next_event().is_none());
    assert_eq!(scheduler.current_time(), 0);
}

#[test]
fn events_come_out_in_time_order() {
    let mut scheduler = Scheduler::new(1000);
    let stamps = [40, 3, 77, 3, 0, 512, 19, 77, 8];
    for (uid, stamp) in stamps.iter().enumerate() {
        scheduler.add_event(event_at(uid, *stamp));
    }
    let mut seen = Vec::new();
    while let Some(event) = scheduler.next_event() {
        assert_eq!(scheduler.current_time(), event.get_time_stamp());
        seen.push(event.get_time_stamp());
    }
    assert_eq!(seen, vec![0, 3, 3, 8, 19, 40, 77, 77, 512]);
}

#[test]
fn horizon_truncation() {
    let mut scheduler = Scheduler::new(10);
    scheduler.add_event(event_at(1, 3));
    scheduler.add_event(event_at(2, 7));
    scheduler.add_event(event_at(3, 15));
    let first = scheduler.next_event().unwrap();
    assert_eq!(first.get_time_stamp(), 3);
    assert_eq!(first.get_uid(), 1);
    let second = scheduler.next_event().unwrap();
    assert_eq!(second.get_time_stamp(), 7);
    assert_eq!(second.get_uid(), 2);
    assert!(scheduler.next_event().is_none());
    assert_eq!(scheduler.current_time(), 7);
    assert_eq!(scheduler.pending_count(), 0);
    assert!(scheduler.next_event().is_none());
}

#[test]
fn event_at_the_horizon_is_handed_out() {
    let mut scheduler = Scheduler::new(10);
    scheduler.add_event(event_at(1, 10));
    let event = scheduler.next_event().unwrap();
    assert_eq!(event.get_time_stamp(), 10);
    assert_eq!(scheduler.current_time(), 10);
}

#[test]
fn event_may_be_scheduled_before_the_current_time() {
    let mut scheduler = Scheduler::new(100);
    scheduler.add_event(event_at(1, 50));
    assert_eq!(scheduler.next_event().unwrap().get_time_stamp(), 50);
    scheduler.add_event(event_at(2, 20));
    assert_eq!(scheduler.next_event().unwrap().get_time_stamp(), 20);
    assert_eq!(scheduler.current_time(), 20);
}

#[test]
fn exhausted_says_whether_anything_is_within_the_horizon() {
    let mut scheduler = Scheduler::new(10);
    assert!(scheduler.is_exhausted());
    scheduler.add_event(event_at(1, 11));
    assert!(scheduler.is_exhausted());
    scheduler.add_event(event_at(2, 10));
    assert!(!scheduler.is_exhausted());
}

#[test]
fn bus_event_create_bus_event() {
    let bus_event =
        discrete_event_simulator::event::bus_event::BusEvent::new(1, 0, String::from("Hello world!"));
    assert_eq!(bus_event.get_event_type(), "BusEvent");
    assert_eq!(bus_event.get_uid(), 1);
    assert_eq!(bus_event.get_time_stamp(), 0);
    assert_eq!(bus_event.get_data().unwrap(), "Hello world!");
}

#[test]
fn scheduler_takes_any_kind_of_event() {
    let mut scheduler = Scheduler::new(5);
    for stamp in [4usize, 1, 3, 9, 0, 2] {
        scheduler.add_event(discrete_event_simulator::event::bus_event::BusEvent::new(
            stamp,
            stamp,
            stamp.to_string(),
        ));
    }
    let mut data = Vec::new();
    while let Some(event) = scheduler.next_event() {
        data.push(event.get_data().unwrap());
    }
    assert_eq!(data, vec!["0", "1", "2", "3", "4"]);
    assert_eq!(scheduler.pending_count(), 0);
}

#[test]
fn many_events_come_out_in_time_order() {
    let mut scheduler = Scheduler::new(usize::MAX);
    let mut stamp: usize = 12345;
    let mut expected = Vec::new();
    for uid in 0..2000 {
        stamp = (stamp * 1103515245 + 12345) % 100003;
        expected.push(stamp);
        scheduler.add_event(event_at(uid, stamp));
    }
    expected.sort();
    let mut seen = Vec::new();
    for round in 0..1000 {
        seen.push(scheduler.next_event().unwrap().get_time_stamp());
        assert_eq!(scheduler.pending_count(), 1999 - round);
    }
    assert_eq!(seen, expected[..1000].to_vec());
    while let Some(event) = scheduler.next_event() {
        seen.push(event.get_time_stamp());
    }
    assert_eq!(seen, expected);
}

#[test]
fn forced_next_event_passes_the_horizon() {
    let mut scheduler = Scheduler::new(10);
    scheduler.add_event(event_at(1, 30));
    scheduler.add_event(event_at(2, 20));
    let event = scheduler.force_next_event();
    assert_eq!(event.get_uid(), 2);
    assert_eq!(scheduler.current_time(), 20);
    assert_eq!(scheduler.pending_count(), 1);
    assert!(scheduler.next_event().is_none());
    assert_eq!(scheduler.current_time(), 20);
}

#[test]
fn events_compare_by_timestamp_alone() {
    let early = event_at(9, 3);
    let late = event_at(1, 7);
    let also_early = event_at(4, 3);
    assert_eq!(ordering::cmp(&early, &late), std::cmp::Ordering::Greater);
    assert_eq!(ordering::cmp(&late, &early), std::cmp::Ordering::Less);
    assert_eq!(ordering::cmp(&early, &also_early), std::cmp::Ordering::Equal);
    assert_eq!(ordering::partial_cmp(&late, &early), Some(std::cmp::Ordering::Less));
    assert!(ordering::eq(&early, &also_early));
    assert!(!ordering::eq(&early, &late));
}
