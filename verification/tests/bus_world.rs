use discrete_event_simulator::des::scheduler::Scheduler;
use discrete_event_simulator::environment::bus_world::bus::Bus;
use discrete_event_simulator::environment::bus_world::bus_environment::{
    BusEnvironment, BusEnvironmentSettings,
};
use discrete_event_simulator::environment::bus_world::bus_stop::BusStop;
use discrete_event_simulator::environment::bus_world::bus_world_events::import_bus::{
    ImportBusEvent, ImportBusesJson,
};
use discrete_event_simulator::environment::bus_world::bus_world_events::load_passengers::{
    LoadPassengersEvent, LoadPassengersJson,
};
use discrete_event_simulator::environment::bus_world::bus_world_events::move_bus_to_stop::{
    BusToStopMappingJson, MoveBusToStopEvent,
};
use discrete_event_simulator::environment::bus_world::bus_world_events::new_bus::{
    NewBusEvent, NewBusesJson,
};
use discrete_event_simulator::environment::bus_world::bus_world_events::terminal_event::TerminalEvent;
use discrete_event_simulator::environment::bus_world::bus_world_events::unload_passengers::{
    UnloadPassengersEvent, UnloadPassengersJson,
};
use discrete_event_simulator::environment::bus_world::bus_world_events::{
    BusEventTypes, BusWorldEvent,
};
use discrete_event_simulator::environment::bus_world::passenger::Passenger;
use discrete_event_simulator::environment::bus_world::passenger_map::PassengerMap;
use discrete_event_simulator::environment::bus_world::utils::{
    add_bus_stops_from_env_to_buses, create_bus_env, create_n_buses_m_capacity,
    evolve_buses_n_times, get_wait_time, new_sim, try_get_wait_time,
};
use discrete_event_simulator::environment::bus_world::BusWorld;
use discrete_event_simulator::environment::env::{DispatchError, Environment};
use discrete_event_simulator::event::schedulable::SchedulableEvent;
use discrete_event_simulator::genetic_learning::evolution::{Breedable, Dna, Fitness};
use discrete_event_simulator::statistics::stats::Stats;
use std::collections::BTreeMap;

fn bus(uuid: &str, route: &[&str], current_stop: usize, capacity: usize) -> Bus {
    Bus {
        uuid: uuid.to_string(),
        passengers: PassengerMap::new(),
        serviced_stop_names: route.iter().map(|s| s.to_string()).collect(),
        current_stop,
        capacity,
    }
}

fn passenger(uid: usize, source: &str, destination: &str) -> Passenger {
    Passenger::new(uid, format!("passenger-{}", uid), source.to_string(), destination.to_string())
}

fn world(stops: usize) -> (BusEnvironment, Scheduler<BusWorldEvent>, Stats) {
    let mut env = BusEnvironment::new(BusEnvironmentSettings::default());
    env.create_bus_stops(stops);
    (env, Scheduler::new(1_000_000), Stats::new())
}

fn uuid_payload(uuid: &str) -> String {
    LoadPassengersJson::new(uuid.to_string()).to_json()
}

fn series<'a>(stats: &'a Stats, label: &str) -> &'a BTreeMap<usize, usize> {
    &stats.get_series_by_name(label.to_string()).unwrap().series
}

#[test]
fn bus_world_create_bus_world() {
    let mut bus_world = BusWorld::new();
    let mut scheduler = Scheduler::new(100);
    let mut stats_recorder = Stats::new();
    assert_eq!(bus_world.number_of_buses, 0);
    let event = BusWorldEvent::NewBus(NewBusEvent::new(
        1,
        0,
        String::from("create_bus_world_event"),
    ));
    bus_world.apply_event(&mut scheduler, &mut stats_recorder, event).unwrap();
    assert_eq!(bus_world.number_of_buses, 1);
}

#[test]
fn bus_environment_create_bus_world() {
    let mut bus_world = BusEnvironment::new(BusEnvironmentSettings::default());
    let mut scheduler = Scheduler::new(100);
    let mut stats_recorder = Stats::new();
    assert_eq!(bus_world.bus_stops.len(), 0);
    bus_world.create_bus_stops(1);
    let number_of_buses = NewBusesJson::new(1, 5);
    let event = BusWorldEvent::NewBus(NewBusEvent::new(1, 0, number_of_buses.to_json()));
    bus_world.apply_event(&mut scheduler, &mut stats_recorder, event).unwrap();
    assert_eq!(bus_world.bus_stops.len(), 1);
    assert_eq!(bus_world.bus_stops[0].buses_at_stop.len(), 1);
}

#[test]
fn new_bus_create_bus_event() {
    let bus_event = NewBusEvent::new(1, 0, String::from("Hello world!"));
    assert_eq!(bus_event.get_event_type(), "NewBus");
    assert_eq!(bus_event.get_uid(), 1);
    assert_eq!(bus_event.get_time_stamp(), 0);
    assert_eq!(bus_event.get_data().unwrap(), "Hello world!");
}

#[test]
fn every_event_names_its_kind() {
    let data = String::from("d");
    assert_eq!(TerminalEvent::new(1, 2, data.clone()).get_event_type(), "Terminal");
    assert_eq!(ImportBusEvent::new(1, 2, data.clone()).get_event_type(), "ImportBus");
    assert_eq!(MoveBusToStopEvent::new(1, 2, data.clone()).get_event_type(), "MoveBusToStop");
    assert_eq!(LoadPassengersEvent::new(1, 2, data.clone()).get_event_type(), "LoadPassengers");
    assert_eq!(UnloadPassengersEvent::new(1, 2, data.clone()).get_event_type(), "UnloadPassengers");
    let wrapped = BusWorldEvent::MoveBusToStop(MoveBusToStopEvent::new(4, 5, data.clone()));
    assert_eq!(wrapped.get_event_type(), "MoveBusToStop");
    assert_eq!(wrapped.get_uid(), 4);
    assert_eq!(wrapped.get_time_stamp(), 5);
    assert_eq!(wrapped.get_data().unwrap(), "d");
}

#[test]
fn event_kinds_are_told_by_name() {
    assert_eq!(BusEventTypes::from_str("Terminal"), Ok(BusEventTypes::TerminalEvent));
    assert_eq!(BusEventTypes::from_str("ImportBus"), Ok(BusEventTypes::ImportBus));
    assert_eq!(BusEventTypes::from_str("NewBus"), Ok(BusEventTypes::NewBus));
    assert_eq!(BusEventTypes::from_str("MoveBusToStop"), Ok(BusEventTypes::MoveBusToStop));
    assert_eq!(BusEventTypes::from_str("LoadPassengers"), Ok(BusEventTypes::LoadPassengers));
    assert_eq!(BusEventTypes::from_str("UnloadPassengers"), Ok(BusEventTypes::UnloadPassengers));
    assert_eq!(BusEventTypes::from_str("BusEvent"), Err(()));
    assert_eq!(BusEventTypes::from_str(""), Err(()));
}

#[test]
fn events_as_text() {
    assert_eq!(TerminalEvent::new(7, 2, String::new()).to_text(), "TerminalEvent: uid: 7 ");
    assert_eq!(
        NewBusEvent::new(12, 2, "x".to_string()).to_text(),
        "NewBusEvent: uid: 12 for bus uid: x"
    );
    assert_eq!(
        LoadPassengersEvent::new(0, 2, "x".to_string()).to_text(),
        "LoadPassengersEvent: uid: 0 for bus uid: x"
    );
    assert_eq!(
        UnloadPassengersEvent::new(305, 2, "x".to_string()).to_text(),
        "UnloadPassengersEvent: uid: 305 for bus uid: x"
    );
    assert_eq!(
        MoveBusToStopEvent::new(1, 2, "x".to_string()).to_text(),
        "MoveBusToStopEvent: event uid: 1, Data: x"
    );
    assert_eq!(
        ImportBusEvent::new(1, 2, "a\"b".to_string()).to_text(),
        "ImportBusEvent: uid: 1, data: \"a\\\"b\""
    );
}

#[test]
fn payloads_are_written_as_json() {
    assert_eq!(NewBusesJson::new(10, 15).to_json(), "[10,15]");
    assert_eq!(LoadPassengersJson::new("a-b".to_string()).to_json(), "[\"a-b\"]");
    assert_eq!(UnloadPassengersJson::new("a\"b".to_string()).to_json(), "[\"a\\\"b\"]");
    assert_eq!(
        BusToStopMappingJson::new("bus".to_string(), "B".to_string()).to_json(),
        "[\"bus\",\"B\"]"
    );
}

#[test]
fn payloads_are_read_from_json() {
    let fleet = NewBusesJson::from_json("[10, 15]").unwrap();
    assert_eq!((fleet.number_of_buses, fleet.capacity), (10, 15));
    assert!(NewBusesJson::from_json("[10]").is_none());
    assert!(NewBusesJson::from_json("[1,2,3]").is_none());
    assert!(NewBusesJson::from_json("[\"a\",\"b\"]").is_none());
    assert!(NewBusesJson::from_json("Hello world!").is_none());
    assert_eq!(LoadPassengersJson::from_json("[\"a-b\"]").unwrap().bus_uuid, "a-b");
    assert!(LoadPassengersJson::from_json("[]").is_none());
    assert!(LoadPassengersJson::from_json("[\"a\",\"b\"]").is_none());
    assert_eq!(UnloadPassengersJson::from_json("[\"a\\\"b\"]").unwrap().bus_uuid, "a\"b");
    assert!(UnloadPassengersJson::from_json("").is_none());
    let mapping = BusToStopMappingJson::from_json("[\"bus\",\"B\"]").unwrap();
    assert_eq!((mapping.bus_uuid.as_str(), mapping.stop_name.as_str()), ("bus", "B"));
    assert!(BusToStopMappingJson::from_json("[\"bus\"]").is_none());
}

#[test]
fn buses_survive_json() {
    let mut first = bus("b1", &["A", "B"], 1, 5);
    first.add_passenger(passenger(3, "A", "B"));
    let second = bus("b2", &[], 0, 7);
    let json = ImportBusesJson::new(vec![first, second]).to_json();
    assert_eq!(
        json,
        "[[\"b1\",[[\"B\",[[3,\"passenger-3\",\"A\",\"B\",\"A\",0]]]],[\"A\",\"B\"],1,5],[\"b2\",[],[],0,7]]"
    );
    let back = ImportBusesJson::from_json(&json).unwrap().buses;
    assert_eq!(back.len(), 2);
    assert_eq!(back[0].uuid, "b1");
    assert_eq!(back[0].serviced_stop_names, vec!["A", "B"]);
    assert_eq!(back[0].current_stop, 1);
    assert_eq!(back[0].capacity, 5);
    assert_eq!(back[0].current_passenger_count(), 1);
    assert_eq!(back[0].passengers.groups[0].destination, "B");
    assert_eq!(back[0].passengers.groups[0].passengers[0].name, "passenger-3");
    assert_eq!(back[1].uuid, "b2");
    assert!(ImportBusesJson::from_json("[1,2]").is_none());
}

#[test]
fn bus_dna_is_its_json() {
    let subject = bus("b1", &["A"], 0, 5);
    assert_eq!(subject.get_dna(), "[\"b1\",[],[\"A\"],0,5]");
    assert_eq!(subject.get_species(), "bus");
    assert_eq!(subject.evaluate_fitness(), 10);
}

#[test]
fn new_bus_is_empty() {
    let first = Bus::new(15);
    let second = Bus::new(15);
    assert_eq!(first.capacity, 15);
    assert_eq!(first.current_passenger_count(), 0);
    assert!(first.serviced_stop_names.is_empty());
    assert!(first.get_current_stop().is_none());
    assert_eq!(first.uuid.len(), 36);
    assert_ne!(first.uuid, second.uuid);
    assert_eq!(first.to_text(), format!("[Bus {}]", first.uuid));
}

#[test]
fn bus_route_and_position() {
    let mut subject = bus("b", &[], 0, 3);
    subject.add_serviced_stop("A".to_string());
    subject.add_serviced_stop("B".to_string());
    assert_eq!(subject.get_current_stop(), Some(&"A".to_string()));
    assert_eq!(subject.get_next_stop(), Some(&"B".to_string()));
    subject.advance_to_next_stop();
    assert_eq!(subject.get_current_stop(), Some(&"B".to_string()));
    assert_eq!(subject.get_next_stop(), None);
    subject.advance_to_next_stop();
    assert_eq!(subject.get_current_stop(), None);
    subject.current_stop = usize::MAX;
    subject.advance_to_next_stop();
    assert_eq!(subject.current_stop, usize::MAX);
    assert_eq!(subject.get_next_stop(), None);
}

#[test]
fn bus_removes_a_stop_where_it_first_occurs() {
    let mut subject = bus("b", &["A", "B", "A", "C"], 0, 3);
    assert_eq!(subject.remove_services_stop("A".to_string()), Ok(()));
    assert_eq!(subject.serviced_stop_names, vec!["B", "A", "C"]);
    assert_eq!(
        subject.remove_services_stop("Z".to_string()),
        Err("Stop Z not found".to_string())
    );
    assert_eq!(subject.serviced_stop_names, vec!["B", "A", "C"]);
}

#[test]
fn bus_counts_and_resets() {
    let mut subject = bus("b", &["A", "B"], 1, 1);
    subject.add_passenger(passenger(1, "A", "B"));
    subject.add_passenger(passenger(2, "A", "C"));
    subject.add_passenger(passenger(3, "A", "B"));
    assert_eq!(subject.current_passenger_count(), 3);
    assert_eq!(subject.passengers.groups.len(), 2);
    assert_eq!(subject.passengers.count_for(&"B".to_string()), 2);
    subject.reset();
    assert_eq!(subject.current_passenger_count(), 0);
    assert!(subject.serviced_stop_names.is_empty());
    assert_eq!(subject.current_stop, 0);
    assert_eq!(subject.capacity, 1);
    assert_eq!(subject.uuid, "b");
}

#[test]
fn bus_clone_is_equal() {
    let mut subject = bus("b", &["A", "B"], 1, 4);
    subject.add_passenger(passenger(1, "A", "B"));
    let copy = subject.clone();
    assert_eq!(copy.get_dna(), subject.get_dna());
}

#[test]
fn child_keeps_what_both_parents_service() {
    let first = bus("f", &["A", "B", "C", "D"], 2, 10);
    let second = bus("s", &["B", "D"], 1, 20);
    for _ in 0..50 {
        let child = first.reproduce(&second).unwrap();
        assert_eq!(child.capacity, 20);
        assert_eq!(child.current_stop, 0);
        assert_eq!(child.current_passenger_count(), 0);
        let kept: Vec<&str> = child
            .serviced_stop_names
            .iter()
            .map(|s| s.as_str())
            .filter(|s| *s == "B" || *s == "D")
            .collect();
        assert_eq!(kept, vec!["B", "D"]);
        let mut route = vec!["A", "B", "C", "D"].into_iter();
        for stop in child.serviced_stop_names.iter() {
            assert!(route.any(|s| s == stop));
        }
    }
}

#[test]
fn child_follows_the_longer_route() {
    let first = bus("f", &["X"], 0, 1);
    let second = bus("s", &["A", "X", "B"], 0, 1);
    let mut lengths = std::collections::BTreeSet::new();
    for _ in 0..200 {
        let child = first.reproduce(&second).unwrap();
        assert!(child.serviced_stop_names.contains(&"X".to_string()));
        lengths.insert(child.serviced_stop_names.len());
    }
    assert!(lengths.len() > 1);
}

#[test]
fn mutation_takes_one_stop_off() {
    for _ in 0..50 {
        let mut subject = bus("b", &["A", "B", "C"], 0, 3);
        subject.mutate();
        assert_eq!(subject.serviced_stop_names.len(), 2);
    }
    let mut seen = std::collections::BTreeSet::new();
    for _ in 0..200 {
        let mut subject = bus("b", &["A", "B", "C"], 0, 3);
        subject.mutate();
        seen.insert(subject.serviced_stop_names.join(""));
    }
    assert_eq!(seen.len(), 3);
    let mut empty = bus("b", &[], 0, 3);
    empty.mutate();
    assert!(empty.serviced_stop_names.is_empty());
}

#[test]
fn stop_holds_passengers_and_buses() {
    let mut stop = BusStop::new("A".to_string());
    stop.add_passenger(passenger(1, "A", "B"));
    stop.add_passenger(passenger(2, "A", "B"));
    stop.add_bus(bus("b1", &["A"], 0, 3));
    stop.add_bus(bus("b2", &["A"], 0, 3));
    assert_eq!(stop.waiting_passengers.count(), 2);
    assert_eq!(stop.to_text(), "[A] (2|0) \t[Bus b1] [Bus b2]");
    let drained = stop.drain_bus("b1".to_string());
    assert_eq!(drained.uuid, "b1");
    assert_eq!(stop.buses_at_stop.len(), 1);
    assert_eq!(stop.buses_at_stop[0].uuid, "b2");
    assert_eq!(stop.find_bus(&"b1".to_string()), 1);
    assert_eq!(stop.find_bus(&"b2".to_string()), 0);
}

#[test]
fn settings_default_and_text() {
    let settings = BusEnvironmentSettings::default();
    assert_eq!(
        settings.to_text(),
        "pickup_delay: 60, drop_off_delay: 30, next_stop_delay: 600, initial_delay: 600"
    );
    let own = BusEnvironmentSettings::new(1, 2, 3, 4);
    assert_eq!(
        own.to_text(),
        "pickup_delay: 1, drop_off_delay: 2, next_stop_delay: 3, initial_delay: 4"
    );
}

#[test]
fn stops_are_named_by_letters() {
    let (env, _, _) = world(4);
    let names: Vec<&str> = env.bus_stops.iter().map(|s| s.name.as_str()).collect();
    assert_eq!(names, vec!["A", "B", "C", "D"]);
    assert_eq!(
        env.get_state(),
        "[[\"A\",[],[],[]],[\"B\",[],[],[]],[\"C\",[],[],[]],[\"D\",[],[],[]]]"
    );
    assert_eq!(
        env.to_text(),
        "Bus Stops:\tBuses:\n[A] (0|0) \t \n[B] (0|0) \t \n[C] (0|0) \t \n[D] (0|0) \t \n\n"
    );
}

#[test]
fn add_bus_to_start_needs_a_stop() {
    let mut env = BusEnvironment::default();
    assert_eq!(
        env.add_bus_to_start(bus("b", &[], 0, 1)),
        Err("No bus stops exist".to_string())
    );
    env.create_bus_stops(2);
    assert_eq!(env.add_bus_to_start(bus("b", &[], 0, 1)), Ok(()));
    assert_eq!(env.bus_stops[0].buses_at_stop.len(), 1);
    assert_eq!(env.bus_stops[1].buses_at_stop.len(), 0);
    assert_eq!(env.find_stop_by_bus_uuid(&"b".to_string()), 0);
    assert_eq!(env.find_stop_by_bus_uuid(&"c".to_string()), 2);
    assert_eq!(env.find_stop_by_name(&"B".to_string()), 1);
    assert_eq!(env.find_stop_by_name(&"Z".to_string()), 2);
    assert!(env.drain_bus_by_uuid("c".to_string()).is_none());
    assert_eq!(env.drain_bus_by_uuid("b".to_string()).unwrap().uuid, "b");
    assert_eq!(env.bus_stops[0].buses_at_stop.len(), 0);
}

#[test]
fn passengers_are_distributed_among_the_stops() {
    let env = create_bus_env(5, 200, BusEnvironmentSettings::default());
    assert_eq!(env.bus_stops.len(), 5);
    assert_eq!(env.waiting_count(), 200);
    let names: Vec<&str> = env.bus_stops.iter().map(|s| s.name.as_str()).collect();
    let mut uids = Vec::new();
    for (at, stop) in env.bus_stops.iter().enumerate() {
        for group in stop.waiting_passengers.groups.iter() {
            for waiting in group.passengers.iter() {
                assert_eq!(waiting.source, stop.name);
                assert_eq!(waiting.location, stop.name);
                assert_eq!(waiting.destination, group.destination);
                assert_eq!(waiting.wait_time, 0);
                assert!(!waiting.at_destination());
                let to = names.iter().position(|n| *n == waiting.destination).unwrap();
                assert!(at < to);
                uids.push(waiting.uid);
            }
        }
    }
    uids.sort();
    assert_eq!(uids, (0..200).collect::<Vec<usize>>());
    assert_eq!(env.bus_stops[4].waiting_passengers.count(), 0);
}

#[test]
fn buses_get_the_stops_of_the_world() {
    let env = create_bus_env(3, 0, BusEnvironmentSettings::default());
    let mut buses = create_n_buses_m_capacity(2, 50);
    assert_eq!(buses.len(), 2);
    assert_eq!(buses[0].capacity, 50);
    add_bus_stops_from_env_to_buses(&mut buses, &env);
    assert_eq!(buses[0].serviced_stop_names, vec!["A", "B", "C"]);
    assert_eq!(buses[1].serviced_stop_names, vec!["A", "B", "C"]);
}

#[test]
fn new_buses_start_at_the_first_stop() {
    let (mut env, mut scheduler, mut stats) = world(3);
    let event = BusWorldEvent::NewBus(NewBusEvent::new(4, 10, NewBusesJson::new(2, 5).to_json()));
    assert_eq!(env.apply_event(&mut scheduler, &mut stats, event), Ok(()));
    assert_eq!(env.bus_stops[0].buses_at_stop.len(), 2);
    let uuid = env.bus_stops[0].buses_at_stop[0].uuid.clone();
    assert_eq!(env.bus_stops[0].buses_at_stop[0].serviced_stop_names, vec!["A", "B", "C"]);
    assert_eq!(env.bus_stops[0].buses_at_stop[0].capacity, 5);
    assert_eq!(scheduler.pending_count(), 2);
    let first = scheduler.next_event().unwrap();
    assert_eq!(first.get_event_type(), "UnloadPassengers");
    assert_eq!(first.get_uid(), 5);
    assert_eq!(first.get_time_stamp(), 610);
    let second = scheduler.next_event().unwrap();
    let named: Vec<String> = vec![first.get_data().unwrap(), second.get_data().unwrap()];
    assert!(named.contains(&uuid_payload(&uuid)));
    assert_eq!(stats.all_series.len(), 0);
}

#[test]
fn new_buses_need_a_stop() {
    let (mut env, mut scheduler, mut stats) = world(0);
    let event = BusWorldEvent::NewBus(NewBusEvent::new(4, 10, NewBusesJson::new(2, 5).to_json()));
    assert_eq!(
        env.apply_event(&mut scheduler, &mut stats, event),
        Err(DispatchError::MissingEntity)
    );
    let none = BusWorldEvent::NewBus(NewBusEvent::new(4, 10, NewBusesJson::new(0, 5).to_json()));
    assert_eq!(env.apply_event(&mut scheduler, &mut stats, none), Ok(()));
    assert_eq!(scheduler.pending_count(), 0);
}

#[test]
fn undecodable_payload_is_fatal() {
    let (mut env, mut scheduler, mut stats) = world(2);
    let events = vec![
        BusWorldEvent::NewBus(NewBusEvent::new(1, 0, String::from("Hello world!"))),
        BusWorldEvent::ImportBus(ImportBusEvent::new(1, 0, String::from("{}"))),
        BusWorldEvent::MoveBusToStop(MoveBusToStopEvent::new(1, 0, String::from("[\"b\"]"))),
        BusWorldEvent::LoadPassengers(LoadPassengersEvent::new(1, 0, String::from("[1]"))),
        BusWorldEvent::UnloadPassengers(UnloadPassengersEvent::new(1, 0, String::new())),
    ];
    for event in events {
        assert_eq!(
            env.apply_event(&mut scheduler, &mut stats, event),
            Err(DispatchError::UndecodablePayload)
        );
    }
    assert_eq!(scheduler.pending_count(), 0);
    assert_eq!(stats.all_series.len(), 0);
}

#[test]
fn imported_buses_stand_at_their_current_stop() {
    let (mut env, mut scheduler, mut stats) = world(3);
    let buses = vec![bus("b1", &["A", "B", "C"], 1, 5), bus("b2", &["C", "A"], 0, 5)];
    let event =
        BusWorldEvent::ImportBus(ImportBusEvent::new(0, 0, ImportBusesJson::new(buses).to_json()));
    assert_eq!(env.apply_event(&mut scheduler, &mut stats, event), Ok(()));
    assert_eq!(env.bus_stops[0].buses_at_stop.len(), 0);
    assert_eq!(env.bus_stops[1].buses_at_stop[0].uuid, "b1");
    assert_eq!(env.bus_stops[2].buses_at_stop[0].uuid, "b2");
    assert_eq!(scheduler.pending_count(), 2);
    let first = scheduler.next_event().unwrap();
    assert_eq!(first.get_event_type(), "UnloadPassengers");
    assert_eq!(first.get_uid(), 1);
    assert_eq!(first.get_time_stamp(), 600);
}

#[test]
fn import_of_a_bus_without_a_stop_changes_nothing() {
    let (mut env, mut scheduler, mut stats) = world(3);
    let buses = vec![bus("b1", &["A", "B", "C"], 1, 5), bus("b2", &["C", "Z"], 1, 5)];
    let event =
        BusWorldEvent::ImportBus(ImportBusEvent::new(0, 0, ImportBusesJson::new(buses).to_json()));
    assert_eq!(
        env.apply_event(&mut scheduler, &mut stats, event),
        Err(DispatchError::MissingEntity)
    );
    assert_eq!(env.bus_stops[1].buses_at_stop.len(), 0);
    assert_eq!(scheduler.pending_count(), 0);
    let beyond = vec![bus("b3", &["A"], 1, 5)];
    let event =
        BusWorldEvent::ImportBus(ImportBusEvent::new(0, 0, ImportBusesJson::new(beyond).to_json()));
    assert_eq!(
        env.apply_event(&mut scheduler, &mut stats, event),
        Err(DispatchError::MissingEntity)
    );
}

#[test]
fn loading_fills_the_bus_in_the_order_of_its_route() {
    let (mut env, mut scheduler, mut stats) = world(3);
    env.bus_stops[0].add_passenger(passenger(1, "A", "C"));
    env.bus_stops[0].add_passenger(passenger(2, "A", "B"));
    env.bus_stops[0].add_passenger(passenger(3, "A", "C"));
    env.bus_stops[0].add_passenger(passenger(4, "A", "B"));
    env.bus_stops[0].add_passenger(passenger(5, "A", "Z"));
    env.bus_stops[0].add_bus(bus("b1", &["A", "B", "C"], 0, 3));
    let event = BusWorldEvent::LoadPassengers(LoadPassengersEvent::new(8, 100, uuid_payload("b1")));
    assert_eq!(env.apply_event(&mut scheduler, &mut stats, event), Ok(()));
    let loaded = &env.bus_stops[0].buses_at_stop[0];
    assert_eq!(loaded.current_passenger_count(), 3);
    let on_board: Vec<(String, Vec<usize>)> = loaded
        .passengers
        .groups
        .iter()
        .map(|g| (g.destination.clone(), g.passengers.iter().map(|p| p.uid).collect()))
        .collect();
    assert_eq!(on_board, vec![("B".to_string(), vec![4, 2]), ("C".to_string(), vec![3])]);
    assert_eq!(env.bus_stops[0].waiting_passengers.count(), 2);
    assert_eq!(env.bus_stops[0].waiting_passengers.count_for(&"C".to_string()), 1);
    assert_eq!(env.bus_stops[0].waiting_passengers.count_for(&"Z".to_string()), 1);
    let next = scheduler.next_event().unwrap();
    assert_eq!(next.get_event_type(), "MoveBusToStop");
    assert_eq!(next.get_uid(), 9);
    assert_eq!(next.get_time_stamp(), 100 + 3 * 60);
    assert_eq!(next.get_data().unwrap(), "[\"b1\",\"B\"]");
    assert_eq!(series(&stats, "Bus b1: Passengers Loaded"), &BTreeMap::from([(100, 3)]));
    assert_eq!(
        stats.get_series_by_name("Bus b1: Passengers Loaded".to_string()).unwrap().unit,
        "passengers loaded"
    );
}

#[test]
fn loading_at_the_end_of_the_route_schedules_no_move() {
    let (mut env, mut scheduler, mut stats) = world(2);
    env.bus_stops[1].add_bus(bus("b1", &["A", "B"], 1, 3));
    let event = BusWorldEvent::LoadPassengers(LoadPassengersEvent::new(8, 100, uuid_payload("b1")));
    assert_eq!(env.apply_event(&mut scheduler, &mut stats, event), Ok(()));
    assert_eq!(scheduler.pending_count(), 0);
    assert_eq!(series(&stats, "Bus b1: Passengers Loaded"), &BTreeMap::from([(100, 0)]));
}

#[test]
fn loading_a_bus_that_is_nowhere_is_fatal() {
    let (mut env, mut scheduler, mut stats) = world(2);
    let event = BusWorldEvent::LoadPassengers(LoadPassengersEvent::new(8, 100, uuid_payload("b1")));
    assert_eq!(
        env.apply_event(&mut scheduler, &mut stats, event),
        Err(DispatchError::MissingEntity)
    );
}

#[test]
fn unloading_completes_the_passengers_for_the_stop() {
    let (mut env, mut scheduler, mut stats) = world(3);
    let mut carrier = bus("b1", &["A", "B", "C"], 1, 5);
    carrier.add_passenger(passenger(1, "A", "B"));
    carrier.add_passenger(passenger(2, "A", "C"));
    carrier.add_passenger(passenger(3, "A", "B"));
    env.bus_stops[1].add_bus(carrier);
    let event =
        BusWorldEvent::UnloadPassengers(UnloadPassengersEvent::new(2, 700, uuid_payload("b1")));
    assert_eq!(env.apply_event(&mut scheduler, &mut stats, event), Ok(()));
    let completed: Vec<(usize, u32)> =
        env.bus_stops[1].completed_passengers.iter().map(|p| (p.uid, p.wait_time)).collect();
    assert_eq!(completed, vec![(1, 700), (3, 700)]);
    assert_eq!(env.bus_stops[1].buses_at_stop[0].current_passenger_count(), 1);
    let next = scheduler.next_event().unwrap();
    assert_eq!(next.get_event_type(), "LoadPassengers");
    assert_eq!(next.get_uid(), 3);
    assert_eq!(next.get_time_stamp(), 708);
    assert_eq!(next.get_data().unwrap(), "[\"b1\"]");
    assert_eq!(series(&stats, "Bus b1: Passengers Unloaded"), &BTreeMap::from([(700, 2)]));
    assert_eq!(
        stats.get_series_by_name("Bus b1: Passengers Unloaded".to_string()).unwrap().unit,
        "Passengers (ct)"
    );
}

#[test]
fn unloading_a_bus_that_is_nowhere_does_nothing() {
    let (mut env, mut scheduler, mut stats) = world(2);
    let event =
        BusWorldEvent::UnloadPassengers(UnloadPassengersEvent::new(2, 700, uuid_payload("b1")));
    assert_eq!(env.apply_event(&mut scheduler, &mut stats, event), Ok(()));
    assert_eq!(scheduler.pending_count(), 0);
    assert_eq!(stats.all_series.len(), 0);
}

#[test]
fn a_move_puts_the_bus_at_the_named_stop() {
    let (mut env, mut scheduler, mut stats) = world(3);
    env.bus_stops[0].add_bus(bus("b0", &["A", "B"], 0, 5));
    env.bus_stops[0].add_bus(bus("b1", &["A", "B"], 0, 5));
    env.bus_stops[1].add_bus(bus("b2", &["B"], 0, 5));
    let payload = BusToStopMappingJson::new("b1".to_string(), "B".to_string()).to_json();
    let event = BusWorldEvent::MoveBusToStop(MoveBusToStopEvent::new(6, 50, payload));
    assert_eq!(env.apply_event(&mut scheduler, &mut stats, event), Ok(()));
    assert_eq!(env.bus_stops[0].buses_at_stop.len(), 1);
    assert_eq!(env.bus_stops[0].buses_at_stop[0].uuid, "b0");
    assert_eq!(env.bus_stops[1].buses_at_stop.len(), 2);
    assert_eq!(env.bus_stops[1].buses_at_stop[1].uuid, "b1");
    assert_eq!(env.bus_stops[1].buses_at_stop[1].current_stop, 1);
    let next = scheduler.next_event().unwrap();
    assert_eq!(next.get_event_type(), "UnloadPassengers");
    assert_eq!(next.get_uid(), 7);
    assert_eq!(next.get_time_stamp(), 650);
    assert_eq!(next.get_data().unwrap(), "[\"b1\"]");
    assert_eq!(series(&stats, "stop B: buses"), &BTreeMap::from([(50, 2)]));
    assert_eq!(stats.get_series_by_name("stop B: buses".to_string()).unwrap().unit, "bus_count");
}

#[test]
fn a_move_to_nowhere_changes_nothing() {
    let (mut env, mut scheduler, mut stats) = world(2);
    env.bus_stops[0].add_bus(bus("b1", &["A", "B"], 0, 5));
    let payload = BusToStopMappingJson::new("b1".to_string(), "Z".to_string()).to_json();
    let event = BusWorldEvent::MoveBusToStop(MoveBusToStopEvent::new(6, 50, payload));
    assert_eq!(
        env.apply_event(&mut scheduler, &mut stats, event),
        Err(DispatchError::MissingEntity)
    );
    assert_eq!(env.bus_stops[0].buses_at_stop.len(), 1);
    let payload = BusToStopMappingJson::new("b9".to_string(), "B".to_string()).to_json();
    let event = BusWorldEvent::MoveBusToStop(MoveBusToStopEvent::new(6, 50, payload));
    assert_eq!(
        env.apply_event(&mut scheduler, &mut stats, event),
        Err(DispatchError::MissingEntity)
    );
    assert_eq!(scheduler.pending_count(), 0);
}

#[test]
fn the_end_settles_the_wait_times() {
    let (mut env, mut scheduler, mut stats) = world(2);
    let mut carrier = bus("b1", &["A", "B"], 0, 5);
    let mut waited = passenger(1, "A", "B");
    waited.wait_time = 5;
    carrier.add_passenger(waited);
    carrier.add_passenger(passenger(2, "A", "B"));
    env.bus_stops[0].add_bus(carrier);
    env.bus_stops[0].add_passenger(passenger(3, "A", "B"));
    env.bus_stops[1].add_passenger(passenger(4, "B", "A"));
    env.bus_stops[1].add_passenger(passenger(5, "B", "A"));
    let event = env.terminating_event(&scheduler);
    assert_eq!(event.get_event_type(), "Terminal");
    assert_eq!(event.get_uid(), usize::MAX);
    assert_eq!(event.get_time_stamp(), 1_000_000);
    let event = BusWorldEvent::Terminal(TerminalEvent::new(usize::MAX, 100, String::new()));
    assert_eq!(env.apply_event(&mut scheduler, &mut stats, event), Ok(()));
    assert_eq!(series(&stats, "Pending Passengers"), &BTreeMap::from([(100, 2)]));
    assert_eq!(series(&stats, "Forgotten Passengers"), &BTreeMap::from([(100, 3)]));
    // On the bus 105 and 100, at the stops three times 100.
    assert_eq!(series(&stats, "Total Passenger Wait Time"), &BTreeMap::from([(100, 505)]));
    assert_eq!(
        stats.get_series_by_name("Total Passenger Wait Time".to_string()).unwrap().unit,
        "seconds"
    );
    assert_eq!(scheduler.pending_count(), 0);
}

#[test]
fn wait_times_stop_at_the_greatest_number() {
    let mut waited = passenger(1, "A", "B");
    waited.wait_time = u32::MAX - 1;
    waited.wait(5);
    assert_eq!(waited.wait_time, u32::MAX);
    let mut fresh = passenger(2, "A", "B");
    fresh.wait(usize::MAX);
    assert_eq!(fresh.wait_time, u32::MAX);
}

#[test]
fn completed_passengers_are_counted() {
    let (mut env, _, mut stats) = world(2);
    let mut arrived = passenger(1, "A", "B");
    arrived.wait_time = 40;
    env.bus_stops[1].completed_passengers.push(arrived);
    let mut other = passenger(2, "A", "B");
    other.wait_time = 2;
    env.bus_stops[1].completed_passengers.push(other);
    assert_eq!(env.completed_passengers_wait_time(9, &mut stats), 42);
    assert_eq!(series(&stats, "Completed Passengers"), &BTreeMap::from([(9, 2)]));
}

#[test]
fn a_whole_run_of_the_bus_world() {
    let env = create_bus_env(4, 30, BusEnvironmentSettings::default());
    let mut buses = create_n_buses_m_capacity(3, 10);
    add_bus_stops_from_env_to_buses(&mut buses, &env);
    let mut sim = new_sim(14400, &mut buses, env);
    sim.run().unwrap();
    let wait_time = get_wait_time(&sim);
    let stats = sim.statistics();
    assert_eq!(series(stats, "Total Passenger Wait Time").len(), 1);
    assert_eq!(series(stats, "Total Passenger Wait Time").get(&14400), Some(&wait_time));
    let completed: usize =
        sim.environment().bus_stops.iter().map(|s| s.completed_passengers.len()).sum();
    let pending = series(stats, "Pending Passengers")[&14400];
    let forgotten = series(stats, "Forgotten Passengers")[&14400];
    assert_eq!(completed + pending + forgotten, 30);
    assert_eq!(wait_time, forgotten * 14400 + sim.environment().bus_stops.iter().map(|s| s.riders_wait_time()).sum::<usize>());
    // Every bus has gone to the end of the line.
    assert_eq!(sim.environment().bus_stops[3].buses_at_stop.len(), 3);
}

#[test]
fn buses_evolve() {
    let env = create_bus_env(6, 0, BusEnvironmentSettings::default());
    let mut buses = create_n_buses_m_capacity(8, 10);
    add_bus_stops_from_env_to_buses(&mut buses, &env);
    let population = evolve_buses_n_times(&buses, 3);
    assert_eq!(population.len(), 8);
    for member in population.populace.iter() {
        assert_eq!(member.capacity, 10);
        assert!(member.serviced_stop_names.len() <= 6);
        assert!(member.serviced_stop_names.len() >= 3);
    }
    let same = evolve_buses_n_times(&buses, 0);
    assert_eq!(same.populace[0].get_dna(), buses[0].get_dna());
}

#[test]
fn counting_world_as_text() {
    let mut bus_world = BusWorld::new();
    assert_eq!(bus_world.to_text(), "");
    bus_world.number_of_buses = 3;
    assert_eq!(bus_world.to_text(), "Bus 0Bus 1Bus 2");
    assert_eq!(bus_world.get_state(), "Number of buses: 3");
}

#[test]
fn counting_world_schedules_the_next_bus() {
    let mut bus_world = BusWorld::new();
    let mut scheduler = Scheduler::new(100);
    let mut stats = Stats::new();
    let event = BusWorldEvent::NewBus(NewBusEvent::new(1, 7, String::new()));
    bus_world.apply_event(&mut scheduler, &mut stats, event).unwrap();
    let next = scheduler.next_event().unwrap();
    assert_eq!(next.get_event_type(), "NewBus");
    assert_eq!(next.get_uid(), 2);
    assert_eq!(next.get_time_stamp(), 8);
    assert_eq!(next.get_data().unwrap(), "dummy_bus_event");
    let unknown = BusWorldEvent::LoadPassengers(LoadPassengersEvent::new(1, 7, String::new()));
    assert_eq!(
        bus_world.apply_event(&mut scheduler, &mut stats, unknown),
        Err(DispatchError::UnknownEventType)
    );
    assert_eq!(bus_world.number_of_buses, 1);
}

#[test]
fn of_two_groups_for_one_destination_the_last_is_read() {
    let json = "[[\"b1\",[[\"B\",[[1,\"x\",\"A\",\"B\",\"A\",0]]],[\"C\",[]],\
                [\"B\",[[2,\"y\",\"A\",\"B\",\"A\",0],[3,\"z\",\"A\",\"B\",\"A\",0]]]],[\"A\"],0,5]]";
    let buses = ImportBusesJson::from_json(json).unwrap().buses;
    assert_eq!(buses.len(), 1);
    let groups = &buses[0].passengers.groups;
    assert_eq!(groups.len(), 2);
    assert_eq!(groups[0].destination, "B");
    let uids: Vec<usize> = groups[0].passengers.iter().map(|p| p.uid).collect();
    assert_eq!(uids, vec![2, 3]);
    assert_eq!(groups[1].destination, "C");
    assert_eq!(buses[0].current_passenger_count(), 2);
}

#[test]
fn handlers_can_be_called_with_decoded_values() {
    let (mut env, mut scheduler, mut stats) = world(3);
    assert_eq!(env.create_buses(&mut scheduler, &mut stats, 0, 5, 1, 4), Ok(()));
    let uuid = env.bus_stops[0].buses_at_stop[0].uuid.clone();
    assert_eq!(scheduler.next_event().unwrap().get_time_stamp(), 605);
    assert_eq!(
        env.place_buses(&mut scheduler, &mut stats, 7, 5, vec![bus("b2", &["B", "C"], 0, 3)]),
        Ok(())
    );
    assert_eq!(env.bus_stops[1].buses_at_stop[0].uuid, "b2");
    let placed = scheduler.next_event().unwrap();
    assert_eq!((placed.get_uid(), placed.get_time_stamp()), (8, 605));
    env.bus_stops[0].add_passenger(passenger(1, "A", "B"));
    assert_eq!(env.load_bus(&mut scheduler, &mut stats, 1, 700, uuid.clone()), Ok(()));
    let mover = scheduler.next_event().unwrap();
    assert_eq!(mover.get_event_type(), "MoveBusToStop");
    assert_eq!((mover.get_uid(), mover.get_time_stamp()), (2, 760));
    assert_eq!(
        env.move_bus(&mut scheduler, &mut stats, 2, 760, uuid.clone(), "B".to_string()),
        Ok(())
    );
    assert_eq!(env.bus_stops[1].buses_at_stop.len(), 2);
    assert_eq!(scheduler.next_event().unwrap().get_time_stamp(), 1360);
    assert_eq!(env.unload_bus(&mut scheduler, &mut stats, 3, 1360, uuid.clone()), Ok(()));
    assert_eq!(env.bus_stops[1].completed_passengers.len(), 1);
    assert_eq!(env.bus_stops[1].completed_passengers[0].wait_time, 1360);
    let loader = scheduler.next_event().unwrap();
    assert_eq!(loader.get_event_type(), "LoadPassengers");
    assert_eq!((loader.get_uid(), loader.get_time_stamp()), (4, 1364));
    assert_eq!(
        env.move_bus(&mut scheduler, &mut stats, 2, 760, "nobody".to_string(), "B".to_string()),
        Err(DispatchError::MissingEntity)
    );
    assert_eq!(
        env.load_bus(&mut scheduler, &mut stats, 2, 760, "nobody".to_string()),
        Err(DispatchError::MissingEntity)
    );
}

#[test]
fn a_bus_shows_itself() {
    let subject = bus("b", &["A"], 0, 3);
    assert_eq!(
        format!("{:?}", subject),
        "Bus { uuid: \"b\", passengers: PassengerMap { groups: [] }, serviced_stop_names: [\"A\"], \
         current_stop: 0, capacity: 3 }"
    );
}

#[test]
fn every_event_knows_its_kind() {
    let data = String::new();
    let terminal = BusWorldEvent::Terminal(TerminalEvent::new(1, 2, data.clone()));
    assert_eq!(terminal.kind(), BusEventTypes::TerminalEvent);
    let loading = BusWorldEvent::LoadPassengers(LoadPassengersEvent::new(1, 2, data.clone()));
    assert_eq!(loading.kind(), BusEventTypes::LoadPassengers);
    assert_eq!(BusEventTypes::from_str(loading.get_event_type()), Ok(loading.kind()));
    let moving = BusWorldEvent::MoveBusToStop(MoveBusToStopEvent::new(1, 2, data.clone()));
    assert_eq!(BusEventTypes::from_str(moving.get_event_type()), Ok(moving.kind()));
}

#[test]
fn wait_time_is_known_after_a_run_only() {
    let env = create_bus_env(3, 5, BusEnvironmentSettings::default());
    let mut buses = create_n_buses_m_capacity(1, 10);
    add_bus_stops_from_env_to_buses(&mut buses, &env);
    let mut sim = new_sim(3600, &mut buses, env);
    assert_eq!(try_get_wait_time(&sim), None);
    sim.run().unwrap();
    assert_eq!(try_get_wait_time(&sim), Some(get_wait_time(&sim)));
}

#[test]
fn a_run_without_events_settles_and_records() {
    let initial = BusWorldEvent::NewBus(NewBusEvent::new(1, 15, String::new()));
    let mut sim = discrete_event_simulator::simulation::sim::Simulation::new(
        10,
        BusEnvironment::default(),
        initial,
    );
    assert_eq!(sim.run(), Ok(()));
    assert_eq!(sim.statistics().all_series.len(), 4);
    assert_eq!(series(sim.statistics(), "Events Ran"), &BTreeMap::from([(10, 0)]));
    assert_eq!(series(sim.statistics(), "Total Passenger Wait Time"), &BTreeMap::from([(10, 0)]));
    assert_eq!(series(sim.statistics(), "Pending Passengers"), &BTreeMap::from([(10, 0)]));
    assert_eq!(series(sim.statistics(), "Forgotten Passengers"), &BTreeMap::from([(10, 0)]));
    assert_eq!(sim.current_time(), 10);
}
