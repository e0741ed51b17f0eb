use discrete_event_simulator::environment::bus_world::bus_environment::{
    BusEnvironment, BusEnvironmentSettings,
};
use discrete_event_simulator::environment::bus_world::bus_world_events::import_bus::ImportBusEvent;
use discrete_event_simulator::environment::bus_world::bus_world_events::new_bus::{
    NewBusEvent, NewBusesJson,
};
use discrete_event_simulator::environment::bus_world::bus_world_events::BusWorldEvent;
use discrete_event_simulator::environment::bus_world::BusWorld;
use discrete_event_simulator::environment::env::{DispatchError, Environment};
use discrete_event_simulator::event::schedulable::SchedulableEvent;
use discrete_event_simulator::simulation::sim::Simulation;
use std::collections::BTreeMap;

#[test]
fn sim_simulation_run() {
    let number_of_buses = NewBusesJson::new(10, 15);
    let initial_event = BusWorldEvent::NewBus(NewBusEvent::new(1, 0, number_of_buses.to_json()));
    let settings = BusEnvironmentSettings::default();
    let mut env = BusEnvironment::new(settings);
    env.create_bus_stops(3);
    let mut simulation = Simulation::new(100, env, initial_event);
    simulation.run().unwrap();
    assert_eq!(1, 1);
}

#[test]
fn run_records_the_number_of_events() {
    let initial_event = BusWorldEvent::NewBus(NewBusEvent::new(0, 0, String::new()));
    let mut simulation = Simulation::new(10, BusWorld::new(), initial_event);
    simulation.run().unwrap();
    // One new bus at each of the times 0 to 10; the terminating event is not
    // counted.
    assert_eq!(simulation.environment().number_of_buses, 11);
    assert_eq!(simulation.current_time(), 10);
    let ran = simulation.statistics().get_series_by_name("Events Ran".to_string()).unwrap();
    assert_eq!(ran.unit, "Count");
    assert_eq!(ran.series, BTreeMap::from([(10, 11)]));
}

#[test]
fn run_dispatches_the_terminating_event_once() {
    let number_of_buses = NewBusesJson::new(2, 15);
    let initial_event = BusWorldEvent::NewBus(NewBusEvent::new(1, 0, number_of_buses.to_json()));
    let mut env = BusEnvironment::new(BusEnvironmentSettings::default());
    env.create_bus_stops(3);
    let mut simulation = Simulation::new(5000, env, initial_event);
    simulation.run().unwrap();
    assert_eq!(simulation.current_time(), 5000);
    // The bus world records the total wait time when it handles its
    // terminating event, and at no other time.
    let total = simulation
        .statistics()
        .get_series_by_name("Total Passenger Wait Time".to_string())
        .unwrap();
    assert_eq!(total.series.len(), 1);
    assert_eq!(total.series.keys().next(), Some(&5000));
    let ran = simulation.statistics().get_series_by_name("Events Ran".to_string()).unwrap();
    assert_eq!(ran.series.len(), 1);
    assert_eq!(ran.series.keys().next(), Some(&5000));
}

#[test]
fn run_without_events_within_the_horizon_still_finalizes() {
    let initial_event = BusWorldEvent::NewBus(NewBusEvent::new(0, 11, String::new()));
    let mut simulation = Simulation::new(10, BusWorld::new(), initial_event);
    simulation.run().unwrap();
    assert_eq!(simulation.environment().number_of_buses, 0);
    assert_eq!(simulation.current_time(), 10);
    let ran = simulation.statistics().get_series_by_name("Events Ran".to_string()).unwrap();
    assert_eq!(ran.series, BTreeMap::from([(10, 0)]));
}

#[test]
fn run_stops_at_a_fatal_condition() {
    let initial_event = BusWorldEvent::ImportBus(ImportBusEvent::new(0, 0, String::new()));
    let mut simulation = Simulation::new(10, BusWorld::new(), initial_event);
    assert_eq!(simulation.run(), Err(DispatchError::UnknownEventType));
    assert!(simulation.statistics().get_series_by_name("Events Ran".to_string()).is_none());
}

#[test]
fn arbitrary_events_are_dispatched_too() {
    let initial_event = BusWorldEvent::NewBus(NewBusEvent::new(0, 9, String::new()));
    let mut simulation = Simulation::new(10, BusWorld::new(), initial_event);
    simulation.add_arbitrary_event(BusWorldEvent::NewBus(NewBusEvent::new(5, 10, String::new())));
    simulation.run().unwrap();
    // At 9 and its successor at 10, and the one added at 10.
    assert_eq!(simulation.environment().number_of_buses, 3);
}

#[test]
fn simulation_can_be_stepped_by_hand() {
    let initial_event = BusWorldEvent::NewBus(NewBusEvent::new(0, 0, String::new()));
    let mut simulation = Simulation::new(1, BusWorld::new(), initial_event);
    let mut dispatched = 0;
    while let Some(event) = simulation.next_event() {
        simulation.dispatch(event).unwrap();
        dispatched += 1;
    }
    assert_eq!(dispatched, 2);
    simulation.terminal_event().unwrap();
    assert_eq!(simulation.current_time(), 1);
    let (environment, statistics) = simulation.into_parts();
    assert_eq!(environment.get_state(), "Number of buses: 2");
    assert_eq!(statistics.all_series.len(), 0);
}

#[test]
fn terminal_event_drops_what_is_still_pending() {
    let initial_event = BusWorldEvent::NewBus(NewBusEvent::new(0, 0, String::new()));
    let mut simulation = Simulation::new(10, BusWorld::new(), initial_event);
    simulation.terminal_event().unwrap();
    assert_eq!(simulation.environment().number_of_buses, 0);
    assert_eq!(simulation.current_time(), 10);
    assert!(simulation.next_event().is_none());
}

struct Tally {
    ordinary: usize,
    terminal_at: Vec<usize>,
    spawn_until: usize,
}

impl Environment for Tally {
    type Event = BusWorldEvent;

    fn apply_event(
        &mut self,
        scheduler: &mut discrete_event_simulator::des::scheduler::Scheduler<BusWorldEvent>,
        _stat_recorder: &mut discrete_event_simulator::statistics::stats::Stats,
        event: BusWorldEvent,
    ) -> Result<(), DispatchError> {
        match event {
            BusWorldEvent::Terminal(_) => {
                self.terminal_at.push(event.get_time_stamp());
            }
            _ => {
                self.ordinary += 1;
                let stamp = event.get_time_stamp();
                if stamp < self.spawn_until {
                    // Two successors, one of them at the same time.
                    scheduler.add_event(BusWorldEvent::NewBus(NewBusEvent::new(
                        0,
                        stamp + 1,
                        String::new(),
                    )));
                    if stamp % 2 == 0 {
                        scheduler.add_event(BusWorldEvent::NewBus(NewBusEvent::new(
                            0,
                            stamp + 3,
                            String::new(),
                        )));
                    }
                }
            }
        }
        Ok(())
    }

    fn get_state(&self) -> String {
        format!("{} {}", self.ordinary, self.terminal_at.len())
    }

    fn terminating_event(
        &self,
        scheduler: &discrete_event_simulator::des::scheduler::Scheduler<BusWorldEvent>,
    ) -> BusWorldEvent {
        BusWorldEvent::Terminal(
            discrete_event_simulator::environment::bus_world::bus_world_events::terminal_event::TerminalEvent::new(
                usize::MAX,
                scheduler.runtime(),
                String::new(),
            ),
        )
    }
}

#[test]
fn terminating_event_is_dispatched_once_whatever_came_before() {
    for (horizon, spawn_until) in [(0usize, 0usize), (1, 5), (10, 3), (10, 50), (25, 25)] {
        let initial_event = BusWorldEvent::NewBus(NewBusEvent::new(0, 0, String::new()));
        let tally = Tally { ordinary: 0, terminal_at: Vec::new(), spawn_until };
        let mut simulation = Simulation::new(horizon, tally, initial_event);
        simulation.run().unwrap();
        assert_eq!(simulation.environment().terminal_at, vec![horizon]);
        assert!(simulation.environment().ordinary >= 1);
        let ran = simulation.statistics().get_series_by_name("Events Ran".to_string()).unwrap();
        assert_eq!(
            ran.series,
            BTreeMap::from([(horizon, simulation.environment().ordinary)])
        );
    }
}
