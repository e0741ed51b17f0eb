use discrete_event_simulator::environment::bus_world::bus_environment::BusEnvironmentSettings;
use discrete_event_simulator::experiment::{
    rank_by_wait_time, run_trials, wait_times_of, EvolveBusSimSettings, ExperimentError,
};
use discrete_event_simulator::environment::bus_world::utils::{ add_bus_stops_from_env_to_buses, create_bus_env, create_n_buses_m_capacity, };
use discrete_event_simulator::experiment::run_trial;
use discrete_event_simulator::environment::bus_world::bus_environment::BusEnvironment;
use discrete_event_simulator::environment::bus_world::bus_world_events::new_bus::NewBusEvent;
use discrete_event_simulator::environment::bus_world::bus_world_events::BusWorldEvent;
use discrete_event_simulator::environment::env::DispatchError;
use discrete_event_simulator::experiment::conclude_trial;
use discrete_event_simulator::simulation::sim::Simulation;

fn small() -> EvolveBusSimSettings {
    EvolveBusSimSettings {
        runtime: 7200,
        num_buses: 3,
        bus_capacity: 10,
        num_stops: 4,
        total_passengers: 25,
        num_evolutions: 4,
        env_settings: BusEnvironmentSettings::default(),
    }
}

#[test]
fn default_experiment_settings() {
    let settings = EvolveBusSimSettings::default();
    assert_eq!(settings.runtime, 14400);
    assert_eq!(settings.num_buses, 10);
    assert_eq!(settings.bus_capacity, 100);
    assert_eq!(settings.num_stops, 10);
    assert_eq!(settings.total_passengers, 1500);
    assert_eq!(settings.num_evolutions, 100);
}

#[test]
fn ranking_puts_the_shortest_wait_first() {
    assert_eq!(rank_by_wait_time(&vec![30, 10, 20]), vec![1, 2, 0]);
    assert_eq!(rank_by_wait_time(&vec![5, 5, 1, 5, 0]), vec![4, 2, 0, 1, 3]);
    assert_eq!(rank_by_wait_time(&vec![]), Vec::<usize>::new());
    assert_eq!(rank_by_wait_time(&vec![7]), vec![0]);
}

#[test]
fn trials_come_one_for_each_number_of_generations() {
    let settings = small();
    let (env, trials) = run_trials(&settings).unwrap();
    assert_eq!(env.bus_stops.len(), 4);
    assert_eq!(env.waiting_count(), 25);
    assert_eq!(trials.len(), 4);
    for (i, trial) in trials.iter().enumerate() {
        assert_eq!(trial.evolutions, i);
        assert_eq!(trial.configuration.len(), 3);
        let recorded = trial
            .statistics
            .get_series_by_name("Total Passenger Wait Time".to_string())
            .unwrap();
        assert_eq!(recorded.get_last_value(), trial.wait_time);
    }
    assert_eq!(wait_times_of(&trials), trials.iter().map(|t| t.wait_time).collect::<Vec<_>>());
    // The world of the start is not touched by the trials.
    assert_eq!(env.bus_stops.iter().map(|s| s.buses_at_stop.len()).sum::<usize>(), 0);
}

#[test]
fn experiment_needs_a_line() {
    let mut settings = small();
    settings.num_stops = 0;
    assert!(matches!(run_trials(&settings), Err(ExperimentError::NoLine)));
    settings.num_stops = 1;
    assert!(matches!(run_trials(&settings), Err(ExperimentError::NoLine)));
    settings.total_passengers = 0;
    settings.num_evolutions = 1;
    assert!(run_trials(&settings).is_ok());
}

#[test]
fn a_trial_runs_the_evolved_buses() {
    let env = create_bus_env(4, 12, BusEnvironmentSettings::default());
    let mut buses = create_n_buses_m_capacity(2, 5);
    add_bus_stops_from_env_to_buses(&mut buses, &env);
    let trial = run_trial(&buses, &env, 7200, 2).unwrap();
    assert_eq!(trial.evolutions, 2);
    assert_eq!(trial.configuration.len(), 2);
    assert_eq!(trial.environment.bus_stops.len(), 4);
    let recorded = trial
        .statistics
        .get_series_by_name("Total Passenger Wait Time".to_string())
        .unwrap();
    assert_eq!(recorded.series.len(), 1);
    assert_eq!(recorded.series.get(&7200), Some(&trial.wait_time));
    // The world that was handed in is as it was.
    assert_eq!(env.waiting_count(), 12);
}

#[test]
fn a_failed_run_fails_the_trial() {
    let initial = BusWorldEvent::NewBus(NewBusEvent::new(0, 0, String::from("no json")));
    let mut simulation = Simulation::new(10, BusEnvironment::default(), initial);
    let outcome = simulation.run();
    assert_eq!(outcome, Err(DispatchError::UndecodablePayload));
    let concluded = conclude_trial(3, Vec::new(), simulation, outcome);
    assert!(matches!(
        concluded,
        Err(ExperimentError::Dispatch(DispatchError::UndecodablePayload))
    ));
}
