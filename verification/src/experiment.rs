//! The experiment that the library was made for: how does the wait time of
//! the passengers of a bus world depend on the number of generations for
//! which its buses were evolved?

use crate::environment::bus_world::bus::{bus_views, Bus, BusView};
use crate::environment::bus_world::bus_environment::{
    stop_names_of, BusEnvironment, BusEnvironmentSettings, BusEnvironmentView, MAX_BUS_STOPS,
};
use crate::environment::bus_world::bus_scenario_traits::is_new_bus;
use crate::environment::bus_world::utils::{
    add_bus_stops_from_env_to_buses, create_bus_env, create_n_buses_m_capacity,
    evolve_buses_n_times, get_wait_time, is_evolution, lemma_run_records_wait_time, new_sim,
    starts_with_import, wait_time_known, wait_time_series,
};
use crate::environment::env::DispatchError;
use crate::simulation::sim::{is_run, Simulation};
use crate::statistics::stats::Stats;
use vstd::prelude::*;

verus! {

/// The settings of an experiment. All times are in seconds.
pub struct EvolveBusSimSettings {
    pub runtime: usize,
    pub num_buses: usize,
    pub bus_capacity: usize,
    pub num_stops: usize,
    pub total_passengers: usize,
    pub num_evolutions: usize,
    pub env_settings: BusEnvironmentSettings,
}

/// The delays that a bus world has by default.
pub open spec fn default_delays() -> BusEnvironmentSettings {
    BusEnvironmentSettings {
        pickup_delay: 60,
        drop_off_delay: 30,
        next_stop_delay: 600,
        initial_delay: 600,
    }
}

impl Default for EvolveBusSimSettings {
    /// Four hours, ten buses for a hundred passengers each, ten stops,
    /// fifteen hundred passengers, a hundred trials.
    fn default() -> (settings: Self)
        ensures
            settings.runtime == 14400,
            settings.num_buses == 10,
            settings.bus_capacity == 100,
            settings.num_stops == 10,
            settings.total_passengers == 1500,
            settings.num_evolutions == 100,
            settings.env_settings == default_delays(),
    {
        EvolveBusSimSettings {
            runtime: 14400,
            num_buses: 10,
            bus_capacity: 100,
            num_stops: 10,
            total_passengers: 1500,
            num_evolutions: 100,
            env_settings: BusEnvironmentSettings::default(),
        }
    }
}

/// One trial: the buses after so many generations, the world after they ran
/// in it, and the wait time that came of it.
pub struct Trial {
    pub evolutions: usize,
    pub wait_time: usize,
    pub configuration: Vec<Bus>,
    pub environment: BusEnvironment,
    pub statistics: Stats,
}

/// Why an experiment could not be made.
#[derive(Debug)]
pub enum ExperimentError {
    /// The settings ask for a line that cannot be: it needs a stop, two stops
    /// if anybody is to travel, and no more stops than there are names.
    NoLine,
    /// A run met a fatal condition.
    Dispatch(DispatchError),
}

/// The settings ask for a line that can be.
pub open spec fn line_possible(settings: EvolveBusSimSettings) -> bool {
    &&& 1 <= settings.num_stops <= MAX_BUS_STOPS
    &&& settings.total_passengers > 0 ==> settings.num_stops >= 2
}

/// `concluded` is what a trial makes of a run that left `after` and returned
/// `outcome`: a run that failed fails the trial in the same way, and a run
/// that ended well gives the trial with the wait time that was recorded
/// last.
pub open spec fn is_conclusion(
    evolutions: usize,
    configuration: Seq<Bus>,
    after: Simulation<BusEnvironment>,
    outcome: Result<(), DispatchError>,
    concluded: Result<Trial, ExperimentError>,
) -> bool {
    match outcome {
        Err(error) => concluded matches Err(ExperimentError::Dispatch(failure)) && failure
            == error,
        Ok(_) => {
            concluded matches Ok(trial) && {
                &&& trial.evolutions == evolutions
                &&& trial.configuration@ == configuration
                &&& trial.environment == after.spec_environment()
                &&& trial.statistics == after.spec_statistics()
                &&& exists|timestamp: usize|
                    {
                        &&& #[trigger] wait_time_series(after.spec_statistics()@).is_latest(
                            timestamp,
                        )
                        &&& wait_time_series(after.spec_statistics()@).series[timestamp]
                            == trial.wait_time
                    }
            }
        },
    }
}

/// Make a trial of a run: see `is_conclusion`. A run that ended well has to
/// have recorded the wait time, which a run of the bus world always has.
pub fn conclude_trial(
    evolutions: usize,
    configuration: Vec<Bus>,
    simulation: Simulation<BusEnvironment>,
    outcome: Result<(), DispatchError>,
) -> (concluded: Result<Trial, ExperimentError>)
    requires
        outcome is Ok ==> wait_time_known(simulation.spec_statistics()@),
    ensures
        is_conclusion(evolutions, configuration@, simulation, outcome, concluded),
{
    match outcome {
        Err(error) => Err(ExperimentError::Dispatch(error)),
        Ok(_) => {
            let wait_time = get_wait_time(&simulation);
            let (environment, statistics) = simulation.into_parts();
            Ok(Trial { evolutions, wait_time, configuration, environment, statistics })
        },
    }
}

/// `concluded` is a trial of `fleet` in the world `env`: `generations` are the
/// generations through which the fleet evolved, `before` is the simulation
/// that starts with the import of the last of them into a copy of the world,
/// `after` and `outcome` are what its run made of it, and `concluded` is what
/// the trial makes of that.
pub open spec fn is_trial(
    fleet: Seq<BusView>,
    env: BusEnvironmentView,
    runtime: usize,
    evolutions: usize,
    generations: Seq<Seq<Bus>>,
    before: Simulation<BusEnvironment>,
    after: Simulation<BusEnvironment>,
    outcome: Result<(), DispatchError>,
    concluded: Result<Trial, ExperimentError>,
) -> bool {
    &&& is_evolution(generations, fleet, evolutions as int, generations.last())
    &&& before.spec_environment()@ == env
    &&& starts_with_import(
        before,
        runtime,
        before.spec_environment(),
        bus_views(generations.last()),
    )
    &&& is_run(before, after, outcome)
    &&& is_conclusion(evolutions, generations.last(), after, outcome, concluded)
}

/// `concluded` is a trial of `fleet` in the world `env` after so many
/// generations: see `is_trial`.
pub open spec fn has_trial(
    fleet: Seq<BusView>,
    env: BusEnvironmentView,
    runtime: usize,
    evolutions: usize,
    concluded: Result<Trial, ExperimentError>,
) -> bool {
    exists|
        generations: Seq<Seq<Bus>>,
        before: Simulation<BusEnvironment>,
        after: Simulation<BusEnvironment>,
        outcome: Result<(), DispatchError>,
    | #[trigger]
        is_trial(fleet, env, runtime, evolutions, generations, before, after, outcome, concluded)
}

/// Make one trial: evolve `buses` for `evolutions` generations, run them in a
/// copy of the world `env` for `runtime`, and note the wait time.
pub fn run_trial(buses: &Vec<Bus>, env: &BusEnvironment, runtime: usize, evolutions: usize) -> (concluded:
    Result<Trial, ExperimentError>)
    ensures
        has_trial(bus_views(buses@), env@, runtime, evolutions, concluded),
        concluded matches Ok(trial) ==> trial.evolutions == evolutions
            && trial.configuration@.len() == buses@.len(),
{
    let mut population = evolve_buses_n_times(buses, evolutions);
    let ghost generations = choose|generations: Seq<Seq<Bus>>| #[trigger]
        is_evolution(generations, bus_views(buses@), evolutions as int, population.populace@);
    let mut sim = new_sim(runtime, &mut population.populace, env.clone());
    let ghost before = sim;
    let outcome = sim.run();
    let ghost after = sim;
    proof {
        if outcome is Ok {
            lemma_run_records_wait_time(before, after, outcome);
        }
    }
    let concluded = conclude_trial(evolutions, population.populace, sim, outcome);
    proof {
        assert(is_trial(
            bus_views(buses@),
            env@,
            runtime,
            evolutions,
            generations,
            before,
            after,
            outcome,
            concluded,
        ));
    }
    concluded
}

/// `fleet` are the buses of the experiment: as many new buses of the given
/// capacity as the settings ask for, each on the route along all stops of
/// the world.
pub open spec fn is_fleet_of(
    fleet: Seq<BusView>,
    settings: EvolveBusSimSettings,
    env: BusEnvironmentView,
) -> bool {
    &&& fleet.len() == settings.num_buses
    &&& forall|i: int|
        0 <= i < fleet.len() ==> is_new_bus(
            #[trigger] fleet[i],
            settings.bus_capacity,
            stop_names_of(env.bus_stops),
        )
}

/// `trials` are the trials of `fleet` in the world `env`, one for every
/// number of generations below `num_evolutions`, in order.
pub open spec fn are_trials(
    fleet: Seq<BusView>,
    settings: EvolveBusSimSettings,
    env: BusEnvironmentView,
    trials: Seq<Trial>,
) -> bool {
    &&& is_fleet_of(fleet, settings, env)
    &&& forall|i: int|
        0 <= i < trials.len() ==> has_trial(
            fleet,
            env,
            settings.runtime,
            i as usize,
            Ok::<Trial, ExperimentError>(#[trigger] trials[i]),
        )
}

/// The experiment failed with `error` in one of its trials.
pub open spec fn is_failed_trial(
    fleet: Seq<BusView>,
    settings: EvolveBusSimSettings,
    env: BusEnvironmentView,
    evolutions: usize,
    error: ExperimentError,
) -> bool {
    &&& is_fleet_of(fleet, settings, env)
    &&& env.settings == settings.env_settings
    &&& env.bus_stops.len() == settings.num_stops
    &&& evolutions < settings.num_evolutions
    &&& has_trial(fleet, env, settings.runtime, evolutions, Err::<Trial, ExperimentError>(error))
}

/// Make the experiment: for every number of generations below
/// `num_evolutions`, evolve the buses for that many generations, run them in
/// a copy of the same world, and note the wait time. The answer is the world
/// as it was at the start, and the trials in the order of their generations.
/// The first trial that fails ends the experiment with its error.
pub fn run_trials(settings: &EvolveBusSimSettings) -> (outcome: Result<
    (BusEnvironment, Vec<Trial>),
    ExperimentError,
>)
    ensures
        !line_possible(*settings) ==> outcome matches Err(ExperimentError::NoLine),
        outcome matches Err(ExperimentError::NoLine) ==> !line_possible(*settings),
        outcome is Err && line_possible(*settings) ==> exists|
            fleet: Seq<BusView>,
            env: BusEnvironmentView,
            evolutions: usize,
        | #[trigger] is_failed_trial(fleet, *settings, env, evolutions, outcome->Err_0),
        outcome matches Ok((env, trials)) ==> {
            &&& env@.settings == settings.env_settings
            &&& env@.bus_stops.len() == settings.num_stops
            &&& trials@.len() == settings.num_evolutions
            &&& forall|i: int|
                0 <= i < trials@.len() ==> {
                    &&& (#[trigger] trials@[i]).evolutions == i
                    &&& trials@[i].configuration@.len() == settings.num_buses
                }
            &&& exists|fleet: Seq<BusView>| #[trigger] are_trials(fleet, *settings, env@, trials@)
        },
{
    if settings.num_stops < 1 || settings.num_stops > MAX_BUS_STOPS || (settings.total_passengers
        > 0 && settings.num_stops < 2) {
        return Err(ExperimentError::NoLine);
    }
    let mut buses = create_n_buses_m_capacity(settings.num_buses, settings.bus_capacity);
    let env = create_bus_env(settings.num_stops, settings.total_passengers, settings.env_settings);
    add_bus_stops_from_env_to_buses(&mut buses, &env);
    let ghost fleet = bus_views(buses@);
    proof {
        assert forall|i: int| 0 <= i < fleet.len() implies is_new_bus(
            #[trigger] fleet[i],
            settings.bus_capacity,
            stop_names_of(env@.bus_stops),
        ) by {
            assert(fleet[i] == buses@[i]@);
            assert(fleet[i].serviced_stop_names =~= stop_names_of(env@.bus_stops));
        }
    }
    let mut trials: Vec<Trial> = Vec::new();
    let mut evolution_count: usize = 0;
    while evolution_count < settings.num_evolutions
        invariant
            evolution_count <= settings.num_evolutions,
            line_possible(*settings),
            env@.settings == settings.env_settings,
            env@.bus_stops.len() == settings.num_stops,
            buses@.len() == settings.num_buses,
            fleet == bus_views(buses@),
            trials@.len() == evolution_count,
            forall|i: int|
                0 <= i < trials@.len() ==> {
                    &&& (#[trigger] trials@[i]).evolutions == i
                    &&& trials@[i].configuration@.len() == settings.num_buses
                },
            are_trials(fleet, *settings, env@, trials@),
        decreases settings.num_evolutions - evolution_count,
    {
        let ghost before = trials@;
        match run_trial(&buses, &env, settings.runtime, evolution_count) {
            Ok(trial) => {
                trials.push(trial);
                proof {
                    assert forall|i: int| 0 <= i < trials@.len() implies has_trial(
                        fleet,
                        env@,
                        settings.runtime,
                        i as usize,
                        Ok::<Trial, ExperimentError>(#[trigger] trials@[i]),
                    ) by {
                        if i < before.len() {
                            assert(trials@[i] == before[i]);
                        }
                    }
                }
            },
            Err(error) => {
                assert(is_failed_trial(fleet, *settings, env@, evolution_count, error));
                return Err(error);
            },
        }
        evolution_count += 1;
    }
    let ghost world = env@;
    let ghost made = trials@;
    assert(are_trials(fleet, *settings, world, made));
    let outcome: Result<(BusEnvironment, Vec<Trial>), ExperimentError> = Ok((env, trials));
    assert(outcome matches Ok((env, trials)) && env@ == world && trials@ == made);
    outcome
}

/// In the order of wait time, and of position where the wait times are
/// equal, `first` comes before `second`.
pub open spec fn ranks_before(wait_times: Seq<usize>, first: int, second: int) -> bool {
    wait_times[first] < wait_times[second] || (wait_times[first] == wait_times[second] && first
        < second)
}

/// `ranking` lists the positions of `wait_times` below `upto`, each once, the
/// shortest wait first; among equal waits the earlier position comes first.
pub open spec fn is_ranking(wait_times: Seq<usize>, ranking: Seq<usize>, upto: int) -> bool {
    &&& ranking.len() == upto
    &&& forall|k: int| 0 <= k < ranking.len() ==> (#[trigger] ranking[k]) < upto
    &&& forall|j: int, k: int|
        0 <= j < k < ranking.len() ==> ranks_before(
            wait_times,
            (#[trigger] ranking[j]) as int,
            (#[trigger] ranking[k]) as int,
        )
    &&& forall|position: usize| position < upto ==> #[trigger] ranking.contains(position)
}

/// The positions of the wait times, the shortest wait first.
pub fn rank_by_wait_time(wait_times: &Vec<usize>) -> (ranking: Vec<usize>)
    ensures
        is_ranking(wait_times@, ranking@, wait_times@.len() as int),
{
    let mut ranking: Vec<usize> = Vec::new();
    let mut position: usize = 0;
    while position < wait_times.len()
        invariant
            position <= wait_times@.len(),
            is_ranking(wait_times@, ranking@, position as int),
        decreases wait_times@.len() - position,
    {
        let mut place: usize = ranking.len();
        while place > 0 && wait_times[ranking[place - 1]] > wait_times[position]
            invariant
                place <= ranking@.len(),
                position < wait_times@.len(),
                is_ranking(wait_times@, ranking@, position as int),
                forall|k: int|
                    place <= k < ranking@.len() ==> wait_times@[(#[trigger] ranking@[k]) as int]
                        > wait_times@[position as int],
            decreases place,
        {
            place -= 1;
        }
        let ghost before = ranking@;
        ranking.insert(place, position);
        proof {
            let after = ranking@;
            assert forall|k: int| 0 <= k < after.len() implies (#[trigger] after[k]) < position
                + 1 by {
                if k < place {
                    assert(after[k] == before[k]);
                } else if k > place {
                    assert(after[k] == before[k - 1]);
                }
            }
            assert forall|j: int, k: int| 0 <= j < k < after.len() implies ranks_before(
                wait_times@,
                (#[trigger] after[j]) as int,
                (#[trigger] after[k]) as int,
            ) by {
                if k < place {
                    assert(after[j] == before[j] && after[k] == before[k]);
                } else if k == place {
                    assert(after[j] == before[j]);
                    assert(before[j] < position);
                    if place > 0 {
                        assert(wait_times@[before[place - 1] as int] <= wait_times@[position as int]);
                        if j < place - 1 {
                            assert(ranks_before(
                                wait_times@,
                                before[j] as int,
                                before[place - 1] as int,
                            ));
                        }
                    }
                } else if j == place {
                    assert(after[k] == before[k - 1]);
                } else if j < place {
                    assert(after[j] == before[j] && after[k] == before[k - 1]);
                } else {
                    assert(after[j] == before[j - 1] && after[k] == before[k - 1]);
                }
            }
            assert forall|wanted: usize| wanted < position + 1 implies #[trigger] after.contains(
                wanted,
            ) by {
                if wanted == position {
                    assert(after[place as int] == wanted);
                } else {
                    assert(before.contains(wanted));
                    let k = choose|k: int| 0 <= k < before.len() && before[k] == wanted;
                    if k < place {
                        assert(after[k] == wanted);
                    } else {
                        assert(after[k + 1] == wanted);
                    }
                }
            }
        }
        position += 1;
    }
    ranking
}

/// The wait times of some trials, in order.
pub fn wait_times_of(trials: &Vec<Trial>) -> (wait_times: Vec<usize>)
    ensures
        wait_times@.len() == trials@.len(),
        forall|i: int| 0 <= i < trials@.len() ==> (#[trigger] wait_times@[i]) == trials@[i].wait_time,
{
    let mut wait_times: Vec<usize> = Vec::new();
    let mut index: usize = 0;
    while index < trials.len()
        invariant
            index <= trials@.len(),
            wait_times@.len() == index,
            forall|i: int| 0 <= i < index ==> (#[trigger] wait_times@[i]) == trials@[i].wait_time,
        decreases trials@.len() - index,
    {
        wait_times.push(trials[index].wait_time);
        index += 1;
    }
    wait_times
}

} // verus!
