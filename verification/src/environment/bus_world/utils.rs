//! Shortcuts for setting up a bus world, and for evolving its buses.

use super::bus::{bus_views, Bus, BusView};
use super::bus_environment::{
    forgotten_label, is_distribution, is_stop_name, lemma_kind_of_event, pending_label,
    pending_total, pending_wait, settled, stop_names_of, total_wait_label, wait_time_recorded,
    waiting_total, BusEnvironment, BusEnvironmentSettings, BusEnvironmentView, MAX_BUS_STOPS,
};
use super::bus_scenario_traits::{follows, is_new_bus};
use super::bus_stop::BusStopView;
use super::bus_world_events::import_bus::{buses_to_json, json_of_fleet, ImportBusEvent};
use super::bus_world_events::BusWorldEvent;
use super::passenger::PassengerView;
use crate::des::scheduler::all_beyond;
use crate::environment::env::DispatchError;
use crate::event::schedulable::SchedulableEvent;
use crate::genetic_learning::evolution::{
    breeding_failed, evolves_to, is_failed_generation, is_lineage, Evolvable, Population,
};
use crate::simulation::sim::{
    events_ran_label, events_ran_unit, is_finale, is_run, was_applied, Dispatch, Simulation,
};
use crate::statistics::stats::{
    first_labelled, has_points, lemma_first_labelled, lemma_recorded_has_points,
    lemma_recorded_keeps_points, recorded,
};
use crate::statistics::timeseries::TimeSeriesView;
use crate::text::clip;
use vstd::multiset::Multiset;
use vstd::prelude::*;

verus! {

/// `line` is a line of `count` stops, named by letters from `'A'` on, with
/// nobody and no bus at any of them.
pub open spec fn is_empty_line(line: Seq<BusStopView>, count: int) -> bool {
    &&& line.len() == count
    &&& forall|i: int|
        0 <= i < count ==> {
            &&& is_stop_name((#[trigger] line[i]).name, i)
            &&& line[i].waiting_passengers.len() == 0
            &&& line[i].completed_passengers.len() == 0
            &&& line[i].buses_at_stop.len() == 0
        }
}

/// `stops` are a line of `num_stops` stops at which `passengers`, who are
/// `num_pass` passengers who travel along the line, wait.
pub open spec fn is_populated_line(
    line: Seq<BusStopView>,
    passengers: Seq<PassengerView>,
    num_stops: int,
    num_pass: int,
    stops: Seq<BusStopView>,
) -> bool {
    &&& is_empty_line(line, num_stops)
    &&& is_distribution(passengers, line, num_pass, stops)
}

/// Create a bus world of `num_stops` stops at which `num_pass` passengers
/// wait.
pub fn create_bus_env(
    num_stops: usize,
    num_pass: usize,
    bus_env_settings: BusEnvironmentSettings,
) -> (env: BusEnvironment)
    requires
        1 <= num_stops <= MAX_BUS_STOPS,
        num_pass > 0 ==> num_stops >= 2,
    ensures
        env@.settings == bus_env_settings,
        exists|line: Seq<BusStopView>, passengers: Seq<PassengerView>| #[trigger]
            is_populated_line(line, passengers, num_stops as int, num_pass as int, env@.bus_stops),
        env@.bus_stops.len() == num_stops,
        forall|i: int|
            0 <= i < num_stops ==> {
                &&& is_stop_name((#[trigger] env@.bus_stops[i]).name, i)
                &&& env@.bus_stops[i].completed_passengers.len() == 0
                &&& env@.bus_stops[i].buses_at_stop.len() == 0
            },
        waiting_total(env@.bus_stops) == num_pass,
{
    let mut env = BusEnvironment::new(bus_env_settings);
    env.create_bus_stops(num_stops);
    let ghost created = env@.bus_stops;
    proof {
        lemma_nobody_waits(created, num_stops as int);
        assert(is_empty_line(created, num_stops as int));
    }
    env.initialize_bus_stops_with_passengers(num_pass);
    proof {
        let passengers = choose|passengers: Seq<PassengerView>| #[trigger]
            is_distribution(passengers, created, num_pass as int, env@.bus_stops);
        assert(is_populated_line(
            created,
            passengers,
            num_stops as int,
            num_pass as int,
            env@.bus_stops,
        ));
    }
    env
}

/// At stops where nobody waits, nobody waits.
proof fn lemma_nobody_waits(stops: Seq<BusStopView>, upto: int)
    requires
        0 <= upto <= stops.len(),
        forall|i: int| 0 <= i < upto ==> (#[trigger] stops[i]).waiting_passengers.len() == 0,
    ensures
        waiting_total(stops.take(upto)) == 0,
        upto == stops.len() ==> waiting_total(stops) == 0,
    decreases upto,
{
    if upto > 0 {
        lemma_nobody_waits(stops, upto - 1);
        assert(stops.take(upto).drop_last() =~= stops.take(upto - 1));
        assert(stops.take(upto).last() == stops[upto - 1]);
    }
    if upto == stops.len() {
        assert(stops.take(upto) =~= stops);
    }
}

/// Let every bus service all stops of the world, in their order, after the
/// stops it services already.
pub fn add_bus_stops_from_env_to_buses(buses: &mut Vec<Bus>, env: &BusEnvironment)
    ensures
        final(buses)@.len() == old(buses)@.len(),
        forall|i: int|
            0 <= i < old(buses)@.len() ==> (#[trigger] final(buses)@[i])@ == (BusView {
                serviced_stop_names: old(buses)@[i]@.serviced_stop_names + stop_names_of(
                    env@.bus_stops,
                ),
                ..old(buses)@[i]@
            }),
{
    let names = env.stop_names();
    let mut index: usize = 0;
    while index < buses.len()
        invariant
            index <= buses@.len(),
            buses@.len() == old(buses)@.len(),
            names@.len() == env@.bus_stops.len(),
            forall|i: int| 0 <= i < names@.len() ==> (#[trigger] names@[i])@ == env@.bus_stops[i].name,
            forall|i: int|
                0 <= i < index ==> (#[trigger] buses@[i])@ == (BusView {
                    serviced_stop_names: old(buses)@[i]@.serviced_stop_names + stop_names_of(
                        env@.bus_stops,
                    ),
                    ..old(buses)@[i]@
                }),
            forall|i: int| index <= i < buses@.len() ==> (#[trigger] buses@[i]) == old(buses)@[i],
        decreases buses@.len() - index,
    {
        let mut added: usize = 0;
        let ghost start = buses@[index as int]@;
        while added < names.len()
            invariant
                index < buses@.len(),
                buses@.len() == old(buses)@.len(),
                added <= names@.len(),
                names@.len() == env@.bus_stops.len(),
                forall|i: int|
                    0 <= i < names@.len() ==> (#[trigger] names@[i])@ == env@.bus_stops[i].name,
                start == old(buses)@[index as int]@,
                buses@[index as int]@ == (BusView {
                    serviced_stop_names: start.serviced_stop_names + stop_names_of(env@.bus_stops).take(
                        added as int,
                    ),
                    ..start
                }),
                forall|i: int|
                    0 <= i < index ==> (#[trigger] buses@[i])@ == (BusView {
                        serviced_stop_names: old(buses)@[i]@.serviced_stop_names + stop_names_of(
                            env@.bus_stops,
                        ),
                        ..old(buses)@[i]@
                    }),
                forall|i: int| index < i < buses@.len() ==> (#[trigger] buses@[i]) == old(buses)@[i],
            decreases names@.len() - added,
        {
            let ghost before = buses@;
            buses[index].add_serviced_stop(names[added].clone());
            proof {
                assert forall|i: int| 0 <= i < buses@.len() && i != index implies (
                #[trigger] buses@[i]) == before[i] by {}
                assert(stop_names_of(env@.bus_stops).take(added as int + 1) =~= stop_names_of(
                    env@.bus_stops,
                ).take(added as int).push(names@[added as int]@));
                assert(start.serviced_stop_names + stop_names_of(env@.bus_stops).take(added as int + 1)
                    =~= (start.serviced_stop_names + stop_names_of(env@.bus_stops).take(
                    added as int,
                )).push(names@[added as int]@));
            }
            added += 1;
        }
        proof {
            assert(stop_names_of(env@.bus_stops).take(added as int) =~= stop_names_of(env@.bus_stops));
        }
        index += 1;
    }
}

/// `sim` is a simulation of the bus world `env` over `runtime` that nothing
/// has happened in yet, and the import of `buses` is all that is pending.
pub open spec fn starts_with_import(
    sim: Simulation<BusEnvironment>,
    runtime: usize,
    env: BusEnvironment,
    buses: Seq<BusView>,
) -> bool {
    &&& sim.scheduler().spec_runtime() == runtime
    &&& sim.scheduler().spec_current_time() == 0
    &&& sim.spec_environment() == env
    &&& sim.spec_statistics()@ == Seq::<TimeSeriesView>::empty()
    &&& sim.history() == Seq::<Dispatch<BusEnvironment>>::empty()
    &&& sim.finalizations() == 0
    &&& exists|initial: BusWorldEvent|
        {
            &&& sim.scheduler().pending() == Multiset::<BusWorldEvent>::empty().insert(initial)
            &&& #[trigger] follows(initial, "ImportBus"@, 0, 0, json_of_fleet(buses))
        }
}

/// Create a simulation of the bus world `env` that starts with the import of
/// `buses`.
pub fn new_sim(runtime: usize, buses: &mut Vec<Bus>, env: BusEnvironment) -> (sim: Simulation<
    BusEnvironment,
>)
    ensures
        final(buses)@ == old(buses)@,
        starts_with_import(sim, runtime, env, bus_views(old(buses)@)),
{
    let sim_init_event = ImportBusEvent::new(0, 0, buses_to_json(buses));
    let initial = BusWorldEvent::ImportBus(sim_init_event);
    assert(follows(initial, "ImportBus"@, 0, 0, json_of_fleet(bus_views(buses@))));
    Simulation::new(runtime, env, initial)
}

/// Create `n` buses of the given capacity, without a route.
pub fn create_n_buses_m_capacity(n: usize, capacity: usize) -> (buses: Vec<Bus>)
    ensures
        buses@.len() == n,
        forall|i: int|
            0 <= i < n ==> is_new_bus((#[trigger] buses@[i])@, capacity, Seq::<Seq<char>>::empty()),
{
    let mut buses: Vec<Bus> = Vec::new();
    let mut created: usize = 0;
    while created < n
        invariant
            created <= n,
            buses@.len() == created,
            forall|i: int|
                0 <= i < created ==> is_new_bus(
                    (#[trigger] buses@[i])@,
                    capacity,
                    Seq::<Seq<char>>::empty(),
                ),
        decreases n - created,
    {
        let bus = Bus::new(capacity);
        buses.push(bus);
        created += 1;
    }
    buses
}

/// The series of the wait time was recorded, and holds a value.
pub open spec fn wait_time_known(all: Seq<TimeSeriesView>) -> bool {
    has_points(all, total_wait_label())
}

/// A run of the bus world that ends well has recorded the wait time: the
/// bus world records it when it handles its terminating event, and what the
/// run records after that takes nothing away.
pub proof fn lemma_run_records_wait_time(
    before: Simulation<BusEnvironment>,
    after: Simulation<BusEnvironment>,
    outcome: Result<(), DispatchError>,
)
    requires
        is_run(before, after, outcome),
        outcome is Ok,
    ensures
        wait_time_known(after.spec_statistics()@),
{
    let last = after.history().last();
    let event = last.handling.event;
    let stops = last.environment_after@.bus_stops;
    let timestamp = event.spec_time_stamp();
    lemma_kind_of_event(event);
    assert(is_finale(last, before.scheduler().spec_runtime()));
    assert(was_applied(last));
    let pending = recorded(
        last.handling.statistics_before,
        pending_label(),
        timestamp,
        clip(pending_total(stops)),
        "count"@,
    );
    let forgotten = recorded(
        pending,
        forgotten_label(),
        timestamp,
        clip(waiting_total(stops)),
        "count"@,
    );
    lemma_recorded_has_points(
        forgotten,
        total_wait_label(),
        timestamp,
        clip(pending_wait(stops) + waiting_total(stops) * timestamp as nat),
        "seconds"@,
    );
    assert(wait_time_known(last.handling.statistics_after));
    lemma_recorded_keeps_points(
        last.handling.statistics_after,
        events_ran_label(),
        after.scheduler().spec_current_time(),
        (after.history().len() - before.history().len() - 1) as usize,
        events_ran_unit(),
        total_wait_label(),
    );
}

/// A run of the bus world in which no pending event lies within the runtime
/// dispatches the terminating event and nothing else, and ends well: the
/// wait times are settled at the runtime and recorded, and no event is
/// recorded to have run.
pub proof fn lemma_run_without_events(
    before: Simulation<BusEnvironment>,
    after: Simulation<BusEnvironment>,
    outcome: Result<(), DispatchError>,
)
    requires
        is_run(before, after, outcome),
        all_beyond(before.scheduler().pending(), before.scheduler().spec_runtime()),
    ensures
        outcome is Ok,
        after.history().len() == before.history().len() + 1,
        after.history().last().handling.event is Terminal,
        after.history().last().handling.event.spec_time_stamp() == before.scheduler().spec_runtime(),
        after.spec_environment()@ == (BusEnvironmentView {
            bus_stops: settled(
                before.spec_environment()@.bus_stops,
                before.scheduler().spec_runtime(),
            ),
            ..before.spec_environment()@
        }),
        after.spec_statistics()@ == recorded(
            wait_time_recorded(
                before.spec_statistics()@,
                after.spec_environment()@.bus_stops,
                before.scheduler().spec_runtime(),
            ),
            events_ran_label(),
            before.scheduler().spec_runtime(),
            0,
            events_ran_unit(),
        ),
{
    let last = after.history().last();
    lemma_kind_of_event(last.handling.event);
    assert(is_finale(last, before.scheduler().spec_runtime()));
    assert(was_applied(last));
}

/// The series of the wait time.
pub open spec fn wait_time_series(all: Seq<TimeSeriesView>) -> TimeSeriesView {
    all[first_labelled(all, total_wait_label())]
}

/// The wait time of everybody who has not arrived, as recorded last. The
/// simulation has to have recorded it, which a run does at its end.
pub fn get_wait_time(sim: &Simulation<BusEnvironment>) -> (wait_time: usize)
    requires
        wait_time_known(sim.spec_statistics()@),
    ensures
        exists|timestamp: usize|
            {
                &&& #[trigger] wait_time_series(sim.spec_statistics()@).is_latest(timestamp)
                &&& wait_time_series(sim.spec_statistics()@).series[timestamp] == wait_time
            },
{
    let statistics = sim.statistics();
    let label = "Total Passenger Wait Time".to_string();
    assert(label@ == total_wait_label());
    let index = statistics.find_series(&label);
    proof {
        lemma_first_labelled(statistics@, total_wait_label());
        assert(statistics@[index as int] == statistics.all_series@[index as int]@);
    }
    let series = &statistics.all_series[index];
    assert(series@ == wait_time_series(sim.spec_statistics()@));
    series.get_last_value()
}

/// The wait time of everybody who has not arrived, as recorded last, if it
/// was recorded.
pub fn try_get_wait_time(sim: &Simulation<BusEnvironment>) -> (wait_time: Option<usize>)
    ensures
        wait_time is Some <==> wait_time_known(sim.spec_statistics()@),
        wait_time matches Some(value) ==> exists|timestamp: usize|
            {
                &&& #[trigger] wait_time_series(sim.spec_statistics()@).is_latest(timestamp)
                &&& wait_time_series(sim.spec_statistics()@).series[timestamp] == value
            },
{
    let statistics = sim.statistics();
    let label = "Total Passenger Wait Time".to_string();
    assert(label@ == total_wait_label());
    proof {
        lemma_first_labelled(statistics@, total_wait_label());
    }
    match statistics.get_series_by_name(label) {
        Some(series) => {
            proof {
                let index = first_labelled(statistics@, total_wait_label());
                assert(statistics@[index] == statistics.all_series@[index]@);
            }
            if series.series.is_empty() {
                None
            } else {
                Some(get_wait_time(sim))
            }
        },
        None => None,
    }
}

/// Two buses can always breed.
pub proof fn lemma_buses_always_breed(populace: Seq<Bus>, first: int, second: int, message: String)
    ensures
        !breeding_failed(populace, first, second, message),
{
}

/// `generations` are the generations through which `buses` evolve into
/// `evolved`: copies of the buses first, `n` generations after them, each a
/// next generation of the one before, and `evolved` last.
pub open spec fn is_evolution(
    generations: Seq<Seq<Bus>>,
    buses: Seq<BusView>,
    n: int,
    evolved: Seq<Bus>,
) -> bool {
    &&& generations.len() == n + 1
    &&& bus_views(generations[0]) == buses
    &&& generations.last() == evolved
    &&& is_lineage(generations)
}

/// Evolve `buses` for `n` generations. Buses can always breed, so every
/// generation comes to be.
pub fn evolve_buses_n_times(buses: &Vec<Bus>, n: usize) -> (population: Population<Bus>)
    ensures
        population.populace@.len() == buses@.len(),
        exists|generations: Seq<Seq<Bus>>| #[trigger]
            is_evolution(generations, bus_views(buses@), n as int, population.populace@),
{
    let copies = super::bus::clone_buses(buses);
    assert(copies@.len() == bus_views(copies@).len());
    assert(buses@.len() == bus_views(buses@).len());
    let mut population = Population::new(copies);
    let mut generation: usize = 0;
    let ghost mut generations: Seq<Seq<Bus>> = seq![population.populace@];
    while generation < n
        invariant
            generation <= n,
            population.populace@.len() == buses@.len(),
            is_evolution(generations, bus_views(buses@), generation as int, population.populace@),
        decreases n - generation,
    {
        let ghost parents = population.populace@;
        let outcome = population.evolve();
        proof {
            if let Err(message) = outcome {
                let scores = choose|scores: Seq<u32>| #[trigger]
                    is_failed_generation(parents, scores, message);
                let (first, second) = choose|first: int, second: int| #[trigger]
                    breeding_failed(parents, first, second, message);
                lemma_buses_always_breed(parents, first, second, message);
            }
            let grown = generations.push(population.populace@);
            assert forall|k: int| 0 <= k < grown.len() - 1 implies #[trigger] evolves_to(
                grown[k],
                grown[k + 1],
            ) by {
                if k < generations.len() - 1 {
                    assert(evolves_to(generations[k], generations[k + 1]));
                }
            }
            assert(grown[0] == generations[0]);
            generations = grown;
        }
        generation += 1;
    }
    population
}

} // verus!
