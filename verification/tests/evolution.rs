use discrete_event_simulator::genetic_learning::evolution::{
    best_index, elite_indices, max_score, normalize, select_indices, Breedable, Dna, DnaString,
    Evolvable, Fitness, Population,
};

#[derive(Debug, Clone, PartialEq)]
struct Critter {
    id: usize,
    fitness: u32,
    fertile: bool,
    parents: Option<(usize, usize)>,
    mutations: usize,
}

fn critter(id: usize, fitness: u32) -> Critter {
    Critter { id, fitness, fertile: true, parents: None, mutations: 0 }
}

fn barren(id: usize, fitness: u32) -> Critter {
    Critter { id, fitness, fertile: false, parents: None, mutations: 0 }
}

impl Dna for Critter {
    fn get_dna(&self) -> String {
        format!("{}", self.id)
    }

    fn get_species(&self) -> &'static str {
        "critter"
    }
}

impl Fitness for Critter {
    fn evaluate_fitness(&self) -> u32 {
        self.fitness
    }
}

impl Breedable for Critter {
    fn reproduce(&self, second: &Self) -> Result<Self, String> {
        if self.fertile && second.fertile {
            Ok(Critter {
                id: 1000,
                fitness: self.fitness.max(second.fitness),
                fertile: true,
                parents: Some((self.id, second.id)),
                mutations: 0,
            })
        } else {
            Err(format!("{} and {} cannot breed", self.id, second.id))
        }
    }

    fn mutate(&mut self) {
        self.mutations += 1;
    }
}

#[test]
fn population_knows_its_size() {
    let population = Population::new(vec![critter(0, 1), critter(1, 2)]);
    assert_eq!(population.len(), 2);
    assert!(!population.is_empty());
    assert_eq!(population.get(1).id, 1);
    let nobody: Population<Critter> = Population::new(Vec::new());
    assert_eq!(nobody.len(), 0);
    assert!(nobody.is_empty());
}

#[test]
fn max_score_is_the_greatest() {
    assert_eq!(max_score(&vec![3, 9, 4]), 9);
    assert_eq!(max_score(&vec![]), 0);
}

#[test]
fn weights_are_scaled_to_a_hundred() {
    assert_eq!(normalize(&vec![50, 200, 100, 0, 199]), vec![25, 100, 50, 0, 99]);
    assert_eq!(normalize(&vec![0, 0]), vec![0, 0]);
    let population = Population::new(vec![critter(0, 50), critter(1, 200), critter(2, 100)]);
    assert_eq!(population.get_weights(), vec![25, 100, 50]);
}

#[test]
fn selection_takes_the_top_percentage() {
    let scores = vec![100, 89, 90, 91, 0, 100];
    assert_eq!(select_indices(&scores, 10), vec![0, 2, 3, 5]);
    assert_eq!(select_indices(&scores, 1), vec![0, 5]);
    assert_eq!(select_indices(&scores, 11), vec![0, 1, 2, 3, 5]);
}

#[test]
fn selection_includes_the_cutoff() {
    assert_eq!(select_indices(&vec![9, 10], 10), vec![0, 1]);
    assert_eq!(select_indices(&vec![3, 7], 50), vec![1]);
    assert_eq!(select_indices(&vec![7, 14], 50), vec![0, 1]);
}

#[test]
fn selection_of_a_hundred_percent_is_everybody() {
    assert_eq!(select_indices(&vec![1, 5, 0, 3], 100), vec![0, 1, 2, 3]);
    let population = Population::new(vec![critter(0, 1), critter(1, 5), critter(2, 0)]);
    let selected = population.selection(100).unwrap();
    let ids: Vec<usize> = selected.iter().map(|c| c.id).collect();
    assert_eq!(ids, vec![0, 1, 2]);
}

#[test]
fn selection_rejects_zero_and_more_than_a_hundred() {
    let population = Population::new(vec![critter(0, 1), critter(1, 5)]);
    assert_eq!(
        population.selection(0).unwrap_err(),
        "Cannot select 0 percent of the population"
    );
    assert_eq!(
        population.selection(101).unwrap_err(),
        "Cannot select 101 percent of the population"
    );
    assert!(population.selection(1).is_ok());
    assert!(population.selection(100).is_ok());
}

#[test]
fn selection_hands_out_members_in_order() {
    let population =
        Population::new(vec![critter(0, 100), critter(1, 10), critter(2, 95), critter(3, 90)]);
    let selected = population.selection(10).unwrap();
    let ids: Vec<usize> = selected.iter().map(|c| c.id).collect();
    assert_eq!(ids, vec![0, 2, 3]);
}

#[test]
fn nobody_is_selected_where_every_score_is_zero() {
    assert_eq!(select_indices(&vec![0, 0, 0], 10), Vec::<usize>::new());
    assert_eq!(select_indices(&vec![0, 0, 0], 100), Vec::<usize>::new());
}

#[test]
fn best_index_is_the_first_of_the_best() {
    assert_eq!(best_index(&vec![1, 7, 3, 7]), 1);
    assert_eq!(best_index(&vec![0, 0, 0]), 0);
}

#[test]
fn elite_falls_back_to_the_first_individual() {
    assert_eq!(elite_indices(&vec![0, 0, 0]), vec![0]);
    assert_eq!(elite_indices(&vec![]), Vec::<usize>::new());
    assert_eq!(elite_indices(&vec![5, 100, 91]), vec![1, 2]);
}

#[test]
fn evolve_keeps_the_size() {
    let mut population = Population::new(vec![
        critter(0, 10),
        critter(1, 100),
        critter(2, 95),
        critter(3, 1),
        critter(4, 50),
    ]);
    for _ in 0..20 {
        population.evolve().unwrap();
        assert_eq!(population.len(), 5);
    }
    assert_eq!(population.generation(), 0);
}

#[test]
fn evolve_breeds_from_the_elite_only() {
    let mut population = Population::new(vec![
        critter(0, 10),
        critter(1, 100),
        critter(2, 95),
        critter(3, 1),
        critter(4, 50),
    ]);
    population.evolve().unwrap();
    for child in population.populace.iter() {
        let (first, second) = child.parents.unwrap();
        assert!(first == 1 || first == 2);
        assert!(second == 1 || second == 2);
        assert!(child.mutations <= 1);
    }
}

#[test]
fn evolve_of_all_zero_breeds_from_the_first() {
    let mut population = Population::new(vec![critter(7, 0), critter(8, 0), critter(9, 0)]);
    population.evolve().unwrap();
    assert_eq!(population.len(), 3);
    for child in population.populace.iter() {
        assert_eq!(child.parents, Some((7, 7)));
    }
}

#[test]
fn evolve_rolls_back_on_breeding_failure() {
    let before = vec![barren(0, 3), barren(1, 4)];
    let mut population = Population::new(before.clone());
    let outcome = population.evolve();
    assert!(outcome.is_err());
    assert_eq!(population.populace, before);
}

#[test]
fn evolve_of_nobody_is_nobody() {
    let mut population: Population<Critter> = Population::new(Vec::new());
    assert!(population.evolve().is_ok());
    assert_eq!(population.len(), 0);
}

#[test]
fn breed_from_parents_is_reproduce() {
    let population = Population::new(vec![critter(0, 1), barren(1, 2)]);
    let child = population.breed_from_parents(&critter(3, 1), &critter(4, 9)).unwrap();
    assert_eq!(child.parents, Some((3, 4)));
    assert_eq!(
        population.breed_from_parents(&critter(3, 1), &barren(5, 9)).unwrap_err(),
        "3 and 5 cannot breed"
    );
}

#[test]
fn dna_string_holds_its_text() {
    let dna = DnaString::new("ACGT".to_string());
    assert_eq!(dna.get_dna(), "ACGT");
}
