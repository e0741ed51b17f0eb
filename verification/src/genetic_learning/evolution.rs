//! Fitness-weighted selection, breeding and mutation over a population.

use crate::chance::{choose_position, random_below};
use crate::text::{decimal, decimal_text};
use vstd::prelude::*;

verus! {

/// Genetic makeup written out as text.
pub struct DnaString {
    dna: String,
}

impl DnaString {
    pub closed spec fn spec_dna(&self) -> Seq<char> {
        self.dna@
    }

    pub fn new(dna: String) -> (created: DnaString)
        ensures
            created.spec_dna() == dna@,
    {
        DnaString { dna }
    }

    pub fn get_dna(&self) -> (dna: &String)
        ensures
            dna@ == self.spec_dna(),
    {
        &self.dna
    }
}

/// Defines the genetic makeup of an individual.
pub trait Dna {
    /// The genetic encoding of the individual, serialized.
    fn get_dna(&self) -> String;

    /// The species of the individual, which never changes.
    fn get_species(&self) -> &'static str;
}

/// Defines how an individual can be evaluated among its peers.
pub trait Fitness {
    /// The fitness of the individual: higher is better. The population
    /// normalizes the scores of its members against the best of them.
    fn evaluate_fitness(&self) -> u32;
}

/// Defines how an individual can reproduce and mutate.
pub trait Breedable: Sized {
    /// Produce one child from `self` and a second parent, or say why the two
    /// cannot breed.
    fn reproduce(&self, second: &Self) -> Result<Self, String>;

    /// `self` is what a mutation may make of `before`. Unless an individual
    /// says what its mutations are, a mutation may make anything of it.
    open spec fn mutation_of(&self, before: &Self) -> bool {
        true
    }

    /// Change the individual in place.
    fn mutate(&mut self)
        ensures
            final(self).mutation_of(old(self)),
    ;
}

/// The share of the population, in percent, that breeds the next generation.
pub const ELITE_PERCENTAGE: usize = 10;

/// Out of a hundred children this many are mutated, on average.
pub const MUTATION_PERCENTAGE: usize = 10;

/// `scores` are what the members of `populace` report as their fitness, in
/// order.
pub open spec fn reported<T: Fitness>(populace: Seq<T>, scores: Seq<u32>) -> bool {
    &&& scores.len() == populace.len()
    &&& forall|i: int|
        0 <= i < populace.len() ==> call_ensures(
            T::evaluate_fitness,
            (&populace[i],),
            #[trigger] scores[i],
        )
}

/// `child` is what the breeding of the members at `first` and `second`
/// brought forth.
pub open spec fn bred_from<T: Breedable>(populace: Seq<T>, first: int, second: int, child: T) -> bool {
    call_ensures(T::reproduce, (&populace[first], &populace[second]), Ok::<T, String>(child))
}

/// The breeding of the members at `first` and `second` failed with
/// `message`.
pub open spec fn breeding_failed<T: Breedable>(
    populace: Seq<T>,
    first: int,
    second: int,
    message: String,
) -> bool {
    call_ensures(T::reproduce, (&populace[first], &populace[second]), Err::<T, String>(message))
}

/// `child` descends from two of `parents`, which are positions in
/// `populace`: it is what their breeding brought forth, as it was or, where
/// `mutated` says so, after one mutation.
pub open spec fn descends<T: Breedable>(
    populace: Seq<T>,
    parents: Seq<usize>,
    child: T,
    mutated: bool,
) -> bool {
    exists|first: int, second: int, born: T|
        {
            &&& parents.contains(first as usize)
            &&& parents.contains(second as usize)
            &&& 0 <= first < populace.len()
            &&& 0 <= second < populace.len()
            &&& #[trigger] bred_from(populace, first, second, born)
            &&& !mutated ==> child == born
            &&& mutated ==> child.mutation_of(&born)
        }
}

/// `generation` is a next generation of `populace`: as many children as the
/// population has members, each descending from two of the elite of the
/// reported scores.
pub open spec fn is_next_generation<T: Breedable + Fitness>(
    populace: Seq<T>,
    scores: Seq<u32>,
    mutated: Seq<bool>,
    generation: Seq<T>,
) -> bool {
    &&& reported(populace, scores)
    &&& generation.len() == populace.len()
    &&& mutated.len() == populace.len()
    &&& forall|k: int|
        0 <= k < generation.len() ==> descends(
            populace,
            elite(scores),
            #[trigger] generation[k],
            mutated[k],
        )
}

/// `next` is a next generation of `populace`, for the scores that its
/// members report.
pub open spec fn evolves_to<T: Breedable + Fitness>(populace: Seq<T>, next: Seq<T>) -> bool {
    exists|scores: Seq<u32>, mutated: Seq<bool>| #[trigger]
        is_next_generation(populace, scores, mutated, next)
}

/// Every one of `generations` but the first is a next generation of the one
/// before it.
pub open spec fn is_lineage<T: Breedable + Fitness>(generations: Seq<Seq<T>>) -> bool {
    forall|k: int|
        0 <= k < generations.len() - 1 ==> #[trigger] evolves_to(
            generations[k],
            generations[k + 1],
        )
}

/// Breeding failed with `message` between two of the elite of the reported
/// scores.
pub open spec fn is_failed_generation<T: Breedable + Fitness>(
    populace: Seq<T>,
    scores: Seq<u32>,
    message: String,
) -> bool {
    &&& reported(populace, scores)
    &&& exists|first: int, second: int|
        {
            &&& elite(scores).contains(first as usize)
            &&& elite(scores).contains(second as usize)
            &&& 0 <= first < populace.len()
            &&& 0 <= second < populace.len()
            &&& #[trigger] breeding_failed(populace, first, second, message)
        }
}

/// The greatest of the scores, zero if there is none.
pub open spec fn top_score(scores: Seq<u32>) -> u32
    decreases scores.len(),
{
    if scores.len() == 0 {
        0
    } else if scores.last() > top_score(scores.drop_last()) {
        scores.last()
    } else {
        top_score(scores.drop_last())
    }
}

/// The score at `index`, on a scale on which the greatest score is 100,
/// rounded down. Where the greatest score is zero there is no such scale and
/// the weight is zero.
pub open spec fn weight(scores: Seq<u32>, index: int) -> int {
    if top_score(scores) > 0 {
        scores[index] * 100 / (top_score(scores) as int)
    } else {
        0
    }
}

/// The individual at `index` is within the top `top_percentage` percent: its
/// score is at least `100 - top_percentage` percent of the greatest score. An
/// individual exactly at the cutoff is within. Where the greatest score is
/// zero nobody is.
pub open spec fn is_elite(scores: Seq<u32>, index: int, top_percentage: int) -> bool {
    &&& 0 <= index < scores.len()
    &&& top_score(scores) > 0
    &&& scores[index] * 100 >= (100 - top_percentage) * top_score(scores)
}

/// The positions below `bound` that are within the top `top_percentage`
/// percent, in ascending order.
pub open spec fn selected_below(scores: Seq<u32>, top_percentage: int, bound: int) -> Seq<usize>
    decreases bound,
{
    if bound <= 0 {
        Seq::empty()
    } else if is_elite(scores, bound - 1, top_percentage) {
        selected_below(scores, top_percentage, bound - 1).push((bound - 1) as usize)
    } else {
        selected_below(scores, top_percentage, bound - 1)
    }
}

/// The positions that are within the top `top_percentage` percent, in
/// ascending order.
pub open spec fn selected(scores: Seq<u32>, top_percentage: int) -> Seq<usize> {
    selected_below(scores, top_percentage, scores.len() as int)
}

/// The first position that holds `score`, or the number of scores if none
/// does.
pub open spec fn first_scoring(scores: Seq<u32>, score: u32) -> int
    decreases scores.len(),
{
    if scores.len() == 0 {
        0
    } else if scores[0] == score {
        0
    } else {
        1 + first_scoring(scores.drop_first(), score)
    }
}

/// The positions that breed the next generation: the top
/// `ELITE_PERCENTAGE` percent or, where that is nobody, the first individual
/// with the greatest score.
pub open spec fn elite(scores: Seq<u32>) -> Seq<usize> {
    if scores.len() == 0 {
        Seq::empty()
    } else if selected(scores, ELITE_PERCENTAGE as int).len() > 0 {
        selected(scores, ELITE_PERCENTAGE as int)
    } else {
        seq![first_scoring(scores, top_score(scores)) as usize]
    }
}

/// The members of `populace` at `positions`.
pub open spec fn picked<T>(populace: Seq<T>, positions: Seq<usize>) -> Seq<T> {
    Seq::new(positions.len(), |k: int| populace[positions[k] as int])
}

/// The message for a percentage that cannot be selected.
pub open spec fn selection_error(top_percentage: usize) -> Seq<char> {
    "Cannot select "@ + decimal_text(top_percentage as nat) + " percent of the population"@
}

/// The greatest score is one of the scores, and none is greater.
pub proof fn lemma_top_score(scores: Seq<u32>)
    ensures
        forall|i: int| 0 <= i < scores.len() ==> (#[trigger] scores[i]) <= top_score(scores),
        scores.len() > 0 ==> exists|i: int| 0 <= i < scores.len() && scores[i] == top_score(scores),
    decreases scores.len(),
{
    if scores.len() > 0 {
        let front = scores.drop_last();
        lemma_top_score(front);
        assert forall|i: int| 0 <= i < scores.len() implies (#[trigger] scores[i]) <= top_score(
            scores,
        ) by {
            if i < front.len() {
                assert(front[i] == scores[i]);
            }
        }
        if scores.last() > top_score(front) {
            assert(scores[scores.len() - 1] == top_score(scores));
        } else if front.len() > 0 {
            let i = choose|i: int| 0 <= i < front.len() && front[i] == top_score(front);
            assert(scores[i] == top_score(scores));
        } else {
            assert(scores[scores.len() - 1] == top_score(scores));
        }
    }
}

/// `first_scoring` is within bounds, holds the score where it is below the
/// length, and no earlier position holds the score.
pub proof fn lemma_first_scoring(scores: Seq<u32>, score: u32)
    ensures
        0 <= first_scoring(scores, score) <= scores.len(),
        first_scoring(scores, score) < scores.len() ==> scores[first_scoring(scores, score)]
            == score,
        forall|i: int| 0 <= i < first_scoring(scores, score) ==> (#[trigger] scores[i]) != score,
        (exists|i: int| 0 <= i < scores.len() && scores[i] == score) ==> first_scoring(
            scores,
            score,
        ) < scores.len(),
    decreases scores.len(),
{
    if scores.len() != 0 && scores[0] != score {
        let rest = scores.drop_first();
        lemma_first_scoring(rest, score);
        assert forall|i: int| 0 <= i < first_scoring(scores, score) implies (#[trigger] scores[i])
            != score by {
            if i > 0 {
                assert(scores[i] == rest[i - 1]);
            }
        }
        if exists|i: int| 0 <= i < scores.len() && scores[i] == score {
            let i = choose|i: int| 0 <= i < scores.len() && scores[i] == score;
            assert(rest[i - 1] == score);
        }
    }
}

/// What `selected_below` holds: exactly the elite positions below the bound,
/// each once, in ascending order.
pub proof fn lemma_selected_below(scores: Seq<u32>, top_percentage: int, bound: int)
    requires
        0 <= bound <= scores.len() <= usize::MAX,
    ensures
        selected_below(scores, top_percentage, bound).len() <= bound,
        forall|k: int|
            0 <= k < selected_below(scores, top_percentage, bound).len() ==> {
                &&& (#[trigger] selected_below(scores, top_percentage, bound)[k]) < bound
                &&& is_elite(
                    scores,
                    selected_below(scores, top_percentage, bound)[k] as int,
                    top_percentage,
                )
            },
        forall|j: int, k: int|
            0 <= j < k < selected_below(scores, top_percentage, bound).len() ==> (
            #[trigger] selected_below(scores, top_percentage, bound)[j]) < (#[trigger] selected_below(
                scores,
                top_percentage,
                bound,
            )[k]),
        forall|index: int|
            0 <= index < bound && is_elite(scores, index, top_percentage) ==> selected_below(
                scores,
                top_percentage,
                bound,
            ).contains(index as usize),
    decreases bound,
{
    if bound > 0 {
        lemma_selected_below(scores, top_percentage, bound - 1);
        let before = selected_below(scores, top_percentage, bound - 1);
        let now = selected_below(scores, top_percentage, bound);
        assert forall|k: int| 0 <= k < now.len() implies (#[trigger] now[k]) < bound && is_elite(
            scores,
            now[k] as int,
            top_percentage,
        ) by {
            if k < before.len() {
                assert(now[k] == before[k]);
            }
        }
        assert forall|j: int, k: int| 0 <= j < k < now.len() implies (#[trigger] now[j]) < (
        #[trigger] now[k]) by {
            assert(now[j] == before[j]);
            if k < before.len() {
                assert(now[k] == before[k]);
            }
        }
        assert forall|index: int|
            0 <= index < bound && is_elite(scores, index, top_percentage) implies now.contains(
            index as usize,
        ) by {
            if index < bound - 1 {
                assert(before.contains(index as usize));
                let k = choose|k: int| 0 <= k < before.len() && before[k] == index as usize;
                assert(now[k] == index as usize);
            } else {
                assert(now[now.len() - 1] == index as usize);
            }
        }
    }
}

/// Selection boundary: where somebody has a positive score, the top hundred
/// percent are the entire population.
pub proof fn lemma_selection_of_all(scores: Seq<u32>)
    requires
        scores.len() <= usize::MAX,
        exists|i: int| 0 <= i < scores.len() && scores[i] > 0,
    ensures
        selected(scores, 100) == Seq::new(scores.len(), |i: int| i as usize),
{
    lemma_top_score(scores);
    let witness = choose|i: int| 0 <= i < scores.len() && scores[i] > 0;
    assert(scores[witness] <= top_score(scores));
    lemma_everyone_selected_below(scores, scores.len() as int);
}

proof fn lemma_everyone_selected_below(scores: Seq<u32>, bound: int)
    requires
        top_score(scores) > 0,
        0 <= bound <= scores.len(),
    ensures
        selected_below(scores, 100, bound) == Seq::new(bound as nat, |i: int| i as usize),
    decreases bound,
{
    if bound > 0 {
        lemma_everyone_selected_below(scores, bound - 1);
        assert(is_elite(scores, bound - 1, 100));
        assert(selected_below(scores, 100, bound) =~= Seq::new(bound as nat, |i: int| i as usize));
    } else {
        assert(selected_below(scores, 100, bound) =~= Seq::new(bound as nat, |i: int| i as usize));
    }
}

/// Where the greatest score is zero nobody is selected, whatever the
/// percentage.
pub proof fn lemma_nobody_selected(scores: Seq<u32>, top_percentage: int, bound: int)
    requires
        top_score(scores) == 0,
    ensures
        selected_below(scores, top_percentage, bound) == Seq::<usize>::empty(),
    decreases bound,
{
    if bound > 0 {
        lemma_nobody_selected(scores, top_percentage, bound - 1);
    }
}

/// Elitism fallback: a population in which every score is zero has an elite
/// of exactly one, its first individual.
pub proof fn lemma_elite_of_all_zero(scores: Seq<u32>)
    requires
        scores.len() > 0,
        forall|i: int| 0 <= i < scores.len() ==> scores[i] == 0,
    ensures
        elite(scores) == seq![0usize],
{
    lemma_top_score(scores);
    let best = choose|i: int| 0 <= i < scores.len() && scores[i] == top_score(scores);
    assert(scores[best] == 0);
    lemma_nobody_selected(scores, ELITE_PERCENTAGE as int, scores.len() as int);
    assert(scores[0] == 0);
}

/// The elite of a population that is not empty is not empty, and names
/// members of the population.
pub proof fn lemma_elite_members(scores: Seq<u32>)
    requires
        0 < scores.len() <= usize::MAX,
    ensures
        elite(scores).len() > 0,
        forall|k: int| 0 <= k < elite(scores).len() ==> (#[trigger] elite(scores)[k]) < scores.len(),
{
    lemma_selected_below(scores, ELITE_PERCENTAGE as int, scores.len() as int);
    lemma_top_score(scores);
    lemma_first_scoring(scores, top_score(scores));
}

/// The greatest of the scores.
pub fn max_score(scores: &Vec<u32>) -> (greatest: u32)
    ensures
        greatest == top_score(scores@),
{
    let mut greatest: u32 = 0;
    let mut index: usize = 0;
    while index < scores.len()
        invariant
            index <= scores@.len(),
            greatest == top_score(scores@.take(index as int)),
        decreases scores@.len() - index,
    {
        assert(scores@.take(index as int + 1).drop_last() =~= scores@.take(index as int));
        if scores[index] > greatest {
            greatest = scores[index];
        }
        index += 1;
    }
    assert(scores@.take(index as int) =~= scores@);
    greatest
}

/// The scores on a scale on which the greatest of them is 100.
pub fn normalize(scores: &Vec<u32>) -> (weights: Vec<u32>)
    ensures
        weights@.len() == scores@.len(),
        forall|i: int| 0 <= i < scores@.len() ==> (#[trigger] weights@[i]) == weight(scores@, i),
{
    let greatest = max_score(scores);
    let mut weights: Vec<u32> = Vec::new();
    let mut index: usize = 0;
    proof {
        lemma_top_score(scores@);
    }
    while index < scores.len()
        invariant
            index <= scores@.len(),
            weights@.len() == index,
            greatest == top_score(scores@),
            forall|i: int| 0 <= i < scores@.len() ==> (#[trigger] scores@[i]) <= greatest,
            forall|i: int| 0 <= i < index ==> (#[trigger] weights@[i]) == weight(scores@, i),
        decreases scores@.len() - index,
    {
        if greatest > 0 {
            let score: u64 = scores[index] as u64;
            let scaled: u64 = score * 100 / (greatest as u64);
            assert(scaled <= 100 && scaled == weight(scores@, index as int)) by {
                let top = greatest as int;
                assert(score * 100 <= 100 * top);
                assert((score * 100) / top <= 100) by (nonlinear_arith)
                    requires
                        0 <= score * 100 <= 100 * top,
                        top > 0,
                ;
            }
            weights.push(scaled as u32);
        } else {
            weights.push(0);
        }
        index += 1;
    }
    weights
}

/// The positions within the top `top_percentage` percent of the scores.
pub fn select_indices(scores: &Vec<u32>, top_percentage: usize) -> (positions: Vec<usize>)
    requires
        1 <= top_percentage <= 100,
    ensures
        positions@ == selected(scores@, top_percentage as int),
{
    let greatest = max_score(scores);
    let mut positions: Vec<usize> = Vec::new();
    let mut index: usize = 0;
    while index < scores.len()
        invariant
            index <= scores@.len(),
            1 <= top_percentage <= 100,
            greatest == top_score(scores@),
            positions@ == selected_below(scores@, top_percentage as int, index as int),
        decreases scores@.len() - index,
    {
        let score: u64 = scores[index] as u64;
        let cutoff: u64 = (100 - top_percentage) as u64;
        assert(cutoff * (greatest as u64) <= 100 * 0xffff_ffff) by (nonlinear_arith)
            requires
                cutoff <= 100,
                greatest <= 0xffff_ffff,
        ;
        if greatest > 0 && score * 100 >= cutoff * (greatest as u64) {
            positions.push(index);
        }
        index += 1;
    }
    positions
}

/// The first position that holds the greatest score.
pub fn best_index(scores: &Vec<u32>) -> (position: usize)
    requires
        scores@.len() > 0,
    ensures
        position == first_scoring(scores@, top_score(scores@)),
        position < scores@.len(),
{
    let greatest = max_score(scores);
    let mut index: usize = 0;
    proof {
        lemma_top_score(scores@);
        lemma_first_scoring(scores@, greatest);
    }
    while index < scores.len()
        invariant
            index <= scores@.len(),
            greatest == top_score(scores@),
            index <= first_scoring(scores@, greatest) < scores@.len(),
            forall|i: int|
                0 <= i < first_scoring(scores@, greatest) ==> (#[trigger] scores@[i]) != greatest,
            scores@[first_scoring(scores@, greatest)] == greatest,
        decreases scores@.len() - index,
    {
        if scores[index] == greatest {
            return index;
        }
        index += 1;
    }
    index
}

/// The positions that breed the next generation.
pub fn elite_indices(scores: &Vec<u32>) -> (positions: Vec<usize>)
    ensures
        positions@ == elite(scores@),
{
    if scores.len() == 0 {
        return Vec::new();
    }
    let positions = select_indices(scores, ELITE_PERCENTAGE);
    if positions.len() > 0 {
        positions
    } else {
        let mut fallback: Vec<usize> = Vec::new();
        fallback.push(best_index(scores));
        assert(fallback@ =~= seq![first_scoring(scores@, top_score(scores@)) as usize]);
        fallback
    }
}

/// A collection of individuals who can reproduce.
pub struct Population<T: Dna + Fitness + Breedable> {
    pub populace: Vec<T>,
}

impl<T: Dna + Fitness + Breedable> Population<T> {
    /// Create a new population from a vector of individuals.
    pub fn new(pop: Vec<T>) -> (created: Population<T>)
        ensures
            created.populace == pop,
    {
        Population { populace: pop }
    }

    /// The number of members of the population.
    pub fn len(&self) -> (length: usize)
        ensures
            length == self.populace@.len(),
    {
        self.populace.len()
    }

    /// Whether the population has no members.
    pub fn is_empty(&self) -> (empty: bool)
        ensures
            empty == (self.populace@.len() == 0),
    {
        self.populace.len() == 0
    }

    /// The member at `index`.
    pub fn get(&self, index: usize) -> (member: &T)
        requires
            index < self.populace@.len(),
        ensures
            *member == self.populace@[index as int],
    {
        &self.populace[index]
    }

    /// Attempt to create a new individual from two parents: what
    /// `Breedable::reproduce` of the first parent makes of the second.
    pub fn breed_from_parents(&self, first: &T, second: &T) -> (outcome: Result<T, String>)
        ensures
            call_ensures(T::reproduce, (first, second), outcome),
    {
        first.reproduce(second)
    }

    /// The fitness of every member, in the order of the population.
    pub fn fitness_scores(&self) -> (scores: Vec<u32>)
        ensures
            reported(self.populace@, scores@),
    {
        let mut scores: Vec<u32> = Vec::new();
        let mut index: usize = 0;
        while index < self.populace.len()
            invariant
                index <= self.populace@.len(),
                scores@.len() == index,
                forall|i: int|
                    0 <= i < index ==> call_ensures(
                        T::evaluate_fitness,
                        (&self.populace@[i],),
                        #[trigger] scores@[i],
                    ),
            decreases self.populace@.len() - index,
        {
            scores.push(self.populace[index].evaluate_fitness());
            index += 1;
        }
        scores
    }

    /// The fitness of every member on a scale on which the fittest has 100:
    /// what `normalize` makes of the scores that the members report.
    pub fn get_weights(&self) -> (weights: Vec<u32>)
        ensures
            weights@.len() == self.populace@.len(),
            exists|scores: Seq<u32>|
                {
                    &&& #[trigger] reported(self.populace@, scores)
                    &&& forall|i: int|
                        0 <= i < scores.len() ==> (#[trigger] weights@[i]) == weight(scores, i)
                },
    {
        let scores = self.fitness_scores();
        normalize(&scores)
    }

    /// The members at `positions`.
    fn members_at(&self, positions: &Vec<usize>) -> (members: Vec<&T>)
        requires
            forall|k: int| 0 <= k < positions@.len() ==> (#[trigger] positions@[k]) < self.populace@.len(),
        ensures
            members@.len() == positions@.len(),
            forall|k: int|
                0 <= k < positions@.len() ==> *(#[trigger] members@[k])
                    == self.populace@[positions@[k] as int],
    {
        let mut members: Vec<&T> = Vec::new();
        let mut index: usize = 0;
        while index < positions.len()
            invariant
                index <= positions@.len(),
                members@.len() == index,
                forall|k: int|
                    0 <= k < positions@.len() ==> (#[trigger] positions@[k]) < self.populace@.len(),
                forall|k: int|
                    0 <= k < index ==> *(#[trigger] members@[k]) == self.populace@[positions@[k] as int],
            decreases positions@.len() - index,
        {
            members.push(&self.populace[positions[index]]);
            index += 1;
        }
        members
    }

    /// Select the top percentage of the population.
    ///
    /// The percentage must be between 1 and 100; any other is an error. The
    /// members report their fitness, and those within the top
    /// `top_percentage` percent of the reported scores are handed out, in the
    /// order of the population.
    pub fn selection(&self, top_percentage: usize) -> (outcome: Result<Vec<&T>, String>)
        ensures
            outcome is Err <==> top_percentage == 0 || top_percentage > 100,
            outcome matches Err(message) ==> message@ == selection_error(top_percentage),
            outcome matches Ok(members) ==> exists|scores: Seq<u32>|
                {
                    &&& reported(self.populace@, scores)
                    &&& members@.map_values(|member: &T| *member) == #[trigger] picked(
                        self.populace@,
                        selected(scores, top_percentage as int),
                    )
                },
    {
        if top_percentage > 100 || top_percentage == 0 {
            let message = "Cannot select ".to_string().concat(decimal(top_percentage).as_str()).concat(
                " percent of the population",
            );
            Err(message)
        } else {
            let scores = self.fitness_scores();
            let positions = select_indices(&scores, top_percentage);
            proof {
                assert(scores@.len() == self.populace@.len());
                lemma_selected_below(scores@, top_percentage as int, scores@.len() as int);
            }
            let members = self.members_at(&positions);
            assert(members@.map_values(|member: &T| *member) =~= picked(
                self.populace@,
                selected(scores@, top_percentage as int),
            ));
            Ok(members)
        }
    }
}

/// Defines how a population can evolve.
pub trait Evolvable {
    /// Replace the population by its next generation.
    fn evolve(&mut self) -> Result<(), String>;

    /// The number of generations so far.
    fn generation(&self) -> usize;
}

impl<T: Dna + Fitness + Breedable> Evolvable for Population<T> {
    /// Evolve the population: create a new generation and replace the
    /// population by it.
    ///
    /// The elite breeds as many children as the population has members. Both
    /// parents of a child are drawn at random from the elite, and one child
    /// in ten, on average, is mutated. If any breeding fails, its error is
    /// returned and the population is left as it was.
    fn evolve(&mut self) -> (outcome: Result<(), String>)
        ensures
            outcome is Ok ==> final(self).populace@.len() == old(self).populace@.len(),
            outcome is Ok ==> evolves_to(old(self).populace@, final(self).populace@),
            outcome is Err ==> final(self).populace@ == old(self).populace@,
            outcome matches Err(message) ==> exists|scores: Seq<u32>| #[trigger]
                is_failed_generation(old(self).populace@, scores, message),
            old(self).populace@.len() == 0 ==> outcome is Ok && final(self).populace@ == old(
                self,
            ).populace@,
    {
        let size = self.populace.len();
        let scores = self.fitness_scores();
        if size == 0 {
            assert(is_next_generation(
                self.populace@,
                scores@,
                Seq::<bool>::empty(),
                self.populace@,
            ));
            return Ok(());
        }
        let parents = elite_indices(&scores);
        proof {
            lemma_elite_members(scores@);
        }
        let mut new_pop: Vec<T> = Vec::new();
        let mut born: usize = 0;
        let ghost mut mutated: Seq<bool> = Seq::empty();
        while born < size
            invariant
                born <= size,
                size == self.populace@.len(),
                self.populace@ == old(self).populace@,
                reported(self.populace@, scores@),
                new_pop@.len() == born,
                mutated.len() == born,
                parents@ == elite(scores@),
                parents@.len() > 0,
                forall|k: int| 0 <= k < parents@.len() ==> (#[trigger] parents@[k]) < size,
                forall|k: int|
                    0 <= k < born ==> descends(
                        self.populace@,
                        parents@,
                        #[trigger] new_pop@[k],
                        mutated[k],
                    ),
            decreases size - born,
        {
            let first = choose_position(&parents);
            let second = choose_position(&parents);
            let child = self.breed_from_parents(&self.populace[first], &self.populace[second]);
            match child {
                Ok(mut child) => {
                    let ghost brought_forth = child;
                    assert(bred_from(self.populace@, first as int, second as int, brought_forth));
                    let changed = random_below(100) < MUTATION_PERCENTAGE;
                    if changed {
                        child.mutate();
                    }
                    let ghost before = new_pop@;
                    new_pop.push(child);
                    proof {
                        mutated = mutated.push(changed);
                        assert forall|k: int| 0 <= k < born + 1 implies descends(
                            self.populace@,
                            parents@,
                            #[trigger] new_pop@[k],
                            mutated[k],
                        ) by {
                            if k < born {
                                assert(new_pop@[k] == before[k]);
                            }
                        }
                    }
                },
                Err(message) => {
                    assert(breeding_failed(self.populace@, first as int, second as int, message));
                    let outcome: Result<(), String> = Err(message);
                    assert(outcome matches Err(failure) && is_failed_generation(
                        old(self).populace@,
                        scores@,
                        failure,
                    ));
                    return outcome;
                },
            }
            born += 1;
        }
        self.populace = new_pop;
        proof {
            assert(is_next_generation(old(self).populace@, scores@, mutated, self.populace@));
        }
        Ok(())
    }

    /// The number of generations so far. Generations are not counted yet: the
    /// answer is always zero.
    fn generation(&self) -> (generation: usize)
        ensures
            generation == 0,
    {
        0
    }
}

} // verus!
