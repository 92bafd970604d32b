//! The generational loop: validate the target once, seed a random parent
//! set, then repeatedly breed, mutate, score and select until the target
//! is matched.

use vstd::prelude::*;
use vstd::seq_lib::group_to_multiset_ensures;
use crate::alphabet::{char_in_alphabet, in_alphabet};
use crate::error::SearchError;
use crate::fitness::{fitness, hamming, lemma_fitness_bounded, lemma_fitness_zero_iff_equal};
use crate::mutation::{mutate, MutationRate};
use crate::reproduction::generate_children;
use crate::rng::generate_first_sentence;
use crate::selection::{select_parents, sorted_by_score, Scored};

verus! {

broadcast use group_to_multiset_ensures;

/// Every character of the sequence is permissible.
pub open spec fn all_in_alphabet(s: Seq<char>) -> bool {
    forall|i: int| 0 <= i < s.len() ==> in_alphabet(#[trigger] s[i])
}

/// Checks the target once at startup. It is accepted exactly when every
/// character is in the alphabet; otherwise the first offending character
/// is reported.
pub fn validate_target(target: &Vec<char>) -> (r: Result<(), SearchError>)
    ensures
        r is Ok <==> all_in_alphabet(target@),
        r is Err ==> exists|i: int|
            0 <= i < target@.len() && !in_alphabet(#[trigger] target@[i]) && r == Err::<
                (),
                SearchError,
            >(SearchError::InvalidCharacter(target@[i])) && (forall|j: int|
                0 <= j < i ==> in_alphabet(#[trigger] target@[j])),
{
    let mut i: usize = 0;
    while i < target.len()
        invariant
            i <= target@.len(),
            forall|j: int| 0 <= j < i ==> in_alphabet(#[trigger] target@[j]),
        decreases target@.len() - i,
    {
        if !char_in_alphabet(target[i]) {
            return Err(SearchError::InvalidCharacter(target[i]));
        }
        i = i + 1;
    }
    Ok(())
}

/// A copy of a sentence, character for character.
fn clone_sentence(s: &Vec<char>) -> (r: Vec<char>)
    ensures
        r@ == s@,
{
    let r = s.clone();
    proof {
        assert(r@ =~= s@);
    }
    r
}

/// Runs one generation: breeds `nb_copy` children from the current
/// parents by recombination and mutation, scores each against the
/// target, and returns the `num_parents` best in ascending fitness
/// order, each carrying its true fitness.
pub fn run_generation(
    target: &Vec<char>,
    parents: Vec<Vec<char>>,
    rate: MutationRate,
    nb_copy: usize,
    num_parents: usize,
    rng: &mut rand::rngs::ThreadRng,
) -> (next: Vec<Scored>)
    requires
        target@.len() <= u32::MAX,
        rate.valid(),
        1 <= nb_copy,
        1 <= num_parents,
        parents@.len() >= 1,
        forall|p: int| 0 <= p < parents@.len() ==> (#[trigger] parents@[p])@.len()
            == target@.len(),
    ensures
        next@.len() == if num_parents <= nb_copy {
            num_parents as int
        } else {
            nb_copy as int
        },
        sorted_by_score(next@),
        forall|i: int|
            0 <= i < next@.len() ==> (#[trigger] next@[i]).sentence@.len() == target@.len()
                && next@[i].score == hamming(target@, next@[i].sentence@),
{
    let source = generate_children(parents);
    let mut batch: Vec<Scored> = Vec::new();
    let mut i: usize = 0;
    while i < nb_copy
        invariant
            i <= nb_copy,
            batch@.len() == i,
            source.wf(),
            source.sentence_len() == target@.len(),
            target@.len() <= u32::MAX,
            rate.valid(),
            forall|t: int|
                0 <= t < batch@.len() ==> (#[trigger] batch@[t]).sentence@.len() == target@.len()
                    && batch@[t].score == hamming(target@, batch@[t].sentence@),
        decreases nb_copy - i,
    {
        let child = source.next_child(rng);
        let child = mutate(&child, rate, rng);
        let score = fitness(target, &child);
        batch.push(Scored { score, sentence: child });
        i = i + 1;
    }
    let ghost batch_seq = batch@;
    let next = select_parents(batch, num_parents);
    proof {
        assert forall|t: int|
            0 <= t < next@.len() implies (#[trigger] next@[t]).sentence@.len() == target@.len()
            && next@[t].score == hamming(target@, next@[t].sentence@) by {
            assert(batch_seq.to_multiset().count(next@[t]) > 0);
            assert(batch_seq.contains(next@[t]));
            let j = choose|j: int| 0 <= j < batch_seq.len() && batch_seq[j] == next@[t];
            assert(batch_seq[j].sentence@.len() == target@.len());
        }
    }
    next
}

/// One emitted progress observation: a new best candidate and the
/// generation at which it was found.
#[derive(Debug)]
pub struct Progress {
    pub sentence: Vec<char>,
    pub generation: u64,
}

/// The outcome of a run: the best candidate known at the end, its
/// fitness, the number of generations executed, and the progress trail.
#[derive(Debug)]
pub struct RunResult {
    pub best: Vec<char>,
    pub best_fitness: u32,
    pub generations: u64,
    pub progress: Vec<Progress>,
}

/// Runs the evolutionary search. The target is validated first: a
/// character outside the alphabet aborts the run. Otherwise the loop
/// breeds, scores and selects until the best fitness reaches zero — an
/// exact match of the target — or `max_generations` generations have
/// been executed. The progress trail starts with the best initial
/// candidate and gains one entry for each strict improvement; its last
/// entry is always the final best candidate.
pub fn run(
    target: &Vec<char>,
    rate: MutationRate,
    nb_copy: usize,
    num_parents: usize,
    max_generations: u64,
    rng: &mut rand::rngs::ThreadRng,
) -> (r: Result<RunResult, SearchError>)
    requires
        target@.len() <= u32::MAX,
        rate.valid(),
        1 <= nb_copy,
        1 <= num_parents,
    ensures
        r is Ok <==> all_in_alphabet(target@),
        r is Err ==> exists|i: int|
            0 <= i < target@.len() && !in_alphabet(#[trigger] target@[i]) && r == Err::<
                RunResult,
                SearchError,
            >(SearchError::InvalidCharacter(target@[i])) && (forall|j: int|
                0 <= j < i ==> in_alphabet(#[trigger] target@[j])),
        r is Ok ==> ({
            let res = r->Ok_0;
            &&& res.best@.len() == target@.len()
            &&& res.best_fitness == hamming(target@, res.best@)
            &&& (res.best_fitness == 0 <==> res.best@ == target@)
            &&& res.generations <= max_generations
            &&& (res.best_fitness == 0 || res.generations == max_generations)
            &&& (target@.len() == 0 ==> res.generations == 0 && res.best_fitness == 0)
            &&& res.progress@.len() >= 1
            &&& (forall|t: int|
                0 <= t < res.progress@.len() ==> (#[trigger] res.progress@[t]).sentence@.len()
                    == target@.len() && res.progress@[t].generation <= res.generations)
            &&& (forall|t1: int, t2: int|
                0 <= t1 < t2 < res.progress@.len() ==> hamming(
                    target@,
                    (#[trigger] res.progress@[t1]).sentence@,
                ) > hamming(target@, (#[trigger] res.progress@[t2]).sentence@))
            &&& res.progress@.last().sentence@ == res.best@
        }),
{
    match validate_target(target) {
        Err(e) => {
            return Err(e);
        },
        Ok(()) => {},
    }

    let len = target.len();
    let mut parents: Vec<Vec<char>> = Vec::new();
    let mut i: usize = 0;
    while i < num_parents
        invariant
            i <= num_parents,
            parents@.len() == i,
            forall|p: int| 0 <= p < parents@.len() ==> (#[trigger] parents@[p])@.len()
                == target@.len(),
            len == target@.len(),
        decreases num_parents - i,
    {
        parents.push(generate_first_sentence(len, rng));
        i = i + 1;
    }

    let mut best: Vec<char> = clone_sentence(&parents[0]);
    let mut f_min: u32 = fitness(target, &best);
    proof {
        lemma_fitness_bounded(target@, best@);
    }
    let mut j: usize = 1;
    while j < parents.len()
        invariant
            1 <= j <= parents@.len(),
            target@.len() <= u32::MAX,
            forall|p: int| 0 <= p < parents@.len() ==> (#[trigger] parents@[p])@.len()
                == target@.len(),
            best@.len() == target@.len(),
            f_min == hamming(target@, best@),
            f_min <= target@.len(),
        decreases parents@.len() - j,
    {
        let f = fitness(target, &parents[j]);
        if f < f_min {
            best = clone_sentence(&parents[j]);
            f_min = f;
            proof {
                lemma_fitness_bounded(target@, best@);
            }
        }
        j = j + 1;
    }

    let mut progress: Vec<Progress> = Vec::new();
    progress.push(Progress { sentence: clone_sentence(&best), generation: 0 });

    let mut generation: u64 = 0;
    while f_min != 0 && generation < max_generations
        invariant
            target@.len() <= u32::MAX,
            rate.valid(),
            1 <= nb_copy,
            1 <= num_parents,
            parents@.len() >= 1,
            forall|p: int| 0 <= p < parents@.len() ==> (#[trigger] parents@[p])@.len()
                == target@.len(),
            best@.len() == target@.len(),
            f_min == hamming(target@, best@),
            f_min <= target@.len(),
            generation <= max_generations,
            target@.len() == 0 ==> generation == 0,
            progress@.len() >= 1,
            forall|t: int|
                0 <= t < progress@.len() ==> (#[trigger] progress@[t]).sentence@.len()
                    == target@.len() && progress@[t].generation <= generation,
            forall|t1: int, t2: int|
                0 <= t1 < t2 < progress@.len() ==> hamming(
                    target@,
                    (#[trigger] progress@[t1]).sentence@,
                ) > hamming(target@, (#[trigger] progress@[t2]).sentence@),
            progress@.last().sentence@ == best@,
        decreases max_generations - generation,
    {
        generation = generation + 1;
        let next = run_generation(target, parents, rate, nb_copy, num_parents, rng);
        if next[0].score < f_min {
            f_min = next[0].score;
            best = clone_sentence(&next[0].sentence);
            progress.push(Progress { sentence: clone_sentence(&best), generation });
            proof {
                lemma_fitness_bounded(target@, best@);
            }
        }
        let mut new_parents: Vec<Vec<char>> = Vec::new();
        let mut k: usize = 0;
        while k < next.len()
            invariant
                k <= next@.len(),
                new_parents@.len() == k,
                forall|t: int|
                    0 <= t < next@.len() ==> (#[trigger] next@[t]).sentence@.len()
                        == target@.len(),
                forall|p: int| 0 <= p < new_parents@.len() ==> (#[trigger] new_parents@[p])@.len()
                    == target@.len(),
            decreases next@.len() - k,
        {
            new_parents.push(clone_sentence(&next[k].sentence));
            k = k + 1;
        }
        parents = new_parents;
    }

    proof {
        lemma_fitness_zero_iff_equal(target@, best@);
    }
    Ok(RunResult { best, best_fitness: f_min, generations: generation, progress })
}

} // verus!
