//! The fitness evaluator: the number of positions at which a candidate
//! differs from the target, together with its basic laws.

use vstd::prelude::*;
use crate::error::SearchError;

verus! {

/// The Hamming distance of two equal-length sequences: the count of the
/// positions at which they differ.
pub open spec fn hamming(a: Seq<char>, b: Seq<char>) -> nat
    recommends
        a.len() == b.len(),
    decreases a.len(),
{
    if a.len() == 0 || b.len() == 0 {
        0
    } else {
        hamming(a.drop_last(), b.drop_last()) + (if a.last() == b.last() {
            0nat
        } else {
            1nat
        })
    }
}

proof fn lemma_hamming_step(a: Seq<char>, b: Seq<char>, i: int)
    requires
        a.len() == b.len(),
        0 <= i < a.len(),
    ensures
        hamming(a.take(i + 1), b.take(i + 1)) == hamming(a.take(i), b.take(i)) + (if a[i] == b[i] {
            0nat
        } else {
            1nat
        }),
{
    assert(a.take(i + 1).drop_last() =~= a.take(i));
    assert(b.take(i + 1).drop_last() =~= b.take(i));
    assert(a.take(i + 1).last() == a[i]);
    assert(b.take(i + 1).last() == b[i]);
}

/// Fitness is symmetric: the two sequences can be swapped.
pub proof fn lemma_fitness_symmetric(a: Seq<char>, b: Seq<char>)
    requires
        a.len() == b.len(),
    ensures
        hamming(a, b) == hamming(b, a),
    decreases a.len(),
{
    if a.len() > 0 {
        lemma_fitness_symmetric(a.drop_last(), b.drop_last());
    }
}

/// Fitness is zero exactly when the two sequences are identical.
pub proof fn lemma_fitness_zero_iff_equal(a: Seq<char>, b: Seq<char>)
    requires
        a.len() == b.len(),
    ensures
        hamming(a, b) == 0 <==> a == b,
    decreases a.len(),
{
    if a.len() == 0 {
        assert(a =~= b);
    } else {
        lemma_fitness_zero_iff_equal(a.drop_last(), b.drop_last());
        if hamming(a, b) == 0 {
            assert(a.drop_last() == b.drop_last());
            assert(a =~= b) by {
                assert(forall|i: int| 0 <= i < a.len() - 1 ==> a[i] == a.drop_last()[i]);
            }
        }
        if a == b {
            assert(a.drop_last() =~= b.drop_last());
        }
    }
}

/// Fitness never exceeds the length of the sequences.
pub proof fn lemma_fitness_bounded(a: Seq<char>, b: Seq<char>)
    requires
        a.len() == b.len(),
    ensures
        hamming(a, b) <= a.len(),
    decreases a.len(),
{
    if a.len() > 0 {
        lemma_fitness_bounded(a.drop_last(), b.drop_last());
    }
}

/// Computes the fitness of a candidate against the target: the number of
/// positions at which the two differ. Zero means an exact match.
pub fn fitness(target: &Vec<char>, attempt: &Vec<char>) -> (r: u32)
    requires
        target@.len() == attempt@.len(),
        target@.len() <= u32::MAX,
    ensures
        r == hamming(target@, attempt@),
{
    let mut sum: u32 = 0;
    let mut i: usize = 0;
    proof {
        assert(target@.take(0) =~= Seq::<char>::empty());
        assert(attempt@.take(0) =~= Seq::<char>::empty());
    }
    while i < target.len()
        invariant
            i <= target@.len(),
            target@.len() == attempt@.len(),
            target@.len() <= u32::MAX,
            sum <= i,
            sum == hamming(target@.take(i as int), attempt@.take(i as int)),
        decreases target@.len() - i,
    {
        proof {
            lemma_hamming_step(target@, attempt@, i as int);
        }
        if target[i] != attempt[i] {
            sum = sum + 1;
        }
        i = i + 1;
    }
    proof {
        assert(target@.take(target@.len() as int) =~= target@);
        assert(attempt@.take(attempt@.len() as int) =~= attempt@);
    }
    sum
}

/// The defensive form of `fitness`: a length mismatch between candidate
/// and target cannot arise in this library, but if a caller ever hands
/// one in, it is reported as an internal invariant violation rather than
/// silently truncated.
pub fn fitness_checked(target: &Vec<char>, attempt: &Vec<char>) -> (r: Result<u32, SearchError>)
    requires
        target@.len() <= u32::MAX,
    ensures
        target@.len() == attempt@.len() ==> r == Ok::<u32, SearchError>(
            hamming(target@, attempt@) as u32,
        ),
        target@.len() != attempt@.len() ==> r == Err::<u32, SearchError>(
            SearchError::InternalInvariantViolation,
        ),
{
    if target.len() != attempt.len() {
        Err(SearchError::InternalInvariantViolation)
    } else {
        proof {
            lemma_fitness_bounded(target@, attempt@);
        }
        Ok(fitness(target, attempt))
    }
}

} // verus!
