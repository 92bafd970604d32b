//! The mutation engine: each position of a candidate is, with the given
//! rate, redrawn from the alphabet, and otherwise copied unchanged.

use vstd::prelude::*;
use crate::alphabet::in_alphabet;
use crate::rng::{rand_below, random_char};

verus! {

/// A per-character mutation probability, held as the rational
/// `num / den` so that the engine stays in integer arithmetic.
/// `num == 0` is rate zero; `num == den` is rate one.
#[derive(Clone, Copy, Debug)]
pub struct MutationRate {
    pub num: usize,
    pub den: usize,
}

impl MutationRate {
    /// A rate is valid when its denominator is positive and it does not
    /// exceed one.
    pub open spec fn valid(self) -> bool {
        1 <= self.den && self.num <= self.den
    }

    pub fn new(num: usize, den: usize) -> (r: MutationRate)
        requires
            1 <= den,
            num <= den,
        ensures
            r.valid(),
            r.num == num,
            r.den == den,
    {
        MutationRate { num, den }
    }
}

/// Produces a mutated copy of a candidate: independently for each
/// position, with probability `rate` the output character is freshly
/// drawn from the alphabet, and otherwise the original character is
/// kept. Rate zero is the identity; at rate one every position is a
/// fresh alphabet draw.
pub fn mutate(original: &Vec<char>, rate: MutationRate, rng: &mut rand::rngs::ThreadRng) -> (r:
    Vec<char>)
    requires
        rate.valid(),
    ensures
        r@.len() == original@.len(),
        forall|i: int|
            0 <= i < r@.len() ==> r@[i] == original@[i] || in_alphabet(#[trigger] r@[i]),
        rate.num == 0 ==> r@ == original@,
        rate.num == rate.den ==> forall|i: int| 0 <= i < r@.len() ==> in_alphabet(
            #[trigger] r@[i],
        ),
{
    let mut out: Vec<char> = Vec::new();
    let mut i: usize = 0;
    while i < original.len()
        invariant
            i <= original@.len(),
            out@.len() == i,
            rate.valid(),
            forall|j: int|
                0 <= j < out@.len() ==> out@[j] == original@[j] || in_alphabet(#[trigger] out@[j]),
            rate.num == 0 ==> out@ =~= original@.take(i as int),
            rate.num == rate.den ==> forall|j: int| 0 <= j < out@.len() ==> in_alphabet(
                #[trigger] out@[j],
            ),
        decreases original@.len() - i,
    {
        let draw = rand_below(rng, rate.den);
        if draw < rate.num {
            out.push(random_char(rng));
        } else {
            out.push(original[i]);
        }
        i = i + 1;
    }
    proof {
        if rate.num == 0 {
            assert(out@ =~= original@);
        }
    }
    out
}

} // verus!
