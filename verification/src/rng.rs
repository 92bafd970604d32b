//! The source of randomness: a thread-local generator from the `rand`
//! crate, reached through a single trusted wrapper, and the verified
//! draws built on it.

use vstd::prelude::*;
use rand::Rng;
use crate::alphabet::{alphabet_seq, alphabet_vec, in_alphabet};

verus! {

/// The `rand` crate's thread-local generator, declared so that verified
/// code can hold and pass a handle to it. Its inner state is opaque here.
#[verifier::external_type_specification]
#[verifier::external_body]
pub struct ExThreadRng(rand::rngs::ThreadRng);

/// Relies on `rand::Rng::gen_range` over the range `0..n`: it panics only
/// on an empty range, and otherwise returns a value of the range, hence
/// one below `n`. Nothing more is assumed of the draw.
#[verifier::external_body]
pub(crate) fn rand_below(rng: &mut rand::rngs::ThreadRng, n: usize) -> (r: usize)
    requires
        n >= 1,
    ensures
        r < n,
{
    rng.gen_range(0..n)
}

/// Draws one character uniformly from the alphabet.
pub fn random_char(rng: &mut rand::rngs::ThreadRng) -> (c: char)
    ensures
        in_alphabet(c),
{
    let chars = alphabet_vec();
    let i = rand_below(rng, chars.len());
    let c = chars[i];
    proof {
        assert(alphabet_seq().contains(c));
    }
    c
}

/// Builds a random sentence of the given length, each character drawn
/// independently from the alphabet.
pub fn generate_first_sentence(len: usize, rng: &mut rand::rngs::ThreadRng) -> (s: Vec<char>)
    ensures
        s@.len() == len,
        forall|i: int| 0 <= i < s@.len() ==> in_alphabet(#[trigger] s@[i]),
{
    let mut s: Vec<char> = Vec::new();
    let mut i: usize = 0;
    while i < len
        invariant
            i <= len,
            s@.len() == i,
            forall|j: int| 0 <= j < s@.len() ==> in_alphabet(#[trigger] s@[j]),
        decreases len - i,
    {
        s.push(random_char(rng));
        i = i + 1;
    }
    s
}

} // verus!
