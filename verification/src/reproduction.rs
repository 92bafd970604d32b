//! The recombination engine: a child is built by picking two parents at
//! random (possibly the same one) and, position by position, taking the
//! character of one of the two.

use vstd::prelude::*;
use crate::rng::rand_below;

verus! {

/// `c` is a blend of `a` and `b`: same length, and at every position the
/// character of one of the two.
pub open spec fn blend_of(c: Seq<char>, a: Seq<char>, b: Seq<char>) -> bool {
    &&& c.len() == a.len()
    &&& c.len() == b.len()
    &&& forall|i: int| 0 <= i < c.len() ==> c[i] == a[i] || c[i] == b[i]
}

/// A source of children: it holds the current parent set and hands out
/// one recombined child per draw.
pub struct Children {
    pub parents: Vec<Vec<char>>,
}

impl Children {
    /// The parent set is well-formed: nonempty, all parents of one length.
    pub open spec fn wf(self) -> bool {
        &&& self.parents@.len() >= 1
        &&& forall|p: int| 0 <= p < self.parents@.len() ==> (#[trigger] self.parents@[p])@.len()
            == self.sentence_len()
    }

    /// The common length of the parents, hence of every child.
    pub open spec fn sentence_len(self) -> nat {
        self.parents@[0]@.len()
    }

    /// Produces one child: two parent indices are drawn uniformly at
    /// random with replacement, and each character position is filled,
    /// by an independent fair draw, from one of the two chosen parents.
    pub fn next_child(&self, rng: &mut rand::rngs::ThreadRng) -> (c: Vec<char>)
        requires
            self.wf(),
        ensures
            c@.len() == self.sentence_len(),
            exists|p: int, q: int|
                0 <= p < self.parents@.len() && 0 <= q < self.parents@.len() && blend_of(
                    c@,
                    (#[trigger] self.parents@[p])@,
                    (#[trigger] self.parents@[q])@,
                ),
    {
        let p = rand_below(rng, self.parents.len());
        let q = rand_below(rng, self.parents.len());
        let parent1 = &self.parents[p];
        let parent2 = &self.parents[q];
        let mut c: Vec<char> = Vec::new();
        let mut i: usize = 0;
        while i < parent1.len()
            invariant
                i <= parent1@.len(),
                c@.len() == i,
                parent1@.len() == parent2@.len(),
                forall|j: int| 0 <= j < c@.len() ==> c@[j] == parent1@[j] || c@[j] == parent2@[j],
            decreases parent1@.len() - i,
        {
            if rand_below(rng, 2) == 0 {
                c.push(parent1[i]);
            } else {
                c.push(parent2[i]);
            }
            i = i + 1;
        }
        proof {
            assert(blend_of(c@, self.parents@[p as int]@, self.parents@[q as int]@));
        }
        c
    }
}

/// Wraps the current parent set as a source of children. Each child is
/// produced by picking two random parents (possibly the same parent)
/// and grabbing material from either.
pub fn generate_children(parents: Vec<Vec<char>>) -> (r: Children)
    ensures
        r.parents == parents,
{
    Children { parents }
}

} // verus!
