//! Selection: children are scored, ordered by ascending fitness, and the
//! best few are retained as the next parent set.

use vstd::prelude::*;
use vstd::seq_lib::{group_to_multiset_ensures, lemma_multiset_commutative};
use vstd::multiset::group_multiset_axioms;

verus! {

broadcast use group_to_multiset_ensures, group_multiset_axioms;

/// A candidate together with its fitness against the target.
#[derive(Debug)]
pub struct Scored {
    pub score: u32,
    pub sentence: Vec<char>,
}

/// The sequence is ordered by ascending score.
pub open spec fn sorted_by_score(s: Seq<Scored>) -> bool {
    forall|i: int, j: int| 0 <= i < j < s.len() ==> s[i].score <= s[j].score
}

/// Orders scored candidates by ascending fitness. The result is a
/// permutation of the input: nothing is discarded, equal scores keep all
/// their members.
pub fn sort_by_score(v: Vec<Scored>) -> (r: Vec<Scored>)
    ensures
        r@.len() == v@.len(),
        sorted_by_score(r@),
        r@.to_multiset() == v@.to_multiset(),
{
    let mut rest = v;
    let mut out: Vec<Scored> = Vec::new();
    proof {
        assert(out@.to_multiset().add(rest@.to_multiset()) =~= v@.to_multiset());
    }
    while rest.len() > 0
        invariant
            out@.len() + rest@.len() == v@.len(),
            out@.to_multiset().add(rest@.to_multiset()) == v@.to_multiset(),
            sorted_by_score(out@),
            forall|i: int, j: int|
                0 <= i < out@.len() && 0 <= j < rest@.len() ==> (#[trigger] out@[i]).score <= (
                #[trigger] rest@[j]).score,
        decreases rest@.len(),
    {
        let mut m: usize = 0;
        let mut k: usize = 1;
        while k < rest.len()
            invariant
                0 < rest@.len(),
                m < k <= rest@.len(),
                forall|t: int| 0 <= t < k ==> rest@[m as int].score <= #[trigger] rest@[t].score,
            decreases rest@.len() - k,
        {
            if rest[k].score < rest[m].score {
                m = k;
            }
            k = k + 1;
        }
        let ghost rest_before = rest@;
        let ghost out_before = out@;
        let x = rest.remove(m);
        out.push(x);
        proof {
            assert(rest@.to_multiset() == rest_before.to_multiset().remove(x));
            assert(out@.to_multiset() == out_before.to_multiset().insert(x));
            assert(rest_before.to_multiset().count(x) > 0);
            assert(out@.to_multiset().add(rest@.to_multiset()) =~= out_before.to_multiset().add(
                rest_before.to_multiset(),
            ));
            assert(forall|j: int|
                0 <= j < rest@.len() ==> #[trigger] rest@[j] == if j < m {
                    rest_before[j]
                } else {
                    rest_before[j + 1]
                });
        }
    }
    out
}

/// Keeps the `n` best-scoring of the children as the next parent set,
/// in ascending fitness order: exactly `n` members whenever at least `n`
/// children were offered, each of them one of the children, and none of
/// the children passed over scores strictly below a retained one.
pub fn select_parents(children: Vec<Scored>, n: usize) -> (sel: Vec<Scored>)
    ensures
        sel@.len() == if n <= children@.len() {
            n as int
        } else {
            children@.len() as int
        },
        sorted_by_score(sel@),
        forall|i: int| 0 <= i < sel@.len() ==> children@.to_multiset().count(#[trigger] sel@[i])
            > 0,
        sel@.to_multiset().subset_of(children@.to_multiset()),
        forall|x: Scored|
            #[trigger] children@.to_multiset().count(x) > sel@.to_multiset().count(x)
                ==> forall|i: int| 0 <= i < sel@.len() ==> (#[trigger] sel@[i]).score <= x.score,
{
    let sorted = sort_by_score(children);
    let ghost whole = sorted@;
    let ghost children_seq = children@;
    let mut sel = sorted;
    if n < sel.len() {
        sel.truncate(n);
    }
    proof {
        let cut = sel@.len() as int;
        assert(sel@ =~= whole.take(cut));
        let kept = whole.take(cut);
        let dropped = whole.skip(cut);
        assert(whole =~= kept + dropped);
        lemma_multiset_commutative(kept, dropped);
        let children_ms = children_seq.to_multiset();
        assert(children_ms == kept.to_multiset().add(dropped.to_multiset()));
        assert forall|i: int| 0 <= i < sel@.len() implies children_ms.count(#[trigger] sel@[i])
            > 0 by {
            assert(kept.contains(kept[i]));
            assert(kept.to_multiset().count(kept[i]) > 0);
        }
        assert forall|x: Scored|
            #[trigger] children_ms.count(x) > sel@.to_multiset().count(x) implies forall|i: int|
            0 <= i < sel@.len() ==> (#[trigger] sel@[i]).score <= x.score by {
            assert(dropped.to_multiset().count(x) > 0);
            assert(dropped.contains(x));
            let j = choose|j: int| 0 <= j < dropped.len() && dropped[j] == x;
            assert(whole[cut + j] == x);
            assert forall|i: int| 0 <= i < sel@.len() implies (#[trigger] sel@[i]).score
                <= x.score by {
                assert(whole[i] == sel@[i]);
                assert(sorted_by_score(whole));
            }
        }
    }
    sel
}

} // verus!
