//! The fixed alphabet of permissible characters: the 26 uppercase
//! letters and the space.

use vstd::prelude::*;

verus! {

/// The alphabet as a mathematical sequence: `'A'..='Z'` followed by `' '`.
pub open spec fn alphabet_seq() -> Seq<char> {
    seq![
        'A', 'B', 'C', 'D', 'E', 'F', 'G', 'H', 'I',
        'J', 'K', 'L', 'M', 'N', 'O', 'P', 'Q', 'R',
        'S', 'T', 'U', 'V', 'W', 'X', 'Y', 'Z', ' ',
    ]
}

/// A character is permissible when it occurs in the alphabet.
pub open spec fn in_alphabet(c: char) -> bool {
    alphabet_seq().contains(c)
}

/// The alphabet as an executable vector, in its canonical order.
pub fn alphabet_vec() -> (v: Vec<char>)
    ensures
        v@ == alphabet_seq(),
{
    let v: Vec<char> = vec![
        'A', 'B', 'C', 'D', 'E', 'F', 'G', 'H', 'I',
        'J', 'K', 'L', 'M', 'N', 'O', 'P', 'Q', 'R',
        'S', 'T', 'U', 'V', 'W', 'X', 'Y', 'Z', ' ',
    ];
    proof {
        assert(v@ =~= alphabet_seq());
    }
    v
}

/// Decides whether a character is permissible.
pub fn char_in_alphabet(c: char) -> (b: bool)
    ensures
        b == in_alphabet(c),
{
    let chars = alphabet_vec();
    let mut i: usize = 0;
    while i < chars.len()
        invariant
            i <= chars@.len(),
            chars@ == alphabet_seq(),
            forall|j: int| 0 <= j < i ==> alphabet_seq()[j] != c,
        decreases chars@.len() - i,
    {
        if chars[i] == c {
            proof {
                assert(alphabet_seq()[i as int] == c);
            }
            return true;
        }
        i = i + 1;
    }
    false
}

} // verus!
