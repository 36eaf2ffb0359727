//! The indexed-mesh side of geometry import that needs no arithmetic on
//! coordinates: an index buffer describes one triangle per three consecutive
//! entries, and an incomplete trailing group is dropped.

use vstd::arithmetic::div_mod::{lemma_fundamental_div_mod, lemma_fundamental_div_mod_converse};
use vstd::arithmetic::mul::{lemma_mul_is_commutative, lemma_mul_is_distributive_add_other_way};
use vstd::prelude::*;

verus! {

/// Groups a flat buffer into consecutive triples, in order; entries past the
/// last whole triple are dropped.
pub fn group_triples<T: Copy>(items: &Vec<T>) -> (triples: Vec<(T, T, T)>)
    ensures
        triples@.len() == items@.len() / 3,
        forall|i: int|
            0 <= i < triples@.len() ==> #[trigger] triples@[i] == (
                items@[3 * i],
                items@[3 * i + 1],
                items@[3 * i + 2],
            ),
{
    let mut triples: Vec<(T, T, T)> = Vec::new();
    proof {
        lemma_fundamental_div_mod_converse(0, 3, 0, 0);
    }
    let mut taken: usize = 0;
    while items.len() - taken >= 3
        invariant
            taken % 3 == 0,
            taken <= items@.len(),
            triples@.len() == taken as int / 3,
            forall|i: int|
                0 <= i < triples@.len() ==> #[trigger] triples@[i] == (
                    items@[3 * i],
                    items@[3 * i + 1],
                    items@[3 * i + 2],
                ),
        decreases items@.len() - taken,
    {
        proof {
            lemma_fundamental_div_mod(taken as int, 3);
            let quotient = taken as int / 3;
            lemma_mul_is_commutative(3, quotient);
            lemma_mul_is_distributive_add_other_way(3, quotient, 1);
            lemma_fundamental_div_mod_converse(taken as int + 3, 3, quotient + 1, 0);
        }
        triples.push((items[taken], items[taken + 1], items[taken + 2]));
        taken = taken + 3;
    }
    proof {
        lemma_fundamental_div_mod(taken as int, 3);
        lemma_fundamental_div_mod_converse(
            items@.len() as int,
            3,
            taken as int / 3,
            items@.len() - taken,
        );
    }
    triples
}

} // verus!
