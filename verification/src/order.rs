//! Putting ranking entries in order.

use vstd::prelude::*;
use std::cmp::Ordering;
use crate::ranking::is_rearranged;
use crate::ranking::is_sorted;
use crate::ranking::ranks_before;
use crate::ranking::RankingEntry;
use crate::cross::cross_product;

verus! {

/// Whether `a` stands before `b` in a ranking.
pub fn ranks_before_of(a: &RankingEntry, b: &RankingEntry) -> (r: bool)
    ensures
        r == ranks_before(a@, b@),
{
    let left: i128 = cross_product(a.soma_notas, b.soma_pesos);
    let right: i128 = cross_product(b.soma_notas, a.soma_pesos);
    left > right || (left == right && a.id < b.id)
}

/// The order of `a` and `b` in a ranking: `Less` when `a` stands before
/// `b`, `Greater` when `b` stands before `a`.
pub fn media_order(a: &RankingEntry, b: &RankingEntry) -> (o: Ordering)
    ensures
        o == Ordering::Less <==> ranks_before(a@, b@),
        o == Ordering::Greater <==> ranks_before(b@, a@),
{
    if ranks_before_of(a, b) {
        Ordering::Less
    } else if ranks_before_of(b, a) {
        Ordering::Greater
    } else {
        Ordering::Equal
    }
}

/// Calls `itertools::Itertools::sorted_by` with `media_order`, which sorts
/// with the stable `slice::sort_by`. The contract claims that the result
/// holds the same entries, each once, and that none of them stands after an
/// entry that it should stand before. The entries have positive weight sums:
/// there `media_order` compares fractions and is a total order up to ties.
#[verifier::external_body]
pub(crate) fn sort_entries(v: Vec<RankingEntry>) -> (r: Vec<RankingEntry>)
    requires
        forall|k: int| 0 <= k < v@.len() ==> (#[trigger] v@[k]).soma_pesos > 0,
    ensures
        r@.len() == v@.len(),
        is_sorted(r@),
        exists|perm: Seq<int>| is_rearranged(perm, v@, r@),
{
    itertools::Itertools::sorted_by(v.into_iter(), |a, b| media_order(a, b)).collect()
}

} // verus!
