//! Why three sums are enough. For scores `s` with weights `w`, write `B`
//! for the sum of the `w`, `A` for the sum of the `w * s` and `Q` for the
//! sum of the `w * s * s`. The weighted mean is `A / B`, and the weighted
//! sum of the squared distances from the mean is `(B * Q - A * A) / B`: this
//! module proves that identity, cleared of fractions.

use vstd::prelude::*;
use crate::tally::Tally;

verus! {

/// One score that a player received, in eighths of a point, with the weight
/// of the ballot that gave it.
pub struct ScoreEntry {
    pub score: int,
    pub weight: int,
}

/// The totals with one more score.
pub open spec fn with_entry(t: Tally, e: ScoreEntry) -> Tally {
    Tally {
        votos: t.votos + 1,
        pesos: t.pesos + e.weight,
        notas: t.notas + e.weight * e.score,
        quadrados: t.quadrados + e.weight * (e.score * e.score),
    }
}

/// The number of the first `n` scores, and the sums of their weights, of
/// their weighted scores and of the weighted squares of their scores.
pub open spec fn totals(entries: Seq<ScoreEntry>, n: int) -> Tally
    decreases n,
{
    if n <= 0 {
        Tally { votos: 0, pesos: 0, notas: 0, quadrados: 0 }
    } else {
        with_entry(totals(entries, n - 1), entries[n - 1])
    }
}

/// The weighted sum of the squares of `b * s - a` over the first `n`
/// scores. With `a / b` the mean, this is `b * b` times the weighted sum of
/// the squared distances from the mean.
pub open spec fn deviation_total(entries: Seq<ScoreEntry>, a: int, b: int, n: int) -> int
    decreases n,
{
    if n <= 0 {
        0
    } else {
        deviation_total(entries, a, b, n - 1) + entries[n - 1].weight * ((b * entries[n - 1].score
            - a) * (b * entries[n - 1].score - a))
    }
}

proof fn lemma_deviation_expands(entries: Seq<ScoreEntry>, a: int, b: int, n: int)
    ensures
        deviation_total(entries, a, b, n) == (b * b) * totals(entries, n).quadrados - (2 * a * b)
            * totals(entries, n).notas + (a * a) * totals(entries, n).pesos,
    decreases n,
{
    if n > 0 {
        lemma_deviation_expands(entries, a, b, n - 1);
        let x = entries[n - 1].weight;
        let y = entries[n - 1].score;
        let q0 = totals(entries, n - 1).quadrados;
        let a0 = totals(entries, n - 1).notas;
        let b0 = totals(entries, n - 1).pesos;
        let by = b * y;
        let d = by - a;
        assert(d * d == by * by - 2 * a * by + a * a) by (nonlinear_arith)
            requires
                d == by - a,
        ;
        assert(by * by == (b * b) * (y * y)) by (nonlinear_arith)
            requires
                by == b * y,
        ;
        assert(x * (d * d) == x * (by * by) - x * (2 * a * by) + x * (a * a))
            by (nonlinear_arith)
            requires
                d * d == by * by - 2 * a * by + a * a,
        ;
        assert(x * (by * by) == (b * b) * (x * (y * y))) by (nonlinear_arith)
            requires
                by * by == (b * b) * (y * y),
        ;
        assert(x * (2 * a * by) == (2 * a * b) * (x * y)) by (nonlinear_arith)
            requires
                by == b * y,
        ;
        assert(x * (a * a) == (a * a) * x) by (nonlinear_arith);
        assert((b * b) * (q0 + x * (y * y)) == (b * b) * q0 + (b * b) * (x * (y * y)))
            by (nonlinear_arith);
        assert((2 * a * b) * (a0 + x * y) == (2 * a * b) * a0 + (2 * a * b) * (x * y))
            by (nonlinear_arith);
        assert((a * a) * (b0 + x) == (a * a) * b0 + (a * a) * x) by (nonlinear_arith);
        assert(totals(entries, n) == with_entry(totals(entries, n - 1), entries[n - 1]));
        assert(deviation_total(entries, a, b, n) == deviation_total(entries, a, b, n - 1) + x * (d
            * d));
    } else {
        assert((b * b) * 0 - (2 * a * b) * 0 + (a * a) * 0 == 0) by (nonlinear_arith);
    }
}

/// The weighted squared distances from the mean, from the three sums: with
/// `A`, `B` and `Q` the sums over the first `n` scores, the sum of the `w *
/// (B * s - A)^2` is `B * (B * Q - A * A)`.
pub proof fn deviation_from_three_sums(entries: Seq<ScoreEntry>, n: int)
    ensures
        deviation_total(entries, totals(entries, n).notas, totals(entries, n).pesos, n) == totals(
            entries,
            n,
        ).pesos * (totals(entries, n).pesos * totals(entries, n).quadrados - totals(
            entries,
            n,
        ).notas * totals(entries, n).notas),
{
    let a = totals(entries, n).notas;
    let b = totals(entries, n).pesos;
    let q = totals(entries, n).quadrados;
    lemma_deviation_expands(entries, a, b, n);
    assert((b * b) * q - (2 * a * b) * a + (a * a) * b == b * (b * q - a * a))
        by (nonlinear_arith);
}

/// Two lists that agree on their first `n` scores have the same totals
/// there.
pub proof fn lemma_totals_of_same_prefix(a: Seq<ScoreEntry>, b: Seq<ScoreEntry>, n: int)
    requires
        n <= a.len(),
        n <= b.len(),
        forall|k: int| 0 <= k < n ==> a[k] == b[k],
    ensures
        totals(a, n) == totals(b, n),
    decreases n,
{
    if n > 0 {
        lemma_totals_of_same_prefix(a, b, n - 1);
    }
}

/// The totals of two lists, added.
pub open spec fn plus(s: Tally, t: Tally) -> Tally {
    Tally {
        votos: s.votos + t.votos,
        pesos: s.pesos + t.pesos,
        notas: s.notas + t.notas,
        quadrados: s.quadrados + t.quadrados,
    }
}

/// The totals of one list after another are the sums of their totals.
pub proof fn lemma_totals_of_concat(a: Seq<ScoreEntry>, b: Seq<ScoreEntry>, k: int)
    requires
        0 <= k <= b.len(),
    ensures
        totals(a + b, a.len() as int + k) == plus(totals(a, a.len() as int), totals(b, k)),
    decreases k,
{
    if k > 0 {
        lemma_totals_of_concat(a, b, k - 1);
        assert((a + b)[a.len() + k - 1] == b[k - 1]);
    } else {
        lemma_totals_of_same_prefix(a + b, a, a.len() as int);
    }
}

} // verus!
