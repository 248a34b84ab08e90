//! The scores of a player written out one by one, and the proof that the
//! tally is their total.

use vstd::prelude::*;
use crate::ballot::Ballot;
use crate::ballot::BallotView;
use crate::score::ballot_marks;
use crate::score::ranked_marks;
use crate::score::ranked_score;
use crate::score::unranked_count;
use crate::score::unranked_marks;
use crate::score::unranked_score;
use crate::score::Marks;
use crate::stats::lemma_totals_of_concat;
use crate::stats::lemma_totals_of_same_prefix;
use crate::stats::plus;
use crate::stats::totals;
use crate::stats::ScoreEntry;
use crate::tally::ballot_weight;
use crate::tally::player_tally;
use crate::tally::Tally;

verus! {

/// The scores of `p` from the first `n` ranked positions of a ballot of
/// weight `w`.
pub open spec fn ranked_entries(vote: Seq<i32>, p: i32, w: int, n: int) -> Seq<ScoreEntry>
    decreases n,
{
    if n <= 0 {
        Seq::empty()
    } else if vote[n - 1] == p {
        ranked_entries(vote, p, w, n - 1).push(ScoreEntry { score: ranked_score(n - 1), weight: w })
    } else {
        ranked_entries(vote, p, w, n - 1)
    }
}

/// The scores of `p` as an unranked player among the first `n` offered
/// players of a ballot of weight `w` with `u` unranked players.
pub open spec fn unranked_entries(
    players: Seq<i32>,
    vote: Seq<i32>,
    p: i32,
    u: int,
    w: int,
    n: int,
) -> Seq<ScoreEntry>
    decreases n,
{
    if n <= 0 {
        Seq::empty()
    } else if players[n - 1] == p && !vote.contains(p) {
        unranked_entries(players, vote, p, u, w, n - 1).push(
            ScoreEntry { score: unranked_score(u), weight: w },
        )
    } else {
        unranked_entries(players, vote, p, u, w, n - 1)
    }
}

/// The scores that ballot `b`, of weight `w`, gives to player `p`.
pub open spec fn ballot_entries(b: BallotView, p: i32, w: int) -> Seq<ScoreEntry> {
    if b.vote.len() == 0 {
        Seq::empty()
    } else {
        ranked_entries(b.vote, p, w, b.vote.len() as int) + unranked_entries(
            b.players,
            b.vote,
            p,
            unranked_count(b.players, b.vote, b.players.len() as int),
            w,
            b.players.len() as int,
        )
    }
}

/// The scores that the counted ones of the first `n` ballots give to player
/// `p`, with weights counted in `1 / d`.
pub open spec fn player_entries(ballots: Seq<Ballot>, week: i32, p: i32, d: int, n: int) -> Seq<
    ScoreEntry,
>
    decreases n,
{
    if n <= 0 {
        Seq::empty()
    } else if !ballots[n - 1]@.counted(week) {
        player_entries(ballots, week, p, d, n - 1)
    } else {
        player_entries(ballots, week, p, d, n - 1) + ballot_entries(
            ballots[n - 1]@,
            p,
            ballot_weight(ballots, week, d, n - 1),
        )
    }
}

/// The totals of scores that all have the weight `w`.
pub open spec fn weighted(m: Marks, w: int) -> Tally {
    Tally { votos: m.count, pesos: w * m.count, notas: w * m.sum, quadrados: w * m.squares }
}

proof fn lemma_weighted_with(m: Marks, w: int, score: int)
    ensures
        weighted(m.with(score), w) == crate::stats::with_entry(
            weighted(m, w),
            ScoreEntry { score: score, weight: w },
        ),
{
    assert(w * (m.count + 1) == w * m.count + w) by (nonlinear_arith);
    assert(w * (m.sum + score) == w * m.sum + w * score) by (nonlinear_arith);
    assert(w * (m.squares + score * score) == w * m.squares + w * (score * score))
        by (nonlinear_arith);
}

proof fn lemma_totals_of_push(s: Seq<ScoreEntry>, e: ScoreEntry)
    ensures
        totals(s.push(e), s.len() as int + 1) == crate::stats::with_entry(
            totals(s, s.len() as int),
            e,
        ),
{
    lemma_totals_of_same_prefix(s.push(e), s, s.len() as int);
}

proof fn lemma_ranked_entries(vote: Seq<i32>, p: i32, w: int, n: int)
    ensures
        totals(ranked_entries(vote, p, w, n), ranked_entries(vote, p, w, n).len() as int)
            == weighted(ranked_marks(vote, p, n), w),
    decreases n,
{
    if n > 0 {
        lemma_ranked_entries(vote, p, w, n - 1);
        if vote[n - 1] == p {
            lemma_totals_of_push(
                ranked_entries(vote, p, w, n - 1),
                ScoreEntry { score: ranked_score(n - 1), weight: w },
            );
            lemma_weighted_with(ranked_marks(vote, p, n - 1), w, ranked_score(n - 1));
        }
    } else {
        assert(w * 0 == 0) by (nonlinear_arith);
    }
}

proof fn lemma_unranked_entries(players: Seq<i32>, vote: Seq<i32>, p: i32, u: int, w: int, n: int)
    ensures
        totals(
            unranked_entries(players, vote, p, u, w, n),
            unranked_entries(players, vote, p, u, w, n).len() as int,
        ) == weighted(unranked_marks(players, vote, p, u, n), w),
    decreases n,
{
    if n > 0 {
        lemma_unranked_entries(players, vote, p, u, w, n - 1);
        if players[n - 1] == p && !vote.contains(p) {
            lemma_totals_of_push(
                unranked_entries(players, vote, p, u, w, n - 1),
                ScoreEntry { score: unranked_score(u), weight: w },
            );
            lemma_weighted_with(unranked_marks(players, vote, p, u, n - 1), w, unranked_score(u));
        }
    } else {
        assert(w * 0 == 0) by (nonlinear_arith);
    }
}

/// The totals of the scores that a ballot gives are its marks, weighted.
pub proof fn lemma_ballot_entries(b: BallotView, p: i32, w: int)
    ensures
        totals(ballot_entries(b, p, w), ballot_entries(b, p, w).len() as int) == weighted(
            ballot_marks(b, p),
            w,
        ),
{
    if b.vote.len() == 0 {
        assert(w * 0 == 0) by (nonlinear_arith);
    } else {
        let u = unranked_count(b.players, b.vote, b.players.len() as int);
        let r = ranked_entries(b.vote, p, w, b.vote.len() as int);
        let s = unranked_entries(b.players, b.vote, p, u, w, b.players.len() as int);
        let rm = ranked_marks(b.vote, p, b.vote.len() as int);
        let um = unranked_marks(b.players, b.vote, p, u, b.players.len() as int);
        lemma_ranked_entries(b.vote, p, w, b.vote.len() as int);
        lemma_unranked_entries(b.players, b.vote, p, u, w, b.players.len() as int);
        lemma_totals_of_concat(r, s, s.len() as int);
        assert(w * (rm.count + um.count) == w * rm.count + w * um.count) by (nonlinear_arith);
        assert(w * (rm.sum + um.sum) == w * rm.sum + w * um.sum) by (nonlinear_arith);
        assert(w * (rm.squares + um.squares) == w * rm.squares + w * um.squares)
            by (nonlinear_arith);
    }
}

/// The tally of a player is the total of the scores that the counted
/// ballots give to the player, one by one, each with the weight of its
/// ballot.
pub proof fn tally_is_total_of_entries(ballots: Seq<Ballot>, week: i32, p: i32, d: int, n: int)
    ensures
        totals(
            player_entries(ballots, week, p, d, n),
            player_entries(ballots, week, p, d, n).len() as int,
        ) == player_tally(ballots, week, p, d, n),
    decreases n,
{
    if n > 0 {
        tally_is_total_of_entries(ballots, week, p, d, n - 1);
        if ballots[n - 1]@.counted(week) {
            let w = ballot_weight(ballots, week, d, n - 1);
            let before = player_entries(ballots, week, p, d, n - 1);
            let given = ballot_entries(ballots[n - 1]@, p, w);
            lemma_ballot_entries(ballots[n - 1]@, p, w);
            lemma_totals_of_concat(before, given, given.len() as int);
            assert(plus(totals(before, before.len() as int), totals(given, given.len() as int))
                == player_tally(ballots, week, p, d, n));
        }
    }
}

/// The spread that a ranking entry's standard deviation is read from is the
/// weighted sum of the squared distances of the player's scores from their
/// mean: with `A`, `B`, `Q` the sums of the tally, the sum over the scores
/// `s` of weight `w` of `w * (B * s - A)^2` is `B * (B * Q - A * A)`.
pub proof fn tally_spread_is_deviation(ballots: Seq<Ballot>, week: i32, p: i32, d: int, n: int)
    ensures
        ({
            let t = player_tally(ballots, week, p, d, n);
            let entries = player_entries(ballots, week, p, d, n);
            crate::stats::deviation_total(entries, t.notas, t.pesos, entries.len() as int)
                == t.pesos * (t.pesos * t.quadrados - t.notas * t.notas)
        }),
{
    let entries = player_entries(ballots, week, p, d, n);
    tally_is_total_of_entries(ballots, week, p, d, n);
    crate::stats::deviation_from_three_sums(entries, entries.len() as int);
}

} // verus!
