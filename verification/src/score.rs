//! What one ballot gives to one player. Scores are counted in eighths of a
//! point, so that both formulas give whole numbers: a ranked player at
//! position `i` (from 0) gets `(K - i) / K` with `K = 4`, and every offered
//! player left unranked gets `(u - 1) / (2 K)`, where `u` is the number of
//! players left unranked on that ballot. A ballot with an empty vote, one
//! that was closed without ever being submitted, gives no score to anyone.

use vstd::prelude::*;
use crate::ballot::Ballot;
use crate::ballot::BallotView;
use crate::ballot::contains_player;

verus! {

/// The number of ranked slots of a ballot, `K`.
pub const NUMBER_OF_PLAYERS_IN_VOTE: i64 = 4;

/// Scores are whole numbers of `1 / SCORE_UNITS` points.
pub const SCORE_UNITS: i64 = 8;

/// The longest list of players, offered or ranked, that a tally works with.
pub const MAX_BALLOT_PLAYERS: usize = 1000;

/// Score of the player at ranked position `i`, in eighths.
pub open spec fn ranked_score(i: int) -> int {
    2 * (NUMBER_OF_PLAYERS_IN_VOTE - i)
}

/// Score of each unranked player on a ballot with `u` unranked players, in
/// eighths.
pub open spec fn unranked_score(u: int) -> int {
    u - 1
}

/// The scores that a player has from one ballot: how many, their sum and the
/// sum of their squares.
pub struct Marks {
    pub count: int,
    pub sum: int,
    pub squares: int,
}

impl Marks {
    /// No score.
    pub open spec fn none() -> Marks {
        Marks { count: 0, sum: 0, squares: 0 }
    }

    /// These scores and one more.
    pub open spec fn with(self, score: int) -> Marks {
        Marks {
            count: self.count + 1,
            sum: self.sum + score,
            squares: self.squares + score * score,
        }
    }

    /// These scores and those of `other`.
    pub open spec fn plus(self, other: Marks) -> Marks {
        Marks {
            count: self.count + other.count,
            sum: self.sum + other.sum,
            squares: self.squares + other.squares,
        }
    }
}

/// How many of the first `n` offered players are not in the vote.
pub open spec fn unranked_count(players: Seq<i32>, vote: Seq<i32>, n: int) -> int
    decreases n,
{
    if n <= 0 {
        0
    } else {
        unranked_count(players, vote, n - 1) + (if vote.contains(players[n - 1]) {
            0int
        } else {
            1int
        })
    }
}

/// The scores of `p` from the first `n` ranked positions.
pub open spec fn ranked_marks(vote: Seq<i32>, p: i32, n: int) -> Marks
    decreases n,
{
    if n <= 0 {
        Marks::none()
    } else if vote[n - 1] == p {
        ranked_marks(vote, p, n - 1).with(ranked_score(n - 1))
    } else {
        ranked_marks(vote, p, n - 1)
    }
}

/// The scores of `p` as an unranked player among the first `n` offered
/// players, on a ballot with `u` unranked players.
pub open spec fn unranked_marks(players: Seq<i32>, vote: Seq<i32>, p: i32, u: int, n: int) -> Marks
    decreases n,
{
    if n <= 0 {
        Marks::none()
    } else if players[n - 1] == p && !vote.contains(p) {
        unranked_marks(players, vote, p, u, n - 1).with(unranked_score(u))
    } else {
        unranked_marks(players, vote, p, u, n - 1)
    }
}

/// All the scores that ballot `b` gives to player `p`: none if the vote is
/// empty, else those of the ranked positions of `p` and, if `p` is offered
/// and not ranked, the score of an unranked player.
pub open spec fn ballot_marks(b: BallotView, p: i32) -> Marks {
    if b.vote.len() == 0 {
        Marks::none()
    } else {
        ranked_marks(b.vote, p, b.vote.len() as int).plus(
            unranked_marks(
                b.players,
                b.vote,
                p,
                unranked_count(b.players, b.vote, b.players.len() as int),
                b.players.len() as int,
            ),
        )
    }
}

/// Neither list of the ballot is longer than `MAX_BALLOT_PLAYERS`.
pub open spec fn ballot_within_limits(b: BallotView) -> bool {
    b.players.len() <= MAX_BALLOT_PLAYERS && b.vote.len() <= MAX_BALLOT_PLAYERS
}

/// The number of offered players that the voter left unranked.
pub fn unranked_count_of(b: &Ballot) -> (u: i64)
    requires
        ballot_within_limits(b@),
    ensures
        u == unranked_count(b@.players, b@.vote, b@.players.len() as int),
        0 <= u <= b@.players.len(),
{
    let mut u: i64 = 0;
    let mut k: usize = 0;
    while k < b.players.len()
        invariant
            k <= b.players.len(),
            b.players.len() <= MAX_BALLOT_PLAYERS,
            u == unranked_count(b@.players, b@.vote, k as int),
            0 <= u <= k,
        decreases b.players.len() - k,
    {
        if !contains_player(&b.vote, b.players[k]) {
            u += 1;
        }
        k += 1;
    }
    u
}

/// The scores that ballot `b` gives to player `p`: their number, their sum
/// and the sum of their squares, in eighths.
pub fn ballot_marks_of(b: &Ballot, p: i32) -> (m: (i64, i64, i64))
    requires
        ballot_within_limits(b@),
    ensures
        m.0 == ballot_marks(b@, p).count,
        m.1 == ballot_marks(b@, p).sum,
        m.2 == ballot_marks(b@, p).squares,
        0 <= m.0 <= 2000,
        -4000000 <= m.1 <= 4000000,
        0 <= m.2 <= 8000000000,
        -m.2 <= m.1 <= m.2,
{
    if b.vote.len() == 0 {
        return (0, 0, 0);
    }
    let mut count: i64 = 0;
    let mut sum: i64 = 0;
    let mut squares: i64 = 0;
    let mut i: usize = 0;
    while i < b.vote.len()
        invariant
            i <= b.vote.len(),
            b.vote.len() <= MAX_BALLOT_PLAYERS,
            count == ranked_marks(b@.vote, p, i as int).count,
            sum == ranked_marks(b@.vote, p, i as int).sum,
            squares == ranked_marks(b@.vote, p, i as int).squares,
            0 <= count <= i,
            -2000 * i <= sum <= 2000 * i,
            0 <= squares <= 4000000 * i,
            -squares <= sum <= squares,
        decreases b.vote.len() - i,
    {
        if b.vote[i] == p {
            let e: i64 = 2 * (NUMBER_OF_PLAYERS_IN_VOTE - i as i64);
            assert(0 <= e * e <= 4000000 && -(e * e) <= e <= e * e) by (nonlinear_arith)
                requires
                    -2000 <= e <= 8,
            ;
            count += 1;
            sum += e;
            squares += e * e;
        }
        i += 1;
    }
    let u: i64 = unranked_count_of(b);
    let unranked: bool = !contains_player(&b.vote, p);
    let e: i64 = u - 1;
    assert(0 <= e * e <= 4000000 && -(e * e) <= e <= e * e) by (nonlinear_arith)
        requires
            -1 <= e <= 1000,
    ;
    let ghost ranked = ranked_marks(b@.vote, p, b@.vote.len() as int);
    let mut k: usize = 0;
    while k < b.players.len()
        invariant
            k <= b.players.len(),
            b.players.len() <= MAX_BALLOT_PLAYERS,
            b.vote.len() <= MAX_BALLOT_PLAYERS,
            unranked == !b@.vote.contains(p),
            e == unranked_score(u as int),
            0 <= e * e <= 4000000,
            -(e * e) <= e <= e * e,
            -1 <= e <= 1000,
            count == ranked.count + unranked_marks(b@.players, b@.vote, p, u as int, k as int).count,
            sum == ranked.sum + unranked_marks(b@.players, b@.vote, p, u as int, k as int).sum,
            squares == ranked.squares + unranked_marks(
                b@.players,
                b@.vote,
                p,
                u as int,
                k as int,
            ).squares,
            0 <= count <= b.vote.len() + k,
            -2000 * (b.vote.len() + k) <= sum <= 2000 * (b.vote.len() + k),
            0 <= squares <= 4000000 * (b.vote.len() + k),
            -squares <= sum <= squares,
        decreases b.players.len() - k,
    {
        if unranked && b.players[k] == p {
            count += 1;
            sum += e;
            squares += e * e;
        }
        k += 1;
    }
    (count, sum, squares)
}

} // verus!
