//! Adding up a week: how many ballots each voter cast, the common scale of
//! the weights, and for each player the weighted totals of the scores that
//! the counted ballots give.

use vstd::prelude::*;
use crate::ballot::Ballot;
use crate::score::ballot_marks;
use crate::score::ballot_marks_of;
use crate::score::ballot_within_limits;
use crate::weight::lcm;
use crate::weight::lcm_within_scale;
use crate::weight::lemma_lcm_multiple;
use crate::weight::lemma_multiple_transitive;
use crate::weight::lemma_scaled_weight_exact;
use crate::weight::scaled_weight;
use crate::weight::vote_weight;
use crate::weight::weight_den;
use crate::weight::MAX_WEIGHT_SCALE;

verus! {

/// The largest number of ballots that a tally works with.
pub const MAX_BALLOTS: usize = 1000000;

/// How many of the first `n` ballots enter the tally of `week`.
pub open spec fn counted_ballots(ballots: Seq<Ballot>, week: i32, n: int) -> int
    decreases n,
{
    if n <= 0 {
        0
    } else {
        counted_ballots(ballots, week, n - 1) + (if ballots[n - 1]@.counted(week) {
            1int
        } else {
            0int
        })
    }
}

/// How many of the first `n` ballots enter the tally of `week` and were cast
/// by `voter`.
pub open spec fn voter_ballots(ballots: Seq<Ballot>, week: i32, voter: Seq<char>, n: int) -> int
    decreases n,
{
    if n <= 0 {
        0
    } else {
        voter_ballots(ballots, week, voter, n - 1) + (if ballots[n - 1]@.counted(week)
            && ballots[n - 1]@.voter == voter {
            1int
        } else {
            0int
        })
    }
}

/// How many counted ballots the voter of ballot `j` cast in `week`.
pub open spec fn ballots_of_voter_of(ballots: Seq<Ballot>, week: i32, j: int) -> int {
    voter_ballots(ballots, week, ballots[j]@.voter, ballots.len() as int)
}

/// The common scale of the weights of the first `n` ballots: the least
/// common multiple of their denominators, or `None` once that is over
/// `MAX_WEIGHT_SCALE`.
pub open spec fn weight_scale(ballots: Seq<Ballot>, week: i32, n: int) -> Option<int>
    decreases n,
{
    if n <= 0 {
        Some(1)
    } else {
        match weight_scale(ballots, week, n - 1) {
            None => None,
            Some(d) => if !ballots[n - 1]@.counted(week) {
                Some(d)
            } else if lcm(d, weight_den(ballots_of_voter_of(ballots, week, n - 1)))
                <= MAX_WEIGHT_SCALE {
                Some(lcm(d, weight_den(ballots_of_voter_of(ballots, week, n - 1))))
            } else {
                None
            },
        }
    }
}

/// The weight of ballot `j`, as a whole number of `1 / d`.
pub open spec fn ballot_weight(ballots: Seq<Ballot>, week: i32, d: int, j: int) -> int {
    scaled_weight(ballots_of_voter_of(ballots, week, j), d)
}

/// What the tally knows of one player: the number of scores received, and
/// the sums of the weights, of the weighted scores and of the weighted
/// squares of the scores.
pub struct Tally {
    pub votos: int,
    pub pesos: int,
    pub notas: int,
    pub quadrados: int,
}

/// The totals of player `p` over the first `n` ballots, with weights counted
/// in `1 / d`.
pub open spec fn player_tally(ballots: Seq<Ballot>, week: i32, p: i32, d: int, n: int) -> Tally
    decreases n,
{
    if n <= 0 {
        Tally { votos: 0, pesos: 0, notas: 0, quadrados: 0 }
    } else if !ballots[n - 1]@.counted(week) {
        player_tally(ballots, week, p, d, n - 1)
    } else {
        let t = player_tally(ballots, week, p, d, n - 1);
        let w = ballot_weight(ballots, week, d, n - 1);
        let m = ballot_marks(ballots[n - 1]@, p);
        Tally {
            votos: t.votos + m.count,
            pesos: t.pesos + w * m.count,
            notas: t.notas + w * m.sum,
            quadrados: t.quadrados + w * m.squares,
        }
    }
}

/// The sizes that a tally of `week` can work with.
pub open spec fn within_limits(ballots: Seq<Ballot>, week: i32) -> bool {
    &&& ballots.len() <= MAX_BALLOTS
    &&& forall|j: int|
        0 <= j < ballots.len() && (#[trigger] ballots[j])@.counted(week) ==> ballot_within_limits(
            ballots[j]@,
        )
    &&& weight_scale(ballots, week, ballots.len() as int) is Some
}

/// The common scale is positive and a multiple of the denominator of every
/// counted ballot's weight.
pub proof fn lemma_weight_scale(ballots: Seq<Ballot>, week: i32, n: int)
    requires
        0 <= n <= ballots.len(),
        weight_scale(ballots, week, n) is Some,
    ensures
        0 < weight_scale(ballots, week, n).unwrap() <= MAX_WEIGHT_SCALE,
        forall|j: int|
            0 <= j < n && (#[trigger] ballots[j])@.counted(week) ==> weight_scale(
                ballots,
                week,
                n,
            ).unwrap() % weight_den(ballots_of_voter_of(ballots, week, j)) == 0,
    decreases n,
{
    if n > 0 {
        lemma_weight_scale(ballots, week, n - 1);
        let d0 = weight_scale(ballots, week, n - 1).unwrap();
        let d = weight_scale(ballots, week, n).unwrap();
        if ballots[n - 1]@.counted(week) {
            let m = weight_den(ballots_of_voter_of(ballots, week, n - 1));
            lemma_lcm_multiple(d0, m);
            assert forall|j: int| 0 <= j < n && (#[trigger] ballots[j])@.counted(week) implies d
                % weight_den(ballots_of_voter_of(ballots, week, j)) == 0 by {
                if j < n - 1 {
                    lemma_multiple_transitive(
                        weight_den(ballots_of_voter_of(ballots, week, j)),
                        d0,
                        d,
                    );
                }
            }
        }
    }
}

/// With the common scale of the whole week, every counted ballot's weight is
/// exact: it is the voter's weight times the scale, and at least 1.
pub proof fn weights_are_exact(ballots: Seq<Ballot>, week: i32, j: int)
    requires
        0 <= j < ballots.len(),
        ballots[j]@.counted(week),
        weight_scale(ballots, week, ballots.len() as int) is Some,
    ensures
        ({
            let d = weight_scale(ballots, week, ballots.len() as int).unwrap();
            let c = ballots_of_voter_of(ballots, week, j);
            &&& ballot_weight(ballots, week, d, j) * weight_den(c) == crate::weight::weight_num(c)
                * d
            &&& 1 <= ballot_weight(ballots, week, d, j) <= d
        }),
{
    lemma_weight_scale(ballots, week, ballots.len() as int);
    let d = weight_scale(ballots, week, ballots.len() as int).unwrap();
    lemma_scaled_weight_exact(ballots_of_voter_of(ballots, week, j), d);
}

/// Whether ballot `b` enters the tally of `week`.
pub fn is_counted(b: &Ballot, week: i32) -> (r: bool)
    ensures
        r == b@.counted(week),
{
    b.state == crate::ballot::BallotState::Closed && b.fute_id == week
}

/// The number of ballots that enter the tally of `week`.
pub fn counted_ballots_of(ballots: &Vec<Ballot>, week: i32) -> (c: i32)
    requires
        ballots@.len() <= MAX_BALLOTS,
    ensures
        c == counted_ballots(ballots@, week, ballots@.len() as int),
        0 <= c <= ballots@.len(),
{
    let mut c: i32 = 0;
    let mut j: usize = 0;
    while j < ballots.len()
        invariant
            j <= ballots.len(),
            ballots@.len() <= MAX_BALLOTS,
            c == counted_ballots(ballots@, week, j as int),
            0 <= c <= j,
        decreases ballots.len() - j,
    {
        if is_counted(&ballots[j], week) {
            c += 1;
        }
        j += 1;
    }
    c
}

/// The number of ballots of `voter` that enter the tally of `week`.
pub fn voter_ballots_of(ballots: &Vec<Ballot>, week: i32, voter: &String) -> (c: u32)
    requires
        ballots@.len() <= MAX_BALLOTS,
    ensures
        c == voter_ballots(ballots@, week, voter@, ballots@.len() as int),
        c <= ballots@.len(),
{
    let mut c: u32 = 0;
    let mut j: usize = 0;
    while j < ballots.len()
        invariant
            j <= ballots.len(),
            ballots@.len() <= MAX_BALLOTS,
            c == voter_ballots(ballots@, week, voter@, j as int),
            c <= j,
        decreases ballots.len() - j,
    {
        if is_counted(&ballots[j], week) && ballots[j].voter == *voter {
            c += 1;
        }
        j += 1;
    }
    c
}

/// The common scale of the week's weights, if it is within
/// `MAX_WEIGHT_SCALE`.
pub fn weight_scale_of(ballots: &Vec<Ballot>, week: i32) -> (r: Option<u64>)
    requires
        ballots@.len() <= MAX_BALLOTS,
    ensures
        r is Some == weight_scale(ballots@, week, ballots@.len() as int) is Some,
        r is Some ==> r.unwrap() == weight_scale(ballots@, week, ballots@.len() as int).unwrap(),
        r is Some ==> 0 < r.unwrap() <= MAX_WEIGHT_SCALE,
{
    let mut d: u64 = 1;
    let mut j: usize = 0;
    while j < ballots.len()
        invariant
            j <= ballots.len(),
            ballots@.len() <= MAX_BALLOTS,
            weight_scale(ballots@, week, j as int) == Some(d as int),
            0 < d <= MAX_WEIGHT_SCALE,
        decreases ballots.len() - j,
    {
        if is_counted(&ballots[j], week) {
            let c: u32 = voter_ballots_of(ballots, week, &ballots[j].voter);
            let w = vote_weight(c);
            match lcm_within_scale(d, w.den) {
                Some(l) => {
                    proof {
                        lemma_lcm_multiple(d as int, w.den as int);
                    }
                    d = l;
                },
                None => {
                    proof {
                        lemma_scale_stays_none(ballots@, week, j as int + 1, ballots@.len() as int);
                    }
                    return None;
                },
            }
        }
        j += 1;
    }
    Some(d)
}

proof fn lemma_scale_stays_none(ballots: Seq<Ballot>, week: i32, m: int, n: int)
    requires
        0 <= m <= n,
        weight_scale(ballots, week, m) is None,
    ensures
        weight_scale(ballots, week, n) is None,
    decreases n,
{
    if m < n {
        lemma_scale_stays_none(ballots, week, m, n - 1);
    }
}

/// The weight of every ballot as a whole number of `1 / d`; 0 stands for a
/// ballot that does not enter the tally.
pub fn ballot_weights_of(ballots: &Vec<Ballot>, week: i32, d: u64) -> (weights: Vec<i64>)
    requires
        ballots@.len() <= MAX_BALLOTS,
        weight_scale(ballots@, week, ballots@.len() as int) == Some(d as int),
    ensures
        weights@.len() == ballots@.len(),
        forall|j: int|
            0 <= j < ballots@.len() ==> (#[trigger] weights@[j]) == (if ballots@[j]@.counted(week) {
                ballot_weight(ballots@, week, d as int, j)
            } else {
                0
            }),
        forall|j: int|
            0 <= j < ballots@.len() && ballots@[j]@.counted(week) ==> 1 <= (#[trigger] weights@[j])
                <= MAX_WEIGHT_SCALE,
{
    proof {
        lemma_weight_scale(ballots@, week, ballots@.len() as int);
    }
    let mut weights: Vec<i64> = Vec::new();
    let mut j: usize = 0;
    while j < ballots.len()
        invariant
            j <= ballots.len(),
            ballots@.len() <= MAX_BALLOTS,
            weight_scale(ballots@, week, ballots@.len() as int) == Some(d as int),
            0 < d <= MAX_WEIGHT_SCALE,
            weights@.len() == j,
            forall|k: int|
                0 <= k < j ==> (#[trigger] weights@[k]) == (if ballots@[k]@.counted(week) {
                    ballot_weight(ballots@, week, d as int, k)
                } else {
                    0
                }),
            forall|k: int|
                0 <= k < j && ballots@[k]@.counted(week) ==> 1 <= (#[trigger] weights@[k])
                    <= MAX_WEIGHT_SCALE,
        decreases ballots.len() - j,
    {
        if is_counted(&ballots[j], week) {
            let c: u32 = voter_ballots_of(ballots, week, &ballots[j].voter);
            let w = vote_weight(c);
            proof {
                weights_are_exact(ballots@, week, j as int);
            }
            assert(w.num * d <= 5000000) by (nonlinear_arith)
                requires
                    w.num <= 5,
                    d <= 1000000,
            ;
            let scaled: u64 = w.num * d / w.den;
            weights.push(scaled as i64);
        } else {
            weights.push(0);
        }
        j += 1;
    }
    weights
}

/// The totals of player `p` over the week's counted ballots.
pub fn player_tally_of(ballots: &Vec<Ballot>, week: i32, weights: &Vec<i64>, d: u64, p: i32) -> (t:
    (i32, i64, i64, i128))
    requires
        within_limits(ballots@, week),
        weight_scale(ballots@, week, ballots@.len() as int) == Some(d as int),
        weights@.len() == ballots@.len(),
        forall|j: int|
            0 <= j < ballots@.len() && ballots@[j]@.counted(week) ==> (#[trigger] weights@[j])
                == ballot_weight(ballots@, week, d as int, j),
    ensures
        t.0 == player_tally(ballots@, week, p, d as int, ballots@.len() as int).votos,
        t.1 == player_tally(ballots@, week, p, d as int, ballots@.len() as int).pesos,
        t.2 == player_tally(ballots@, week, p, d as int, ballots@.len() as int).notas,
        t.3 == player_tally(ballots@, week, p, d as int, ballots@.len() as int).quadrados,
        0 <= t.0 <= t.1,
        0 <= t.3,
{
    proof {
        lemma_weight_scale(ballots@, week, ballots@.len() as int);
    }
    let mut votos: i32 = 0;
    let mut pesos: i64 = 0;
    let mut notas: i64 = 0;
    let mut quadrados: i128 = 0;
    let mut j: usize = 0;
    while j < ballots.len()
        invariant
            j <= ballots.len(),
            within_limits(ballots@, week),
            weight_scale(ballots@, week, ballots@.len() as int) == Some(d as int),
            weights@.len() == ballots@.len(),
            forall|k: int|
                0 <= k < ballots@.len() && ballots@[k]@.counted(week) ==> (#[trigger] weights@[k])
                    == ballot_weight(ballots@, week, d as int, k),
            0 < d <= MAX_WEIGHT_SCALE,
            votos == player_tally(ballots@, week, p, d as int, j as int).votos,
            pesos == player_tally(ballots@, week, p, d as int, j as int).pesos,
            notas == player_tally(ballots@, week, p, d as int, j as int).notas,
            quadrados == player_tally(ballots@, week, p, d as int, j as int).quadrados,
            0 <= votos <= 2000 * j,
            votos <= pesos <= 2000000000 * j,
            -4000000000000 * j <= notas <= 4000000000000 * j,
            0 <= quadrados <= 8000000000000000 * j,
        decreases ballots.len() - j,
    {
        if is_counted(&ballots[j], week) {
            let w: i64 = weights[j];
            proof {
                weights_are_exact(ballots@, week, j as int);
            }
            let m = ballot_marks_of(&ballots[j], p);
            assert(m.0 <= w * m.0 <= 2000000000 && -4000000000000 <= w * m.1 <= 4000000000000 && 0
                <= w * m.2 <= 8000000000000000) by (nonlinear_arith)
                requires
                    1 <= w <= 1000000,
                    0 <= m.0 <= 2000,
                    -4000000 <= m.1 <= 4000000,
                    0 <= m.2 <= 8000000000,
            ;
            votos += m.0 as i32;
            pesos += w * m.0;
            notas += w * m.1;
            quadrados += (w * m.2) as i128;
        }
        j += 1;
    }
    (votos, pesos, notas, quadrados)
}

} // verus!
