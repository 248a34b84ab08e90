//! The ranking of a week: every player who received a score, best mean
//! score first.
//!
//! An entry holds exact totals in place of rounded numbers. With weights `w`
//! and scores `s` in eighths of a point, `soma_pesos` is the sum of the `w`,
//! `soma_notas` the sum of the `w * s` and `soma_quadrados` the sum of the
//! `w * s * s`, all weights multiplied by the week's common scale. The mean
//! score is `soma_notas / (8 * soma_pesos)` points; the scale cancels out.

use vstd::prelude::*;
use crate::ballot::Ballot;
use crate::ballot::BallotState;
use crate::ballot::BallotView;
use crate::ballot::is_ranking_of_offer_of;
use crate::cross::cross_product;
use crate::error::Error;
use crate::order::sort_entries;
use crate::player::Player;
use crate::score::MAX_BALLOT_PLAYERS;
use crate::tally::ballot_weights_of;
use crate::tally::counted_ballots;
use crate::tally::counted_ballots_of;
use crate::tally::is_counted;
use crate::tally::player_tally;
use crate::tally::player_tally_of;
use crate::tally::weight_scale;
use crate::tally::weight_scale_of;
use crate::tally::within_limits;
use crate::tally::MAX_BALLOTS;
use crate::timings::get_ref_point_of;
use crate::timings::ref_point_id;
use crate::timings::ref_point_of;
use crate::timings::valid_timestamp;
use crate::timings::week_id_of;
use crate::voting::ballot_views;

verus! {

/// The largest roster that a ranking works with: positions are `i32`.
pub const MAX_ROSTER: usize = 2147483647;

/// One player's line of a ranking.
#[derive(Clone, Debug)]
pub struct RankingEntry {
    /// Position in the ranking, from 1.
    pub pos: i32,
    /// The player's id.
    pub id: i32,
    pub nome: String,
    /// The number of scores received.
    pub votos: i32,
    /// The sum of the weights of the scores.
    pub soma_pesos: i64,
    /// The sum of the weighted scores, in eighths of a point.
    pub soma_notas: i64,
    /// The sum of the weighted squares of the scores, in eighths of a point.
    pub soma_quadrados: i128,
}

/// A line of a ranking as mathematical values.
pub struct RankingEntryView {
    pub pos: int,
    pub id: int,
    pub nome: Seq<char>,
    pub votos: int,
    pub soma_pesos: int,
    pub soma_notas: int,
    pub soma_quadrados: int,
}

impl View for RankingEntry {
    type V = RankingEntryView;

    open spec fn view(&self) -> RankingEntryView {
        RankingEntryView {
            pos: self.pos as int,
            id: self.id as int,
            nome: self.nome@,
            votos: self.votos as int,
            soma_pesos: self.soma_pesos as int,
            soma_notas: self.soma_notas as int,
            soma_quadrados: self.soma_quadrados as int,
        }
    }
}

/// A fraction `num / den`.
#[derive(Clone, Copy, Debug, PartialEq, Eq, Structural)]
pub struct Fraction {
    pub num: i128,
    pub den: i128,
}

/// `x` is a value of `i128`.
pub open spec fn fits_i128(x: int) -> bool {
    i128::MIN <= x <= i128::MAX
}

impl RankingEntryView {
    /// `B * Q - A * A` for the sums `B`, `A`, `Q` of the entry: `B` times
    /// the weighted sum of the squared distances of the scores from their
    /// mean, in eighths of a point.
    pub open spec fn spread(self) -> int {
        self.soma_pesos * self.soma_quadrados - self.soma_notas * self.soma_notas
    }

    /// Numerator of the square of the standard deviation, in points.
    pub open spec fn variancia_num(self) -> int {
        self.votos * self.spread()
    }

    /// Denominator of the square of the standard deviation, in points: the
    /// weighted squared distances are divided by `(n - 1) * B / n`, where
    /// `n` is the number of scores.
    pub open spec fn variancia_den(self) -> int {
        64 * ((self.votos - 1) * (self.soma_pesos * self.soma_pesos))
    }

    /// Every product on the way to the square of the standard deviation
    /// fits an `i128`.
    pub open spec fn variancia_fits(self) -> bool {
        &&& fits_i128(self.soma_pesos * self.soma_quadrados)
        &&& fits_i128(self.spread())
        &&& fits_i128(self.variancia_num())
        &&& fits_i128((self.votos - 1) * (self.soma_pesos * self.soma_pesos))
        &&& fits_i128(self.variancia_den())
    }

    /// The same entry at position `pos`.
    pub open spec fn at(self, pos: int) -> RankingEntryView {
        RankingEntryView { pos: pos, ..self }
    }

    /// The standard deviation of the scores is a finite number only with two
    /// scores or more: with one score the corrected sample size is zero.
    pub open spec fn has_desvio_padrao(self) -> bool {
        self.votos >= 2
    }
}

impl RankingEntry {
    /// Whether the standard deviation of this entry's scores is defined.
    pub fn has_desvio_padrao(&self) -> (r: bool)
        ensures
            r == self@.has_desvio_padrao(),
    {
        self.votos >= 2
    }

    /// The weighted mean score in points, as a fraction: the sum of the
    /// weighted scores over the sum of the weights, scores counted in
    /// eighths.
    pub fn media(&self) -> (m: Fraction)
        ensures
            m.num == self@.soma_notas,
            m.den == 8 * self@.soma_pesos,
    {
        Fraction { num: self.soma_notas as i128, den: cross_product(8, self.soma_pesos) }
    }

    /// The square of the standard deviation in points, as a fraction:
    /// `None` with fewer than two scores, where it is not a finite number,
    /// and `TooLarge` where the fraction does not fit.
    pub fn variancia(&self) -> (r: Result<Option<Fraction>, Error>)
        ensures
            !self@.has_desvio_padrao() ==> r == Ok::<Option<Fraction>, Error>(None),
            self@.has_desvio_padrao() && self@.variancia_fits() ==> r == Ok::<
                Option<Fraction>,
                Error,
            >(Some(Fraction { num: self@.variancia_num() as i128, den: self@.variancia_den() as i128 })),
            self@.has_desvio_padrao() && !self@.variancia_fits() ==> r == Err::<
                Option<Fraction>,
                Error,
            >(Error::TooLarge),
    {
        if self.votos < 2 {
            return Ok(None);
        }
        let n: i128 = self.votos as i128;
        let pesos: i128 = self.soma_pesos as i128;
        let bq: i128 = match pesos.checked_mul(self.soma_quadrados) {
            Some(x) => x,
            None => {
                return Err(Error::TooLarge);
            },
        };
        let aa: i128 = cross_product(self.soma_notas, self.soma_notas);
        let spread: i128 = match bq.checked_sub(aa) {
            Some(x) => x,
            None => {
                return Err(Error::TooLarge);
            },
        };
        let num: i128 = match n.checked_mul(spread) {
            Some(x) => x,
            None => {
                return Err(Error::TooLarge);
            },
        };
        let bb: i128 = cross_product(self.soma_pesos, self.soma_pesos);
        let scaled: i128 = match (n - 1).checked_mul(bb) {
            Some(x) => x,
            None => {
                return Err(Error::TooLarge);
            },
        };
        let den: i128 = match scaled.checked_mul(64) {
            Some(x) => x,
            None => {
                return Err(Error::TooLarge);
            },
        };
        Ok(Some(Fraction { num: num, den: den }))
    }
}

/// The ranking of one week.
#[derive(Clone, Debug)]
pub struct Ranking {
    pub entries: Vec<RankingEntry>,
    /// When the ranking was computed.
    pub timestamp: i64,
    /// The number of ballots that entered the tally.
    pub votes: i32,
}

/// A ranking as mathematical values.
pub struct RankingView {
    pub entries: Seq<RankingEntryView>,
    pub timestamp: i64,
    pub votes: i32,
}

impl View for Ranking {
    type V = RankingView;

    open spec fn view(&self) -> RankingView {
        RankingView {
            entries: Seq::new(self.entries@.len(), |k: int| self.entries@[k]@),
            timestamp: self.timestamp,
            votes: self.votes,
        }
    }
}

impl Ranking {
    /// A ranking without entries, stamped with `now`.
    pub fn empty(now: i64) -> (r: Ranking)
        ensures
            r@ == (RankingView { entries: Seq::empty(), timestamp: now, votes: 0 }),
    {
        let r = Ranking { entries: Vec::new(), timestamp: now, votes: 0 };
        assert(r@.entries =~= Seq::empty());
        r
    }

    /// A copy with the same entries, time and number of ballots.
    pub fn duplicate(&self) -> (c: Ranking)
        ensures
            c@ == self@,
            c.entries@ == self.entries@,
    {
        let mut entries: Vec<RankingEntry> = Vec::new();
        let mut k: usize = 0;
        while k < self.entries.len()
            invariant
                k <= self.entries.len(),
                entries@.len() == k,
                forall|i: int| 0 <= i < k ==> (#[trigger] entries@[i]) == self.entries@[i],
            decreases self.entries.len() - k,
        {
            let e = &self.entries[k];
            entries.push(
                RankingEntry {
                    pos: e.pos,
                    id: e.id,
                    nome: e.nome.clone(),
                    votos: e.votos,
                    soma_pesos: e.soma_pesos,
                    soma_notas: e.soma_notas,
                    soma_quadrados: e.soma_quadrados,
                },
            );
            k += 1;
        }
        assert(entries@ =~= self.entries@);
        let c = Ranking { entries: entries, timestamp: self.timestamp, votes: self.votes };
        assert(c@.entries =~= self@.entries);
        c
    }
}

/// `a` stands before `b` in a ranking: its mean score is higher, or the
/// means are equal and its player id is lower.
pub open spec fn ranks_before(a: RankingEntryView, b: RankingEntryView) -> bool {
    a.soma_notas * b.soma_pesos > b.soma_notas * a.soma_pesos || (a.soma_notas * b.soma_pesos
        == b.soma_notas * a.soma_pesos && a.id < b.id)
}

/// No entry stands after one that it should stand before.
pub open spec fn is_sorted(entries: Seq<RankingEntry>) -> bool {
    forall|i: int, j: int|
        0 <= i < j < entries.len() ==> !ranks_before(
            (#[trigger] entries[j])@,
            (#[trigger] entries[i])@,
        )
}

/// `perm` lists each of `0..n` once.
pub open spec fn is_permutation(perm: Seq<int>, n: int) -> bool {
    &&& perm.len() == n
    &&& forall|k: int| 0 <= k < n ==> 0 <= #[trigger] perm[k] < n
    &&& forall|i: int, j: int| 0 <= i < j < n ==> #[trigger] perm[i] != #[trigger] perm[j]
}

/// `r` holds the items of `v`, item `perm[k]` of `v` at place `k`.
pub open spec fn is_rearranged(perm: Seq<int>, v: Seq<RankingEntry>, r: Seq<RankingEntry>) -> bool {
    &&& is_permutation(perm, v.len() as int)
    &&& r.len() == v.len()
    &&& forall|k: int| 0 <= k < r.len() ==> #[trigger] r[k] == v[perm[k]]
}

/// The entry of roster player `p` before it has a position.
pub open spec fn tallied_entry(ballots: Seq<Ballot>, week: i32, p: Player, d: int)
    -> RankingEntryView {
    let t = player_tally(ballots, week, p.id, d, ballots.len() as int);
    RankingEntryView {
        pos: 0,
        id: p.id as int,
        nome: p.nome@,
        votos: t.votos,
        soma_pesos: t.pesos,
        soma_notas: t.notas,
        soma_quadrados: t.quadrados,
    }
}

/// The entries of those of the first `n` roster players who received a
/// score, in roster order.
pub open spec fn tallied_entries(
    ballots: Seq<Ballot>,
    week: i32,
    roster: Seq<Player>,
    d: int,
    n: int,
) -> Seq<RankingEntryView>
    decreases n,
{
    if n <= 0 {
        Seq::empty()
    } else if tallied_entry(ballots, week, roster[n - 1], d).votos > 0 {
        tallied_entries(ballots, week, roster, d, n - 1).push(
            tallied_entry(ballots, week, roster[n - 1], d),
        )
    } else {
        tallied_entries(ballots, week, roster, d, n - 1)
    }
}

/// `entries` is `tallied` put in ranking order, with positions from 1.
pub open spec fn is_ranking_of(entries: Seq<RankingEntry>, tallied: Seq<RankingEntryView>) -> bool {
    &&& entries.len() == tallied.len()
    &&& is_sorted(entries)
    &&& exists|perm: Seq<int>|
        {
            &&& is_permutation(perm, tallied.len() as int)
            &&& forall|k: int|
                0 <= k < entries.len() ==> (#[trigger] entries[k])@ == tallied[perm[k]].at(k + 1)
        }
}

/// In every ballot that enters the tally of `week`, the vote is a ranking of
/// offered players.
pub open spec fn votes_are_rankings(ballots: Seq<Ballot>, week: i32) -> bool {
    forall|j: int|
        0 <= j < ballots.len() && (#[trigger] ballots[j])@.counted(week)
            ==> ballots[j]@.has_valid_vote()
}

/// The sizes that a ranking of `week` can work with.
pub open spec fn ranking_within_limits(ballots: Seq<Ballot>, roster: Seq<Player>, week: i32)
    -> bool {
    roster.len() <= MAX_ROSTER && within_limits(ballots, week)
}

/// What `calculate_ranking` returns for the week `id` at time `now`.
pub open spec fn is_ranking_result(
    ballots: Seq<Ballot>,
    roster: Seq<Player>,
    id: i32,
    now: i64,
    r: Result<Ranking, Error>,
) -> bool {
    match r {
        Ok(ranking) => {
            &&& ranking_within_limits(ballots, roster, id)
            &&& votes_are_rankings(ballots, id)
            &&& ranking.timestamp == now
            &&& ranking.votes == counted_ballots(ballots, id, ballots.len() as int)
            &&& is_ranking_of(
                ranking.entries@,
                tallied_entries(
                    ballots,
                    id,
                    roster,
                    weight_scale(ballots, id, ballots.len() as int).unwrap(),
                    roster.len() as int,
                ),
            )
        },
        Err(e) => {
            ||| e == Error::TooLarge && !ranking_within_limits(ballots, roster, id)
            ||| e == Error::MalformedBallot && ranking_within_limits(ballots, roster, id)
                && !votes_are_rankings(ballots, id)
        },
    }
}

/// Whether the lists of every counted ballot are within
/// `MAX_BALLOT_PLAYERS`.
fn ballots_within_limits(ballots: &Vec<Ballot>, week: i32) -> (r: bool)
    ensures
        r == (forall|j: int|
            0 <= j < ballots@.len() && (#[trigger] ballots@[j])@.counted(week)
                ==> crate::score::ballot_within_limits(ballots@[j]@)),
{
    let mut j: usize = 0;
    while j < ballots.len()
        invariant
            j <= ballots.len(),
            forall|k: int|
                0 <= k < j && (#[trigger] ballots@[k])@.counted(week)
                    ==> crate::score::ballot_within_limits(ballots@[k]@),
        decreases ballots.len() - j,
    {
        if is_counted(&ballots[j], week) && (ballots[j].players.len() > MAX_BALLOT_PLAYERS
            || ballots[j].vote.len() > MAX_BALLOT_PLAYERS) {
            return false;
        }
        j += 1;
    }
    true
}

/// Whether every counted ballot's vote is a ranking of offered players.
fn votes_are_rankings_of(ballots: &Vec<Ballot>, week: i32) -> (r: bool)
    ensures
        r == votes_are_rankings(ballots@, week),
{
    let mut j: usize = 0;
    while j < ballots.len()
        invariant
            j <= ballots.len(),
            forall|k: int|
                0 <= k < j && (#[trigger] ballots@[k])@.counted(week)
                    ==> ballots@[k]@.has_valid_vote(),
        decreases ballots.len() - j,
    {
        if is_counted(&ballots[j], week) && !is_ranking_of_offer_of(
            &ballots[j].players,
            &ballots[j].vote,
        ) {
            return false;
        }
        j += 1;
    }
    true
}

/// The entries of the roster players who received a score, in roster order
/// and without positions.
fn tally_roster(ballots: &Vec<Ballot>, roster: &Vec<Player>, week: i32, d: u64) -> (list: Vec<
    RankingEntry,
>)
    requires
        within_limits(ballots@, week),
        weight_scale(ballots@, week, ballots@.len() as int) == Some(d as int),
    ensures
        list@.len() == tallied_entries(ballots@, week, roster@, d as int, roster@.len() as int).len(),
        list@.len() <= roster@.len(),
        forall|k: int|
            0 <= k < list@.len() ==> (#[trigger] list@[k])@ == tallied_entries(
                ballots@,
                week,
                roster@,
                d as int,
                roster@.len() as int,
            )[k],
        forall|k: int| 0 <= k < list@.len() ==> (#[trigger] list@[k]).soma_pesos > 0,
{
    let weights = ballot_weights_of(ballots, week, d);
    let mut list: Vec<RankingEntry> = Vec::new();
    let mut i: usize = 0;
    while i < roster.len()
        invariant
            i <= roster.len(),
            within_limits(ballots@, week),
            weight_scale(ballots@, week, ballots@.len() as int) == Some(d as int),
            weights@.len() == ballots@.len(),
            forall|j: int|
                0 <= j < ballots@.len() && ballots@[j]@.counted(week) ==> (#[trigger] weights@[j])
                    == crate::tally::ballot_weight(ballots@, week, d as int, j),
            list@.len() == tallied_entries(ballots@, week, roster@, d as int, i as int).len(),
            list@.len() <= i,
            forall|k: int|
                0 <= k < list@.len() ==> (#[trigger] list@[k])@ == tallied_entries(
                    ballots@,
                    week,
                    roster@,
                    d as int,
                    i as int,
                )[k],
            forall|k: int| 0 <= k < list@.len() ==> (#[trigger] list@[k]).soma_pesos > 0,
        decreases roster.len() - i,
    {
        let t = player_tally_of(ballots, week, &weights, d, roster[i].id);
        if t.0 > 0 {
            let entry = RankingEntry {
                pos: 0,
                id: roster[i].id,
                nome: roster[i].nome.clone(),
                votos: t.0,
                soma_pesos: t.1,
                soma_notas: t.2,
                soma_quadrados: t.3,
            };
            assert(entry@ == tallied_entry(ballots@, week, roster@[i as int], d as int));
            list.push(entry);
        }
        i += 1;
    }
    list
}

/// Gives the sorted entries their positions, from 1.
fn number_entries(sorted: Vec<RankingEntry>) -> (out: Vec<RankingEntry>)
    requires
        sorted@.len() <= MAX_ROSTER,
    ensures
        out@.len() == sorted@.len(),
        forall|k: int| 0 <= k < out@.len() ==> (#[trigger] out@[k])@ == sorted@[k]@.at(k + 1),
{
    let mut out: Vec<RankingEntry> = Vec::new();
    let mut k: usize = 0;
    while k < sorted.len()
        invariant
            k <= sorted.len(),
            sorted@.len() <= MAX_ROSTER,
            out@.len() == k,
            forall|i: int| 0 <= i < k ==> (#[trigger] out@[i])@ == sorted@[i]@.at(i + 1),
        decreases sorted.len() - k,
    {
        let entry = RankingEntry {
            pos: (k + 1) as i32,
            id: sorted[k].id,
            nome: sorted[k].nome.clone(),
            votos: sorted[k].votos,
            soma_pesos: sorted[k].soma_pesos,
            soma_notas: sorted[k].soma_notas,
            soma_quadrados: sorted[k].soma_quadrados,
        };
        out.push(entry);
        k += 1;
    }
    out
}

/// The ranking of week `id` from the ballots of that week that are closed,
/// over the players of `roster`, stamped with `now`.
///
/// Each voter's ballots weigh 1, or `2.5 / c` each when the voter has `c >
/// 2` of them in the tally. A ballot gives `(4 - i) / 4` to the player at
/// ranked position `i` and `(u - 1) / 8` to each of its `u` unranked
/// players; a ballot with an empty vote is counted in `votes` and in its
/// voter's `c`, and gives no score. The players who received a score are
/// ordered by their weighted mean score, highest first, equal means by
/// player id.
///
/// Fails with `TooLarge` beyond the sizes that the tally works with, and
/// with `MalformedBallot` when a counted ballot holds a vote for a player
/// that it did not offer, or for one player twice.
pub fn calculate_ranking(ballots: &Vec<Ballot>, roster: &Vec<Player>, id: i32, now: i64) -> (r:
    Result<Ranking, Error>)
    ensures
        is_ranking_result(ballots@, roster@, id, now, r),
{
    if roster.len() > MAX_ROSTER || ballots.len() > MAX_BALLOTS || !ballots_within_limits(
        ballots,
        id,
    ) {
        return Err(Error::TooLarge);
    }
    let d: u64 = match weight_scale_of(ballots, id) {
        Some(d) => d,
        None => {
            return Err(Error::TooLarge);
        },
    };
    if !votes_are_rankings_of(ballots, id) {
        return Err(Error::MalformedBallot);
    }
    let votes: i32 = counted_ballots_of(ballots, id);
    let list = tally_roster(ballots, roster, id, d);
    let ghost tallied = tallied_entries(ballots@, id, roster@, d as int, roster@.len() as int);
    let sorted = sort_entries(list);
    let ghost perm: Seq<int> = choose|perm: Seq<int>| is_rearranged(perm, list@, sorted@);
    let entries = number_entries(sorted);
    proof {
        assert forall|k: int| 0 <= k < entries@.len() implies (#[trigger] entries@[k])@
            == tallied[perm[k]].at(k + 1) by {
            assert(sorted@[k] == list@[perm[k]]);
        }
        assert forall|i: int, j: int| 0 <= i < j < entries@.len() implies !ranks_before(
            (#[trigger] entries@[j])@,
            (#[trigger] entries@[i])@,
        ) by {
            assert(!ranks_before(sorted@[j]@, sorted@[i]@));
        }
        assert(is_permutation(perm, tallied.len() as int));
    }
    Ok(Ranking { entries: entries, timestamp: now, votes: votes })
}

/// Ballot `b` is closed and was created after the start of the week of
/// `now`.
pub open spec fn is_recent(b: BallotView, now: int) -> bool {
    b.state == BallotState::Closed && b.date > ref_point_of(now)
}

/// The recent ones among the first `n` ballots, each counted for the week of
/// `now`, whatever week it was created for.
pub open spec fn recent_ballots(ballots: Seq<Ballot>, now: int, n: int) -> Seq<BallotView>
    decreases n,
{
    if n <= 0 {
        Seq::empty()
    } else if is_recent(ballots[n - 1]@, now) {
        recent_ballots(ballots, now, n - 1).push(
            BallotView { fute_id: week_id_of(now) as i32, ..ballots[n - 1]@ },
        )
    } else {
        recent_ballots(ballots, now, n - 1)
    }
}

fn copy_ids(v: &Vec<i32>) -> (c: Vec<i32>)
    ensures
        c@ == v@,
{
    let mut c: Vec<i32> = Vec::new();
    let mut k: usize = 0;
    while k < v.len()
        invariant
            k <= v.len(),
            c@ == v@.take(k as int),
        decreases v.len() - k,
    {
        c.push(v[k]);
        assert(v@.take(k as int + 1) =~= v@.take(k as int).push(v@[k as int]));
        k += 1;
    }
    assert(v@.take(v@.len() as int) =~= v@);
    c
}

/// The ranking of the current week as it stands at `now`, for an
/// administrator: over the closed ballots that were created since the week
/// started. Anyone else is refused with `Forbidden`.
pub fn debug_ranking(ballots: &Vec<Ballot>, roster: &Vec<Player>, user: &Player, now: i64) -> (r:
    Result<Ranking, Error>)
    requires
        valid_timestamp(now as int),
    ensures
        !user.admin ==> (r matches Err(e) && e == Error::Forbidden),
        user.admin ==> exists|recent: Seq<Ballot>|
            ballot_views(recent) == recent_ballots(ballots@, now as int, ballots@.len() as int)
                && is_ranking_result(recent, roster@, week_id_of(now as int) as i32, now, r),
{
    if !user.admin {
        return Err(Error::Forbidden);
    }
    let start_of_week = get_ref_point_of(now);
    let week = ref_point_id(now);
    let mut recent: Vec<Ballot> = Vec::new();
    let mut j: usize = 0;
    while j < ballots.len()
        invariant
            j <= ballots.len(),
            start_of_week == ref_point_of(now as int),
            week == week_id_of(now as int),
            ballot_views(recent@) == recent_ballots(ballots@, now as int, j as int),
        decreases ballots.len() - j,
    {
        let b = &ballots[j];
        if b.state == BallotState::Closed && b.date > start_of_week {
            let ghost before = recent@;
            recent.push(
                Ballot {
                    id: b.id,
                    players: copy_ids(&b.players),
                    vote: copy_ids(&b.vote),
                    date: b.date,
                    voter: b.voter.clone(),
                    fute_id: week,
                    state: b.state,
                },
            );
            assert(ballot_views(recent@) =~= ballot_views(before).push(recent@.last()@));
        }
        j += 1;
    }
    calculate_ranking(&recent, roster, week, now)
}

} // verus!
