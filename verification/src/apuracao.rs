//! The tally of a week, computed once and kept. A row is reserved as
//! `Started` before the ballots are closed and counted, and becomes
//! `Complete` when the ranking is stored; a complete row never changes, and
//! every later request is answered from it.

use vstd::prelude::*;
use crate::ballot::Ballot;
use crate::error::Error;
use crate::player::Player;
use crate::ranking::calculate_ranking;
use crate::ranking::is_ranking_result;
use crate::ranking::Ranking;
use crate::ranking::RankingView;
use crate::timings::is_published;
use crate::timings::publish_results_at;
use crate::timings::publish_time;
use crate::timings::publish_time_of;
use crate::timings::ref_point_from_id;
use crate::timings::ref_point_of_id;
use crate::voting::prepare_apurar;
use crate::voting::prepared;

verus! {

/// A tally is started when its row is reserved and complete when its
/// ranking is stored.
#[derive(Clone, Copy, Debug, PartialEq, Eq, Structural)]
pub enum ApuracaoState {
    Started,
    Complete,
}

/// The row of one week's tally.
#[derive(Clone, Debug)]
pub struct Model {
    pub id: i32,
    pub week_id: i32,
    pub random_id: String,
    pub state: ApuracaoState,
    pub results: Ranking,
}

/// The row of a tally as mathematical values.
pub struct ModelView {
    pub id: i32,
    pub week_id: i32,
    pub random_id: Seq<char>,
    pub state: ApuracaoState,
    pub results: RankingView,
}

impl View for Model {
    type V = ModelView;

    open spec fn view(&self) -> ModelView {
        ModelView {
            id: self.id,
            week_id: self.week_id,
            random_id: self.random_id@,
            state: self.state,
            results: self.results@,
        }
    }
}

/// No two rows share an id, a week or a random id.
pub open spec fn rows_wf(rows: Seq<Model>) -> bool {
    forall|i: int, j: int|
        0 <= i < j < rows.len() ==> {
            &&& (#[trigger] rows[i]).id != (#[trigger] rows[j]).id
            &&& rows[i].week_id != rows[j].week_id
            &&& rows[i].random_id@ != rows[j].random_id@
        }
}

/// The first of the first `n` rows that belongs to `week`.
pub open spec fn first_for_week(rows: Seq<Model>, week: i32, n: int) -> Option<int>
    decreases n,
{
    if n <= 0 {
        None
    } else {
        match first_for_week(rows, week, n - 1) {
            Some(i) => Some(i),
            None => if rows[n - 1].week_id == week {
                Some(n - 1)
            } else {
                None
            },
        }
    }
}

/// The row of `week`, if the week has one.
pub open spec fn row_of(rows: Seq<Model>, week: i32) -> Option<int> {
    first_for_week(rows, week, rows.len() as int)
}

/// The ranking that is stored as final for `week`.
pub open spec fn stored_ranking(rows: Seq<Model>, week: i32) -> Option<RankingView> {
    match row_of(rows, week) {
        Some(i) => if rows[i].state == ApuracaoState::Complete {
            Some(rows[i].results@)
        } else {
            None
        },
        None => None,
    }
}

/// Every ranking that is stored as final in `before` is stored in `after`,
/// for the same week and unchanged.
pub open spec fn keeps_complete(before: Seq<Model>, after: Seq<Model>) -> bool {
    forall|w: i32|
        (#[trigger] stored_ranking(before, w)) is Some ==> stored_ranking(after, w)
            == stored_ranking(before, w)
}

/// Some row has the random id `token`.
pub open spec fn token_in_use(rows: Seq<Model>, token: Seq<char>) -> bool {
    exists|k: int| 0 <= k < rows.len() && (#[trigger] rows[k]).random_id@ == token
}

/// The largest row id among the first `n` rows, and at least 0.
pub open spec fn max_row_id(rows: Seq<Model>, n: int) -> int
    decreases n,
{
    if n <= 0 {
        0
    } else if rows[n - 1].id > max_row_id(rows, n - 1) {
        rows[n - 1].id as int
    } else {
        max_row_id(rows, n - 1)
    }
}

proof fn lemma_first_for_week_stays(rows: Seq<Model>, week: i32, m: int, n: int)
    requires
        0 <= m <= n,
        first_for_week(rows, week, m) is Some,
    ensures
        first_for_week(rows, week, n) == first_for_week(rows, week, m),
    decreases n,
{
    if m < n {
        lemma_first_for_week_stays(rows, week, m, n - 1);
    }
}

/// The row of a week is a row of that week, and the first one.
pub proof fn lemma_first_for_week(rows: Seq<Model>, week: i32, n: int)
    requires
        0 <= n <= rows.len(),
    ensures
        match first_for_week(rows, week, n) {
            Some(i) => 0 <= i < n && rows[i].week_id == week && forall|k: int|
                0 <= k < i ==> (#[trigger] rows[k]).week_id != week,
            None => forall|k: int| 0 <= k < n ==> (#[trigger] rows[k]).week_id != week,
        },
    decreases n,
{
    if n > 0 {
        lemma_first_for_week(rows, week, n - 1);
    }
}

/// Rows with the same weeks at the same places have the same row for a week.
proof fn lemma_first_for_week_same_weeks(a: Seq<Model>, b: Seq<Model>, week: i32, n: int)
    requires
        0 <= n <= a.len(),
        n <= b.len(),
        forall|k: int| 0 <= k < n ==> (#[trigger] a[k]).week_id == (#[trigger] b[k]).week_id,
    ensures
        first_for_week(a, week, n) == first_for_week(b, week, n),
    decreases n,
{
    if n > 0 {
        lemma_first_for_week_same_weeks(a, b, week, n - 1);
    }
}

proof fn lemma_max_row_id(rows: Seq<Model>, n: int)
    requires
        0 <= n <= rows.len(),
    ensures
        0 <= max_row_id(rows, n) <= i32::MAX,
        forall|k: int| 0 <= k < n ==> (#[trigger] rows[k]).id <= max_row_id(rows, n),
    decreases n,
{
    if n > 0 {
        lemma_max_row_id(rows, n - 1);
    }
}

/// The row of `week`, if the week has one.
pub fn find_apuracao(rows: &Vec<Model>, week: i32) -> (r: Option<usize>)
    ensures
        r is Some == row_of(rows@, week) is Some,
        r is Some ==> r.unwrap() == row_of(rows@, week).unwrap() && r.unwrap() < rows@.len()
            && rows@[r.unwrap() as int].week_id == week,
{
    let mut j: usize = 0;
    while j < rows.len()
        invariant
            j <= rows.len(),
            first_for_week(rows@, week, j as int) is None,
        decreases rows.len() - j,
    {
        if rows[j].week_id == week {
            proof {
                lemma_first_for_week_stays(rows@, week, j as int + 1, rows@.len() as int);
            }
            return Some(j);
        }
        j += 1;
    }
    None
}

/// Whether a tally of week `id` has been started.
pub fn has_apurado(rows: &Vec<Model>, id: i32) -> (r: bool)
    ensures
        r == row_of(rows@, id) is Some,
        r == exists|k: int| 0 <= k < rows@.len() && (#[trigger] rows@[k]).week_id == id,
{
    proof {
        lemma_first_for_week(rows@, id, rows@.len() as int);
    }
    find_apuracao(rows, id).is_some()
}

fn token_in_use_of(rows: &Vec<Model>, token: &String) -> (r: bool)
    ensures
        r == token_in_use(rows@, token@),
{
    let mut k: usize = 0;
    while k < rows.len()
        invariant
            k <= rows.len(),
            forall|i: int| 0 <= i < k ==> (#[trigger] rows@[i]).random_id@ != token@,
        decreases rows.len() - k,
    {
        if rows[k].random_id == *token {
            return true;
        }
        k += 1;
    }
    false
}

fn max_row_id_of(rows: &Vec<Model>) -> (m: i32)
    ensures
        m == max_row_id(rows@, rows@.len() as int),
{
    let mut m: i32 = 0;
    let mut j: usize = 0;
    while j < rows.len()
        invariant
            j <= rows.len(),
            m == max_row_id(rows@, j as int),
        decreases rows.len() - j,
    {
        if rows[j].id > m {
            m = rows[j].id;
        }
        j += 1;
    }
    m
}

/// Why no row can be reserved for `week` under the random id `token`:
/// the week's tally is complete, or the token or the ids are used up.
pub open spec fn reserve_refusal(rows: Seq<Model>, week: i32, token: Seq<char>) -> Option<Error> {
    match row_of(rows, week) {
        Some(i) => if rows[i].state == ApuracaoState::Complete {
            Some(Error::Conflict)
        } else {
            None
        },
        None => if token_in_use(rows, token) {
            Some(Error::Conflict)
        } else if max_row_id(rows, rows.len() as int) == i32::MAX {
            Some(Error::StorageError)
        } else {
            None
        },
    }
}

/// The place of the row that is reserved for `week`: the week's own row if
/// it has one, else a new row at the end.
pub open spec fn reserved_place(rows: Seq<Model>, week: i32) -> int {
    match row_of(rows, week) {
        Some(i) => i,
        None => rows.len() as int,
    }
}

/// `after` is `before` with a started row for `week`: the week's row as it
/// was, or a new last row with the random id `token` and an empty ranking.
pub open spec fn is_reserved(
    before: Seq<Model>,
    after: Seq<Model>,
    week: i32,
    token: Seq<char>,
    now: i64,
) -> bool {
    match row_of(before, week) {
        Some(i) => after == before,
        None => {
            &&& after.len() == before.len() + 1
            &&& after.subrange(0, before.len() as int) == before
            &&& after.last()@ == (ModelView {
                id: (max_row_id(before, before.len() as int) + 1) as i32,
                week_id: week,
                random_id: token,
                state: ApuracaoState::Started,
                results: RankingView { entries: Seq::empty(), timestamp: now, votes: 0 },
            })
        },
    }
}

/// Reserves the row of `week`: takes the started row that the week has, or
/// adds one. Gives the row's place.
pub fn reserve_apuracao(rows: &mut Vec<Model>, week: i32, token: String, now: i64) -> (r: Result<
    usize,
    Error,
>)
    ensures
        match reserve_refusal(old(rows)@, week, token@) {
            Some(e) => r == Err::<usize, Error>(e) && final(rows)@ == old(rows)@,
            None => r == Ok::<usize, Error>(reserved_place(old(rows)@, week) as usize)
                && is_reserved(old(rows)@, final(rows)@, week, token@, now)
                && reserved_place(old(rows)@, week) < final(rows)@.len()
                && row_of(final(rows)@, week) == Some(reserved_place(old(rows)@, week))
                && final(rows)@[reserved_place(old(rows)@, week)].state == ApuracaoState::Started,
        },
        r is Ok ==> r.unwrap() == reserved_place(old(rows)@, week),
        r is Ok ==> r.unwrap() < final(rows)@.len(),
        rows_wf(old(rows)@) ==> rows_wf(final(rows)@),
        keeps_complete(old(rows)@, final(rows)@),
{
    match find_apuracao(rows, week) {
        Some(i) => {
            if rows[i].state == ApuracaoState::Complete {
                return Err(Error::Conflict);
            }
            return Ok(i);
        },
        None => {},
    }
    if token_in_use_of(rows, &token) {
        return Err(Error::Conflict);
    }
    let m = max_row_id_of(rows);
    if m == i32::MAX {
        return Err(Error::StorageError);
    }
    proof {
        lemma_max_row_id(rows@, rows@.len() as int);
        lemma_first_for_week(rows@, week, rows@.len() as int);
    }
    let n: usize = rows.len();
    rows.push(
        Model {
            id: m + 1,
            week_id: week,
            random_id: token,
            state: ApuracaoState::Started,
            results: Ranking::empty(now),
        },
    );
    proof {
        assert(rows@.subrange(0, n as int) =~= old(rows)@);
        assert forall|k: int| 0 <= k < n implies (#[trigger] rows@[k]) == old(rows)@[k] by {}
        lemma_first_for_week_same_weeks(old(rows)@, rows@, week, n as int);
        assert(first_for_week(rows@, week, n as int + 1) == Some(n as int));
        assert forall|w: i32| (#[trigger] stored_ranking(old(rows)@, w)) is Some implies
            stored_ranking(rows@, w) == stored_ranking(old(rows)@, w) by {
            lemma_first_for_week(old(rows)@, w, n as int);
            lemma_first_for_week_same_weeks(old(rows)@, rows@, w, n as int);
            lemma_first_for_week_stays(rows@, w, n as int, n as int + 1);
        }
    }
    Ok(n)
}

/// The ballots after week `id` has been prepared for its tally.
pub open spec fn are_prepared(before: Seq<Ballot>, after: Seq<Ballot>, id: i32) -> bool {
    &&& after.len() == before.len()
    &&& forall|j: int| 0 <= j < before.len() ==> (#[trigger] after[j])@ == prepared(before[j]@, id)
}

/// `after` is `before` with the ranking `ranking` stored as final in the row
/// at place `i`.
pub open spec fn is_completed(before: Seq<Model>, after: Seq<Model>, i: int, ranking: RankingView)
    -> bool {
    &&& after.len() == before.len()
    &&& 0 <= i < before.len()
    &&& after[i]@ == (ModelView { state: ApuracaoState::Complete, results: ranking, ..before[i]@ })
    &&& forall|k: int| 0 <= k < before.len() && k != i ==> (#[trigger] after[k]) == before[k]
}

/// What `apurar_with` does: it reserves the week's row, closes the week's
/// open ballots, computes the ranking and stores it as final.
pub open spec fn is_apurar_outcome(
    rows_before: Seq<Model>,
    rows_after: Seq<Model>,
    ballots_before: Seq<Ballot>,
    ballots_after: Seq<Ballot>,
    roster: Seq<Player>,
    id: i32,
    now: i64,
    token: Seq<char>,
    r: Result<Ranking, Error>,
) -> bool {
    match reserve_refusal(rows_before, id, token) {
        Some(e) => r == Err::<Ranking, Error>(e) && rows_after == rows_before && ballots_after
            == ballots_before,
        None => {
            &&& are_prepared(ballots_before, ballots_after, id)
            &&& is_ranking_result(ballots_after, roster, id, now, r)
            &&& match r {
                Ok(ranking) => exists|reserved: Seq<Model>|
                    is_reserved(rows_before, reserved, id, token, now) && is_completed(
                        reserved,
                        rows_after,
                        reserved_place(rows_before, id),
                        ranking@,
                    ),
                Err(_) => is_reserved(rows_before, rows_after, id, token, now),
            }
        },
    }
}

/// Computes the tally of week `id` and stores it, with `token` as the
/// random id of a row that has to be added. A week whose tally is complete
/// is refused with `Conflict`, and so is a token that another row has. When
/// the ranking cannot be computed the row stays `Started`, and a later call
/// takes it up again.
pub fn apurar_with(
    rows: &mut Vec<Model>,
    ballots: &mut Vec<Ballot>,
    roster: &Vec<Player>,
    id: i32,
    now: i64,
    token: String,
) -> (r: Result<Ranking, Error>)
    ensures
        is_apurar_outcome(
            old(rows)@,
            final(rows)@,
            old(ballots)@,
            final(ballots)@,
            roster@,
            id,
            now,
            token@,
            r,
        ),
        r is Ok ==> stored_ranking(final(rows)@, id) == Some(r.unwrap()@),
        rows_wf(old(rows)@) ==> rows_wf(final(rows)@),
        keeps_complete(old(rows)@, final(rows)@),
{
    let i: usize = match reserve_apuracao(rows, id, token, now) {
        Ok(i) => i,
        Err(e) => {
            return Err(e);
        },
    };
    let ghost reserved = rows@;
    prepare_apurar(ballots, id);
    let ranking = match calculate_ranking(ballots, roster, id, now) {
        Ok(ranking) => ranking,
        Err(e) => {
            return Err(e);
        },
    };
    rows[i].results = ranking.duplicate();
    rows[i].state = ApuracaoState::Complete;
    proof {
        assert(is_completed(reserved, rows@, i as int, ranking@));
        assert forall|k: int| 0 <= k < rows@.len() implies (#[trigger] reserved[k]).week_id == (
        #[trigger] rows@[k]).week_id by {}
        lemma_first_for_week_same_weeks(reserved, rows@, id, rows@.len() as int);
        assert forall|w: i32| (#[trigger] stored_ranking(reserved, w)) is Some implies
            stored_ranking(rows@, w) == stored_ranking(reserved, w) by {
            lemma_first_for_week(reserved, w, rows@.len() as int);
            lemma_first_for_week_same_weeks(reserved, rows@, w, rows@.len() as int);
        }
        assert(keeps_complete(reserved, rows@));
    }
    Ok(ranking)
}

/// Draws an `i32` with `rand::Rng::gen` from the thread's generator and
/// writes it in decimal. Nothing is claimed of the value.
#[verifier::external_body]
fn random_token() -> (token: String) {
    rand::Rng::gen::<i32>(&mut rand::thread_rng()).to_string()
}

/// Computes the tally of week `id` and stores it, under a random id drawn
/// for the row if one has to be added.
pub fn apurar_complete(
    rows: &mut Vec<Model>,
    ballots: &mut Vec<Ballot>,
    roster: &Vec<Player>,
    id: i32,
    now: i64,
) -> (r: Result<Ranking, Error>)
    ensures
        exists|token: Seq<char>|
            is_apurar_outcome(
                old(rows)@,
                final(rows)@,
                old(ballots)@,
                final(ballots)@,
                roster@,
                id,
                now,
                token,
                r,
            ),
        r is Ok ==> stored_ranking(final(rows)@, id) == Some(r.unwrap()@),
        rows_wf(old(rows)@) ==> rows_wf(final(rows)@),
        keeps_complete(old(rows)@, final(rows)@),
{
    let token = random_token();
    let ghost t = token@;
    let r = apurar_with(rows, ballots, roster, id, now, token);
    assert(is_apurar_outcome(
        old(rows)@,
        rows@,
        old(ballots)@,
        ballots@,
        roster@,
        id,
        now,
        t,
        r,
    ));
    r
}

/// The ranking of week `id`: the stored one if the week's tally is
/// complete, and then neither rows nor ballots change, whatever the ballots
/// hold by now; else the one that is computed and stored by this call.
pub fn get_or_create_apuracao(
    rows: &mut Vec<Model>,
    ballots: &mut Vec<Ballot>,
    roster: &Vec<Player>,
    id: i32,
    now: i64,
) -> (r: Result<Ranking, Error>)
    ensures
        stored_ranking(old(rows)@, id) is Some ==> {
            &&& r is Ok
            &&& r.unwrap()@ == stored_ranking(old(rows)@, id).unwrap()
            &&& final(rows)@ == old(rows)@
            &&& final(ballots)@ == old(ballots)@
        },
        stored_ranking(old(rows)@, id) is None ==> exists|token: Seq<char>|
            is_apurar_outcome(
                old(rows)@,
                final(rows)@,
                old(ballots)@,
                final(ballots)@,
                roster@,
                id,
                now,
                token,
                r,
            ),
        r is Ok ==> stored_ranking(final(rows)@, id) == Some(r.unwrap()@),
        rows_wf(old(rows)@) ==> rows_wf(final(rows)@),
        keeps_complete(old(rows)@, final(rows)@),
{
    match find_apuracao(rows, id) {
        Some(i) => {
            if rows[i].state == ApuracaoState::Complete {
                return Ok(rows[i].results.duplicate());
            }
        },
        None => {},
    }
    apurar_complete(rows, ballots, roster, id, now)
}

/// What a reader of a week's ranking gets.
#[derive(Debug)]
pub enum WeekRanking {
    /// The results may be seen from the given instant on.
    NotYetPublished(i64),
    Published(Ranking),
}

/// The answer to a reader for what the tally gave.
pub open spec fn as_published(r: Result<Ranking, Error>) -> Result<WeekRanking, Error> {
    match r {
        Ok(ranking) => Ok(WeekRanking::Published(ranking)),
        Err(e) => Err(e),
    }
}

/// The ranking of week `week_id` for a reader at `now`. Before the week's
/// publication time the reader gets that time, and nothing is computed or
/// stored; from then on the stored ranking, computed at the first request.
pub fn week_ranking(
    rows: &mut Vec<Model>,
    ballots: &mut Vec<Ballot>,
    roster: &Vec<Player>,
    week_id: i32,
    now: i64,
) -> (r: Result<WeekRanking, Error>)
    ensures
        !is_published(ref_point_of_id(week_id as int), now as int) ==> {
            &&& r == Ok::<WeekRanking, Error>(
                WeekRanking::NotYetPublished(
                    publish_time_of(ref_point_of_id(week_id as int)) as i64,
                ),
            )
            &&& final(rows)@ == old(rows)@
            &&& final(ballots)@ == old(ballots)@
        },
        is_published(ref_point_of_id(week_id as int), now as int) ==> {
            &&& !(r matches Ok(WeekRanking::NotYetPublished(_)))
            &&& stored_ranking(old(rows)@, week_id) is Some ==> {
                &&& r matches Ok(WeekRanking::Published(ranking)) && ranking@ == stored_ranking(
                    old(rows)@,
                    week_id,
                ).unwrap()
                &&& final(rows)@ == old(rows)@
                &&& final(ballots)@ == old(ballots)@
            }
            &&& r matches Ok(WeekRanking::Published(ranking)) ==> stored_ranking(
                final(rows)@,
                week_id,
            ) == Some(ranking@)
            &&& stored_ranking(old(rows)@, week_id) is None ==> exists|
                token: Seq<char>,
                tally: Result<Ranking, Error>,
            |
                r == as_published(tally) && is_apurar_outcome(
                    old(rows)@,
                    final(rows)@,
                    old(ballots)@,
                    final(ballots)@,
                    roster@,
                    week_id,
                    now,
                    token,
                    tally,
                )
        },
        rows_wf(old(rows)@) ==> rows_wf(final(rows)@),
        keeps_complete(old(rows)@, final(rows)@),
{
    let ref_point = ref_point_from_id(week_id);
    if !publish_results_at(ref_point, now) {
        return Ok(WeekRanking::NotYetPublished(publish_time(ref_point)));
    }
    let tally = get_or_create_apuracao(rows, ballots, roster, week_id, now);
    let ghost given = tally;
    let r = match tally {
        Ok(ranking) => Ok(WeekRanking::Published(ranking)),
        Err(e) => Err(e),
    };
    assert(r == as_published(given));
    r
}

} // verus!
