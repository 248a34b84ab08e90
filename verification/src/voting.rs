//! The life of a ballot: created open for one voter and one week, closed
//! once when the voter casts a ranked vote, or when the week is prepared for
//! its tally.

use vstd::prelude::*;
use crate::ballot::Ballot;
use crate::ballot::BallotState;
use crate::ballot::BallotView;
use crate::ballot::is_ranking_of_offer;
use crate::ballot::is_ranking_of_offer_of;
use crate::error::Error;
use crate::list::Jogador;
use crate::player::Player;
use crate::timings::can_cast_vote_at;
use crate::timings::can_create_ballot;
use crate::timings::end_create_ballot_of;
use crate::timings::in_voting_window;
use crate::timings::ref_point_from_id;
use crate::timings::ref_point_id;
use crate::timings::ref_point_of_id;
use crate::timings::valid_timestamp;
use crate::timings::week_id_of;

verus! {

/// Ballot `b` is closed, and nothing else about it has changed.
pub open spec fn closed_copy(b: BallotView) -> BallotView {
    BallotView { state: BallotState::Closed, ..b }
}

/// Ballot `b` after the week `id` has been prepared for its tally.
pub open spec fn prepared(b: BallotView, id: i32) -> BallotView {
    if b.fute_id == id {
        closed_copy(b)
    } else {
        b
    }
}

/// Preparing a week twice is the same as preparing it once.
pub proof fn prepare_is_idempotent(b: BallotView, id: i32)
    ensures
        prepared(prepared(b, id), id) == prepared(b, id),
{
}

/// The views of the ballots of `s`.
pub open spec fn ballot_views(s: Seq<Ballot>) -> Seq<BallotView> {
    Seq::new(s.len(), |j: int| s[j]@)
}

/// Closes every open ballot of week `id`, so that ballots that were never
/// submitted do not hold up the tally. Closed ballots stay as they are.
pub fn prepare_apurar(ballots: &mut Vec<Ballot>, id: i32)
    ensures
        final(ballots)@.len() == old(ballots)@.len(),
        forall|j: int|
            0 <= j < old(ballots)@.len() ==> (#[trigger] final(ballots)@[j])@ == prepared(
                old(ballots)@[j]@,
                id,
            ),
        ballots_wf(old(ballots)@) ==> ballots_wf(final(ballots)@),
{
    let mut j: usize = 0;
    while j < ballots.len()
        invariant
            j <= ballots.len(),
            ballots@.len() == old(ballots)@.len(),
            forall|k: int|
                0 <= k < j ==> (#[trigger] ballots@[k])@ == prepared(old(ballots)@[k]@, id),
            forall|k: int| j <= k < ballots@.len() ==> (#[trigger] ballots@[k]) == old(ballots)@[k],
        decreases ballots.len() - j,
    {
        if ballots[j].fute_id == id && ballots[j].state == BallotState::Open {
            ballots[j].state = BallotState::Closed;
        }
        j += 1;
    }
}

/// The number of players offered on a new ballot, and the least number of
/// eligible players with which one is created.
pub const BALLOT_SIZE: usize = 5;

/// The ballot that a request to vote leads to.
#[derive(Clone, Copy, Debug, PartialEq, Eq, Structural)]
pub enum BallotRef {
    /// The voter's open ballot of this week, which was there already.
    Existing(i32),
    /// A ballot that was created for the request.
    Created(i32),
}

/// Ballot ids are unique, and no voter has two open ballots in one week.
pub open spec fn ballots_wf(ballots: Seq<Ballot>) -> bool {
    &&& forall|i: int, j: int|
        0 <= i < j < ballots.len() ==> (#[trigger] ballots[i]).id != (#[trigger] ballots[j]).id
    &&& forall|i: int, j: int|
        0 <= i < j < ballots.len() && is_open_for(
            (#[trigger] ballots[i])@,
            (#[trigger] ballots[j])@.voter,
            ballots[j]@.fute_id,
        ) ==> ballots[j]@.state != BallotState::Open
}

/// `b` is the open ballot of `voter` for `week`.
pub open spec fn is_open_for(b: BallotView, voter: Seq<char>, week: i32) -> bool {
    b.state == BallotState::Open && b.fute_id == week && b.voter == voter
}

/// The first of the first `n` ballots that is open for `voter` and `week`.
pub open spec fn first_open(ballots: Seq<Ballot>, voter: Seq<char>, week: i32, n: int) -> Option<
    int,
>
    decreases n,
{
    if n <= 0 {
        None
    } else {
        match first_open(ballots, voter, week, n - 1) {
            Some(i) => Some(i),
            None => if is_open_for(ballots[n - 1]@, voter, week) {
                Some(n - 1)
            } else {
                None
            },
        }
    }
}

/// The first of the first `n` ballots that has the id `id`.
pub open spec fn first_with_id(ballots: Seq<Ballot>, id: i32, n: int) -> Option<int>
    decreases n,
{
    if n <= 0 {
        None
    } else {
        match first_with_id(ballots, id, n - 1) {
            Some(i) => Some(i),
            None => if ballots[n - 1].id == id {
                Some(n - 1)
            } else {
                None
            },
        }
    }
}

/// The largest id among the first `n` ballots, and at least 0.
pub open spec fn max_id(ballots: Seq<Ballot>, n: int) -> int
    decreases n,
{
    if n <= 0 {
        0
    } else if ballots[n - 1].id > max_id(ballots, n - 1) {
        ballots[n - 1].id as int
    } else {
        max_id(ballots, n - 1)
    }
}

proof fn lemma_first_open_stays(ballots: Seq<Ballot>, voter: Seq<char>, week: i32, m: int, n: int)
    requires
        0 <= m <= n,
        first_open(ballots, voter, week, m) is Some,
    ensures
        first_open(ballots, voter, week, n) == first_open(ballots, voter, week, m),
    decreases n,
{
    if m < n {
        lemma_first_open_stays(ballots, voter, week, m, n - 1);
    }
}

proof fn lemma_first_with_id_stays(ballots: Seq<Ballot>, id: i32, m: int, n: int)
    requires
        0 <= m <= n,
        first_with_id(ballots, id, m) is Some,
    ensures
        first_with_id(ballots, id, n) == first_with_id(ballots, id, m),
    decreases n,
{
    if m < n {
        lemma_first_with_id_stays(ballots, id, m, n - 1);
    }
}

/// Without a first open ballot there is no open ballot at all.
pub proof fn lemma_first_open_none(ballots: Seq<Ballot>, voter: Seq<char>, week: i32, n: int)
    requires
        0 <= n <= ballots.len(),
        first_open(ballots, voter, week, n) is None,
    ensures
        forall|k: int| 0 <= k < n ==> !is_open_for((#[trigger] ballots[k])@, voter, week),
    decreases n,
{
    if n > 0 {
        lemma_first_open_none(ballots, voter, week, n - 1);
    }
}

/// No ballot has an id above the largest one.
pub proof fn lemma_max_id(ballots: Seq<Ballot>, n: int)
    requires
        0 <= n <= ballots.len(),
    ensures
        0 <= max_id(ballots, n) <= i32::MAX,
        forall|k: int| 0 <= k < n ==> (#[trigger] ballots[k]).id <= max_id(ballots, n),
    decreases n,
{
    if n > 0 {
        lemma_max_id(ballots, n - 1);
    }
}

/// The voter's open ballot for `week`, if there is one.
pub fn find_open_ballot(ballots: &Vec<Ballot>, voter: &String, week: i32) -> (r: Option<usize>)
    ensures
        r is Some == first_open(ballots@, voter@, week, ballots@.len() as int) is Some,
        r is Some ==> r.unwrap() == first_open(
            ballots@,
            voter@,
            week,
            ballots@.len() as int,
        ).unwrap(),
        r is Some ==> r.unwrap() < ballots@.len() && is_open_for(
            ballots@[r.unwrap() as int]@,
            voter@,
            week,
        ),
{
    let mut j: usize = 0;
    while j < ballots.len()
        invariant
            j <= ballots.len(),
            first_open(ballots@, voter@, week, j as int) is None,
        decreases ballots.len() - j,
    {
        if ballots[j].state == BallotState::Open && ballots[j].fute_id == week && ballots[j].voter
            == *voter {
            proof {
                lemma_first_open_stays(ballots@, voter@, week, j as int + 1, ballots@.len() as int);
            }
            return Some(j);
        }
        j += 1;
    }
    None
}

/// The ballot with the id `id`, if there is one.
pub fn find_ballot(ballots: &Vec<Ballot>, id: i32) -> (r: Option<usize>)
    ensures
        r is Some == first_with_id(ballots@, id, ballots@.len() as int) is Some,
        r is Some ==> r.unwrap() == first_with_id(ballots@, id, ballots@.len() as int).unwrap(),
        r is Some ==> r.unwrap() < ballots@.len() && ballots@[r.unwrap() as int].id == id,
{
    let mut j: usize = 0;
    while j < ballots.len()
        invariant
            j <= ballots.len(),
            first_with_id(ballots@, id, j as int) is None,
        decreases ballots.len() - j,
    {
        if ballots[j].id == id {
            proof {
                lemma_first_with_id_stays(ballots@, id, j as int + 1, ballots@.len() as int);
            }
            return Some(j);
        }
        j += 1;
    }
    None
}

/// The largest ballot id in use, and at least 0.
pub fn max_id_of(ballots: &Vec<Ballot>) -> (m: i32)
    ensures
        m == max_id(ballots@, ballots@.len() as int),
{
    let mut m: i32 = 0;
    let mut j: usize = 0;
    while j < ballots.len()
        invariant
            j <= ballots.len(),
            m == max_id(ballots@, j as int),
        decreases ballots.len() - j,
    {
        if ballots[j].id > m {
            m = ballots[j].id;
        }
        j += 1;
    }
    m
}

/// The ballot that `insert_ballot` adds.
pub open spec fn new_ballot(
    ballots: Seq<Ballot>,
    voter: Seq<char>,
    players: Seq<i32>,
    week: i32,
    now: i64,
) -> BallotView {
    BallotView {
        id: (max_id(ballots, ballots.len() as int) + 1) as i32,
        players: players,
        vote: Seq::empty(),
        date: now,
        voter: voter,
        fute_id: week,
        state: BallotState::Open,
    }
}

/// Adds an open ballot for `voter` and `week` that offers `players`, under
/// the id after the largest one in use. Fails with `StorageError`, and adds
/// nothing, when no id is left.
pub fn insert_ballot(
    ballots: &mut Vec<Ballot>,
    voter: &String,
    players: Vec<i32>,
    week: i32,
    now: i64,
) -> (r: Result<BallotRef, Error>)
    ensures
        max_id(old(ballots)@, old(ballots)@.len() as int) == i32::MAX ==> r == Err::<
            BallotRef,
            Error,
        >(Error::StorageError) && final(ballots)@ == old(ballots)@,
        max_id(old(ballots)@, old(ballots)@.len() as int) < i32::MAX ==> {
            &&& r == Ok::<BallotRef, Error>(
                BallotRef::Created(new_ballot(old(ballots)@, voter@, players@, week, now).id),
            )
            &&& final(ballots)@.len() == old(ballots)@.len() + 1
            &&& final(ballots)@.subrange(0, old(ballots)@.len() as int) == old(ballots)@
            &&& final(ballots)@.last()@ == new_ballot(old(ballots)@, voter@, players@, week, now)
        },
{
    let m = max_id_of(ballots);
    if m == i32::MAX {
        return Err(Error::StorageError);
    }
    proof {
        lemma_max_id(ballots@, ballots@.len() as int);
    }
    let id: i32 = m + 1;
    let b = Ballot {
        id: id,
        players: players,
        vote: Vec::new(),
        date: now,
        voter: voter.clone(),
        fute_id: week,
        state: BallotState::Open,
    };
    ballots.push(b);
    assert(ballots@.subrange(0, old(ballots)@.len() as int) =~= old(ballots)@);
    Ok(BallotRef::Created(id))
}

/// Calls `rand::seq::SliceRandom::choose_multiple` on the slice, with the
/// thread's generator, and collects copies of the chosen items. The
/// contract claims what the crate documents of every draw: it picks
/// `amount` places of the slice, or all of them if there are fewer, and no
/// place twice.
#[verifier::external_body]
fn draw_players(eligible: &Vec<i32>, amount: usize) -> (drawn: Vec<i32>)
    ensures
        drawn@.len() == (if amount <= eligible@.len() {
            amount as int
        } else {
            eligible@.len() as int
        }),
        drawn@.to_multiset().subset_of(eligible@.to_multiset()),
{
    rand::seq::SliceRandom::choose_multiple(
        eligible.as_slice(),
        &mut rand::thread_rng(),
        amount,
    ).cloned().collect()
}

/// What `voting_create` does with the ballots `before`, leaving `after`.
pub open spec fn is_create_outcome(
    before: Seq<Ballot>,
    after: Seq<Ballot>,
    voter: Seq<char>,
    eligible: Seq<i32>,
    now: i64,
    r: Result<BallotRef, Error>,
) -> bool {
    let week = week_id_of(now as int) as i32;
    match first_open(before, voter, week, before.len() as int) {
        Some(i) => r == Ok::<BallotRef, Error>(BallotRef::Existing(before[i].id)) && after
            == before,
        None => if now >= end_create_ballot_of(now as int) {
            r == Err::<BallotRef, Error>(Error::Conflict) && after == before
        } else if eligible.len() < BALLOT_SIZE {
            r == Err::<BallotRef, Error>(Error::Conflict) && after == before
        } else if max_id(before, before.len() as int) == i32::MAX {
            r == Err::<BallotRef, Error>(Error::StorageError) && after == before
        } else {
            &&& r == Ok::<BallotRef, Error>(
                BallotRef::Created((max_id(before, before.len() as int) + 1) as i32),
            )
            &&& after.len() == before.len() + 1
            &&& after.subrange(0, before.len() as int) == before
            &&& after.last()@ == new_ballot(before, voter, after.last()@.players, week, now)
            &&& after.last()@.players.len() == BALLOT_SIZE
            &&& after.last()@.players.to_multiset().subset_of(eligible.to_multiset())
            &&& forall|k: int|
                0 <= k < BALLOT_SIZE ==> eligible.contains(#[trigger] after.last()@.players[k])
            &&& eligible.no_duplicates() ==> after.last()@.players.no_duplicates()
        },
    }
}

/// The id that a ballot reference holds.
pub open spec fn ballot_ref_id(r: BallotRef) -> i32 {
    match r {
        BallotRef::Existing(id) => id,
        BallotRef::Created(id) => id,
    }
}

/// `r` refers to the first open ballot of `voter` for `week`.
pub open spec fn is_open_ref(ballots: Seq<Ballot>, voter: Seq<char>, week: i32, r: BallotRef)
    -> bool {
    match first_open(ballots, voter, week, ballots.len() as int) {
        Some(i) => 0 <= i < ballots.len() && ballots[i].id == ballot_ref_id(r),
        None => false,
    }
}

proof fn lemma_first_open_same_prefix(
    a: Seq<Ballot>,
    b: Seq<Ballot>,
    voter: Seq<char>,
    week: i32,
    n: int,
)
    requires
        0 <= n <= a.len(),
        n <= b.len(),
        forall|k: int| 0 <= k < n ==> (#[trigger] a[k]) == (#[trigger] b[k]),
    ensures
        first_open(a, voter, week, n) == first_open(b, voter, week, n),
    decreases n,
{
    if n > 0 {
        lemma_first_open_same_prefix(a, b, voter, week, n - 1);
    }
}

/// Leads `voter` to a ballot for the week of `now`: to the open one that the
/// voter has already, else to a new one that offers five players drawn at
/// random, without repetition, from `eligible`. A new ballot is refused
/// with `Conflict` in the last half hour of the week and with fewer than
/// five eligible players.
pub fn voting_create(ballots: &mut Vec<Ballot>, voter: &String, eligible: &Vec<i32>, now: i64) -> (r:
    Result<BallotRef, Error>)
    requires
        valid_timestamp(now as int),
    ensures
        is_create_outcome(old(ballots)@, final(ballots)@, voter@, eligible@, now, r),
        r is Ok ==> is_open_ref(
            final(ballots)@,
            voter@,
            week_id_of(now as int) as i32,
            r.unwrap(),
        ),
        ballots_wf(old(ballots)@) ==> ballots_wf(final(ballots)@),
{
    let week: i32 = ref_point_id(now);
    match find_open_ballot(ballots, voter, week) {
        Some(i) => {
            return Ok(BallotRef::Existing(ballots[i].id));
        },
        None => {},
    }
    if !can_create_ballot(now) {
        return Err(Error::Conflict);
    }
    if eligible.len() < BALLOT_SIZE {
        return Err(Error::Conflict);
    }
    let players = draw_players(eligible, BALLOT_SIZE);
    proof {
        players@.to_multiset_ensures();
        eligible@.to_multiset_ensures();
        assert forall|k: int| 0 <= k < BALLOT_SIZE implies eligible@.contains(
            #[trigger] players@[k],
        ) by {
            assert(players@.contains(players@[k]));
            assert(players@.to_multiset().count(players@[k]) > 0);
        }
        if eligible@.no_duplicates() {
            eligible@.lemma_multiset_has_no_duplicates();
            assert forall|x: i32| players@.to_multiset().contains(x) implies players@.to_multiset(
            ).count(x) == 1 by {
                assert(players@.to_multiset().count(x) <= eligible@.to_multiset().count(x));
                assert(eligible@.to_multiset().contains(x));
            }
            players@.lemma_multiset_has_no_duplicates_conv();
        }
        lemma_first_open_none(ballots@, voter@, week, ballots@.len() as int);
        lemma_max_id(ballots@, ballots@.len() as int);
    }
    let r = insert_ballot(ballots, voter, players, week, now);
    proof {
        if r is Ok {
            let n = old(ballots)@.len() as int;
            assert forall|k: int| 0 <= k < n implies old(ballots)@[k] == ballots@[k] by {
                assert(ballots@.subrange(0, n)[k] == ballots@[k]);
            }
            assert(ballots@[n] == ballots@.last());
            lemma_first_open_same_prefix(old(ballots)@, ballots@, voter@, week, n);
            assert(first_open(ballots@, voter@, week, n + 1) == Some(n));
        }
    }
    r
}

/// Why a vote on ballot `ballot_id` by `voter` at `now` is refused before
/// the vote itself is looked at.
pub open spec fn vote_refusal(ballots: Seq<Ballot>, ballot_id: i32, voter: Seq<char>, now: i64)
    -> Option<Error> {
    match first_with_id(ballots, ballot_id, ballots.len() as int) {
        None => Some(Error::NotFound),
        Some(i) => if ballots[i]@.voter != voter {
            Some(Error::Forbidden)
        } else if ballots[i]@.state != BallotState::Open {
            Some(Error::Conflict)
        } else if !in_voting_window(ref_point_of_id(ballots[i]@.fute_id as int), now as int) {
            Some(Error::Conflict)
        } else {
            None
        },
    }
}

/// Ballot `b` with the vote `ranked` recorded.
pub open spec fn voted_copy(b: BallotView, ranked: Seq<i32>) -> BallotView {
    BallotView { vote: ranked, state: BallotState::Closed, ..b }
}

/// What `cast_vote` does with the ballots `before`, leaving `after`.
pub open spec fn is_cast_outcome(
    before: Seq<Ballot>,
    after: Seq<Ballot>,
    ballot_id: i32,
    voter: Seq<char>,
    ranked: Seq<i32>,
    now: i64,
    r: Result<(), Error>,
) -> bool {
    match vote_refusal(before, ballot_id, voter, now) {
        Some(e) => r == Err::<(), Error>(e) && after == before,
        None => {
            let i = first_with_id(before, ballot_id, before.len() as int).unwrap();
            if !is_ranking_of_offer(before[i]@.players, ranked) {
                r == Err::<(), Error>(Error::ValidationError) && after == before
            } else {
                &&& r == Ok::<(), Error>(())
                &&& after.len() == before.len()
                &&& after[i]@ == voted_copy(before[i]@, ranked)
                &&& forall|k: int| 0 <= k < before.len() && k != i ==> after[k] == before[k]
            }
        },
    }
}

/// Checks that `voter` may vote on ballot `ballot_id` at `now`, and finds
/// the ballot.
pub fn check_can_vote(ballots: &Vec<Ballot>, ballot_id: i32, voter: &String, now: i64) -> (r:
    Result<usize, Error>)
    ensures
        match r {
            Ok(i) => vote_refusal(ballots@, ballot_id, voter@, now) is None && Some(i as int)
                == first_with_id(ballots@, ballot_id, ballots@.len() as int) && i < ballots@.len(),
            Err(e) => vote_refusal(ballots@, ballot_id, voter@, now) == Some(e),
        },
{
    let i: usize = match find_ballot(ballots, ballot_id) {
        Some(i) => i,
        None => {
            return Err(Error::NotFound);
        },
    };
    if !(ballots[i].voter == *voter) {
        return Err(Error::Forbidden);
    }
    if ballots[i].state != BallotState::Open {
        return Err(Error::Conflict);
    }
    let rf = ref_point_from_id(ballots[i].fute_id);
    if !can_cast_vote_at(rf, now) {
        return Err(Error::Conflict);
    }
    Ok(i)
}

/// Records the ranked vote of `voter` on the open ballot `ballot_id` and
/// closes the ballot. The vote is refused, and nothing changes, when there
/// is no such ballot (`NotFound`), it is another voter's (`Forbidden`), it
/// is not open or its week is not the current one (`Conflict`), or `ranked`
/// names a player that the ballot does not offer, or one player twice
/// (`ValidationError`).
pub fn cast_vote(
    ballots: &mut Vec<Ballot>,
    ballot_id: i32,
    voter: &String,
    ranked: Vec<i32>,
    now: i64,
) -> (r: Result<(), Error>)
    ensures
        is_cast_outcome(old(ballots)@, final(ballots)@, ballot_id, voter@, ranked@, now, r),
        ballots_wf(old(ballots)@) ==> ballots_wf(final(ballots)@),
{
    let i: usize = match check_can_vote(ballots, ballot_id, voter, now) {
        Ok(i) => i,
        Err(e) => {
            return Err(e);
        },
    };
    if !is_ranking_of_offer_of(&ballots[i].players, &ranked) {
        return Err(Error::ValidationError);
    }
    ballots[i].vote = ranked;
    ballots[i].state = BallotState::Closed;
    Ok(())
}

/// What `str::parse::<i32>` makes of a string.
pub uninterp spec fn parsed_i32(s: Seq<char>) -> Option<i32>;

/// Calls `str::parse::<i32>`, which reads a decimal number with an optional
/// sign. The contract names the result and claims nothing more of it.
#[verifier::external_body]
fn parse_player_id(s: &String) -> (r: Option<i32>)
    ensures
        r == parsed_i32(s@),
{
    s.parse::<i32>().ok()
}

/// The first `n` strings as player ids, unless one of them is no number.
pub open spec fn parsed_vote(players: Seq<String>, n: int) -> Option<Seq<i32>>
    decreases n,
{
    if n <= 0 {
        Some(Seq::empty())
    } else {
        match (parsed_vote(players, n - 1), parsed_i32(players[n - 1]@)) {
            (Some(s), Some(id)) => Some(s.push(id)),
            _ => None,
        }
    }
}

proof fn lemma_parsed_vote_stays_none(players: Seq<String>, m: int, n: int)
    requires
        0 <= m <= n,
        parsed_vote(players, m) is None,
    ensures
        parsed_vote(players, n) is None,
    decreases n,
{
    if m < n {
        lemma_parsed_vote_stays_none(players, m, n - 1);
    }
}

/// Reads every string as a player id.
pub fn parse_vote(players: &Vec<String>) -> (r: Option<Vec<i32>>)
    ensures
        r is Some == parsed_vote(players@, players@.len() as int) is Some,
        r is Some ==> r.unwrap()@ == parsed_vote(players@, players@.len() as int).unwrap(),
{
    let mut ids: Vec<i32> = Vec::new();
    let mut j: usize = 0;
    while j < players.len()
        invariant
            j <= players.len(),
            parsed_vote(players@, j as int) == Some(ids@),
        decreases players.len() - j,
    {
        match parse_player_id(&players[j]) {
            Some(id) => {
                ids.push(id);
            },
            None => {
                proof {
                    lemma_parsed_vote_stays_none(players@, j as int + 1, players@.len() as int);
                }
                return None;
            },
        }
        j += 1;
    }
    Some(ids)
}

/// What `vote_submit` does with the ballots `before`, leaving `after`.
pub open spec fn is_submit_outcome(
    before: Seq<Ballot>,
    after: Seq<Ballot>,
    ballot_id: i32,
    voter: Seq<char>,
    players: Seq<String>,
    now: i64,
    r: Result<(), Error>,
) -> bool {
    match vote_refusal(before, ballot_id, voter, now) {
        Some(e) => r == Err::<(), Error>(e) && after == before,
        None => match parsed_vote(players, players.len() as int) {
            None => r == Err::<(), Error>(Error::ValidationError) && after == before,
            Some(ranked) => is_cast_outcome(before, after, ballot_id, voter, ranked, now, r),
        },
    }
}

/// Casts the vote that arrived as text: reads each string as a player id
/// and records the ranking on the ballot. A string that is no number is
/// refused with `ValidationError`, after the checks on the ballot itself.
pub fn vote_submit(
    ballots: &mut Vec<Ballot>,
    ballot_id: i32,
    voter: &String,
    players: &Vec<String>,
    now: i64,
) -> (r: Result<(), Error>)
    ensures
        is_submit_outcome(old(ballots)@, final(ballots)@, ballot_id, voter@, players@, now, r),
        ballots_wf(old(ballots)@) ==> ballots_wf(final(ballots)@),
{
    match check_can_vote(ballots, ballot_id, voter, now) {
        Ok(_) => {},
        Err(e) => {
            return Err(e);
        },
    }
    match parse_vote(players) {
        Some(ranked) => cast_vote(ballots, ballot_id, voter, ranked, now),
        None => Err(Error::ValidationError),
    }
}

/// The first of the first `n` roster players that has the id `id`.
pub open spec fn first_player(roster: Seq<Player>, id: i32, n: int) -> Option<int>
    decreases n,
{
    if n <= 0 {
        None
    } else {
        match first_player(roster, id, n - 1) {
            Some(i) => Some(i),
            None => if roster[n - 1].id == id {
                Some(n - 1)
            } else {
                None
            },
        }
    }
}

proof fn lemma_first_player_stays(roster: Seq<Player>, id: i32, m: int, n: int)
    requires
        0 <= m <= n,
        first_player(roster, id, m) is Some,
    ensures
        first_player(roster, id, n) == first_player(roster, id, m),
    decreases n,
{
    if m < n {
        lemma_first_player_stays(roster, id, m, n - 1);
    }
}

/// The roster player with the id `id`, if there is one.
pub fn find_player(roster: &Vec<Player>, id: i32) -> (r: Option<usize>)
    ensures
        r is Some == first_player(roster@, id, roster@.len() as int) is Some,
        r is Some ==> r.unwrap() == first_player(roster@, id, roster@.len() as int).unwrap(),
        r is Some ==> r.unwrap() < roster@.len() && roster@[r.unwrap() as int].id == id,
{
    let mut j: usize = 0;
    while j < roster.len()
        invariant
            j <= roster.len(),
            first_player(roster@, id, j as int) is None,
        decreases roster.len() - j,
    {
        if roster[j].id == id {
            proof {
                lemma_first_player_stays(roster@, id, j as int + 1, roster@.len() as int);
            }
            return Some(j);
        }
        j += 1;
    }
    None
}

/// `list` shows the roster players with the ids `ids`, in that order.
pub open spec fn shows_players(roster: Seq<Player>, ids: Seq<i32>, list: Seq<Jogador>) -> bool {
    &&& list.len() == ids.len()
    &&& forall|k: int|
        0 <= k < ids.len() ==> {
            let found = first_player(roster, ids[k], roster.len() as int);
            &&& found is Some
            &&& (#[trigger] list[k]).id == ids[k]
            &&& list[k].nome == roster[found.unwrap()].nome
            &&& list[k].apelido == roster[found.unwrap()].apelido
        }
}

/// Every id of `ids` is the id of a roster player.
pub open spec fn all_registered(roster: Seq<Player>, ids: Seq<i32>) -> bool {
    forall|k: int|
        0 <= k < ids.len() ==> first_player(roster, #[trigger] ids[k], roster.len() as int) is Some
}

/// The players with the ids `ids` as they are shown in lists; `NotFound`
/// if one of the ids is not on the roster.
pub fn players_of(roster: &Vec<Player>, ids: &Vec<i32>) -> (r: Result<Vec<Jogador>, Error>)
    ensures
        match r {
            Ok(list) => all_registered(roster@, ids@) && shows_players(roster@, ids@, list@),
            Err(e) => e == Error::NotFound && !all_registered(roster@, ids@),
        },
{
    let mut list: Vec<Jogador> = Vec::new();
    let mut k: usize = 0;
    while k < ids.len()
        invariant
            k <= ids.len(),
            all_registered(roster@, ids@.take(k as int)),
            shows_players(roster@, ids@.take(k as int), list@),
        decreases ids.len() - k,
    {
        match find_player(roster, ids[k]) {
            Some(i) => {
                list.push(
                    Jogador {
                        id: roster[i].id,
                        nome: roster[i].nome.clone(),
                        apelido: roster[i].apelido.clone(),
                    },
                );
            },
            None => {
                return Err(Error::NotFound);
            },
        }
        k += 1;
    }
    assert(ids@.take(ids@.len() as int) =~= ids@);
    Ok(list)
}

/// The ballot `ballot_id` as its voter may see it: `NotFound` without such
/// a ballot, `Forbidden` for anyone but its voter.
pub open spec fn ballot_for_voter(ballots: Seq<Ballot>, ballot_id: i32, voter: Seq<char>)
    -> Result<int, Error> {
    match first_with_id(ballots, ballot_id, ballots.len() as int) {
        None => Err(Error::NotFound),
        Some(i) => if ballots[i]@.voter != voter {
            Err(Error::Forbidden)
        } else {
            Ok(i)
        },
    }
}

/// What `vote` and `vote_success` give for the ids `ids` of the ballot.
pub open spec fn is_players_outcome(
    roster: Seq<Player>,
    ids: Seq<i32>,
    r: Result<Vec<Jogador>, Error>,
) -> bool {
    match r {
        Ok(list) => all_registered(roster, ids) && shows_players(roster, ids, list@),
        Err(e) => e == Error::NotFound && !all_registered(roster, ids),
    }
}

fn find_ballot_for_voter(ballots: &Vec<Ballot>, ballot_id: i32, voter: &String) -> (r: Result<
    usize,
    Error,
>)
    ensures
        match r {
            Ok(i) => ballot_for_voter(ballots@, ballot_id, voter@) == Ok::<int, Error>(i as int)
                && i < ballots@.len(),
            Err(e) => ballot_for_voter(ballots@, ballot_id, voter@) == Err::<int, Error>(e),
        },
{
    match find_ballot(ballots, ballot_id) {
        None => Err(Error::NotFound),
        Some(i) => if !(ballots[i].voter == *voter) {
            Err(Error::Forbidden)
        } else {
            Ok(i)
        },
    }
}

/// The players offered on ballot `ballot_id`, for its voter to rank. The
/// ballot is shown to its voter only.
pub fn vote(ballots: &Vec<Ballot>, roster: &Vec<Player>, ballot_id: i32, voter: &String) -> (r:
    Result<Vec<Jogador>, Error>)
    ensures
        match ballot_for_voter(ballots@, ballot_id, voter@) {
            Err(e) => r matches Err(x) && x == e,
            Ok(i) => is_players_outcome(roster@, ballots@[i]@.players, r),
        },
{
    match find_ballot_for_voter(ballots, ballot_id, voter) {
        Err(e) => Err(e),
        Ok(i) => players_of(roster, &ballots[i].players),
    }
}

/// The players that the voter ranked on ballot `ballot_id`, best first. The
/// ballot is shown to its voter only.
pub fn vote_success(ballots: &Vec<Ballot>, roster: &Vec<Player>, ballot_id: i32, voter: &String)
    -> (r: Result<Vec<Jogador>, Error>)
    ensures
        match ballot_for_voter(ballots@, ballot_id, voter@) {
            Err(e) => r matches Err(x) && x == e,
            Ok(i) => is_players_outcome(roster@, ballots@[i]@.vote, r),
        },
{
    match find_ballot_for_voter(ballots, ballot_id, voter) {
        Err(e) => Err(e),
        Ok(i) => players_of(roster, &ballots[i].vote),
    }
}

} // verus!
