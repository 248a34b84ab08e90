//! A ballot: the players offered to one voter for one week, and the ranked
//! vote once it has been cast.

use vstd::prelude::*;

verus! {

/// A ballot is created open and is closed exactly once, when its vote is
/// recorded or when the week is prepared for the tally.
#[derive(Clone, Copy, Debug, PartialEq, Eq, Structural)]
pub enum BallotState {
    Open,
    Closed,
}

/// One voter's ballot for one week.
#[derive(Clone, Debug)]
pub struct Ballot {
    pub id: i32,
    /// The players offered to the voter.
    pub players: Vec<i32>,
    /// The players the voter ranked, best first; empty until the vote is cast.
    pub vote: Vec<i32>,
    /// When the ballot was created.
    pub date: i64,
    pub voter: String,
    /// The week this ballot belongs to.
    pub fute_id: i32,
    pub state: BallotState,
}

/// A ballot as mathematical values.
pub struct BallotView {
    pub id: i32,
    pub players: Seq<i32>,
    pub vote: Seq<i32>,
    pub date: i64,
    pub voter: Seq<char>,
    pub fute_id: i32,
    pub state: BallotState,
}

impl View for Ballot {
    type V = BallotView;

    open spec fn view(&self) -> BallotView {
        BallotView {
            id: self.id,
            players: self.players@,
            vote: self.vote@,
            date: self.date,
            voter: self.voter@,
            fute_id: self.fute_id,
            state: self.state,
        }
    }
}

impl BallotView {
    /// A ballot enters the tally of `week` iff it belongs to that week and
    /// is closed.
    pub open spec fn counted(self, week: i32) -> bool {
        self.state == BallotState::Closed && self.fute_id == week
    }

    /// The vote is a ranking of offered players.
    pub open spec fn has_valid_vote(self) -> bool {
        is_ranking_of_offer(self.players, self.vote)
    }
}

/// `vote` is a ranking of players offered in `players`: every player of it
/// is offered, and none is ranked twice.
pub open spec fn is_ranking_of_offer(players: Seq<i32>, vote: Seq<i32>) -> bool {
    within_offer(players, vote) && vote.no_duplicates()
}

/// Every player of `vote` is among `players`.
pub open spec fn within_offer(players: Seq<i32>, vote: Seq<i32>) -> bool {
    forall|i: int| 0 <= i < vote.len() ==> players.contains(#[trigger] vote[i])
}

/// Whether `p` occurs in `v`.
pub fn contains_player(v: &Vec<i32>, p: i32) -> (r: bool)
    ensures
        r == v@.contains(p),
{
    let mut i: usize = 0;
    while i < v.len()
        invariant
            i <= v.len(),
            forall|k: int| 0 <= k < i ==> v@[k] != p,
        decreases v.len() - i,
    {
        if v[i] == p {
            return true;
        }
        i += 1;
    }
    false
}

/// Whether every player of `vote` is among `players`.
pub fn vote_within_offer_of(players: &Vec<i32>, vote: &Vec<i32>) -> (r: bool)
    ensures
        r == within_offer(players@, vote@),
{
    let mut i: usize = 0;
    while i < vote.len()
        invariant
            i <= vote.len(),
            forall|k: int| 0 <= k < i ==> players@.contains(#[trigger] vote@[k]),
        decreases vote.len() - i,
    {
        if !contains_player(players, vote[i]) {
            return false;
        }
        i += 1;
    }
    true
}

/// Whether no player occurs twice in `v`.
pub fn has_no_duplicates(v: &Vec<i32>) -> (r: bool)
    ensures
        r == v@.no_duplicates(),
{
    let mut i: usize = 0;
    while i < v.len()
        invariant
            i <= v.len(),
            forall|a: int, b: int| 0 <= a < b < i ==> v@[a] != v@[b],
        decreases v.len() - i,
    {
        let mut j: usize = 0;
        while j < i
            invariant
                j <= i,
                i < v.len(),
                forall|a: int| 0 <= a < j ==> v@[a] != v@[i as int],
            decreases i - j,
        {
            if v[j] == v[i] {
                return false;
            }
            j += 1;
        }
        i += 1;
    }
    true
}

/// Whether `vote` is a ranking of players offered in `players`.
pub fn is_ranking_of_offer_of(players: &Vec<i32>, vote: &Vec<i32>) -> (r: bool)
    ensures
        r == is_ranking_of_offer(players@, vote@),
{
    vote_within_offer_of(players, vote) && has_no_duplicates(vote)
}

} // verus!
