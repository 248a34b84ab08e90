//! Who may be offered on a ballot: the registered players who attended an
//! event in the four weeks before the current week started, and those on the
//! extra list for that time.

use vstd::prelude::*;
use crate::player::Player;
use crate::timings::get_end_elegible_check;
use crate::timings::get_start_elegible_check;
use crate::timings::ref_point_of;
use crate::timings::start_elegible_check_of;
use crate::timings::valid_timestamp;

verus! {

/// A ticket to an event: the holder's email and the start of the event.
#[derive(Clone, Debug)]
pub struct Attendance {
    pub email: String,
    pub start_ts: i64,
}

/// A player put on the extra list by hand, at the instant `data`.
#[derive(Clone, Copy, Debug)]
pub struct ListaExtra {
    pub id: i32,
    pub jogador_id: i32,
    pub data: i64,
}

/// Someone with this email holds a ticket to an event that started between
/// `start` and `end`, both included.
pub open spec fn attended(attendance: Seq<Attendance>, email: Seq<char>, start: int, end: int)
    -> bool {
    exists|k: int|
        0 <= k < attendance.len() && (#[trigger] attendance[k]).email@ == email && start
            <= attendance[k].start_ts <= end
}

/// The player is on the extra list at an instant after `start` and before
/// `end`.
pub open spec fn listed(extra: Seq<ListaExtra>, id: i32, start: int, end: int) -> bool {
    exists|k: int|
        0 <= k < extra.len() && (#[trigger] extra[k]).jogador_id == id && start < extra[k].data
            < end
}

/// The player attended an event in the window or is on the extra list
/// inside it.
pub open spec fn is_elegible(
    p: Player,
    attendance: Seq<Attendance>,
    extra: Seq<ListaExtra>,
    start: int,
    end: int,
) -> bool {
    attended(attendance, p.email@, start, end) || listed(extra, p.id, start, end)
}

/// The ids of the eligible players among the first `n` of the roster, in
/// roster order.
pub open spec fn elegible_ids(
    roster: Seq<Player>,
    attendance: Seq<Attendance>,
    extra: Seq<ListaExtra>,
    start: int,
    end: int,
    n: int,
) -> Seq<i32>
    decreases n,
{
    if n <= 0 {
        Seq::empty()
    } else if is_elegible(roster[n - 1], attendance, extra, start, end) {
        elegible_ids(roster, attendance, extra, start, end, n - 1).push(roster[n - 1].id)
    } else {
        elegible_ids(roster, attendance, extra, start, end, n - 1)
    }
}

/// The eligible ids are the ids of the eligible roster players, no others.
pub proof fn elegible_ids_are_the_elegible(
    roster: Seq<Player>,
    attendance: Seq<Attendance>,
    extra: Seq<ListaExtra>,
    start: int,
    end: int,
    n: int,
    id: i32,
)
    requires
        0 <= n <= roster.len(),
    ensures
        elegible_ids(roster, attendance, extra, start, end, n).contains(id) <==> exists|k: int|
            0 <= k < n && (#[trigger] roster[k]).id == id && is_elegible(
                roster[k],
                attendance,
                extra,
                start,
                end,
            ),
        elegible_ids(roster, attendance, extra, start, end, n).len() <= n,
    decreases n,
{
    if n > 0 {
        elegible_ids_are_the_elegible(roster, attendance, extra, start, end, n - 1, id);
        let prev = elegible_ids(roster, attendance, extra, start, end, n - 1);
        let cur = elegible_ids(roster, attendance, extra, start, end, n);
        if is_elegible(roster[n - 1], attendance, extra, start, end) {
            assert(cur == prev.push(roster[n - 1].id));
            if cur.contains(id) {
                let i = choose|i: int| 0 <= i < cur.len() && cur[i] == id;
                if i < prev.len() {
                    assert(prev[i] == id);
                    assert(prev.contains(id));
                } else {
                    assert(roster[n - 1].id == id);
                }
            }
            if prev.contains(id) {
                let i = choose|i: int| 0 <= i < prev.len() && prev[i] == id;
                assert(cur[i] == id);
            }
            if roster[n - 1].id == id {
                assert(cur[prev.len() as int] == id);
            }
        }
    }
}

/// No two players of the roster share an id.
pub open spec fn distinct_ids(roster: Seq<Player>) -> bool {
    forall|i: int, j: int|
        0 <= i < j < roster.len() ==> (#[trigger] roster[i]).id != (#[trigger] roster[j]).id
}

/// The eligible players are a set: with a roster of distinct ids, no id is
/// listed twice, however often its player qualifies.
pub proof fn elegible_ids_are_distinct(
    roster: Seq<Player>,
    attendance: Seq<Attendance>,
    extra: Seq<ListaExtra>,
    start: int,
    end: int,
    n: int,
)
    requires
        0 <= n <= roster.len(),
        distinct_ids(roster),
    ensures
        elegible_ids(roster, attendance, extra, start, end, n).no_duplicates(),
    decreases n,
{
    if n > 0 {
        elegible_ids_are_distinct(roster, attendance, extra, start, end, n - 1);
        let prev = elegible_ids(roster, attendance, extra, start, end, n - 1);
        let id = roster[n - 1].id;
        elegible_ids_are_the_elegible(roster, attendance, extra, start, end, n - 1, id);
        if is_elegible(roster[n - 1], attendance, extra, start, end) {
            assert(!prev.contains(id));
            let cur = prev.push(id);
            assert forall|i: int, j: int| 0 <= i < cur.len() && 0 <= j < cur.len() && i
                != j implies cur[i] != cur[j] by {
                if i == prev.len() {
                    assert(prev[j] == cur[j]);
                    assert(prev.contains(prev[j]));
                } else if j == prev.len() {
                    assert(prev[i] == cur[i]);
                    assert(prev.contains(prev[i]));
                } else {
                    assert(prev[i] == cur[i] && prev[j] == cur[j]);
                }
            }
        }
    }
}

/// Whether someone with this email attended an event in the window.
pub fn attended_of(attendance: &Vec<Attendance>, email: &String, start: i64, end: i64) -> (r: bool)
    ensures
        r == attended(attendance@, email@, start as int, end as int),
{
    let mut k: usize = 0;
    while k < attendance.len()
        invariant
            k <= attendance.len(),
            forall|i: int|
                0 <= i < k ==> !((#[trigger] attendance@[i]).email@ == email@ && start
                    <= attendance@[i].start_ts <= end),
        decreases attendance.len() - k,
    {
        if attendance[k].email == *email && start <= attendance[k].start_ts
            && attendance[k].start_ts <= end {
            return true;
        }
        k += 1;
    }
    false
}

/// Whether the player is on the extra list inside the window.
pub fn listed_of(extra: &Vec<ListaExtra>, id: i32, start: i64, end: i64) -> (r: bool)
    ensures
        r == listed(extra@, id, start as int, end as int),
{
    let mut k: usize = 0;
    while k < extra.len()
        invariant
            k <= extra.len(),
            forall|i: int|
                0 <= i < k ==> !((#[trigger] extra@[i]).jogador_id == id && start < extra@[i].data
                    < end),
        decreases extra.len() - k,
    {
        if extra[k].jogador_id == id && start < extra[k].data && extra[k].data < end {
            return true;
        }
        k += 1;
    }
    false
}

/// The ids of the roster players who are eligible for the window from
/// `start` to `end`, in roster order.
pub fn elegible_players_between(
    roster: &Vec<Player>,
    attendance: &Vec<Attendance>,
    extra: &Vec<ListaExtra>,
    start: i64,
    end: i64,
) -> (ids: Vec<i32>)
    ensures
        ids@ == elegible_ids(
            roster@,
            attendance@,
            extra@,
            start as int,
            end as int,
            roster@.len() as int,
        ),
{
    let mut ids: Vec<i32> = Vec::new();
    let mut i: usize = 0;
    while i < roster.len()
        invariant
            i <= roster.len(),
            ids@ == elegible_ids(roster@, attendance@, extra@, start as int, end as int, i as int),
        decreases roster.len() - i,
    {
        if attended_of(attendance, &roster[i].email, start, end) || listed_of(
            extra,
            roster[i].id,
            start,
            end,
        ) {
            ids.push(roster[i].id);
        }
        i += 1;
    }
    ids
}

/// The ids of the players who may be offered on a ballot created at `now`:
/// those with a ticket to an event in the four weeks up to the start of the
/// current week, and those put on the extra list strictly inside that time.
/// The result is empty when nobody qualifies.
pub fn get_elegible_players(
    roster: &Vec<Player>,
    attendance: &Vec<Attendance>,
    extra: &Vec<ListaExtra>,
    now: i64,
) -> (ids: Vec<i32>)
    requires
        valid_timestamp(now as int),
    ensures
        ids@ == elegible_ids(
            roster@,
            attendance@,
            extra@,
            start_elegible_check_of(now as int),
            ref_point_of(now as int),
            roster@.len() as int,
        ),
{
    let start = get_start_elegible_check(now);
    let end = get_end_elegible_check(now);
    elegible_players_between(roster, attendance, extra, start, end)
}

/// The nicknames of the eligible players among the first `n` of the roster,
/// in roster order.
pub open spec fn elegible_apelidos(
    roster: Seq<Player>,
    attendance: Seq<Attendance>,
    extra: Seq<ListaExtra>,
    start: int,
    end: int,
    n: int,
) -> Seq<String>
    decreases n,
{
    if n <= 0 {
        Seq::empty()
    } else if is_elegible(roster[n - 1], attendance, extra, start, end) {
        elegible_apelidos(roster, attendance, extra, start, end, n - 1).push(
            roster[n - 1].apelido,
        )
    } else {
        elegible_apelidos(roster, attendance, extra, start, end, n - 1)
    }
}

/// The nicknames of the players who may be offered on a ballot created at
/// `now`, in roster order.
pub fn list_elegible_players(
    roster: &Vec<Player>,
    attendance: &Vec<Attendance>,
    extra: &Vec<ListaExtra>,
    now: i64,
) -> (apelidos: Vec<String>)
    requires
        valid_timestamp(now as int),
    ensures
        apelidos@ == elegible_apelidos(
            roster@,
            attendance@,
            extra@,
            start_elegible_check_of(now as int),
            ref_point_of(now as int),
            roster@.len() as int,
        ),
{
    let start = get_start_elegible_check(now);
    let end = get_end_elegible_check(now);
    let mut apelidos: Vec<String> = Vec::new();
    let mut i: usize = 0;
    while i < roster.len()
        invariant
            i <= roster.len(),
            apelidos@ == elegible_apelidos(
                roster@,
                attendance@,
                extra@,
                start as int,
                end as int,
                i as int,
            ),
        decreases roster.len() - i,
    {
        if attended_of(attendance, &roster[i].email, start, end) || listed_of(
            extra,
            roster[i].id,
            start,
            end,
        ) {
            apelidos.push(roster[i].apelido.clone());
        }
        i += 1;
    }
    apelidos
}

} // verus!
