//! The weekly calendar: every week starts at an instant aligned with a fixed
//! anchor, and the windows for eligibility, ballot creation, voting and
//! publication are offsets from that instant. Instants are whole seconds
//! since the Unix epoch, in UTC.

use vstd::prelude::*;

verus! {

/// Length of one voting cycle.
pub const WEEK_IN_SECONDS: i64 = 604800;

/// 2023-06-04 19:00:00 UTC, the start of week 0.
pub const FIRST_REF_POINT: i64 = 1685905200;

/// No ballot is created in the last half hour of a week.
pub const HALF_HOUR_IN_SECONDS: i64 = 1800;

/// Results are shown ninety minutes after the week's voting has ended.
pub const PUBLISH_DELAY_IN_SECONDS: i64 = 5400;

/// Activity in the last four weeks makes a player eligible.
pub const ELEGIBLE_WEEKS: i64 = 4;

/// The start of the week that holds `t`: the latest anchor-aligned instant
/// that is not after `t`.
pub open spec fn ref_point_of(t: int) -> int {
    t - ((t - FIRST_REF_POINT as int) % (WEEK_IN_SECONDS as int))
}

/// The index of the week that holds `t`; week 0 starts at the anchor.
pub open spec fn week_id_of(t: int) -> int {
    (ref_point_of(t) - FIRST_REF_POINT as int) / (WEEK_IN_SECONDS as int)
}

/// The start of week `id`.
pub open spec fn ref_point_of_id(id: int) -> int {
    FIRST_REF_POINT as int + id * (WEEK_IN_SECONDS as int)
}

/// The start of the eligibility window at `t`: four weeks before the start
/// of the week of `t`, where the window ends.
pub open spec fn start_elegible_check_of(t: int) -> int {
    ref_point_of(t) - ELEGIBLE_WEEKS as int * (WEEK_IN_SECONDS as int)
}

/// The instant from which no ballot is created in the week of `t`.
pub open spec fn end_create_ballot_of(t: int) -> int {
    ref_point_of(t) + WEEK_IN_SECONDS as int - HALF_HOUR_IN_SECONDS as int
}

/// The end of the week of `t`, from which no vote is cast for it.
pub open spec fn end_voting_of(t: int) -> int {
    ref_point_of(t) + WEEK_IN_SECONDS as int
}

/// The instant from which the results of the week of `t` are shown.
pub open spec fn publish_time_of(t: int) -> int {
    end_voting_of(t) + PUBLISH_DELAY_IN_SECONDS as int
}

/// The instants whose week index fits an `i32`.
pub open spec fn valid_timestamp(t: int) -> bool {
    ref_point_of_id(i32::MIN as int) <= t < ref_point_of_id(i32::MAX as int + 1)
}

/// `t` lies in the week of `rf`, which is when a vote for that week may be
/// cast.
pub open spec fn in_voting_window(rf: int, t: int) -> bool {
    ref_point_of(rf) <= t < end_voting_of(rf)
}

/// The week of `date` has been over for the publication delay at `now`.
pub open spec fn is_published(date: int, now: int) -> bool {
    now >= publish_time_of(date)
}

/// The reference point of `t` is aligned with the anchor, is not after `t`
/// and is less than a week before it; it is the start of the week whose
/// index is the number of whole weeks from the anchor to `t`.
pub proof fn lemma_ref_point_bounds(t: int)
    ensures
        ref_point_of(t) <= t < ref_point_of(t) + WEEK_IN_SECONDS,
        (ref_point_of(t) - FIRST_REF_POINT) % (WEEK_IN_SECONDS as int) == 0,
        ref_point_of(t) == ref_point_of_id(week_id_of(t)),
        week_id_of(t) == (t - FIRST_REF_POINT) / (WEEK_IN_SECONDS as int),
{
    let d = t - FIRST_REF_POINT;
    let w = WEEK_IN_SECONDS as int;
    vstd::arithmetic::div_mod::lemma_fundamental_div_mod(d, w);
    vstd::arithmetic::div_mod::lemma_mod_bound(d, w);
    let q = d / w;
    assert(ref_point_of(t) - FIRST_REF_POINT == w * q);
    vstd::arithmetic::div_mod::lemma_mod_multiples_basic(q, w);
    vstd::arithmetic::div_mod::lemma_div_multiples_vanish(q, w);
    assert(w * q == q * w) by (nonlinear_arith);
}

/// An aligned instant is its own reference point.
pub proof fn lemma_ref_point_of_id(id: int)
    ensures
        ref_point_of(ref_point_of_id(id)) == ref_point_of_id(id),
        week_id_of(ref_point_of_id(id)) == id,
{
    let w = WEEK_IN_SECONDS as int;
    vstd::arithmetic::div_mod::lemma_mod_multiples_basic(id, w);
    vstd::arithmetic::div_mod::lemma_div_multiples_vanish(id, w);
}

/// Taking the reference point twice is the same as taking it once.
pub proof fn ref_point_idempotent(t: int)
    ensures
        ref_point_of(ref_point_of(t)) == ref_point_of(t),
{
    lemma_ref_point_bounds(t);
    lemma_ref_point_of_id(week_id_of(t));
}

/// Going from a reference point to its week index and back gives the
/// reference point again.
pub proof fn ref_point_round_trip(t: int)
    ensures
        ref_point_of_id(week_id_of(ref_point_of(t))) == ref_point_of(t),
{
    lemma_ref_point_bounds(t);
    lemma_ref_point_of_id(week_id_of(t));
}

/// The week index never decreases as time advances.
pub proof fn week_id_monotonic(s: int, t: int)
    requires
        s <= t,
    ensures
        week_id_of(s) <= week_id_of(t),
        ref_point_of(s) <= ref_point_of(t),
{
    lemma_ref_point_bounds(s);
    lemma_ref_point_bounds(t);
    let w = WEEK_IN_SECONDS as int;
    vstd::arithmetic::div_mod::lemma_div_is_ordered(s - FIRST_REF_POINT, t - FIRST_REF_POINT, w);
    vstd::arithmetic::mul::lemma_mul_inequality(week_id_of(s), week_id_of(t), w);
}

/// A valid instant has a week index that fits an `i32`, and the start of
/// its week is a valid instant too.
pub proof fn lemma_valid_timestamp(t: int)
    requires
        valid_timestamp(t),
    ensures
        i32::MIN <= week_id_of(t) <= i32::MAX,
        valid_timestamp(ref_point_of(t)),
{
    lemma_ref_point_bounds(t);
    let w = WEEK_IN_SECONDS as int;
    let k = week_id_of(t);
    assert(i32::MIN <= k <= i32::MAX) by (nonlinear_arith)
        requires
            FIRST_REF_POINT + k * w <= t < FIRST_REF_POINT + k * w + w,
            FIRST_REF_POINT + (i32::MIN as int) * w <= t < FIRST_REF_POINT + (i32::MAX as int + 1)
                * w,
            w == 604800,
    ;
    assert(FIRST_REF_POINT + (i32::MIN as int) * w <= FIRST_REF_POINT + k * w) by (nonlinear_arith)
        requires
            i32::MIN <= k,
            w == 604800,
    ;
}

/// The anchor: the start of week 0.
pub fn get_first_ref_point() -> (r: i64)
    ensures
        r == FIRST_REF_POINT,
        r == ref_point_of_id(0),
{
    FIRST_REF_POINT
}

/// The start of the week that holds `date`: the latest instant aligned with
/// the anchor that is not after `date`.
pub fn get_ref_point_of(date: i64) -> (r: i64)
    requires
        valid_timestamp(date as int),
    ensures
        r == ref_point_of(date as int),
        r <= date < r + WEEK_IN_SECONDS,
{
    proof {
        lemma_ref_point_bounds(date as int);
        lemma_valid_timestamp(date as int);
    }
    let d: i64 = date - FIRST_REF_POINT;
    let rem: i64 = if d >= 0 {
        d % WEEK_IN_SECONDS
    } else {
        let m: i64 = (-d) % WEEK_IN_SECONDS;
        proof {
            lemma_neg_mod(d as int, WEEK_IN_SECONDS as int);
        }
        if m == 0 {
            0
        } else {
            WEEK_IN_SECONDS - m
        }
    };
    date - rem
}

proof fn lemma_neg_mod(d: int, w: int)
    requires
        d < 0,
        w > 0,
    ensures
        d % w == (if (-d) % w == 0 {
            0
        } else {
            w - (-d) % w
        }),
{
    let q = (-d) / w;
    let m = (-d) % w;
    vstd::arithmetic::div_mod::lemma_fundamental_div_mod(-d, w);
    vstd::arithmetic::div_mod::lemma_mod_bound(-d, w);
    if m == 0 {
        assert(d == w * (-q)) by (nonlinear_arith)
            requires
                -d == w * q + m,
                m == 0,
        ;
        vstd::arithmetic::div_mod::lemma_fundamental_div_mod_converse(d, w, -q, 0);
    } else {
        assert(d == (-q - 1) * w + (w - m)) by (nonlinear_arith)
            requires
                -d == w * q + m,
        ;
        vstd::arithmetic::div_mod::lemma_fundamental_div_mod_converse(d, w, -q - 1, w - m);
    }
}

/// The least value of `chrono::DateTime::timestamp`, which computes `(day -
/// 719163) * 86400 + second` from a day number that is an `i32` and a
/// second of the day that is a `u32`.
pub const MIN_CLOCK: i64 = -185604722870400;

/// The greatest value of `chrono::DateTime::timestamp`; see `MIN_CLOCK`.
pub const MAX_CLOCK: i64 = 185484746384895;

/// The instants that the clock can read.
pub open spec fn clock_range(t: int) -> bool {
    MIN_CLOCK <= t <= MAX_CLOCK
}

/// Every instant that the clock can read is one that the calendar works
/// with.
pub proof fn lemma_clock_is_valid(t: int)
    requires
        clock_range(t),
    ensures
        valid_timestamp(t),
{
}

/// Reads the clock with `chrono::Utc::now` and gives its `timestamp`: the
/// whole seconds since the Unix epoch. Which instant that is depends on the
/// clock; the contract claims only the range that `timestamp` has of any
/// date: `MIN_CLOCK` is `(-2147483648 - 719163) * 86400`, `MAX_CLOCK` is
/// `(2147483647 - 719163) * 86400 + 4294967295`. `Utc::now` panics on a
/// machine whose clock is set before 1970.
#[verifier::external_body]
fn current_timestamp() -> (now: i64)
    ensures
        clock_range(now as int),
{
    chrono::Utc::now().timestamp()
}

/// Whether `t` is an instant that the calendar works with.
pub fn is_valid_timestamp(t: i64) -> (r: bool)
    ensures
        r == valid_timestamp(t as int),
{
    FIRST_REF_POINT - 2147483648 * WEEK_IN_SECONDS <= t && t < FIRST_REF_POINT + 2147483648
        * WEEK_IN_SECONDS
}

/// The start of the current week: the reference point of the instant that
/// the clock reads.
pub fn get_last_ref_point() -> (r: i64)
    ensures
        exists|now: int| #[trigger] clock_range(now) && r == ref_point_of(now),
        ref_point_of(r as int) == r,
        valid_timestamp(r as int),
{
    let now = current_timestamp();
    proof {
        lemma_clock_is_valid(now as int);
        ref_point_idempotent(now as int);
        lemma_valid_timestamp(now as int);
    }
    get_ref_point_of(now)
}

/// The start of the trailing four weeks in which activity makes a player
/// eligible.
pub fn get_start_elegible_check(date: i64) -> (r: i64)
    requires
        valid_timestamp(date as int),
    ensures
        r == start_elegible_check_of(date as int),
        r == ref_point_of(date as int) - 4 * WEEK_IN_SECONDS,
{
    let last_reset = get_ref_point_of(date);
    proof {
        lemma_valid_timestamp(date as int);
    }
    last_reset - ELEGIBLE_WEEKS * WEEK_IN_SECONDS
}

/// The end of the eligibility window: the start of the week of `date`.
pub fn get_end_elegible_check(date: i64) -> (r: i64)
    requires
        valid_timestamp(date as int),
    ensures
        r == ref_point_of(date as int),
{
    get_ref_point_of(date)
}

/// Voting for a week starts with the week.
pub fn get_start_voting(date: i64) -> (r: i64)
    requires
        valid_timestamp(date as int),
    ensures
        r == ref_point_of(date as int),
{
    get_ref_point_of(date)
}

/// Ballots are created until half an hour before the week ends.
pub fn get_end_create_ballot(date: i64) -> (r: i64)
    requires
        valid_timestamp(date as int),
    ensures
        r == end_create_ballot_of(date as int),
{
    let last_reset = get_ref_point_of(date);
    proof {
        lemma_valid_timestamp(date as int);
    }
    last_reset + WEEK_IN_SECONDS - HALF_HOUR_IN_SECONDS
}

/// Votes are cast until the week ends.
pub fn get_end_voting(date: i64) -> (r: i64)
    requires
        valid_timestamp(date as int),
    ensures
        r == end_voting_of(date as int),
{
    let last_reset = get_ref_point_of(date);
    proof {
        lemma_valid_timestamp(date as int);
    }
    last_reset + WEEK_IN_SECONDS
}

/// Whether a ballot may be created at `date`: from the start of its week
/// until half an hour before the week ends.
pub fn can_create_ballot(date: i64) -> (r: bool)
    requires
        valid_timestamp(date as int),
    ensures
        r == (ref_point_of(date as int) <= date < end_create_ballot_of(date as int)),
        r == (date < end_create_ballot_of(date as int)),
{
    let end = get_end_create_ballot(date);
    let start = get_start_voting(date);
    date >= start && date < end
}

/// Whether at `now` a vote may be cast for the week of `rf`.
pub fn can_cast_vote_at(rf: i64, now: i64) -> (r: bool)
    requires
        valid_timestamp(rf as int),
    ensures
        r == in_voting_window(rf as int, now as int),
{
    let start = get_start_voting(rf);
    let end = get_end_voting(rf);
    now >= start && now < end
}

/// Whether a vote may be cast for the week of `rf` at the instant that the
/// clock reads.
pub fn can_cast_vote(rf: i64) -> (r: bool)
    requires
        valid_timestamp(rf as int),
    ensures
        exists|now: int| #[trigger] clock_range(now) && r == in_voting_window(rf as int, now),
{
    let now = current_timestamp();
    can_cast_vote_at(rf, now)
}

/// The instant from which the results of the week of `date` may be seen:
/// ninety minutes after its voting ends.
pub fn publish_time(date: i64) -> (r: i64)
    requires
        valid_timestamp(date as int),
    ensures
        r == publish_time_of(date as int),
        r == end_voting_of(date as int) + 5400,
{
    let end = get_end_voting(date);
    proof {
        lemma_valid_timestamp(date as int);
    }
    end + PUBLISH_DELAY_IN_SECONDS
}

/// Whether at `now` the results of the week of `date` may be seen.
pub fn publish_results_at(date: i64, now: i64) -> (r: bool)
    requires
        valid_timestamp(date as int),
    ensures
        r == is_published(date as int, now as int),
{
    let start_publish = publish_time(date);
    now >= start_publish
}

/// Whether the results of the week of `date` may be seen at the instant
/// that the clock reads.
pub fn publish_results(date: i64) -> (r: bool)
    requires
        valid_timestamp(date as int),
    ensures
        exists|now: int| #[trigger] clock_range(now) && r == is_published(date as int, now),
{
    let now = current_timestamp();
    publish_results_at(date, now)
}

/// The index of the week of `date`.
pub fn ref_point_id(date: i64) -> (id: i32)
    requires
        valid_timestamp(date as int),
    ensures
        id == week_id_of(date as int),
        ref_point_of_id(id as int) == ref_point_of(date as int),
{
    let last_reset = get_ref_point_of(date);
    proof {
        lemma_valid_timestamp(date as int);
        lemma_ref_point_bounds(date as int);
    }
    let d: i64 = last_reset - FIRST_REF_POINT;
    let weeks: i64 = if d >= 0 {
        d / WEEK_IN_SECONDS
    } else {
        proof {
            lemma_neg_div_exact(d as int, WEEK_IN_SECONDS as int);
        }
        -((-d) / WEEK_IN_SECONDS)
    };
    weeks as i32
}

/// The start of week `id`.
pub fn ref_point_from_id(id: i32) -> (r: i64)
    ensures
        r == ref_point_of_id(id as int),
        valid_timestamp(r as int),
        ref_point_of(r as int) == r,
        week_id_of(r as int) == id,
{
    proof {
        lemma_ref_point_of_id(id as int);
    }
    assert(-2147483648 * 604800 <= id * 604800 <= 2147483647 * 604800) by (nonlinear_arith)
        requires
            -2147483648 <= id <= 2147483647,
    ;
    FIRST_REF_POINT + (id as i64) * WEEK_IN_SECONDS
}

proof fn lemma_neg_div_exact(d: int, w: int)
    requires
        d < 0,
        w > 0,
        d % w == 0,
    ensures
        d / w == -((-d) / w),
{
    vstd::arithmetic::div_mod::lemma_fundamental_div_mod(d, w);
    let q = d / w;
    assert(-d == w * (-q)) by (nonlinear_arith)
        requires
            d == w * q,
    ;
    vstd::arithmetic::div_mod::lemma_div_multiples_vanish(-q, w);
}

} // verus!
