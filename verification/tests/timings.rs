use chrono::TimeZone;
use futeinf::timings::{
    can_cast_vote, can_cast_vote_at, can_create_ballot, get_end_create_ballot,
    get_end_elegible_check, get_end_voting, get_first_ref_point, get_last_ref_point,
    get_ref_point_of, get_start_elegible_check, get_start_voting, is_valid_timestamp,
    publish_results, publish_results_at, publish_time, ref_point_from_id, ref_point_id,
    FIRST_REF_POINT, MAX_CLOCK, MIN_CLOCK, WEEK_IN_SECONDS,
};

const DAY: i64 = 86400;

#[test]
fn anchor_is_sunday_evening_utc() {
    let anchor = chrono::Utc
        .with_ymd_and_hms(2023, 6, 4, 19, 0, 0)
        .unwrap()
        .timestamp();
    assert_eq!(get_first_ref_point(), anchor);
    assert_eq!(FIRST_REF_POINT, 1685905200);
    assert_eq!(WEEK_IN_SECONDS, 7 * DAY);
}

#[test]
fn ref_point_is_start_of_week() {
    assert_eq!(get_ref_point_of(FIRST_REF_POINT), FIRST_REF_POINT);
    assert_eq!(get_ref_point_of(FIRST_REF_POINT + 1), FIRST_REF_POINT);
    assert_eq!(
        get_ref_point_of(FIRST_REF_POINT + WEEK_IN_SECONDS - 1),
        FIRST_REF_POINT
    );
    assert_eq!(
        get_ref_point_of(FIRST_REF_POINT + WEEK_IN_SECONDS),
        FIRST_REF_POINT + WEEK_IN_SECONDS
    );
    assert_eq!(
        get_ref_point_of(FIRST_REF_POINT + 3 * WEEK_IN_SECONDS + 5 * DAY),
        FIRST_REF_POINT + 3 * WEEK_IN_SECONDS
    );
}

#[test]
fn ref_point_before_anchor_is_not_after_the_instant() {
    assert_eq!(
        get_ref_point_of(FIRST_REF_POINT - 1),
        FIRST_REF_POINT - WEEK_IN_SECONDS
    );
    assert_eq!(
        get_ref_point_of(FIRST_REF_POINT - WEEK_IN_SECONDS),
        FIRST_REF_POINT - WEEK_IN_SECONDS
    );
    assert_eq!(ref_point_id(FIRST_REF_POINT - 1), -1);
    assert_eq!(ref_point_id(FIRST_REF_POINT - WEEK_IN_SECONDS - 1), -2);
    assert_eq!(get_ref_point_of(0), FIRST_REF_POINT - 2788 * WEEK_IN_SECONDS);
}

#[test]
fn ref_point_is_idempotent() {
    for t in [
        0,
        FIRST_REF_POINT - 12345,
        FIRST_REF_POINT,
        FIRST_REF_POINT + 1,
        FIRST_REF_POINT + 99 * WEEK_IN_SECONDS + 4321,
        1_730_000_000,
    ] {
        let r = get_ref_point_of(t);
        assert_eq!(get_ref_point_of(r), r);
        assert!(r <= t && t < r + WEEK_IN_SECONDS);
    }
}

#[test]
fn week_id_round_trip() {
    for t in [
        0,
        FIRST_REF_POINT - 12345,
        FIRST_REF_POINT,
        FIRST_REF_POINT + 99 * WEEK_IN_SECONDS + 4321,
        1_730_000_000,
    ] {
        let r = get_ref_point_of(t);
        assert_eq!(ref_point_from_id(ref_point_id(r)), r);
        assert_eq!(ref_point_id(r), ref_point_id(t));
    }
    assert_eq!(ref_point_id(FIRST_REF_POINT), 0);
    assert_eq!(ref_point_id(FIRST_REF_POINT + 10 * WEEK_IN_SECONDS + 5), 10);
    assert_eq!(ref_point_from_id(0), FIRST_REF_POINT);
    assert_eq!(ref_point_from_id(10), FIRST_REF_POINT + 6048000);
    assert_eq!(ref_point_from_id(-1), FIRST_REF_POINT - 604800);
}

#[test]
fn week_ids_at_the_ends_of_the_range() {
    let first = ref_point_from_id(i32::MIN);
    let last = ref_point_from_id(i32::MAX);
    assert!(is_valid_timestamp(first));
    assert!(!is_valid_timestamp(first - 1));
    assert!(is_valid_timestamp(last + WEEK_IN_SECONDS - 1));
    assert!(!is_valid_timestamp(last + WEEK_IN_SECONDS));
    assert_eq!(ref_point_id(first), i32::MIN);
    assert_eq!(ref_point_id(last + WEEK_IN_SECONDS - 1), i32::MAX);
    assert_eq!(get_ref_point_of(last + WEEK_IN_SECONDS - 1), last);
}

#[test]
fn windows_of_a_week() {
    let r = FIRST_REF_POINT + 10 * WEEK_IN_SECONDS;
    let t = r + 2 * DAY + 17;
    assert_eq!(get_start_elegible_check(t), r - 4 * WEEK_IN_SECONDS);
    assert_eq!(get_end_elegible_check(t), r);
    assert_eq!(get_start_voting(t), r);
    assert_eq!(get_end_create_ballot(t), r + WEEK_IN_SECONDS - 30 * 60);
    assert_eq!(get_end_voting(t), r + WEEK_IN_SECONDS);
    assert_eq!(publish_time(t), r + WEEK_IN_SECONDS + 90 * 60);
}

#[test]
fn ballots_are_created_until_half_an_hour_before_the_end() {
    let r = FIRST_REF_POINT + 10 * WEEK_IN_SECONDS;
    assert!(can_create_ballot(r));
    assert!(can_create_ballot(r + WEEK_IN_SECONDS - 1801));
    assert!(!can_create_ballot(r + WEEK_IN_SECONDS - 1800));
    assert!(!can_create_ballot(r + WEEK_IN_SECONDS - 1));
    assert!(can_create_ballot(r + WEEK_IN_SECONDS));
}

#[test]
fn votes_are_cast_within_the_week() {
    let r = FIRST_REF_POINT + 10 * WEEK_IN_SECONDS;
    assert!(can_cast_vote_at(r, r));
    assert!(can_cast_vote_at(r, r + WEEK_IN_SECONDS - 1));
    assert!(!can_cast_vote_at(r, r + WEEK_IN_SECONDS));
    assert!(!can_cast_vote_at(r, r - 1));
    assert!(can_cast_vote_at(r + 5, r + 1));
}

#[test]
fn results_are_published_ninety_minutes_after_the_week() {
    let r = FIRST_REF_POINT + 10 * WEEK_IN_SECONDS;
    assert!(!publish_results_at(r, r + WEEK_IN_SECONDS));
    assert!(!publish_results_at(r, r + WEEK_IN_SECONDS + 5399));
    assert!(publish_results_at(r, r + WEEK_IN_SECONDS + 5400));
    assert!(publish_results_at(r + 3 * DAY, r + WEEK_IN_SECONDS + 5400));
}

#[test]
fn the_clock_is_in_the_current_week() {
    let before = chrono::Utc::now().timestamp();
    let r = get_last_ref_point();
    let after = chrono::Utc::now().timestamp();
    assert!(r > FIRST_REF_POINT);
    assert_eq!(get_ref_point_of(r), r);
    assert!(r == get_ref_point_of(before) || r == get_ref_point_of(after));
    assert!(can_cast_vote(before));
    assert!(!can_cast_vote(before - WEEK_IN_SECONDS));
    assert!(!can_cast_vote(before + WEEK_IN_SECONDS));
    assert!(!publish_results(before));
    assert!(publish_results(before - 2 * WEEK_IN_SECONDS));
}

#[test]
fn the_clock_stays_within_its_range() {
    assert_eq!(MIN_CLOCK, (-2147483648 - 719163) * 86400);
    assert_eq!(MAX_CLOCK, (2147483647 - 719163) * 86400 + 4294967295);
    assert!(MIN_CLOCK <= chrono::DateTime::<chrono::Utc>::MIN_UTC.timestamp());
    assert!(chrono::DateTime::<chrono::Utc>::MAX_UTC.timestamp() <= MAX_CLOCK);
    assert!(is_valid_timestamp(MIN_CLOCK));
    assert!(is_valid_timestamp(MAX_CLOCK));
    let r = get_last_ref_point();
    assert!(MIN_CLOCK - WEEK_IN_SECONDS < r && r <= MAX_CLOCK);
    assert!(!can_cast_vote(MAX_CLOCK + WEEK_IN_SECONDS));
    assert!(!publish_results(MAX_CLOCK));
    assert!(publish_results(MIN_CLOCK));
}
