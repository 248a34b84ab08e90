use futeinf::ballot::{Ballot, BallotState};
use futeinf::error::Error;
use futeinf::order::{media_order, ranks_before_of};
use futeinf::player::Player;
use futeinf::ranking::{calculate_ranking, Fraction, Ranking, RankingEntry};
use futeinf::score::{ballot_marks_of, unranked_count_of};
use futeinf::tally::{ballot_weights_of, counted_ballots_of, voter_ballots_of, weight_scale_of};

fn player(id: i32, nome: &str) -> Player {
    Player {
        id,
        nome: nome.to_string(),
        apelido: nome.to_lowercase(),
        email: format!("{}@example.org", nome.to_lowercase()),
        admin: false,
    }
}

fn roster(n: i32) -> Vec<Player> {
    (1..=n).map(|i| player(i, &format!("J{}", i))).collect()
}

fn closed(id: i32, voter: &str, week: i32, players: Vec<i32>, vote: Vec<i32>) -> Ballot {
    Ballot {
        id,
        players,
        vote,
        date: 0,
        voter: voter.to_string(),
        fute_id: week,
        state: BallotState::Closed,
    }
}

fn media(e: &RankingEntry) -> f64 {
    let m = e.media();
    m.num as f64 / m.den as f64
}

fn desvio_padrao(e: &RankingEntry) -> Option<f64> {
    e.variancia().unwrap().map(|v| (v.num as f64 / v.den as f64).sqrt())
}

fn by_id(r: &Ranking, id: i32) -> &RankingEntry {
    r.entries.iter().find(|e| e.id == id).unwrap()
}

#[test]
fn one_ballot_with_four_ranked_players() {
    let ballots = vec![closed(1, "v", 7, vec![1, 2, 3, 4], vec![1, 2, 3, 4])];
    let r = calculate_ranking(&ballots, &roster(4), 7, 1234).unwrap();
    assert_eq!(r.timestamp, 1234);
    assert_eq!(r.votes, 1);
    assert_eq!(r.entries.len(), 4);
    let expected = [1.0, 0.75, 0.5, 0.25];
    for (k, e) in r.entries.iter().enumerate() {
        assert_eq!(e.pos, k as i32 + 1);
        assert_eq!(e.id, k as i32 + 1);
        assert_eq!(e.nome, format!("J{}", k + 1));
        assert_eq!(e.votos, 1);
        assert_eq!(e.soma_pesos, 1);
        assert_eq!(e.soma_notas, 8 - 2 * k as i64);
        assert_eq!(e.soma_quadrados, ((8 - 2 * k as i64) * (8 - 2 * k as i64)) as i128);
        assert_eq!(media(e), expected[k]);
        assert!(!e.has_desvio_padrao());
        assert_eq!(desvio_padrao(e), None);
    }
}

#[test]
fn unranked_players_share_one_score() {
    let ballots = vec![closed(1, "v", 7, vec![1, 2, 3, 4, 5], vec![1, 2])];
    assert_eq!(unranked_count_of(&ballots[0]), 3);
    let r = calculate_ranking(&ballots, &roster(5), 7, 0).unwrap();
    assert_eq!(r.entries.len(), 5);
    assert_eq!(media(by_id(&r, 1)), 1.0);
    assert_eq!(media(by_id(&r, 2)), 0.75);
    for id in 3..=5 {
        assert_eq!(by_id(&r, id).soma_notas, 2);
        assert_eq!(media(by_id(&r, id)), 0.25);
    }
    let order: Vec<i32> = r.entries.iter().map(|e| e.id).collect();
    assert_eq!(order, vec![1, 2, 3, 4, 5]);
}

#[test]
fn ranked_and_unranked_formulas_are_independent() {
    let a = closed(1, "v", 7, vec![1, 2, 3, 4, 5], vec![1]);
    let b = closed(2, "v", 7, vec![1, 2, 3, 4, 5], vec![1, 2, 3, 4]);
    let c = closed(3, "v", 7, vec![1, 2, 3, 4, 5], vec![]);
    assert_eq!(ballot_marks_of(&a, 1), (1, 8, 64));
    assert_eq!(ballot_marks_of(&b, 1), (1, 8, 64));
    assert_eq!(ballot_marks_of(&a, 5), (1, 3, 9));
    assert_eq!(ballot_marks_of(&b, 5), (1, 0, 0));
    assert_eq!(ballot_marks_of(&c, 5), (0, 0, 0));
    assert_eq!(ballot_marks_of(&a, 9), (0, 0, 0));
    let total = |x: &Ballot| (1..=5).map(|p| ballot_marks_of(x, p).1).sum::<i64>();
    assert_eq!(total(&a), 8 + 4 * 3);
    assert_eq!(total(&b), 8 + 6 + 4 + 2);
    assert_eq!(total(&c), 0);
}

#[test]
fn fifth_ranked_player_scores_zero_and_later_ones_less() {
    let b = closed(1, "v", 7, vec![1, 2, 3, 4, 5, 6], vec![1, 2, 3, 4, 5, 6]);
    assert_eq!(ballot_marks_of(&b, 5), (1, 0, 0));
    assert_eq!(ballot_marks_of(&b, 6), (1, -2, 4));
    assert_eq!(unranked_count_of(&b), 0);
}

#[test]
fn player_ranked_twice_on_one_ballot_has_two_scores() {
    let b = closed(1, "v", 7, vec![1, 2, 3], vec![2, 1, 2]);
    assert_eq!(ballot_marks_of(&b, 2), (2, 8 + 4, 64 + 16));
    assert_eq!(ballot_marks_of(&b, 3), (1, 0, 0));
}

#[test]
fn only_closed_ballots_of_the_week_count() {
    let mut open = closed(2, "w", 7, vec![1, 2, 3, 4], vec![4, 3, 2, 1]);
    open.state = BallotState::Open;
    let ballots = vec![
        closed(1, "v", 7, vec![1, 2, 3, 4], vec![1, 2, 3, 4]),
        open,
        closed(3, "x", 8, vec![1, 2, 3, 4], vec![4, 3, 2, 1]),
    ];
    assert_eq!(counted_ballots_of(&ballots, 7), 1);
    let r = calculate_ranking(&ballots, &roster(4), 7, 0).unwrap();
    assert_eq!(r.votes, 1);
    let order: Vec<i32> = r.entries.iter().map(|e| e.id).collect();
    assert_eq!(order, vec![1, 2, 3, 4]);
}

#[test]
fn ballot_closed_without_a_vote_counts_but_gives_no_score() {
    let ballots = vec![closed(1, "v", 7, vec![1, 2, 3, 4, 5], vec![])];
    let r = calculate_ranking(&ballots, &roster(6), 7, 0).unwrap();
    assert_eq!(r.votes, 1);
    assert!(r.entries.is_empty());
    let ballots = vec![
        closed(1, "v", 7, vec![1, 2, 3, 4, 5], vec![]),
        closed(2, "w", 7, vec![1, 2, 3, 4, 5], vec![2]),
    ];
    let r = calculate_ranking(&ballots, &roster(6), 7, 0).unwrap();
    assert_eq!(r.votes, 2);
    assert_eq!(r.entries.len(), 5);
    assert_eq!(by_id(&r, 2).votos, 1);
    assert_eq!(media(by_id(&r, 2)), 1.0);
    assert_eq!(by_id(&r, 1).votos, 1);
    assert_eq!(media(by_id(&r, 1)), 0.375);
}

#[test]
fn ballots_without_a_vote_still_count_for_their_voter() {
    let ballots = vec![
        closed(1, "v", 7, vec![1, 2, 3, 4], vec![]),
        closed(2, "v", 7, vec![1, 2, 3, 4], vec![]),
        closed(3, "v", 7, vec![1, 2, 3, 4], vec![1, 2, 3, 4]),
        closed(4, "w", 7, vec![1, 2, 3, 4], vec![1, 2, 3, 4]),
    ];
    assert_eq!(weight_scale_of(&ballots, 7), Some(6));
    let r = calculate_ranking(&ballots, &roster(4), 7, 0).unwrap();
    assert_eq!(r.votes, 4);
    assert_eq!(by_id(&r, 1).votos, 2);
    assert_eq!(by_id(&r, 1).soma_pesos, 5 + 6);
}

#[test]
fn no_ballots_give_an_empty_ranking() {
    let r = calculate_ranking(&vec![], &roster(3), 7, 99).unwrap();
    assert_eq!(r.votes, 0);
    assert_eq!(r.timestamp, 99);
    assert!(r.entries.is_empty());
}

#[test]
fn players_outside_the_roster_are_left_out() {
    let ballots = vec![closed(1, "v", 7, vec![1, 2, 30, 40], vec![30, 1])];
    let r = calculate_ranking(&ballots, &roster(2), 7, 0).unwrap();
    let order: Vec<i32> = r.entries.iter().map(|e| e.id).collect();
    assert_eq!(order, vec![1, 2]);
}

#[test]
fn ranking_is_sorted_by_mean_whatever_the_roster_order() {
    let ballots = vec![closed(1, "v", 7, vec![1, 2, 3, 4], vec![4, 3, 2, 1])];
    let r = calculate_ranking(&ballots, &roster(4), 7, 0).unwrap();
    let order: Vec<i32> = r.entries.iter().map(|e| e.id).collect();
    assert_eq!(order, vec![4, 3, 2, 1]);
    let pos: Vec<i32> = r.entries.iter().map(|e| e.pos).collect();
    assert_eq!(pos, vec![1, 2, 3, 4]);
    let mut reversed = roster(4);
    reversed.reverse();
    let r2 = calculate_ranking(&ballots, &reversed, 7, 0).unwrap();
    let order2: Vec<i32> = r2.entries.iter().map(|e| e.id).collect();
    assert_eq!(order2, vec![4, 3, 2, 1]);
}

#[test]
fn equal_means_are_ordered_by_player_id() {
    let ballots = vec![
        closed(1, "a", 7, vec![1, 2, 3, 4, 5], vec![5, 3]),
        closed(2, "b", 7, vec![1, 2, 3, 4, 5], vec![3, 5]),
    ];
    let mut players = roster(5);
    players.reverse();
    let r = calculate_ranking(&ballots, &players, 7, 0).unwrap();
    let order: Vec<i32> = r.entries.iter().map(|e| e.id).collect();
    assert_eq!(order, vec![3, 5, 1, 2, 4]);
    assert_eq!(media(by_id(&r, 3)), 0.875);
    assert_eq!(media(by_id(&r, 5)), 0.875);
}

#[test]
fn many_ballots_of_one_voter_weigh_less() {
    let mut ballots = vec![];
    for i in 0..3 {
        ballots.push(closed(i, "many", 7, vec![1, 2, 3, 4], vec![1, 2, 3, 4]));
    }
    ballots.push(closed(10, "once", 7, vec![1, 2, 3, 4], vec![4, 3, 2, 1]));
    assert_eq!(voter_ballots_of(&ballots, 7, &"many".to_string()), 3);
    assert_eq!(voter_ballots_of(&ballots, 7, &"once".to_string()), 1);
    assert_eq!(voter_ballots_of(&ballots, 8, &"once".to_string()), 0);
    assert_eq!(weight_scale_of(&ballots, 7), Some(6));
    assert_eq!(ballot_weights_of(&ballots, 7, 6), vec![5, 5, 5, 6]);
    let r = calculate_ranking(&ballots, &roster(4), 7, 0).unwrap();
    assert_eq!(r.votes, 4);
    let top = by_id(&r, 1);
    assert_eq!(top.votos, 4);
    assert_eq!(top.soma_pesos, 21);
    assert_eq!(top.soma_notas, 3 * 5 * 8 + 6 * 2);
    assert_eq!(top.soma_quadrados, 3 * 5 * 64 + 6 * 4);
    let expected = (2.5 * 1.0 + 1.0 * 0.25) / 3.5;
    assert!((media(top) - expected).abs() < 1e-12);
    let fourth = by_id(&r, 4);
    assert_eq!(fourth.soma_notas, 3 * 5 * 2 + 6 * 8);
    let order: Vec<i32> = r.entries.iter().map(|e| e.id).collect();
    assert_eq!(order, vec![1, 2, 3, 4]);
}

#[test]
fn standard_deviation_from_the_exact_sums() {
    let ballots = vec![
        closed(1, "a", 7, vec![1, 2, 3, 4], vec![1, 2, 3, 4]),
        closed(2, "b", 7, vec![1, 2, 3, 4], vec![2, 1, 3, 4]),
    ];
    let r = calculate_ranking(&ballots, &roster(4), 7, 0).unwrap();
    let top = by_id(&r, 1);
    assert!(top.has_desvio_padrao());
    assert_eq!((top.votos, top.soma_pesos, top.soma_notas, top.soma_quadrados), (2, 2, 14, 100));
    assert_eq!(media(top), 0.875);
    let expected = (2.0f64 * (0.125f64 * 0.125) / 1.0).sqrt();
    assert!((desvio_padrao(top).unwrap() - expected).abs() < 1e-12);
    let third = by_id(&r, 3);
    assert_eq!(desvio_padrao(third), Some(0.0));
}

#[test]
fn vote_for_a_player_that_was_not_offered_is_malformed() {
    let ballots = vec![closed(1, "v", 7, vec![1, 2, 3, 4], vec![1, 9])];
    assert_eq!(
        calculate_ranking(&ballots, &roster(4), 7, 0).unwrap_err(),
        Error::MalformedBallot
    );
    assert!(calculate_ranking(&ballots, &roster(4), 8, 0).is_ok());
}

#[test]
fn vote_for_a_player_twice_is_malformed() {
    let ballots = vec![closed(1, "v", 7, vec![1, 2, 3, 4], vec![2, 1, 2])];
    assert_eq!(
        calculate_ranking(&ballots, &roster(4), 7, 0).unwrap_err(),
        Error::MalformedBallot
    );
}

#[test]
fn too_long_a_ballot_is_too_large() {
    let players: Vec<i32> = (0..1001).collect();
    let ballots = vec![closed(1, "v", 7, players, vec![])];
    assert_eq!(
        calculate_ranking(&ballots, &roster(4), 7, 0).unwrap_err(),
        Error::TooLarge
    );
    let players: Vec<i32> = (0..1000).collect();
    let ballots = vec![closed(1, "v", 7, players, vec![0])];
    let r = calculate_ranking(&ballots, &roster(4), 7, 0).unwrap();
    assert_eq!(by_id(&r, 1).soma_notas, 998);
}

#[test]
fn too_large_a_common_scale_is_too_large() {
    let mut ballots = vec![];
    let mut id = 0;
    for (voter, count) in [("a", 7), ("b", 11), ("c", 13), ("d", 17), ("e", 19), ("f", 23)] {
        for _ in 0..count {
            id += 1;
            ballots.push(closed(id, voter, 7, vec![1, 2, 3, 4], vec![1]));
        }
    }
    assert_eq!(weight_scale_of(&ballots, 7), None);
    assert_eq!(
        calculate_ranking(&ballots, &roster(4), 7, 0).unwrap_err(),
        Error::TooLarge
    );
    ballots.truncate(7 + 11 + 13 + 17);
    assert_eq!(weight_scale_of(&ballots, 7), Some(2 * 7 * 11 * 13 * 17));
    assert!(calculate_ranking(&ballots, &roster(4), 7, 0).is_ok());
}

#[test]
fn entries_compare_by_mean_then_id() {
    let entry = |id: i32, notas: i64, pesos: i64| RankingEntry {
        pos: 0,
        id,
        nome: String::new(),
        votos: 1,
        soma_pesos: pesos,
        soma_notas: notas,
        soma_quadrados: 0,
    };
    let half = entry(1, 4, 1);
    let also_half = entry(2, 12, 3);
    let less = entry(3, 3, 1);
    assert!(ranks_before_of(&half, &less));
    assert!(!ranks_before_of(&less, &half));
    assert!(ranks_before_of(&half, &also_half));
    assert!(!ranks_before_of(&also_half, &half));
    assert!(!ranks_before_of(&half, &half));
    assert_eq!(media_order(&half, &less), std::cmp::Ordering::Less);
    assert_eq!(media_order(&less, &half), std::cmp::Ordering::Greater);
    assert_eq!(media_order(&half, &half), std::cmp::Ordering::Equal);
    let big = entry(4, i64::MAX, i64::MAX);
    let small = entry(5, i64::MIN, i64::MAX);
    assert!(ranks_before_of(&big, &small));
}

#[test]
fn copy_of_a_ranking_is_equal() {
    let ballots = vec![closed(1, "v", 7, vec![1, 2, 3, 4], vec![3, 1])];
    let r = calculate_ranking(&ballots, &roster(4), 7, 5).unwrap();
    let c = r.duplicate();
    assert_eq!(format!("{:?}", c), format!("{:?}", r));
    let e = Ranking::empty(3);
    assert_eq!((e.entries.len(), e.timestamp, e.votes), (0, 3, 0));
}

#[test]
fn debug_ranking_is_for_administrators() {
    let now = futeinf::timings::FIRST_REF_POINT + 10 * futeinf::timings::WEEK_IN_SECONDS + 500;
    let start = now - 500;
    let mut admin = player(1, "J1");
    admin.admin = true;
    let mut players = roster(4);
    players[0] = admin;
    let mut ballots = vec![
        closed(1, "a", 3, vec![1, 2, 3, 4], vec![4, 3]),
        closed(2, "b", 10, vec![1, 2, 3, 4], vec![1]),
        closed(3, "c", 10, vec![1, 2, 3, 4], vec![2]),
        closed(4, "d", 10, vec![1, 2, 3, 4], vec![3]),
    ];
    ballots[0].date = start + 1;
    ballots[1].date = start;
    ballots[2].date = start + 100;
    ballots[3].date = start + 200;
    ballots[3].state = BallotState::Open;
    assert_eq!(
        futeinf::ranking::debug_ranking(&ballots, &players, &players[1], now).unwrap_err(),
        Error::Forbidden
    );
    let r = futeinf::ranking::debug_ranking(&ballots, &players, &players[0], now).unwrap();
    assert_eq!(r.votes, 2);
    assert_eq!(r.timestamp, now);
    let order: Vec<i32> = r.entries.iter().map(|e| e.id).collect();
    assert_eq!(order, vec![4, 2, 3, 1]);
    assert_eq!(by_id(&r, 4).soma_notas, 8 + 2);
    assert_eq!(by_id(&r, 2).soma_notas, 1 + 8);
    assert_eq!(by_id(&r, 3).soma_notas, 6 + 2);
    assert_eq!(by_id(&r, 1).soma_notas, 1 + 2);
}

#[test]
fn mean_and_variance_are_exact_fractions() {
    let e = RankingEntry {
        pos: 1,
        id: 1,
        nome: String::new(),
        votos: 3,
        soma_pesos: 16,
        soma_notas: 5 * 8 + 5 * 6 + 6 * 2,
        soma_quadrados: 5 * 64 + 5 * 36 + 6 * 4,
    };
    assert_eq!(e.media(), Fraction { num: 82, den: 128 });
    let spread = 16 * 524 - 82 * 82;
    assert_eq!(
        e.variancia(),
        Ok(Some(Fraction { num: 3 * spread, den: 64 * 2 * 256 }))
    );
    let mean = 82.0 / 16.0;
    let direct: f64 = [(5.0, 8.0), (5.0, 6.0), (6.0, 2.0)]
        .iter()
        .map(|(w, s): &(f64, f64)| w * (s - mean) * (s - mean))
        .sum::<f64>()
        / ((2.0 * 16.0) / 3.0)
        / 64.0;
    let v = e.variancia().unwrap().unwrap();
    assert!((v.num as f64 / v.den as f64 - direct).abs() < 1e-12);
    let one = RankingEntry { votos: 1, ..e.clone() };
    assert_eq!(one.variancia(), Ok(None));
    assert!(!one.has_desvio_padrao());
    let none = RankingEntry { votos: 0, ..e.clone() };
    assert_eq!(none.variancia(), Ok(None));
    let huge = RankingEntry { soma_pesos: i64::MAX, soma_quadrados: i128::MAX, ..e.clone() };
    assert_eq!(huge.variancia(), Err(Error::TooLarge));
    let wide = RankingEntry {
        votos: i32::MAX,
        soma_pesos: i64::MAX,
        soma_notas: 0,
        soma_quadrados: 1 << 60,
        ..e.clone()
    };
    assert_eq!(wide.variancia(), Err(Error::TooLarge));
    assert_eq!(
        RankingEntry { soma_pesos: i64::MIN, ..e.clone() }.media(),
        Fraction { num: 82, den: 8 * (i64::MIN as i128) }
    );
}
