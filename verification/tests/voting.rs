use futeinf::ballot::{
    contains_player, has_no_duplicates, is_ranking_of_offer_of, vote_within_offer_of, Ballot,
    BallotState,
};
use futeinf::error::Error;
use futeinf::timings::{FIRST_REF_POINT, WEEK_IN_SECONDS};
use futeinf::voting::{
    cast_vote, check_can_vote, find_ballot, find_open_ballot, insert_ballot, max_id_of,
    parse_vote, prepare_apurar, vote_submit, voting_create, BallotRef, BALLOT_SIZE,
};

fn week(n: i64) -> i64 {
    FIRST_REF_POINT + n * WEEK_IN_SECONDS
}

fn s(x: &str) -> String {
    x.to_string()
}

fn open_ballot(id: i32, voter: &str, week: i32, players: Vec<i32>) -> Ballot {
    Ballot {
        id,
        players,
        vote: vec![],
        date: 0,
        voter: s(voter),
        fute_id: week,
        state: BallotState::Open,
    }
}

#[test]
fn create_then_create_again_gives_the_same_ballot() {
    let mut ballots = vec![];
    let eligible: Vec<i32> = (1..=5).collect();
    let now = week(10) + 3600;
    let first = voting_create(&mut ballots, &s("v"), &eligible, now).unwrap();
    assert_eq!(first, BallotRef::Created(1));
    assert_eq!(ballots.len(), 1);
    let open: Vec<&Ballot> = ballots
        .iter()
        .filter(|b| b.voter == "v" && b.fute_id == 10 && b.state == BallotState::Open)
        .collect();
    assert_eq!(open.len(), 1);
    assert_eq!(open[0].id, 1);
    assert_eq!(open[0].date, now);
    assert!(open[0].vote.is_empty());
    let mut offered = open[0].players.clone();
    offered.sort();
    assert_eq!(offered, eligible);
    let second = voting_create(&mut ballots, &s("v"), &eligible, now + 60).unwrap();
    assert_eq!(second, BallotRef::Existing(1));
    assert_eq!(ballots.len(), 1);
}

#[test]
fn five_distinct_eligible_players_are_drawn() {
    let eligible: Vec<i32> = (100..130).collect();
    let mut seen = std::collections::BTreeSet::new();
    for k in 0..40 {
        let mut ballots = vec![];
        let voter = format!("v{}", k);
        let r = voting_create(&mut ballots, &voter, &eligible, week(3)).unwrap();
        assert_eq!(r, BallotRef::Created(1));
        let players = &ballots[0].players;
        assert_eq!(players.len(), BALLOT_SIZE);
        let mut distinct = players.clone();
        distinct.sort();
        distinct.dedup();
        assert_eq!(distinct.len(), 5);
        assert!(players.iter().all(|p| eligible.contains(p)));
        seen.extend(players.iter().copied());
    }
    assert!(seen.len() > 5);
}

#[test]
fn another_voter_and_another_week_get_new_ballots() {
    let mut ballots = vec![];
    let eligible: Vec<i32> = (1..=9).collect();
    assert_eq!(
        voting_create(&mut ballots, &s("a"), &eligible, week(10)),
        Ok(BallotRef::Created(1))
    );
    assert_eq!(
        voting_create(&mut ballots, &s("b"), &eligible, week(10)),
        Ok(BallotRef::Created(2))
    );
    assert_eq!(
        voting_create(&mut ballots, &s("a"), &eligible, week(11)),
        Ok(BallotRef::Created(3))
    );
    assert_eq!(
        voting_create(&mut ballots, &s("a"), &eligible, week(11) + 5),
        Ok(BallotRef::Existing(3))
    );
    assert_eq!(ballots[2].fute_id, 11);
    assert_eq!(find_open_ballot(&ballots, &s("a"), 10), Some(0));
    assert_eq!(find_open_ballot(&ballots, &s("c"), 10), None);
}

#[test]
fn voter_gets_a_new_ballot_after_voting() {
    let mut ballots = vec![];
    let eligible: Vec<i32> = (1..=5).collect();
    let now = week(10);
    voting_create(&mut ballots, &s("a"), &eligible, now).unwrap();
    cast_vote(&mut ballots, 1, &s("a"), vec![3, 1], now).unwrap();
    assert_eq!(
        voting_create(&mut ballots, &s("a"), &eligible, now),
        Ok(BallotRef::Created(2))
    );
}

#[test]
fn no_ballot_in_the_last_half_hour() {
    let mut ballots = vec![];
    let eligible: Vec<i32> = (1..=5).collect();
    let late = week(11) - 1800;
    assert_eq!(
        voting_create(&mut ballots, &s("v"), &eligible, late),
        Err(Error::Conflict)
    );
    assert!(ballots.is_empty());
    ballots.push(open_ballot(4, "v", 10, vec![1, 2, 3, 4, 5]));
    assert_eq!(
        voting_create(&mut ballots, &s("v"), &eligible, late),
        Ok(BallotRef::Existing(4))
    );
    assert_eq!(
        voting_create(&mut ballots, &s("v"), &eligible, late - 1),
        Ok(BallotRef::Existing(4))
    );
}

#[test]
fn no_ballot_with_fewer_than_five_eligible_players() {
    let mut ballots = vec![];
    assert_eq!(
        voting_create(&mut ballots, &s("v"), &vec![1, 2, 3, 4], week(10)),
        Err(Error::Conflict)
    );
    assert_eq!(
        voting_create(&mut ballots, &s("v"), &vec![], week(10)),
        Err(Error::Conflict)
    );
    assert!(ballots.is_empty());
}

#[test]
fn no_ballot_when_ids_are_used_up() {
    let mut ballots = vec![open_ballot(i32::MAX, "w", 10, vec![1, 2, 3, 4, 5])];
    let eligible: Vec<i32> = (1..=5).collect();
    assert_eq!(
        voting_create(&mut ballots, &s("v"), &eligible, week(10)),
        Err(Error::StorageError)
    );
    assert_eq!(ballots.len(), 1);
    assert_eq!(max_id_of(&ballots), i32::MAX);
    assert_eq!(
        insert_ballot(&mut ballots, &s("v"), vec![1], 10, 0),
        Err(Error::StorageError)
    );
}

#[test]
fn new_ballot_takes_the_next_id() {
    let mut ballots = vec![
        open_ballot(7, "a", 1, vec![]),
        open_ballot(3, "b", 1, vec![]),
    ];
    assert_eq!(max_id_of(&ballots), 7);
    assert_eq!(
        insert_ballot(&mut ballots, &s("c"), vec![5, 6], 2, 77),
        Ok(BallotRef::Created(8))
    );
    let b = &ballots[2];
    assert_eq!((b.id, b.fute_id, b.date, b.state), (8, 2, 77, BallotState::Open));
    assert_eq!(b.players, vec![5, 6]);
    assert_eq!(b.voter, "c");
    assert!(b.vote.is_empty());
    assert_eq!(max_id_of(&vec![]), 0);
}

#[test]
fn vote_is_recorded_and_closes_the_ballot() {
    let mut ballots = vec![
        open_ballot(1, "a", 10, vec![1, 2, 3, 4, 5]),
        open_ballot(2, "b", 10, vec![1, 2, 3, 4, 5]),
    ];
    assert_eq!(cast_vote(&mut ballots, 2, &s("b"), vec![4, 2], week(10) + 9), Ok(()));
    assert_eq!(ballots[1].vote, vec![4, 2]);
    assert_eq!(ballots[1].state, BallotState::Closed);
    assert_eq!(ballots[1].players, vec![1, 2, 3, 4, 5]);
    assert_eq!(ballots[0].state, BallotState::Open);
    assert!(ballots[0].vote.is_empty());
}

#[test]
fn second_vote_on_a_ballot_is_refused() {
    let mut ballots = vec![open_ballot(1, "a", 10, vec![1, 2, 3, 4, 5])];
    assert_eq!(cast_vote(&mut ballots, 1, &s("a"), vec![4, 2], week(10)), Ok(()));
    assert_eq!(
        cast_vote(&mut ballots, 1, &s("a"), vec![1], week(10)),
        Err(Error::Conflict)
    );
    assert_eq!(ballots[0].vote, vec![4, 2]);
}

#[test]
fn vote_errors() {
    let mut ballots = vec![open_ballot(1, "a", 10, vec![1, 2, 3, 4, 5])];
    let now = week(10) + 5;
    assert_eq!(cast_vote(&mut ballots, 9, &s("a"), vec![1], now), Err(Error::NotFound));
    assert_eq!(cast_vote(&mut ballots, 1, &s("b"), vec![1], now), Err(Error::Forbidden));
    assert_eq!(
        cast_vote(&mut ballots, 1, &s("a"), vec![1], week(11)),
        Err(Error::Conflict)
    );
    assert_eq!(
        cast_vote(&mut ballots, 1, &s("a"), vec![1], week(10) - 1),
        Err(Error::Conflict)
    );
    assert_eq!(
        cast_vote(&mut ballots, 1, &s("a"), vec![1, 6], now),
        Err(Error::ValidationError)
    );
    assert_eq!(
        cast_vote(&mut ballots, 1, &s("a"), vec![2, 1, 2], now),
        Err(Error::ValidationError)
    );
    assert_eq!(ballots[0].state, BallotState::Open);
    assert!(ballots[0].vote.is_empty());
    assert_eq!(check_can_vote(&ballots, 1, &s("a"), now), Ok(0));
    assert_eq!(check_can_vote(&ballots, 1, &s("b"), week(11)), Err(Error::Forbidden));
    assert_eq!(cast_vote(&mut ballots, 1, &s("a"), vec![], week(11) - 1), Ok(()));
    assert_eq!(ballots[0].state, BallotState::Closed);
}

#[test]
fn vote_arrives_as_text() {
    let mut ballots = vec![open_ballot(1, "a", 10, vec![11, 12, 13, 14, -15])];
    let now = week(10);
    let text = |v: &[&str]| v.iter().map(|x| x.to_string()).collect::<Vec<String>>();
    assert_eq!(
        vote_submit(&mut ballots, 1, &s("a"), &text(&["12", "x"]), now),
        Err(Error::ValidationError)
    );
    assert_eq!(
        vote_submit(&mut ballots, 1, &s("a"), &text(&["12", ""]), now),
        Err(Error::ValidationError)
    );
    assert_eq!(
        vote_submit(&mut ballots, 1, &s("a"), &text(&["12", "99999999999"]), now),
        Err(Error::ValidationError)
    );
    assert_eq!(
        vote_submit(&mut ballots, 1, &s("a"), &text(&["12", "16"]), now),
        Err(Error::ValidationError)
    );
    assert_eq!(
        vote_submit(&mut ballots, 2, &s("a"), &text(&["x"]), now),
        Err(Error::NotFound)
    );
    assert_eq!(
        vote_submit(&mut ballots, 1, &s("b"), &text(&["x"]), now),
        Err(Error::Forbidden)
    );
    assert!(ballots[0].vote.is_empty());
    assert_eq!(
        vote_submit(&mut ballots, 1, &s("a"), &text(&["12", "+14", "-15"]), now),
        Ok(())
    );
    assert_eq!(ballots[0].vote, vec![12, 14, -15]);
    assert_eq!(ballots[0].state, BallotState::Closed);
    assert_eq!(
        vote_submit(&mut ballots, 1, &s("a"), &text(&["11"]), now),
        Err(Error::Conflict)
    );
    assert_eq!(parse_vote(&text(&["1", "22", "-3"])), Some(vec![1, 22, -3]));
    assert_eq!(parse_vote(&text(&["1", " 2"])), None);
    assert_eq!(parse_vote(&text(&[])), Some(vec![]));
}

#[test]
fn preparing_a_week_closes_its_open_ballots() {
    let mut voted = open_ballot(3, "c", 10, vec![1, 2, 3]);
    voted.vote = vec![2];
    voted.state = BallotState::Closed;
    let mut ballots = vec![
        open_ballot(1, "a", 10, vec![1, 2, 3]),
        open_ballot(2, "b", 11, vec![1, 2, 3]),
        voted,
        open_ballot(4, "d", 10, vec![4]),
    ];
    prepare_apurar(&mut ballots, 10);
    let states: Vec<BallotState> = ballots.iter().map(|b| b.state).collect();
    assert_eq!(
        states,
        vec![
            BallotState::Closed,
            BallotState::Open,
            BallotState::Closed,
            BallotState::Closed
        ]
    );
    assert!(ballots[0].vote.is_empty());
    assert_eq!(ballots[2].vote, vec![2]);
    assert_eq!(ballots[3].players, vec![4]);
    prepare_apurar(&mut ballots, 10);
    assert_eq!(ballots[1].state, BallotState::Open);
    assert_eq!(ballots[0].state, BallotState::Closed);
}

#[test]
fn finding_ballots_and_players() {
    let ballots = vec![
        open_ballot(5, "a", 1, vec![1, 2]),
        open_ballot(6, "a", 1, vec![3]),
        open_ballot(5, "b", 1, vec![]),
    ];
    assert_eq!(find_ballot(&ballots, 5), Some(0));
    assert_eq!(find_ballot(&ballots, 6), Some(1));
    assert_eq!(find_ballot(&ballots, 7), None);
    assert_eq!(find_open_ballot(&ballots, &s("b"), 1), Some(2));
    assert!(contains_player(&vec![1, 2, 3], 3));
    assert!(!contains_player(&vec![1, 2, 3], 4));
    assert!(!contains_player(&vec![], 4));
    assert!(vote_within_offer_of(&vec![1, 2, 3], &vec![3, 3, 1]));
    assert!(vote_within_offer_of(&vec![], &vec![]));
    assert!(!vote_within_offer_of(&vec![1, 2, 3], &vec![3, 0]));
    assert!(has_no_duplicates(&vec![]));
    assert!(has_no_duplicates(&vec![4, 2, 9]));
    assert!(!has_no_duplicates(&vec![4, 2, 4]));
    assert!(!has_no_duplicates(&vec![2, 2]));
    assert!(is_ranking_of_offer_of(&vec![1, 2, 3], &vec![3, 1]));
    assert!(is_ranking_of_offer_of(&vec![1, 2, 3], &vec![]));
    assert!(!is_ranking_of_offer_of(&vec![1, 2, 3], &vec![3, 3, 1]));
    assert!(!is_ranking_of_offer_of(&vec![1, 2, 3], &vec![4]));
}

fn registered(id: i32, nome: &str, apelido: &str) -> futeinf::player::Player {
    futeinf::player::Player {
        id,
        nome: s(nome),
        apelido: s(apelido),
        email: format!("{}@example.org", apelido),
        admin: false,
    }
}

#[test]
fn ballot_is_shown_to_its_voter_only() {
    let roster = vec![
        registered(1, "Ronaldo", "Fenômeno"),
        registered(2, "Messi", "Messi"),
        registered(3, "Neymar", "Ney"),
    ];
    let mut ballots = vec![open_ballot(1, "a", 10, vec![3, 1, 2])];
    let shown = futeinf::voting::vote(&ballots, &roster, 1, &s("a")).unwrap();
    let summary: Vec<(i32, &str, &str)> =
        shown.iter().map(|j| (j.id, j.nome.as_str(), j.apelido.as_str())).collect();
    assert_eq!(
        summary,
        vec![(3, "Neymar", "Ney"), (1, "Ronaldo", "Fenômeno"), (2, "Messi", "Messi")]
    );
    assert_eq!(
        futeinf::voting::vote(&ballots, &roster, 1, &s("b")).unwrap_err(),
        Error::Forbidden
    );
    assert_eq!(
        futeinf::voting::vote(&ballots, &roster, 2, &s("a")).unwrap_err(),
        Error::NotFound
    );
    assert!(futeinf::voting::vote_success(&ballots, &roster, 1, &s("a")).unwrap().is_empty());
    cast_vote(&mut ballots, 1, &s("a"), vec![2, 3], week(10)).unwrap();
    let voted = futeinf::voting::vote_success(&ballots, &roster, 1, &s("a")).unwrap();
    let ids: Vec<i32> = voted.iter().map(|j| j.id).collect();
    assert_eq!(ids, vec![2, 3]);
    assert_eq!(voted[1].apelido, "Ney");
    assert_eq!(
        futeinf::voting::vote_success(&ballots, &roster, 1, &s("c")).unwrap_err(),
        Error::Forbidden
    );
}

#[test]
fn ballot_with_an_unregistered_player_is_not_shown() {
    let roster = vec![registered(1, "Ronaldo", "Fenômeno")];
    let ballots = vec![open_ballot(1, "a", 10, vec![1, 2])];
    assert_eq!(
        futeinf::voting::vote(&ballots, &roster, 1, &s("a")).unwrap_err(),
        Error::NotFound
    );
    assert_eq!(futeinf::voting::find_player(&roster, 1), Some(0));
    assert_eq!(futeinf::voting::find_player(&roster, 2), None);
    assert_eq!(
        futeinf::voting::players_of(&roster, &vec![1, 1]).unwrap().len(),
        2
    );
}
