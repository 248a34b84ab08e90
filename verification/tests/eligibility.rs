use futeinf::eligibility::{
    attended_of, elegible_players_between, get_elegible_players, listed_of, Attendance,
    ListaExtra,
};
use futeinf::list::{get_list, get_max_jogadores, TicketFieldValue};
use futeinf::player::Player;
use futeinf::timings::{FIRST_REF_POINT, WEEK_IN_SECONDS};

const DAY: i64 = 86400;

fn player(id: i32, email: &str) -> Player {
    Player {
        id,
        nome: format!("N{}", id),
        apelido: format!("n{}", id),
        email: email.to_string(),
        admin: false,
    }
}

fn ticket(email: &str, start_ts: i64) -> Attendance {
    Attendance { email: email.to_string(), start_ts }
}

#[test]
fn extra_list_one_day_before_the_end_counts_and_one_day_after_does_not() {
    let end = FIRST_REF_POINT + 20 * WEEK_IN_SECONDS;
    let now = end + 2 * DAY;
    let roster = vec![player(1, "a@x"), player(2, "b@x")];
    let inside = vec![ListaExtra { id: 1, jogador_id: 2, data: end - DAY }];
    assert_eq!(get_elegible_players(&roster, &vec![], &inside, now), vec![2]);
    let outside = vec![ListaExtra { id: 1, jogador_id: 2, data: end + DAY }];
    assert_eq!(get_elegible_players(&roster, &vec![], &outside, now), Vec::<i32>::new());
}

#[test]
fn extra_list_window_is_strict_at_both_ends() {
    let end = FIRST_REF_POINT + 20 * WEEK_IN_SECONDS;
    let start = end - 4 * WEEK_IN_SECONDS;
    let now = end;
    let roster = vec![player(1, "a@x")];
    let at = |data: i64| {
        let extra = vec![ListaExtra { id: 1, jogador_id: 1, data }];
        get_elegible_players(&roster, &vec![], &extra, now)
    };
    assert_eq!(at(start), Vec::<i32>::new());
    assert_eq!(at(start + 1), vec![1]);
    assert_eq!(at(end - 1), vec![1]);
    assert_eq!(at(end), Vec::<i32>::new());
    assert!(listed_of(&vec![ListaExtra { id: 1, jogador_id: 1, data: 5 }], 1, 4, 6));
    assert!(!listed_of(&vec![ListaExtra { id: 1, jogador_id: 1, data: 5 }], 2, 4, 6));
    assert!(!listed_of(&vec![ListaExtra { id: 1, jogador_id: 1, data: 5 }], 1, 5, 6));
}

#[test]
fn tickets_count_by_email_with_both_ends_included() {
    let end = FIRST_REF_POINT + 20 * WEEK_IN_SECONDS;
    let start = end - 4 * WEEK_IN_SECONDS;
    let roster = vec![player(1, "a@x"), player(2, "b@x"), player(3, "c@x"), player(4, "d@x")];
    let tickets = vec![
        ticket("a@x", start),
        ticket("b@x", end),
        ticket("c@x", start - 1),
        ticket("d@x", end + 1),
        ticket("z@x", start + 5),
    ];
    assert_eq!(get_elegible_players(&roster, &tickets, &vec![], end + 5), vec![1, 2]);
    assert!(attended_of(&tickets, &"a@x".to_string(), start, end));
    assert!(!attended_of(&tickets, &"c@x".to_string(), start, end));
    assert!(!attended_of(&tickets, &"A@x".to_string(), start, end));
}

#[test]
fn eligible_players_are_each_listed_once_in_roster_order() {
    let roster = vec![player(3, "c@x"), player(1, "a@x"), player(2, "b@x")];
    let tickets = vec![ticket("a@x", 10), ticket("a@x", 11), ticket("c@x", 12)];
    let extra = vec![
        ListaExtra { id: 1, jogador_id: 1, data: 10 },
        ListaExtra { id: 2, jogador_id: 1, data: 11 },
    ];
    assert_eq!(elegible_players_between(&roster, &tickets, &extra, 0, 100), vec![3, 1]);
    assert_eq!(
        elegible_players_between(&roster, &vec![], &vec![], 0, 100),
        Vec::<i32>::new()
    );
    assert_eq!(
        elegible_players_between(&vec![], &tickets, &extra, 0, 100),
        Vec::<i32>::new()
    );
}

#[test]
fn signed_up_players_come_from_the_shirt_field() {
    let fields = vec![
        TicketFieldValue {
            ticket_id_fk: Some(4),
            field_value: Some("Zico".to_string()),
            field_configuration_id_fk: Some(2),
        },
        TicketFieldValue {
            ticket_id_fk: Some(9),
            field_value: Some("Pelé".to_string()),
            field_configuration_id_fk: None,
        },
    ];
    let list = get_list(&fields);
    assert_eq!(list.len(), 2);
    assert_eq!((list[0].id, list[0].nome.as_str(), list[0].apelido.as_str()), (4, "Zico", "Zico"));
    assert_eq!((list[1].id, list[1].nome.as_str(), list[1].apelido.as_str()), (9, "Pelé", "Pelé"));
    assert!(get_list(&vec![]).is_empty());
    assert_eq!(get_max_jogadores(), 24);
}

#[test]
fn eligible_players_are_listed_by_nickname() {
    let end = FIRST_REF_POINT + 20 * WEEK_IN_SECONDS;
    let roster = vec![player(3, "c@x"), player(1, "a@x"), player(2, "b@x")];
    let tickets = vec![ticket("b@x", end - DAY)];
    let extra = vec![ListaExtra { id: 1, jogador_id: 3, data: end - 3 * DAY }];
    assert_eq!(
        futeinf::eligibility::list_elegible_players(&roster, &tickets, &extra, end + DAY),
        vec!["n3".to_string(), "n2".to_string()]
    );
    assert_eq!(get_elegible_players(&roster, &tickets, &extra, end + DAY), vec![3, 2]);
    assert_eq!(
        futeinf::eligibility::list_elegible_players(&roster, &tickets, &extra, end - DAY),
        Vec::<String>::new()
    );
}
