//! The list of players signed up for the next game, read from their
//! tickets.

use vstd::prelude::*;

verus! {

/// A player as shown in lists.
#[derive(Clone, Debug)]
pub struct Jogador {
    pub nome: String,
    pub id: i32,
    pub apelido: String,
}

/// A ticket to an event.
#[derive(Clone, Debug)]
pub struct Ticket {
    pub status: String,
    pub id: i32,
    pub event_id: i32,
    pub full_name: Option<String>,
    pub email_address: Option<String>,
}

/// What a ticket holder wrote into one field of the sign-up form.
#[derive(Clone, Debug)]
pub struct TicketFieldValue {
    pub ticket_id_fk: Option<i32>,
    pub field_value: Option<String>,
    pub field_configuration_id_fk: Option<i64>,
}

/// The field holds a value and belongs to a ticket.
pub open spec fn is_filled(fv: TicketFieldValue) -> bool {
    fv.field_value is Some && fv.ticket_id_fk is Some
}

/// The signed-up players, one for each value of the shirt-name field: the
/// value is both name and nickname, the ticket's id is the player's id.
pub fn get_list(tickets_fields: &Vec<TicketFieldValue>) -> (list: Vec<Jogador>)
    requires
        forall|k: int| 0 <= k < tickets_fields@.len() ==> is_filled(#[trigger] tickets_fields@[k]),
    ensures
        list@.len() == tickets_fields@.len(),
        forall|k: int|
            0 <= k < list@.len() ==> {
                &&& (#[trigger] list@[k]).nome == tickets_fields@[k].field_value.unwrap()
                &&& list@[k].apelido == tickets_fields@[k].field_value.unwrap()
                &&& list@[k].id == tickets_fields@[k].ticket_id_fk.unwrap()
            },
{
    let mut list: Vec<Jogador> = Vec::new();
    let mut k: usize = 0;
    while k < tickets_fields.len()
        invariant
            k <= tickets_fields.len(),
            forall|i: int|
                0 <= i < tickets_fields@.len() ==> is_filled(#[trigger] tickets_fields@[i]),
            list@.len() == k,
            forall|i: int|
                0 <= i < k ==> {
                    &&& (#[trigger] list@[i]).nome == tickets_fields@[i].field_value.unwrap()
                    &&& list@[i].apelido == tickets_fields@[i].field_value.unwrap()
                    &&& list@[i].id == tickets_fields@[i].ticket_id_fk.unwrap()
                },
        decreases tickets_fields.len() - k,
    {
        let fv = &tickets_fields[k];
        match (&fv.field_value, fv.ticket_id_fk) {
            (Some(camisa), Some(id)) => {
                list.push(Jogador { nome: camisa.clone(), id: id, apelido: camisa.clone() });
            },
            _ => {},
        }
        k += 1;
    }
    list
}

/// The number of players that a game takes.
pub fn get_max_jogadores() -> (n: usize)
    ensures
        n == 24,
{
    24
}

} // verus!
