//! The roster of registered players.

use vstd::prelude::*;

verus! {

/// A registered player.
#[derive(Clone, Debug)]
pub struct Player {
    pub id: i32,
    pub nome: String,
    pub apelido: String,
    pub email: String,
    pub admin: bool,
}

/// A registered player as mathematical values.
pub struct PlayerView {
    pub id: i32,
    pub nome: Seq<char>,
    pub apelido: Seq<char>,
    pub email: Seq<char>,
    pub admin: bool,
}

impl View for Player {
    type V = PlayerView;

    open spec fn view(&self) -> PlayerView {
        PlayerView {
            id: self.id,
            nome: self.nome@,
            apelido: self.apelido@,
            email: self.email@,
            admin: self.admin,
        }
    }
}

} // verus!
