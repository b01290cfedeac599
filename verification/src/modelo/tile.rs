use vstd::prelude::*;
use super::bomba::Bomba;
use super::desvio::Desvio;
use super::enemigo::{Enemigo, EnemigoModelo};
use super::obstaculo::Obstaculo;

verus! {

/// What one cell of the board holds.
#[derive(Debug, Clone, PartialEq)]
pub enum Tile {
    Enemigo(Enemigo),
    BombaNormal(Bomba),
    BombaEspecial(Bomba),
    Desvio(Desvio),
    Piedra(Obstaculo),
    Pared(Obstaculo),
    Vacio,
}

/// What a cell holds, mathematically.
pub enum Casilla {
    Enemigo(EnemigoModelo),
    BombaNormal(Bomba),
    BombaEspecial(Bomba),
    Desvio(Desvio),
    Piedra(Obstaculo),
    Pared(Obstaculo),
    Vacio,
}

impl View for Tile {
    type V = Casilla;

    open spec fn view(&self) -> Casilla {
        match *self {
            Tile::Enemigo(e) => Casilla::Enemigo(e@),
            Tile::BombaNormal(b) => Casilla::BombaNormal(b),
            Tile::BombaEspecial(b) => Casilla::BombaEspecial(b),
            Tile::Desvio(d) => Casilla::Desvio(d),
            Tile::Piedra(o) => Casilla::Piedra(o),
            Tile::Pared(o) => Casilla::Pared(o),
            Tile::Vacio => Casilla::Vacio,
        }
    }
}

impl Tile {
    /// An enemy in this cell, if any, is alive and records no bomb twice.
    pub open spec fn wf(&self) -> bool {
        match *self {
            Tile::Enemigo(e) => e.wf() && e.vida > 0,
            _ => true,
        }
    }
}

impl Casilla {
    /// An enemy in this cell, if any, is alive: it has at least one point of
    /// health.
    pub open spec fn viva(self) -> bool {
        self matches Casilla::Enemigo(e) ==> e.vida > 0
    }

    /// The cell holds a bomb, of either kind.
    pub open spec fn es_bomba(self) -> bool {
        self is BombaNormal || self is BombaEspecial
    }

    /// The bomb in the cell.
    pub open spec fn bomba(self) -> Bomba
        recommends
            self.es_bomba(),
    {
        match self {
            Casilla::BombaNormal(b) => b,
            Casilla::BombaEspecial(b) => b,
            _ => arbitrary(),
        }
    }

    /// A blast that reaches the cell reports it and goes on: the cell is
    /// empty or holds an enemy or a bomb.
    pub open spec fn alcanzable(self) -> bool {
        self is Vacio || self is Enemigo || self.es_bomba()
    }
}

} // verus!
