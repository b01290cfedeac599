use vstd::prelude::*;
use super::direccion::Direccion;

verus! {

/// A deflector: it turns a blast that reaches it towards `direccion`.
#[derive(Debug, Clone, Copy, PartialEq, Eq, Structural)]
pub struct Desvio {
    pub x: usize,
    pub y: usize,
    pub direccion: Direccion,
}

/// The letter that stands for a direction: `U`, `D`, `L` or `R`.
pub open spec fn letra_de(d: Direccion) -> char {
    match d {
        Direccion::Arriba => 'U',
        Direccion::Abajo => 'D',
        Direccion::Izquierda => 'L',
        Direccion::Derecha => 'R',
    }
}

impl Desvio {
    /// The letter of the deflector's direction.
    pub fn char_direccion(&self) -> (c: char)
        ensures
            c == letra_de(self.direccion),
    {
        match self.direccion {
            Direccion::Arriba => 'U',
            Direccion::Abajo => 'D',
            Direccion::Izquierda => 'L',
            Direccion::Derecha => 'R',
        }
    }
}

} // verus!
