use vstd::prelude::*;

verus! {

/// The four directions a blast can travel in.
#[derive(Debug, Clone, Copy, PartialEq, Eq, Structural)]
pub enum Direccion {
    Arriba,
    Abajo,
    Izquierda,
    Derecha,
}

impl Direccion {
    /// Horizontal component of the unit vector of this direction.
    pub open spec fn dx(self) -> int {
        match self {
            Direccion::Izquierda => -1,
            Direccion::Derecha => 1,
            _ => 0,
        }
    }

    /// Vertical component of the unit vector of this direction; rows grow
    /// downwards, so `Arriba` is `-1`.
    pub open spec fn dy(self) -> int {
        match self {
            Direccion::Arriba => -1,
            Direccion::Abajo => 1,
            _ => 0,
        }
    }
}

} // verus!
