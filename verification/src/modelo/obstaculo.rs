use vstd::prelude::*;

verus! {

/// An obstacle. `pasable` says whether the blast of a special bomb goes
/// through it: it does through a rock and does not through a wall. A blast
/// goes by the kind of tile that holds the obstacle, rock or wall.
#[derive(Debug, Clone, Copy, PartialEq, Eq, Structural)]
pub struct Obstaculo {
    pub x: usize,
    pub y: usize,
    pub pasable: bool,
}

impl Obstaculo {
    /// Builds an obstacle.
    pub fn crear(x: usize, y: usize, pasable: bool) -> (o: Obstaculo)
        ensures
            o == (Obstaculo { x, y, pasable }),
    {
        Obstaculo { x, y, pasable }
    }
}

} // verus!
