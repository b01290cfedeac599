use vstd::prelude::*;
use super::coordenada::Coordenada;

verus! {

/// A bomb. Its blast travels `radio` cells in each of the four directions;
/// when `especial` is set the blast goes through rocks.
#[derive(Debug, Clone, Copy, PartialEq, Eq, Structural)]
pub struct Bomba {
    pub x: usize,
    pub y: usize,
    pub radio: u32,
    pub especial: bool,
}

impl Bomba {
    /// Builds a bomb. With `radio == 0` the bomb harms no cell but its own.
    pub fn crear(x: usize, y: usize, radio: u32, especial: bool) -> (b: Bomba)
        ensures
            b == (Bomba { x, y, radio, especial }),
    {
        Bomba { x, y, radio, especial }
    }

    /// The coordinate the bomb was built with.
    pub fn coordenadas(&self) -> (c: Coordenada)
        ensures
            c == (Coordenada { x: self.x, y: self.y }),
    {
        Coordenada { x: self.x, y: self.y }
    }
}

} // verus!
