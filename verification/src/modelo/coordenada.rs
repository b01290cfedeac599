use vstd::prelude::*;

verus! {

/// A cell of the board: `x` is the column and `y` the row, both counted from
/// the top left corner, which is `(0, 0)`.
#[derive(Debug, Clone, Copy, PartialEq, Eq, Hash, Structural)]
pub struct Coordenada {
    pub x: usize,
    pub y: usize,
}

} // verus!
