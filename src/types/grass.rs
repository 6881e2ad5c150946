use vstd::prelude::*;

verus! {

/// Open, plantable ground; it does nothing on its own.
#[derive(PartialEq, Eq, Structural, Clone, Copy, Debug)]
pub struct Grass {
    pub x: usize,
    pub y: usize,
}

impl Grass {
    pub fn new(x: usize, y: usize) -> (r: Grass)
        ensures
            r.x == x,
            r.y == y,
    {
        Grass { x, y }
    }
}

} // verus!
