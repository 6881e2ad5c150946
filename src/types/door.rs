use vstd::prelude::*;

verus! {

/// The goal marker: the level is won by placing a key on it.
#[derive(Clone, Copy, Debug)]
pub struct Door {
    pub pos: (usize, usize),
}

impl Door {
    pub fn new(x: usize, y: usize) -> (r: Door)
        ensures
            r.pos == (x, y),
    {
        Door { pos: (x, y) }
    }
}

} // verus!
