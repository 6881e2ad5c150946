use vstd::prelude::*;

verus! {

/// The null entity of a cell that is not part of the playable board.
#[derive(Clone, Copy, Debug)]
pub struct Empty {
    pub pos: (usize, usize),
}

impl Empty {
    pub fn new(x: usize, y: usize) -> (r: Empty)
        ensures
            r.pos == (x, y),
    {
        Empty { pos: (x, y) }
    }
}

} // verus!
