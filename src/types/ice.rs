use vstd::prelude::*;
use crate::tiles::Tiles;
use crate::tilemap::{Aim, Choice, Land, Tilemap, surrounding, surrounding_offsets};

verus! {

/// Ice asks all eight neighbours to freeze over every tick.
#[derive(PartialEq, Eq, Structural, Clone, Copy, Debug)]
pub struct Ice {
    pub x: usize,
    pub y: usize,
}

impl Ice {
    pub fn new(x: usize, y: usize) -> (r: Ice)
        ensures
            r.x == x,
            r.y == y,
    {
        Ice { x, y }
    }

    /// The requests of one update.
    pub open spec fn emitted(self, land: Land) -> Seq<Choice> {
        land.aimed(Tiles::Ice, self.x as int, self.y as int, surrounding(), Aim::Any, Tiles::Ice)
    }

    pub fn update(&mut self, map: &mut Tilemap)
        requires
            old(map).wf(),
            old(map).land().in_range(old(self).x as int, old(self).y as int),
        ensures
            *final(self) == *old(self),
            final(map).queued(*old(map), old(self).emitted(old(map).land()), seq![]),
    {
        map.request_around(Tiles::Ice, self.x, self.y, &surrounding_offsets(), Aim::Any, Tiles::Ice);
        assert(map.harvestable@ =~= old(map).harvestable@ + Seq::<(usize, usize)>::empty());
    }
}

} // verus!
