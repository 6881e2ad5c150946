use vstd::prelude::*;
use crate::tiles::Tiles;
use crate::tilemap::{Aim, Choice, Land, Tilemap, surrounding, surrounding_offsets};

verus! {

/// Water waters every carrot among its eight neighbours each tick, until frozen.
#[derive(PartialEq, Eq, Structural, Clone, Copy, Debug)]
pub struct Water {
    pub x: usize,
    pub y: usize,
    pub frozen: bool,
}

impl Water {
    pub fn new(x: usize, y: usize) -> (r: Water)
        ensures
            r == (Water { x, y, frozen: false }),
    {
        Water { x, y, frozen: false }
    }

    /// The requests of one update: a watering request to each neighbouring carrot.
    pub open spec fn emitted(self, land: Land) -> Seq<Choice> {
        if self.frozen {
            seq![]
        } else {
            land.aimed(Tiles::Water, self.x as int, self.y as int, surrounding(), Aim::Carrots, Tiles::Water)
        }
    }

    pub open spec fn interacted(self, t: Tiles) -> Water {
        if t == Tiles::Ice {
            Water { frozen: true, ..self }
        } else {
            self
        }
    }

    pub fn update(&mut self, map: &mut Tilemap)
        requires
            old(map).wf(),
            old(map).land().in_range(old(self).x as int, old(self).y as int),
        ensures
            *final(self) == *old(self),
            final(map).queued(*old(map), old(self).emitted(old(map).land()), seq![]),
    {
        assert(map.harvestable@ =~= old(map).harvestable@ + Seq::<(usize, usize)>::empty());
        if self.frozen {
            assert(map.map_updates@ =~= old(map).map_updates@ + Seq::<Choice>::empty());
            return;
        }
        map.request_around(Tiles::Water, self.x, self.y, &surrounding_offsets(), Aim::Carrots, Tiles::Water);
    }

    pub fn interact(&mut self, t: Tiles)
        ensures
            *final(self) == old(self).interacted(t),
    {
        if t == Tiles::Ice {
            self.frozen = true;
        }
    }
}

} // verus!
