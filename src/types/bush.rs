use vstd::prelude::*;
use crate::tiles::Tiles;
use crate::tilemap::{Aim, Choice, Land, Tilemap, diagonal, diagonal_offsets};

verus! {

/// Ticks between two spreads of a bush.
pub const BUSH_GROWTH: usize = 8;

/// A bush: every `BUSH_GROWTH` ticks asks its north-west and south-east neighbours to
/// become bushes.
#[derive(PartialEq, Eq, Structural, Clone, Copy, Debug)]
pub struct Bush {
    pub x: usize,
    pub y: usize,
    pub growth: usize,
    pub removed: bool,
    pub frozen: bool,
}

impl Bush {
    pub open spec fn wf(self) -> bool {
        self.growth < BUSH_GROWTH
    }

    pub open spec fn spreads(self) -> bool {
        self.growth + 1 >= BUSH_GROWTH && !self.frozen
    }

    pub open spec fn next(self) -> Bush {
        if self.growth + 1 >= BUSH_GROWTH {
            Bush { growth: 0, ..self }
        } else {
            Bush { growth: (self.growth + 1) as usize, ..self }
        }
    }

    pub open spec fn emitted(self, land: Land) -> Seq<Choice> {
        if self.spreads() {
            land.aimed(Tiles::Bush, self.x as int, self.y as int, diagonal(), Aim::Any, Tiles::Bush)
        } else {
            seq![]
        }
    }

    pub open spec fn interacted(self, t: Tiles) -> Bush {
        if t == Tiles::Grass {
            Bush { removed: true, ..self }
        } else if t == Tiles::Ice {
            Bush { frozen: true, ..self }
        } else {
            self
        }
    }

    pub fn new(x: usize, y: usize) -> (r: Bush)
        ensures
            r == (Bush { x, y, growth: 0, removed: false, frozen: false }),
            r.wf(),
    {
        Bush { x, y, growth: 0, removed: false, frozen: false }
    }

    fn spread(&self, map: &mut Tilemap)
        requires
            old(map).wf(),
            old(map).land().in_range(self.x as int, self.y as int),
        ensures
            final(map).queued(
                *old(map),
                old(map).land().aimed(Tiles::Bush, self.x as int, self.y as int, diagonal(), Aim::Any, Tiles::Bush),
                seq![],
            ),
    {
        map.request_around(Tiles::Bush, self.x, self.y, &diagonal_offsets(), Aim::Any, Tiles::Bush);
        assert(map.harvestable@ =~= old(map).harvestable@ + Seq::<(usize, usize)>::empty());
    }

    /// Counts the tick; on a growth boundary spreads, unless frozen.
    pub fn update(&mut self, map: &mut Tilemap)
        requires
            old(self).wf(),
            old(map).wf(),
            old(map).land().in_range(old(self).x as int, old(self).y as int),
        ensures
            *final(self) == old(self).next(),
            final(self).wf(),
            final(map).queued(*old(map), old(self).emitted(old(map).land()), seq![]),
    {
        self.growth += 1;
        if self.growth >= BUSH_GROWTH && !self.frozen {
            self.growth = 0;
            self.spread(map);
        } else {
            if self.growth >= BUSH_GROWTH {
                self.growth = 0;
            }
            assert(map.map_updates@ =~= old(map).map_updates@ + Seq::<Choice>::empty());
            assert(map.harvestable@ =~= old(map).harvestable@ + Seq::<(usize, usize)>::empty());
        }
    }

    /// Grass clears it; ice freezes it.
    pub fn interact(&mut self, t: Tiles)
        ensures
            *final(self) == old(self).interacted(t),
    {
        if t == Tiles::Grass {
            self.removed = true;
        } else if t == Tiles::Ice {
            self.frozen = true;
        }
    }
}

} // verus!
