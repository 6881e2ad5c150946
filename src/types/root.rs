use vstd::prelude::*;
use crate::tiles::Tiles;
use crate::tilemap::{Aim, Choice, Land, Tilemap, orthogonal, orthogonal_offsets};

verus! {

/// Ticks between two growth steps (or, once mature, two spreads) of a root.
pub const ROOT_GROWTH: usize = 2;

/// The growth stage at which a root is mature.
pub const ROOT_MAX_AGE: usize = 3;

/// A weed root: grows through its stages, then keeps asking its four orthogonal
/// neighbours to become roots too.
#[derive(PartialEq, Eq, Structural, Clone, Copy, Debug)]
pub struct Root {
    pub x: usize,
    pub y: usize,
    pub growth: usize,
    pub age: usize,
    pub max_age: usize,
    pub removed: bool,
    pub frozen: bool,
}

impl Root {
    pub open spec fn wf(self) -> bool {
        self.growth < ROOT_GROWTH && self.age <= self.max_age
    }

    pub open spec fn mature(self) -> bool {
        self.age == self.max_age
    }

    /// Whether this update reaches a growth boundary.
    pub open spec fn at_boundary(self) -> bool {
        self.growth + 1 >= ROOT_GROWTH
    }

    /// Whether this update asks the neighbours to become roots.
    pub open spec fn spreads(self) -> bool {
        self.at_boundary() && !self.frozen && self.mature()
    }

    /// The root after one update.
    pub open spec fn next(self) -> Root {
        if !self.at_boundary() {
            Root { growth: (self.growth + 1) as usize, ..self }
        } else if !self.frozen && !self.mature() {
            Root { growth: 0, age: (self.age + 1) as usize, ..self }
        } else {
            Root { growth: 0, ..self }
        }
    }

    /// The requests of one update.
    pub open spec fn emitted(self, land: Land) -> Seq<Choice> {
        if self.spreads() {
            land.aimed(Tiles::Root, self.x as int, self.y as int, orthogonal(), Aim::Any, Tiles::Root)
        } else {
            seq![]
        }
    }

    pub open spec fn interacted(self, t: Tiles) -> Root {
        if t == Tiles::Grass || t == Tiles::Bush {
            Root { removed: true, ..self }
        } else if t == Tiles::Ice {
            Root { frozen: true, ..self }
        } else {
            self
        }
    }

    pub fn new(x: usize, y: usize) -> (r: Root)
        ensures
            r == (Root { x, y, growth: 0, age: 0, max_age: ROOT_MAX_AGE, removed: false, frozen: false }),
            r.wf(),
    {
        Root { x, y, growth: 0, age: 0, max_age: ROOT_MAX_AGE, removed: false, frozen: false }
    }

    fn spread(&self, map: &mut Tilemap)
        requires
            old(map).wf(),
            old(map).land().in_range(self.x as int, self.y as int),
        ensures
            final(map).queued(
                *old(map),
                old(map).land().aimed(Tiles::Root, self.x as int, self.y as int, orthogonal(), Aim::Any, Tiles::Root),
                seq![],
            ),
    {
        map.request_around(Tiles::Root, self.x, self.y, &orthogonal_offsets(), Aim::Any, Tiles::Root);
        assert(map.harvestable@ =~= old(map).harvestable@ + Seq::<(usize, usize)>::empty());
    }

    fn behaviour(&mut self, map: &mut Tilemap)
        requires
            old(map).wf(),
            old(map).land().in_range(old(self).x as int, old(self).y as int),
            old(self).age <= old(self).max_age,
        ensures
            final(self).x == old(self).x,
            final(self).y == old(self).y,
            final(self).growth == old(self).growth,
            final(self).max_age == old(self).max_age,
            final(self).removed == old(self).removed,
            final(self).frozen == old(self).frozen,
            final(self).age == (if !old(self).frozen && !old(self).mature() {
                old(self).age + 1
            } else {
                old(self).age as int
            }),
            final(map).queued(
                *old(map),
                if !old(self).frozen && old(self).mature() {
                    old(map).land().aimed(Tiles::Root, old(self).x as int, old(self).y as int, orthogonal(), Aim::Any, Tiles::Root)
                } else {
                    seq![]
                },
                seq![],
            ),
    {
        if self.frozen || self.age != self.max_age {
            if !self.frozen {
                self.age += 1;
            }
            assert(map.map_updates@ =~= old(map).map_updates@ + Seq::<Choice>::empty());
            assert(map.harvestable@ =~= old(map).harvestable@ + Seq::<(usize, usize)>::empty());
            return;
        }
        self.spread(map);
    }

    /// Counts the tick; on a growth boundary, advances a stage or, once mature, spreads.
    pub fn update(&mut self, map: &mut Tilemap)
        requires
            old(self).wf(),
            old(map).wf(),
            old(map).land().in_range(old(self).x as int, old(self).y as int),
        ensures
            *final(self) == old(self).next(),
            final(self).wf(),
            final(map).queued(*old(map), old(self).emitted(old(map).land()), seq![]),
    {
        self.growth += 1;
        if self.growth >= ROOT_GROWTH {
            self.growth = 0;
            self.behaviour(map);
        } else {
            assert(map.map_updates@ =~= old(map).map_updates@ + Seq::<Choice>::empty());
            assert(map.harvestable@ =~= old(map).harvestable@ + Seq::<(usize, usize)>::empty());
        }
    }

    /// Grass or a bush uproots it; ice freezes it.
    pub fn interact(&mut self, t: Tiles)
        ensures
            *final(self) == old(self).interacted(t),
    {
        if t == Tiles::Grass || t == Tiles::Bush {
            self.removed = true;
        } else if t == Tiles::Ice {
            self.frozen = true;
        }
    }
}

/// The root after `k` updates.
pub open spec fn root_after(r: Root, k: nat) -> Root
    decreases k,
{
    if k == 0 {
        r
    } else {
        root_after(r, (k - 1) as nat).next()
    }
}

/// A mature root that is not frozen stays so, and spreads on exactly those updates
/// that reach a growth boundary: one in every `ROOT_GROWTH`, indefinitely. A spread
/// asks each orthogonal neighbour on the board to become a root; neighbours off the
/// board get no request.
pub proof fn lemma_mature_root_spreads_periodically(r: Root, land: Land, k: nat)
    requires
        land.wf(),
        r.wf(),
        r.mature(),
        !r.frozen,
    ensures
        root_after(r, k).emitted(land) == (if (r.growth + k + 1) % (ROOT_GROWTH as int) == 0 {
            land.aimed(Tiles::Root, r.x as int, r.y as int, orthogonal(), Aim::Any, Tiles::Root)
        } else {
            Seq::<Choice>::empty()
        }),
        forall|j: int|
            0 <= j < root_after(r, k).emitted(land).len() ==> {
                let c = #[trigger] root_after(r, k).emitted(land)[j];
                &&& land.holds(c)
                &&& land.cells[c.i as int] != Tiles::Void
                &&& c.dst == Tiles::Root
            },
        root_after(r, k).wf(),
        root_after(r, k).x == r.x,
        root_after(r, k).y == r.y,
        root_after(r, k).mature(),
        !root_after(r, k).frozen,
        root_after(r, k).growth == (r.growth + k) % (ROOT_GROWTH as int),
        root_after(r, k).spreads() <==> (r.growth + k + 1) % (ROOT_GROWTH as int) == 0,
    decreases k,
{
    if k > 0 {
        lemma_mature_root_spreads_periodically(r, land, (k - 1) as nat);
    }
    crate::tilemap::lemma_aimed_on_board(land, Tiles::Root, r.x as int, r.y as int, orthogonal(), Aim::Any, Tiles::Root);
}

} // verus!
