use vstd::prelude::*;
use crate::tiles::Tiles;
use crate::tilemap::{Choice, Land, Tilemap};
use crate::types::{Bush, Carrot, Door, Empty, Goat, Grass, Ice, Root, Water};

verus! {

/// The entity that owns one cell: one variant per kind that can stand on the board.
#[derive(Clone, Copy, Debug)]
pub enum Entity {
    Empty(Empty),
    Grass(Grass),
    Root(Root),
    Carrot(Carrot),
    Goat(Goat),
    Bush(Bush),
    Water(Water),
    Ice(Ice),
    Door(Door),
}

impl Entity {
    pub open spec fn kind(self) -> Tiles {
        match self {
            Entity::Empty(_) => Tiles::Void,
            Entity::Grass(_) => Tiles::Grass,
            Entity::Root(_) => Tiles::Root,
            Entity::Carrot(_) => Tiles::Carrot,
            Entity::Goat(_) => Tiles::Goat,
            Entity::Bush(_) => Tiles::Bush,
            Entity::Water(_) => Tiles::Water,
            Entity::Ice(_) => Tiles::Ice,
            Entity::Door(_) => Tiles::Door,
        }
    }

    pub open spec fn at(self) -> (usize, usize) {
        match self {
            Entity::Empty(e) => e.pos,
            Entity::Grass(g) => (g.x, g.y),
            Entity::Root(r) => (r.x, r.y),
            Entity::Carrot(c) => (c.x, c.y),
            Entity::Goat(g) => (g.x, g.y),
            Entity::Bush(b) => (b.x, b.y),
            Entity::Water(w) => (w.x, w.y),
            Entity::Ice(i) => (i.x, i.y),
            Entity::Door(d) => d.pos,
        }
    }

    pub open spec fn wf(self) -> bool {
        match self {
            Entity::Root(r) => r.wf(),
            Entity::Carrot(c) => c.wf(),
            Entity::Goat(g) => g.wf(),
            Entity::Bush(b) => b.wf(),
            _ => true,
        }
    }

    /// Whether the entity has destroyed itself and should leave its cell.
    pub open spec fn gone(self) -> bool {
        match self {
            Entity::Root(r) => r.removed,
            Entity::Carrot(c) => c.hp == 0,
            Entity::Bush(b) => b.removed,
            _ => false,
        }
    }

    /// The entity after one update on a board whose cells are `land`.
    pub open spec fn next(self, land: Land) -> Entity {
        match self {
            Entity::Root(r) => Entity::Root(r.next()),
            Entity::Carrot(c) => Entity::Carrot(c.next()),
            Entity::Goat(g) => Entity::Goat(g.next(land)),
            Entity::Bush(b) => Entity::Bush(b.next()),
            _ => self,
        }
    }

    /// The requests queued by one update.
    pub open spec fn emitted(self, land: Land) -> Seq<Choice> {
        match self {
            Entity::Root(r) => r.emitted(land),
            Entity::Carrot(c) => c.emitted(land),
            Entity::Goat(g) => g.emitted(land),
            Entity::Bush(b) => b.emitted(land),
            Entity::Water(w) => w.emitted(land),
            Entity::Ice(i) => i.emitted(land),
            _ => seq![],
        }
    }

    /// The harvest entries recorded by one update.
    pub open spec fn harvest(self) -> Seq<(usize, usize)> {
        match self {
            Entity::Carrot(c) => c.harvest(),
            _ => seq![],
        }
    }

    /// The entity after a resolved request to become `t` acted on it.
    pub open spec fn interacted(self, t: Tiles) -> Entity {
        match self {
            Entity::Root(r) => Entity::Root(r.interacted(t)),
            Entity::Carrot(c) => Entity::Carrot(c.interacted(t)),
            Entity::Goat(g) => Entity::Goat(g.interacted(t)),
            Entity::Bush(b) => Entity::Bush(b.interacted(t)),
            Entity::Water(w) => Entity::Water(w.interacted(t)),
            _ => self,
        }
    }

    /// A newly made entity of kind `t` at (`x`, `y`); `Key`, which never stands on the
    /// board, gives the null entity.
    pub open spec fn fresh(t: Tiles, x: usize, y: usize) -> Entity {
        match t {
            Tiles::Grass => Entity::Grass(Grass { x, y }),
            Tiles::Root => Entity::Root(
                Root { x, y, growth: 0, age: 0, max_age: crate::types::root::ROOT_MAX_AGE, removed: false, frozen: false },
            ),
            Tiles::Carrot => Entity::Carrot(
                Carrot {
                    x,
                    y,
                    frame: 1,
                    hp: crate::types::carrot::MAX_HP,
                    no_dmg: true,
                    no_dmg_turns: 0,
                    turns_watered: 0,
                    watered: false,
                    frozen: false,
                },
            ),
            Tiles::Goat => Entity::Goat(
                Goat { x, y, charges: crate::types::goat::MAX_CHARGE, sleep: 0, frozen: false },
            ),
            Tiles::Bush => Entity::Bush(Bush { x, y, growth: 0, removed: false, frozen: false }),
            Tiles::Water => Entity::Water(Water { x, y, frozen: false }),
            Tiles::Ice => Entity::Ice(Ice { x, y }),
            Tiles::Door => Entity::Door(Door { pos: (x, y) }),
            _ => Entity::Empty(Empty { pos: (x, y) }),
        }
    }

    /// Builds the entity for a cell of kind `t` at (`x`, `y`).
    pub fn make(t: Tiles, x: usize, y: usize) -> (r: Entity)
        ensures
            r == Entity::fresh(t, x, y),
    {
        match t {
            Tiles::Grass => Entity::Grass(Grass::new(x, y)),
            Tiles::Root => Entity::Root(Root::new(x, y)),
            Tiles::Carrot => Entity::Carrot(Carrot::new(x, y)),
            Tiles::Goat => Entity::Goat(Goat::new(x, y)),
            Tiles::Bush => Entity::Bush(Bush::new(x, y)),
            Tiles::Water => Entity::Water(Water::new(x, y)),
            Tiles::Ice => Entity::Ice(Ice::new(x, y)),
            Tiles::Door => Entity::Door(Door::new(x, y)),
            _ => Entity::Empty(Empty::new(x, y)),
        }
    }

    pub fn tile(&self) -> (r: Tiles)
        ensures
            r == self.kind(),
    {
        match self {
            Entity::Empty(_) => Tiles::Void,
            Entity::Grass(_) => Tiles::Grass,
            Entity::Root(_) => Tiles::Root,
            Entity::Carrot(_) => Tiles::Carrot,
            Entity::Goat(_) => Tiles::Goat,
            Entity::Bush(_) => Tiles::Bush,
            Entity::Water(_) => Tiles::Water,
            Entity::Ice(_) => Tiles::Ice,
            Entity::Door(_) => Tiles::Door,
        }
    }

    pub fn pos(&self) -> (r: (usize, usize))
        ensures
            r == self.at(),
    {
        match self {
            Entity::Empty(e) => e.pos,
            Entity::Grass(g) => (g.x, g.y),
            Entity::Root(r) => (r.x, r.y),
            Entity::Carrot(c) => (c.x, c.y),
            Entity::Goat(g) => (g.x, g.y),
            Entity::Bush(b) => (b.x, b.y),
            Entity::Water(w) => (w.x, w.y),
            Entity::Ice(i) => (i.x, i.y),
            Entity::Door(d) => d.pos,
        }
    }

    pub fn removed(&self) -> (r: bool)
        ensures
            r == self.gone(),
    {
        match self {
            Entity::Root(r) => r.removed,
            Entity::Carrot(c) => c.hp == 0,
            Entity::Bush(b) => b.removed,
            _ => false,
        }
    }

    /// Advances the entity by one tick, queuing its requests and harvest entries.
    pub fn update(&mut self, map: &mut Tilemap)
        requires
            old(self).wf(),
            old(map).wf(),
            old(map).land().in_range(old(self).at().0 as int, old(self).at().1 as int),
        ensures
            *final(self) == old(self).next(old(map).land()),
            final(self).wf(),
            final(map).queued(*old(map), old(self).emitted(old(map).land()), old(self).harvest()),
    {
        match self {
            Entity::Root(r) => r.update(map),
            Entity::Carrot(c) => c.update(map),
            Entity::Goat(g) => g.update(map),
            Entity::Bush(b) => b.update(map),
            Entity::Water(w) => w.update(map),
            Entity::Ice(i) => i.update(map),
            _ => {
                assert(map.map_updates@ =~= old(map).map_updates@ + Seq::<Choice>::empty());
                assert(map.harvestable@ =~= old(map).harvestable@ + Seq::<(usize, usize)>::empty());
            },
        }
    }

    /// Applies a resolved request to become `t` to the entity in place.
    pub fn interact(&mut self, t: Tiles)
        requires
            old(self).wf(),
        ensures
            *final(self) == old(self).interacted(t),
            final(self).wf(),
    {
        match self {
            Entity::Root(r) => r.interact(t),
            Entity::Carrot(c) => c.interact(t),
            Entity::Goat(g) => g.interact(t),
            Entity::Bush(b) => b.interact(t),
            Entity::Water(w) => w.interact(t),
            _ => {},
        }
    }
}

/// An update, a resolved request and a fresh construction keep an entity's kind,
/// place and well-formedness.
pub proof fn lemma_entity_steps_keep_shape(e: Entity, land: Land, t: Tiles)
    requires
        e.wf(),
    ensures
        e.next(land).wf(),
        e.next(land).kind() == e.kind(),
        e.next(land).at() == e.at(),
        e.interacted(t).wf(),
        e.interacted(t).kind() == e.kind(),
        e.interacted(t).at() == e.at(),
{
}

/// A fresh entity has the kind asked for (but for `Key`), stands where asked, and is
/// well formed.
pub proof fn lemma_fresh(t: Tiles, x: usize, y: usize)
    ensures
        Entity::fresh(t, x, y).wf(),
        Entity::fresh(t, x, y).at() == (x, y),
        t != Tiles::Key ==> Entity::fresh(t, x, y).kind() == t,
        !Entity::fresh(t, x, y).gone(),
{
}

} // verus!
