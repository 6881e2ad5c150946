use vstd::prelude::*;
use crate::tiles::Tiles;
use crate::tilemap::{Aim, Choice, Land, Tilemap, orthogonal, orthogonal_offsets};

verus! {

/// A carrot's full health.
pub const MAX_HP: usize = 3;

/// Consecutive ticks at full health between two harvests.
pub const HARVEST_TIME: usize = 4;

/// Waterings, over consecutive watered ticks, after which a carrot spreads to its
/// orthogonal neighbours.
pub const WATER_SPREAD: usize = 6;

/// A carrot: heals, pulses a harvest after `HARVEST_TIME` ticks at full health, and
/// spreads once watered enough.
#[derive(PartialEq, Eq, Structural, Clone, Copy, Debug)]
pub struct Carrot {
    pub x: usize,
    pub y: usize,
    /// The stage it is drawn at: 0 while it shows a harvest, else `MAX_HP + 1 - hp`.
    pub frame: usize,
    pub hp: usize,
    /// No damage was taken since the last update.
    pub no_dmg: bool,
    /// Consecutive ticks at full health since the last harvest.
    pub no_dmg_turns: usize,
    /// Waterings received over the current run of watered ticks.
    pub turns_watered: usize,
    /// Watered since the last update.
    pub watered: bool,
    pub frozen: bool,
}

impl Carrot {
    pub open spec fn wf(self) -> bool {
        self.hp <= MAX_HP && self.no_dmg_turns < HARVEST_TIME
    }

    /// The update heals past full health: this tick counts towards a harvest.
    pub open spec fn at_full(self) -> bool {
        !self.frozen && self.no_dmg && self.hp + 1 > MAX_HP
    }

    /// Whether this update pulses a harvest.
    pub open spec fn pulses(self) -> bool {
        self.at_full() && self.no_dmg_turns + 1 >= HARVEST_TIME
    }

    /// Whether this update asks the neighbours to become carrots: the watering run
    /// goes on (watered since the last update, no damage) and has reached
    /// `WATER_SPREAD`.
    pub open spec fn spreads(self) -> bool {
        !self.frozen && self.no_dmg && self.watered && self.turns_watered >= WATER_SPREAD
    }

    /// The carrot after one update. Unless frozen it heals one point, up to full;
    /// damage since the last update breaks both the full-health streak and the
    /// watering run, and so does a tick without water for the latter.
    pub open spec fn next(self) -> Carrot {
        if self.frozen {
            self
        } else {
            let hp = if self.hp + 1 > MAX_HP { MAX_HP } else { (self.hp + 1) as usize };
            Carrot {
                hp,
                frame: if self.pulses() { 0 } else { (MAX_HP + 1 - hp) as usize },
                no_dmg_turns: if !self.no_dmg || self.pulses() {
                    0
                } else if self.at_full() {
                    (self.no_dmg_turns + 1) as usize
                } else {
                    self.no_dmg_turns
                },
                turns_watered: if !self.no_dmg || !self.watered || self.spreads() {
                    0
                } else {
                    self.turns_watered
                },
                watered: false,
                no_dmg: true,
                ..self
            }
        }
    }

    pub open spec fn emitted(self, land: Land) -> Seq<Choice> {
        if self.spreads() {
            land.aimed(Tiles::Carrot, self.x as int, self.y as int, orthogonal(), Aim::Any, Tiles::Carrot)
        } else {
            seq![]
        }
    }

    /// The harvest entries of one update.
    pub open spec fn harvest(self) -> Seq<(usize, usize)> {
        if self.pulses() {
            seq![(self.x, self.y)]
        } else {
            seq![]
        }
    }

    pub open spec fn interacted(self, t: Tiles) -> Carrot {
        if t == Tiles::Root {
            if self.hp != 0 {
                let hp = (self.hp - 1) as usize;
                Carrot {
                    hp,
                    no_dmg: false,
                    frame: if hp > 0 { (MAX_HP + 1 - hp) as usize } else { self.frame },
                    ..self
                }
            } else {
                self
            }
        } else if t == Tiles::Grass || t == Tiles::Bush {
            Carrot { hp: 0, ..self }
        } else if t == Tiles::Water {
            Carrot {
                turns_watered: if self.turns_watered < usize::MAX {
                    (self.turns_watered + 1) as usize
                } else {
                    self.turns_watered
                },
                watered: true,
                ..self
            }
        } else if t == Tiles::Ice {
            Carrot { frozen: true, ..self }
        } else {
            self
        }
    }

    pub fn new(x: usize, y: usize) -> (r: Carrot)
        ensures
            r == (Carrot {
                x,
                y,
                frame: 1,
                hp: MAX_HP,
                no_dmg: true,
                no_dmg_turns: 0,
                turns_watered: 0,
                watered: false,
                frozen: false,
            }),
            r.wf(),
    {
        Carrot {
            x,
            y,
            frame: 1,
            hp: MAX_HP,
            no_dmg: true,
            no_dmg_turns: 0,
            turns_watered: 0,
            watered: false,
            frozen: false,
        }
    }

    fn set_current(&mut self, harvested: bool)
        requires
            old(self).hp <= MAX_HP,
        ensures
            *final(self) == (Carrot {
                frame: if harvested { 0 } else { (MAX_HP + 1 - old(self).hp) as usize },
                ..*old(self)
            }),
    {
        if harvested {
            self.frame = 0;
        } else {
            self.frame = MAX_HP + 1 - self.hp;
        }
    }

    fn spread(&self, map: &mut Tilemap)
        requires
            old(map).wf(),
            old(map).land().in_range(self.x as int, self.y as int),
        ensures
            final(map).map@ == old(map).map@,
            final(map).w == old(map).w,
            final(map).h == old(map).h,
            final(map).wf(),
            final(map).harvestable == old(map).harvestable,
            final(map).map_updates@ == old(map).map_updates@ + old(map).land().aimed(
                Tiles::Carrot,
                self.x as int,
                self.y as int,
                orthogonal(),
                Aim::Any,
                Tiles::Carrot,
            ),
    {
        map.request_around(Tiles::Carrot, self.x, self.y, &orthogonal_offsets(), Aim::Any, Tiles::Carrot);
    }

    /// Heals one point up to full, counts ticks at full health towards a harvest, and
    /// spreads once watered over enough consecutive ticks. Damage since the last update
    /// restarts both counts.
    pub fn update(&mut self, map: &mut Tilemap)
        requires
            old(self).wf(),
            old(map).wf(),
            old(map).land().in_range(old(self).x as int, old(self).y as int),
        ensures
            *final(self) == old(self).next(),
            final(self).wf(),
            final(map).queued(*old(map), old(self).emitted(old(map).land()), old(self).harvest()),
    {
        if self.frozen {
            assert(map.map_updates@ =~= old(map).map_updates@ + Seq::<Choice>::empty());
            assert(map.harvestable@ =~= old(map).harvestable@ + Seq::<(usize, usize)>::empty());
            return;
        }
        self.hp += 1;
        let mut harvested = false;
        if self.hp > MAX_HP {
            self.hp = MAX_HP;
            if self.no_dmg {
                self.no_dmg_turns += 1;
                if self.no_dmg_turns >= HARVEST_TIME {
                    harvested = true;
                    map.harvestable.push((self.x, self.y));
                    self.no_dmg_turns = 0;
                }
            }
        }
        if !self.no_dmg {
            self.no_dmg_turns = 0;
            self.turns_watered = 0;
        }
        if !self.watered {
            self.turns_watered = 0;
        }
        self.set_current(harvested);
        if self.turns_watered >= WATER_SPREAD {
            self.turns_watered = 0;
            self.spread(map);
        } else {
            assert(map.map_updates@ =~= old(map).map_updates@ + Seq::<Choice>::empty());
        }
        assert(map.harvestable@ =~= old(map).harvestable@ + old(self).harvest());
        self.watered = false;
        self.no_dmg = true;
    }

    /// A root bites off one point; grass or a bush kills it; water waters it; ice
    /// freezes it.
    pub fn interact(&mut self, t: Tiles)
        requires
            old(self).wf(),
        ensures
            *final(self) == old(self).interacted(t),
            final(self).wf(),
    {
        if t == Tiles::Root {
            if self.hp != 0 {
                self.hp -= 1;
                self.no_dmg = false;
                if self.hp > 0 {
                    self.frame = MAX_HP + 1 - self.hp;
                }
            }
        } else if t == Tiles::Grass || t == Tiles::Bush {
            self.hp = 0;
        } else if t == Tiles::Water {
            if self.turns_watered < usize::MAX {
                self.turns_watered += 1;
            }
            self.watered = true;
        } else if t == Tiles::Ice {
            self.frozen = true;
        }
    }
}

/// The carrot after `k` updates with nothing acting on it.
pub open spec fn carrot_after(c: Carrot, k: nat) -> Carrot
    decreases k,
{
    if k == 0 {
        c
    } else {
        carrot_after(c, (k - 1) as nat).next()
    }
}

/// Left alone, a carrot that is not frozen heals one point per update until full.
pub proof fn lemma_carrot_heals(c: Carrot, k: nat)
    requires
        c.wf(),
        !c.frozen,
    ensures
        carrot_after(c, k).wf(),
        !carrot_after(c, k).frozen,
        carrot_after(c, k).hp == (if c.hp + k >= MAX_HP { MAX_HP as int } else { c.hp + k }),
    decreases k,
{
    if k > 0 {
        lemma_carrot_heals(c, (k - 1) as nat);
    }
}

/// A root's bite takes a full-health carrot one point below full; its next update
/// heals that point back and restarts its full-health streak, and it stays full while
/// left alone.
pub proof fn lemma_carrot_bitten_then_heals(c: Carrot, k: nat)
    requires
        c.wf(),
        !c.frozen,
        c.hp == MAX_HP,
    ensures
        c.interacted(Tiles::Root).hp == MAX_HP - 1,
        c.interacted(Tiles::Root).next().hp == MAX_HP,
        c.interacted(Tiles::Root).next().no_dmg_turns == 0,
        carrot_after(c.interacted(Tiles::Root).next(), k).hp == MAX_HP,
{
    lemma_carrot_heals(c.interacted(Tiles::Root).next(), k);
}

/// A full-health carrot left alone stays full, and pulses a harvest on exactly every
/// `HARVEST_TIME`-th update counted from the start of its streak.
pub proof fn lemma_harvest_periodic(c: Carrot, k: nat)
    requires
        c.wf(),
        !c.frozen,
        c.no_dmg,
        c.hp == MAX_HP,
    ensures
        carrot_after(c, k).wf(),
        !carrot_after(c, k).frozen,
        carrot_after(c, k).no_dmg,
        carrot_after(c, k).hp == MAX_HP,
        carrot_after(c, k).no_dmg_turns == (c.no_dmg_turns + k) % (HARVEST_TIME as int),
        carrot_after(c, k).pulses() <==> (c.no_dmg_turns + k + 1) % (HARVEST_TIME as int) == 0,
        carrot_after(c, k).harvest().len() == (if carrot_after(c, k).pulses() { 1int } else { 0 }),
    decreases k,
{
    if k > 0 {
        lemma_harvest_periodic(c, (k - 1) as nat);
    }
}

} // verus!
