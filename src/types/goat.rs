use vstd::prelude::*;
use crate::tiles::Tiles;
use crate::tilemap::{Aim, Choice, Land, Tilemap, surrounding, surrounding_offsets};

verus! {

/// A rested goat's charges.
pub const MAX_CHARGE: usize = 4;

/// Ticks of sleep per charge recovered.
pub const SLEEP_DURATION: usize = 3;

/// A goat: eats the roots and carrots around it, one charge per tick of eating, and
/// sleeps off an empty stomach.
#[derive(PartialEq, Eq, Structural, Clone, Copy, Debug)]
pub struct Goat {
    pub x: usize,
    pub y: usize,
    pub charges: usize,
    /// Ticks of sleep left.
    pub sleep: usize,
    pub frozen: bool,
}

impl Goat {
    pub open spec fn wf(self) -> bool {
        &&& self.charges <= MAX_CHARGE
        &&& self.sleep <= MAX_CHARGE * SLEEP_DURATION
        &&& self.sleep > 0 ==> self.charges + (self.sleep + SLEEP_DURATION - 1) / (SLEEP_DURATION as int)
            <= MAX_CHARGE
    }

    /// The requests to turn the roots and carrots around it into grass.
    pub open spec fn eats(self, land: Land) -> Seq<Choice> {
        land.aimed(Tiles::Goat, self.x as int, self.y as int, surrounding(), Aim::Crops, Tiles::Grass)
    }

    pub open spec fn awake(self) -> bool {
        !self.frozen && self.sleep == 0
    }

    pub open spec fn next(self, land: Land) -> Goat {
        if self.frozen {
            self
        } else if self.sleep > 0 {
            let sleep = (self.sleep - 1) as usize;
            Goat {
                sleep,
                charges: if sleep % SLEEP_DURATION == 0 {
                    (self.charges + 1) as usize
                } else {
                    self.charges
                },
                ..self
            }
        } else {
            let charges = if self.charges > 0 && self.eats(land).len() > 0 {
                (self.charges - 1) as usize
            } else {
                self.charges
            };
            Goat {
                charges,
                sleep: if charges == 0 { (MAX_CHARGE * SLEEP_DURATION) as usize } else { 0 },
                ..self
            }
        }
    }

    pub open spec fn emitted(self, land: Land) -> Seq<Choice> {
        if self.awake() {
            self.eats(land)
        } else {
            seq![]
        }
    }

    pub open spec fn interacted(self, t: Tiles) -> Goat {
        if t == Tiles::Ice {
            Goat { frozen: true, ..self }
        } else {
            self
        }
    }

    pub fn new(x: usize, y: usize) -> (r: Goat)
        ensures
            r == (Goat { x, y, charges: MAX_CHARGE, sleep: 0, frozen: false }),
            r.wf(),
    {
        Goat { x, y, charges: MAX_CHARGE, sleep: 0, frozen: false }
    }

    /// Asleep, recovers a charge every `SLEEP_DURATION` ticks. Awake, asks every root
    /// and carrot around to become grass, spends one charge if there was any, and falls
    /// asleep for `MAX_CHARGE * SLEEP_DURATION` ticks once out of charges.
    pub fn update(&mut self, map: &mut Tilemap)
        requires
            old(self).wf(),
            old(map).wf(),
            old(map).land().in_range(old(self).x as int, old(self).y as int),
        ensures
            *final(self) == old(self).next(old(map).land()),
            final(self).wf(),
            final(map).queued(*old(map), old(self).emitted(old(map).land()), seq![]),
    {
        assert(map.harvestable@ =~= old(map).harvestable@ + Seq::<(usize, usize)>::empty());
        if self.frozen || self.sleep > 0 {
            if !self.frozen {
                self.sleep -= 1;
                if self.sleep % SLEEP_DURATION == 0 {
                    self.charges += 1;
                }
            }
            assert(map.map_updates@ =~= old(map).map_updates@ + Seq::<Choice>::empty());
            return;
        }
        let used = map.request_around(Tiles::Goat, self.x, self.y, &surrounding_offsets(), Aim::Crops, Tiles::Grass);
        if self.charges > 0 && used {
            self.charges -= 1;
        }
        if self.charges == 0 {
            self.sleep = MAX_CHARGE * SLEEP_DURATION;
        }
    }

    /// Ice freezes it; nothing else affects a goat.
    pub fn interact(&mut self, t: Tiles)
        ensures
            *final(self) == old(self).interacted(t),
    {
        if t == Tiles::Ice {
            self.frozen = true;
        }
    }
}

/// The goat after `k` updates on an unchanging board.
pub open spec fn goat_after(g: Goat, land: Land, k: nat) -> Goat
    decreases k,
{
    if k == 0 {
        g
    } else {
        goat_after(g, land, (k - 1) as nat).next(land)
    }
}

/// A goat on its last charge with exactly one root or carrot around it asks for that
/// cell to become grass, is left without charges and falls asleep at once. It then
/// sleeps `MAX_CHARGE * SLEEP_DURATION` updates, asks for nothing while asleep, and
/// recovers one charge every `SLEEP_DURATION` updates.
pub proof fn lemma_goat_last_charge_then_sleep(g: Goat, land: Land, k: nat)
    requires
        land.wf(),
        g.wf(),
        g.awake(),
        g.charges == 1,
        g.eats(land).len() == 1,
        k <= MAX_CHARGE * SLEEP_DURATION,
    ensures
        g.emitted(land) == g.eats(land),
        g.eats(land)[0].dst == Tiles::Grass,
        goat_after(g, land, 1).charges == 0,
        goat_after(g, land, 1).sleep == MAX_CHARGE * SLEEP_DURATION,
        goat_after(g, land, 1 + k).sleep == MAX_CHARGE * SLEEP_DURATION - k,
        goat_after(g, land, 1 + k).charges == (k as int) / (SLEEP_DURATION as int),
        !goat_after(g, land, 1 + k).frozen,
        k < MAX_CHARGE * SLEEP_DURATION ==> goat_after(g, land, 1 + k).emitted(land) == Seq::<Choice>::empty(),
    decreases k,
{
    crate::tilemap::lemma_aimed_on_board(
        land,
        Tiles::Goat,
        g.x as int,
        g.y as int,
        surrounding(),
        Aim::Crops,
        Tiles::Grass,
    );
    assert(goat_after(g, land, 0) == g);
    assert(goat_after(g, land, 1) == g.next(land));
    if k > 0 {
        lemma_goat_last_charge_then_sleep(g, land, (k - 1) as nat);
        assert(goat_after(g, land, 1 + k) == goat_after(g, land, k).next(land));
        assert((k as int) / 3 == (k - 1) / 3 + (if (12 - k) % 3 == 0 { 1int } else { 0 }));
    }
}

} // verus!
