use vstd::prelude::*;
use crate::tiles::Tiles;

verus! {

/// The money a new game starts with.
pub const START_MONEY: usize = 10;

/// The player's side of the economy: the money they hold and the tile they are
/// about to place (`Tiles::Void` when none).
#[derive(PartialEq, Eq, Structural, Clone, Copy, Debug)]
pub struct Ui {
    pub money: usize,
    pub tile_to_set: Tiles,
}

/// `x`, held at the largest `usize` when it is larger.
pub open spec fn saturated(x: int) -> int {
    if x > usize::MAX {
        usize::MAX as int
    } else {
        x
    }
}

/// The decimal digits of `n`, most significant first, without leading zeros.
pub open spec fn digits(n: nat) -> Seq<usize>
    decreases n,
{
    if n < 10 {
        seq![n as usize]
    } else {
        digits(n / 10) + seq![(n % 10) as usize]
    }
}

impl Ui {
    /// The ledger after `n` units of currency are credited.
    pub open spec fn credited(self, n: int) -> Ui {
        Ui { money: saturated(self.money + n) as usize, ..self }
    }

    pub fn new() -> (r: Ui)
        ensures
            r == (Ui { money: START_MONEY, tile_to_set: Tiles::Void }),
    {
        Ui { money: START_MONEY, tile_to_set: Tiles::Void }
    }

    pub fn get_money(&self) -> (r: usize)
        ensures
            r == self.money,
    {
        self.money
    }

    pub fn set_money(&mut self, m: usize)
        ensures
            *final(self) == (Ui { money: m, ..*old(self) }),
    {
        self.money = m;
    }

    /// Adds one unit, holding at the largest `usize`.
    pub fn inc_money(&mut self)
        ensures
            *final(self) == old(self).credited(1),
    {
        self.money = self.money.saturating_add(1);
    }

    /// Adds `n` units, holding at the largest `usize`.
    pub fn credit(&mut self, n: usize)
        ensures
            *final(self) == old(self).credited(n as int),
    {
        self.money = self.money.saturating_add(n);
    }

    pub fn set_tile(&mut self, t: Tiles)
        ensures
            *final(self) == (Ui { tile_to_set: t, ..*old(self) }),
    {
        self.tile_to_set = t;
    }

    pub fn get_tile(&self) -> (r: Tiles)
        ensures
            r == self.tile_to_set,
    {
        self.tile_to_set
    }

    /// Takes the held tile out of the player's hand.
    pub fn pop_tile(&mut self) -> (r: Tiles)
        ensures
            r == old(self).tile_to_set,
            *final(self) == (Ui { tile_to_set: Tiles::Void, ..*old(self) }),
    {
        let t = self.tile_to_set;
        self.tile_to_set = Tiles::Void;
        t
    }

    /// The decimal digits of `num`, most significant first, as the counter draws them.
    pub fn get_nums(num: usize) -> (r: Vec<usize>)
        ensures
            r@ == digits(num as nat),
    {
        let mut n = num / 10;
        let mut out: Vec<usize> = Vec::new();
        out.push(num % 10);
        proof {
            assert(out@ =~= seq![(num % 10) as usize]);
        }
        while n > 0
            invariant
                n > 0 ==> digits(num as nat) == digits(n as nat) + out@,
                n == 0 ==> digits(num as nat) == out@,
            decreases n,
        {
            let ghost before = out@;
            out.insert(0, n % 10);
            proof {
                assert(out@ =~= seq![(n % 10) as usize] + before);
                if n >= 10 {
                    assert(digits(n as nat) == digits((n / 10) as nat) + seq![(n % 10) as usize]);
                    assert(digits(num as nat) =~= digits((n / 10) as nat) + out@);
                } else {
                    assert(digits(num as nat) =~= out@);
                }
            }
            n = n / 10;
        }
        out
    }
}

} // verus!
