use vstd::prelude::*;
use crate::tiles::Tiles;
use crate::ui::Ui;

verus! {

/// What the shop asks for a tile, if it sells it.
pub open spec fn price_of(t: Tiles) -> Option<usize> {
    match t {
        Tiles::Goat => Some(20usize),
        Tiles::Bush => Some(40usize),
        Tiles::Water => Some(120usize),
        Tiles::Ice => Some(70usize),
        Tiles::Key => Some(1000usize),
        _ => None,
    }
}

pub fn price(t: Tiles) -> (r: Option<usize>)
    ensures
        r == price_of(t),
{
    match t {
        Tiles::Goat => Some(20),
        Tiles::Bush => Some(40),
        Tiles::Water => Some(120),
        Tiles::Ice => Some(70),
        Tiles::Key => Some(1000),
        _ => None,
    }
}

/// Takes back the tile in the player's hand, if any, and pays back its price.
pub fn refund(ui: &mut Ui)
    ensures
        final(ui).tile_to_set == Tiles::Void,
        final(ui).money == (match price_of(old(ui).tile_to_set) {
            Some(p) => old(ui).credited(p as int).money,
            None => old(ui).money,
        }),
{
    let t = ui.pop_tile();
    match price(t) {
        Some(p) => ui.credit(p),
        None => {},
    }
}

/// Sells `t` to the player when the shop has it and they can afford it: takes its
/// price and puts it in their hand. Tells whether the sale happened.
pub fn buy(ui: &mut Ui, t: Tiles) -> (sold: bool)
    ensures
        sold == (price_of(t) matches Some(p) && old(ui).money >= p),
        sold ==> *final(ui) == (Ui { money: (old(ui).money - price_of(t)->0) as usize, tile_to_set: t }),
        !sold ==> *final(ui) == *old(ui),
{
    match price(t) {
        Some(p) => {
            if ui.get_money() >= p {
                ui.set_money(ui.get_money() - p);
                ui.set_tile(t);
                true
            } else {
                false
            }
        },
        None => false,
    }
}

} // verus!
