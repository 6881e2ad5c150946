use vstd::prelude::*;

verus! {

/// What occupies a cell. `Void` marks a cell that is not part of the playable board;
/// `Key` is only ever held by the player, never placed.
#[derive(PartialEq, Eq, Structural, Clone, Copy, Debug, Hash)]
pub enum Tiles {
    Void,
    Grass,
    Root,
    Carrot,
    Goat,
    Bush,
    Water,
    Ice,
    Door,
    Key,
}

/// The kind a raw map id stands for: 0 Grass, 1 Root, 2 Carrot, 3 Void.
pub open spec fn kind_of_id(id: u32) -> Option<Tiles> {
    if id == 0 {
        Some(Tiles::Grass)
    } else if id == 1 {
        Some(Tiles::Root)
    } else if id == 2 {
        Some(Tiles::Carrot)
    } else if id == 3 {
        Some(Tiles::Void)
    } else {
        None
    }
}

/// Decodes one raw map id; `None` for an id that no kind stands for.
pub fn tile_of_id(id: u32) -> (r: Option<Tiles>)
    ensures
        r == kind_of_id(id),
{
    match id {
        0 => Some(Tiles::Grass),
        1 => Some(Tiles::Root),
        2 => Some(Tiles::Carrot),
        3 => Some(Tiles::Void),
        _ => None,
    }
}

} // verus!
