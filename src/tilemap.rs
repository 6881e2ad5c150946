use vstd::prelude::*;
use crate::tiles::{Tiles, kind_of_id, tile_of_id};
use crate::entity::Entity;

verus! {

/// A queued intent, made during a tick, to turn cell `i` = (`x`, `y`) into `dst`.
#[derive(PartialEq, Eq, Structural, Clone, Copy, Debug)]
pub struct Choice {
    pub i: usize,
    pub x: usize,
    pub y: usize,
    pub src: Tiles,
    pub dst: Tiles,
}

/// Why a map layer could not be loaded.
#[derive(PartialEq, Eq, Structural, Clone, Copy, Debug)]
pub enum LoadError {
    /// The sides do not fit the board's coordinate range, or their product a `usize`.
    TooLarge,
    /// The layer does not hold exactly one id per cell.
    SizeMismatch,
    /// The first id, at `index`, that no kind stands for.
    UnknownTile { index: usize, id: u32 },
}

/// Which neighbours a scan of the surroundings sends requests to.
#[derive(PartialEq, Eq, Structural, Clone, Copy, Debug)]
pub enum Aim {
    /// Every neighbour on the board.
    Any,
    /// Roots and carrots only.
    Crops,
    /// Carrots only.
    Carrots,
}

impl Aim {
    pub open spec fn wants(self, t: Tiles) -> bool {
        match self {
            Aim::Any => true,
            Aim::Crops => t == Tiles::Root || t == Tiles::Carrot,
            Aim::Carrots => t == Tiles::Carrot,
        }
    }

    pub fn accepts(&self, t: Tiles) -> (r: bool)
        ensures
            r == self.wants(t),
    {
        match self {
            Aim::Any => true,
            Aim::Crops => t == Tiles::Root || t == Tiles::Carrot,
            Aim::Carrots => t == Tiles::Carrot,
        }
    }
}

/// The four orthogonal neighbours, in the order requests are made to them.
pub open spec fn orthogonal() -> Seq<(i64, i64)> {
    seq![(1i64, 0i64), (0i64, 1i64), (0i64, -1i64), (-1i64, 0i64)]
}

/// All eight neighbours, in the order requests are made to them.
pub open spec fn surrounding() -> Seq<(i64, i64)> {
    seq![
        (0i64, 1i64),
        (0i64, -1i64),
        (1i64, 0i64),
        (-1i64, 0i64),
        (1i64, 1i64),
        (-1i64, 1i64),
        (1i64, -1i64),
        (-1i64, -1i64),
    ]
}

/// The north-west and south-east neighbours.
pub open spec fn diagonal() -> Seq<(i64, i64)> {
    seq![(-1i64, -1i64), (1i64, 1i64)]
}

/// Offsets of at most one step on each axis.
pub open spec fn unit_steps(offs: Seq<(i64, i64)>) -> bool {
    forall|k: int|
        0 <= k < offs.len() ==> -1 <= #[trigger] offs[k].0 <= 1 && -1 <= offs[k].1 <= 1
}

pub fn orthogonal_offsets() -> (r: Vec<(i64, i64)>)
    ensures
        r@ == orthogonal(),
{
    let r = vec![(1i64, 0i64), (0i64, 1i64), (0i64, -1i64), (-1i64, 0i64)];
    assert(r@ =~= orthogonal());
    r
}

pub fn surrounding_offsets() -> (r: Vec<(i64, i64)>)
    ensures
        r@ == surrounding(),
{
    let r = vec![
        (0i64, 1i64),
        (0i64, -1i64),
        (1i64, 0i64),
        (-1i64, 0i64),
        (1i64, 1i64),
        (-1i64, 1i64),
        (1i64, -1i64),
        (-1i64, -1i64),
    ];
    assert(r@ =~= surrounding());
    r
}

pub fn diagonal_offsets() -> (r: Vec<(i64, i64)>)
    ensures
        r@ == diagonal(),
{
    let r = vec![(-1i64, -1i64), (1i64, 1i64)];
    assert(r@ =~= diagonal());
    r
}

/// The cells of a board: its sides and the kind in each cell, row by row.
pub struct Land {
    pub w: int,
    pub h: int,
    pub cells: Seq<Tiles>,
}

impl Land {
    pub open spec fn wf(self) -> bool {
        &&& 0 <= self.w < i64::MAX
        &&& 0 <= self.h < i64::MAX
        &&& self.w <= usize::MAX
        &&& self.h <= usize::MAX
        &&& self.w * self.h <= usize::MAX
        &&& self.cells.len() == self.w * self.h
    }

    pub open spec fn in_range(self, x: int, y: int) -> bool {
        0 <= x < self.w && 0 <= y < self.h
    }

    pub open spec fn index(self, x: int, y: int) -> int {
        y * self.w + x
    }

    /// The kind at (`x`, `y`), or `None` off the board.
    pub open spec fn kind_or_none(self, x: int, y: int) -> Tiles {
        if self.in_range(x, y) {
            self.cells[self.index(x, y)]
        } else {
            Tiles::Void
        }
    }

    /// What one request to (`x`, `y`) adds to the queue: nothing off the board or on a
    /// `None` cell.
    pub open spec fn request(self, src: Tiles, x: int, y: int, dst: Tiles) -> Seq<Choice> {
        if self.kind_or_none(x, y) != Tiles::Void {
            seq![Choice { i: self.index(x, y) as usize, x: x as usize, y: y as usize, src, dst }]
        } else {
            seq![]
        }
    }

    /// The requests made by a scan of the neighbours of (`x`, `y`) at `offs`, asking
    /// each neighbour that `aim` wants to become `dst`.
    pub open spec fn aimed(
        self,
        src: Tiles,
        x: int,
        y: int,
        offs: Seq<(i64, i64)>,
        aim: Aim,
        dst: Tiles,
    ) -> Seq<Choice>
        decreases offs.len(),
    {
        if offs.len() == 0 {
            seq![]
        } else {
            let tx = x + offs.last().0;
            let ty = y + offs.last().1;
            let head = self.aimed(src, x, y, offs.drop_last(), aim, dst);
            if aim.wants(self.kind_or_none(tx, ty)) {
                head + self.request(src, tx, ty, dst)
            } else {
                head
            }
        }
    }

    /// A request that names a cell of the board by both its index and its coordinates.
    pub open spec fn holds(self, c: Choice) -> bool {
        names_cell(self.w, self.h, c)
    }
}

/// Every request that a scan makes names a cell of the board that is not `None`.
pub proof fn lemma_aimed_on_board(
    land: Land,
    src: Tiles,
    x: int,
    y: int,
    offs: Seq<(i64, i64)>,
    aim: Aim,
    dst: Tiles,
)
    requires
        land.wf(),
        dst != Tiles::Key,
    ensures
        forall|k: int|
            0 <= k < land.aimed(src, x, y, offs, aim, dst).len() ==> {
                let c = #[trigger] land.aimed(src, x, y, offs, aim, dst)[k];
                &&& land.holds(c)
                &&& land.cells[c.i as int] != Tiles::Void
                &&& c.src == src
                &&& c.dst == dst
            },
    decreases offs.len(),
{
    if offs.len() > 0 {
        lemma_aimed_on_board(land, src, x, y, offs.drop_last(), aim, dst);
        let tx = x + offs.last().0;
        let ty = y + offs.last().1;
        if land.in_range(tx, ty) {
            lemma_index_in(land, tx, ty);
        }
        let head = land.aimed(src, x, y, offs.drop_last(), aim, dst);
        let all = land.aimed(src, x, y, offs, aim, dst);
        assert forall|k: int| 0 <= k < all.len() implies {
            let c = #[trigger] all[k];
            &&& land.holds(c)
            &&& land.cells[c.i as int] != Tiles::Void
            &&& c.src == src
            &&& c.dst == dst
        } by {
            if k < head.len() {
                assert(all[k] == head[k]);
            }
        }
    }
}

/// The index of a cell on the board lies in the board.
pub proof fn lemma_index_in(land: Land, x: int, y: int)
    requires
        land.wf(),
        land.in_range(x, y),
    ensures
        0 <= land.index(x, y) < land.cells.len(),
{
    assert(0 <= y * land.w + x < land.w * land.h) by (nonlinear_arith)
        requires
            0 <= x < land.w,
            0 <= y < land.h,
    ;
}

/// The board's cells, the requests queued during the current tick, and the cells that
/// pulsed a harvest during it.
pub struct Tilemap {
    pub map: Vec<Tiles>,
    pub map_updates: Vec<Choice>,
    pub w: usize,
    pub h: usize,
    pub harvestable: Vec<(usize, usize)>,
}

impl Tilemap {
    pub open spec fn land(&self) -> Land {
        Land { w: self.w as int, h: self.h as int, cells: self.map@ }
    }

    pub open spec fn wf(&self) -> bool {
        &&& self.land().wf()
        &&& forall|k: int|
            0 <= k < self.map_updates@.len() ==> names_cell(
                self.w as int,
                self.h as int,
                #[trigger] self.map_updates@[k],
            )
    }

    /// `self` is `before` with `reqs` queued and `pulses` recorded, its cells unchanged.
    pub open spec fn queued(&self, before: Tilemap, reqs: Seq<Choice>, pulses: Seq<(usize, usize)>) -> bool {
        &&& self.wf()
        &&& self.map@ == before.map@
        &&& self.w == before.w
        &&& self.h == before.h
        &&& self.map_updates@ == before.map_updates@ + reqs
        &&& self.harvestable@ == before.harvestable@ + pulses
    }

    /// An empty board.
    pub fn new() -> (r: Tilemap)
        ensures
            r.wf(),
            r.w == 0,
            r.h == 0,
            r.map@.len() == 0,
            r.map_updates@.len() == 0,
            r.harvestable@.len() == 0,
    {
        Tilemap { map: Vec::new(), map_updates: Vec::new(), w: 0, h: 0, harvestable: Vec::new() }
    }

    /// Sets the board to `w` by `h` cells read from `layer`, the designated data layer
    /// (all `None` where there is none). Nothing changes when the load fails.
    pub fn set_map(&mut self, w: usize, h: usize, layer: Option<&Vec<u32>>) -> (r: Result<(), LoadError>)
        ensures
            match decode(w as int, h as int, ids_of(layer)) {
                Ok(cells) => {
                    &&& r is Ok
                    &&& final(self).w == w
                    &&& final(self).h == h
                    &&& final(self).map@ == cells
                    &&& final(self).map_updates == old(self).map_updates
                    &&& final(self).harvestable == old(self).harvestable
                },
                Err(e) => r == Err::<(), LoadError>(e) && *final(self) == *old(self),
            },
    {
        if w as u64 >= i64::MAX as u64 || h as u64 >= i64::MAX as u64 {
            assert(!fits(w as int, h as int));
            return Err(LoadError::TooLarge);
        }
        let n = match w.checked_mul(h) {
            Some(n) => n,
            None => {
                assert(!fits(w as int, h as int));
                return Err(LoadError::TooLarge);
            },
        };
        assert(fits(w as int, h as int));
        assert(n == w * h);
        let mut cells: Vec<Tiles> = Vec::new();
        match layer {
            None => {
                let mut k: usize = 0;
                while k < n
                    invariant
                        k <= n,
                        cells@.len() == k,
                        forall|j: int| 0 <= j < k ==> #[trigger] cells@[j] == Tiles::Void,
                    decreases n - k,
                {
                    cells.push(Tiles::Void);
                    k += 1;
                }
                assert(cells@ =~= Seq::new(n as nat, |j: int| Tiles::Void));
            },
            Some(ids) => {
                if ids.len() != n {
                    return Err(LoadError::SizeMismatch);
                }
                let mut k: usize = 0;
                while k < n
                    invariant
                        k <= n,
                        n == ids@.len(),
                        n == w * h,
                        fits(w as int, h as int),
                        layer == Some(ids),
                        cells@.len() == k,
                        forall|j: int| 0 <= j < k ==> Some(#[trigger] cells@[j]) == kind_of_id(ids@[j]),
                    decreases n - k,
                {
                    match tile_of_id(ids[k]) {
                        Some(t) => cells.push(t),
                        None => {
                            proof {
                                assert forall|j: int| 0 <= j < k implies #[trigger] kind_of_id(ids@[j]) is Some by {
                                    assert(Some(cells@[j]) == kind_of_id(ids@[j]));
                                }
                                assert(first_unknown(ids@, k as int));
                                assert forall|index: int| first_unknown(ids@, index) implies index == k by {
                                    if index > k {
                                        assert(kind_of_id(ids@[k as int]) is Some);
                                    }
                                }
                                assert((choose|index: int| first_unknown(ids@, index)) == k);
                            }
                            return Err(LoadError::UnknownTile { index: k, id: ids[k] });
                        },
                    }
                    k += 1;
                }
                proof {
                    assert forall|index: int| 0 <= index < ids@.len() implies #[trigger] kind_of_id(ids@[index]) is Some by {
                        assert(Some(cells@[index]) == kind_of_id(ids@[index]));
                    }
                    assert(cells@ =~= Seq::new(ids@.len(), |j: int| kind_of_id(ids@[j])->0));
                }
            },
        }
        self.w = w;
        self.h = h;
        self.map = cells;
        Ok(())
    }

    /// Builds the entity for a cell of kind `tile` at (`x`, `y`).
    pub fn set_tile_obj(&self, tile: Tiles, x: usize, y: usize) -> (r: Entity)
        ensures
            r == Entity::fresh(tile, x, y),
    {
        Entity::make(tile, x, y)
    }

    /// Replaces `tile_objs` with one fresh entity per cell, in row-major order.
    pub fn set_tile_objs(&self, tile_objs: &mut Vec<Entity>)
        requires
            self.wf(),
        ensures
            final(tile_objs)@.len() == self.map@.len(),
            forall|i: int|
                0 <= i < self.map@.len() ==> {
                    let e = #[trigger] final(tile_objs)@[i];
                    &&& self.land().in_range(e.at().0 as int, e.at().1 as int)
                    &&& self.land().index(e.at().0 as int, e.at().1 as int) == i
                    &&& e == Entity::fresh(self.map@[i], e.at().0, e.at().1)
                },
    {
        tile_objs.clear();
        let n = self.map.len();
        let mut i: usize = 0;
        let mut x: usize = 0;
        let mut y: usize = 0;
        assert(n > 0 ==> self.w > 0) by (nonlinear_arith)
            requires
                n == self.w * self.h,
        ;
        while i < n
            invariant
                self.wf(),
                n == self.map@.len(),
                i <= n,
                tile_objs@.len() == i,
                i == y * self.w + x,
                n > 0 ==> x < self.w,
                forall|j: int|
                    0 <= j < i ==> {
                        let e = #[trigger] tile_objs@[j];
                        &&& self.land().in_range(e.at().0 as int, e.at().1 as int)
                        &&& self.land().index(e.at().0 as int, e.at().1 as int) == j
                        &&& e == Entity::fresh(self.map@[j], e.at().0, e.at().1)
                    },
            decreases n - i,
        {
            let w = self.w;
            let h = self.h;
            assert(y < h) by (nonlinear_arith)
                requires
                    y * w + x < w * h,
                    x < w,
            ;
            let e = self.set_tile_obj(self.map[i], x, y);
            proof {
                crate::entity::lemma_fresh(self.map@[i as int], x, y);
            }
            tile_objs.push(e);
            x += 1;
            if x == w {
                x = 0;
                y += 1;
                assert(y * w == (y - 1) * w + w) by (nonlinear_arith);
            }
            i += 1;
        }
    }

    pub fn in_range(&self, x: usize, y: usize) -> (r: bool)
        ensures
            r == self.land().in_range(x as int, y as int),
    {
        x < self.w && y < self.h
    }

    pub fn in_range_i(&self, x: i64, y: i64) -> (r: bool)
        ensures
            r == self.land().in_range(x as int, y as int),
    {
        x >= 0 && y >= 0 && (x as u64) < (self.w as u64) && (y as u64) < (self.h as u64)
    }

    fn index_of(&self, x: usize, y: usize) -> (i: usize)
        requires
            self.wf(),
            self.land().in_range(x as int, y as int),
        ensures
            i as int == self.land().index(x as int, y as int),
            i < self.map@.len(),
    {
        let n = self.map.len();
        proof {
            lemma_index_in(self.land(), x as int, y as int);
            assert(y * self.w <= y * self.w + x);
        }
        y * self.w + x
    }

    /// The index of cell (`x`, `y`), or `None` off the board.
    pub fn bi(&self, x: usize, y: usize) -> (r: Option<usize>)
        requires
            self.wf(),
        ensures
            r == (if self.land().in_range(x as int, y as int) {
                Some(self.land().index(x as int, y as int) as usize)
            } else {
                None
            }),
            r matches Some(i) ==> i < self.map@.len() && i as int == self.land().index(
                x as int,
                y as int,
            ),
    {
        if !self.in_range(x, y) {
            return None;
        }
        Some(self.index_of(x, y))
    }

    /// The kind at (`x`, `y`), or `None` off the board.
    pub fn get(&self, x: usize, y: usize) -> (r: Option<Tiles>)
        requires
            self.wf(),
        ensures
            r == (if self.land().in_range(x as int, y as int) {
                Some(self.land().kind_or_none(x as int, y as int))
            } else {
                None
            }),
    {
        match self.bi(x, y) {
            Some(i) => Some(self.map[i]),
            None => None,
        }
    }

    /// The kind at (`x`, `y`), with `Tiles::Void` off the board.
    pub fn get_or_none(&self, x: i64, y: i64) -> (r: Tiles)
        requires
            self.wf(),
        ensures
            r == self.land().kind_or_none(x as int, y as int),
    {
        if !self.in_range_i(x, y) {
            return Tiles::Void;
        }
        self.map[self.index_of(x as usize, y as usize)]
    }

    /// Queues a request from a `src` entity to turn (`x`, `y`) into `t`; dropped when the
    /// cell is off the board or `None`.
    pub fn set(&mut self, src: Tiles, x: i64, y: i64, t: Tiles)
        requires
            old(self).wf(),
            t != Tiles::Key,
        ensures
            final(self).wf(),
            final(self).map == old(self).map,
            final(self).w == old(self).w,
            final(self).h == old(self).h,
            final(self).harvestable == old(self).harvestable,
            final(self).map_updates@ == old(self).map_updates@ + old(self).land().request(
                src,
                x as int,
                y as int,
                t,
            ),
    {
        if !self.in_range_i(x, y) {
            assert(self.map_updates@ =~= self.map_updates@ + Seq::<Choice>::empty());
            return;
        }
        let i = self.index_of(x as usize, y as usize);
        if self.map[i] == Tiles::Void {
            assert(self.map_updates@ =~= self.map_updates@ + Seq::<Choice>::empty());
            return;
        }
        self.map_updates.push(Choice { i, x: x as usize, y: y as usize, src, dst: t });
        proof {
            let c = Choice { i, x: x as usize, y: y as usize, src, dst: t };
            assert(self.map_updates@ =~= old(self).map_updates@ + seq![c]);
        }
    }

    /// Scans the neighbours of (`x`, `y`) at `offs` and asks each that `aim` wants to
    /// become `dst`; tells whether any request was made.
    pub fn request_around(
        &mut self,
        src: Tiles,
        x: usize,
        y: usize,
        offs: &Vec<(i64, i64)>,
        aim: Aim,
        dst: Tiles,
    ) -> (hit: bool)
        requires
            old(self).wf(),
            old(self).land().in_range(x as int, y as int),
            unit_steps(offs@),
            dst != Tiles::Key,
        ensures
            final(self).wf(),
            final(self).map == old(self).map,
            final(self).w == old(self).w,
            final(self).h == old(self).h,
            final(self).harvestable == old(self).harvestable,
            final(self).map_updates@ == old(self).map_updates@ + old(self).land().aimed(
                src,
                x as int,
                y as int,
                offs@,
                aim,
                dst,
            ),
            hit == (old(self).land().aimed(src, x as int, y as int, offs@, aim, dst).len() > 0),
    {
        let ghost land = self.land();
        let mut hit = false;
        let mut k: usize = 0;
        while k < offs.len()
            invariant
                self.wf(),
                self.land() == land,
                self.map == old(self).map,
                self.w == old(self).w,
                self.h == old(self).h,
                self.harvestable == old(self).harvestable,
                land.in_range(x as int, y as int),
                unit_steps(offs@),
                dst != Tiles::Key,
                k <= offs@.len(),
                self.map_updates@ == old(self).map_updates@ + land.aimed(
                    src,
                    x as int,
                    y as int,
                    offs@.take(k as int),
                    aim,
                    dst,
                ),
                hit == (land.aimed(src, x as int, y as int, offs@.take(k as int), aim, dst).len() > 0),
            decreases offs@.len() - k,
        {
            let (dx, dy) = offs[k];
            assert(-1 <= offs@[k as int].0 <= 1 && -1 <= offs@[k as int].1 <= 1);
            let tx = x as i64 + dx;
            let ty = y as i64 + dy;
            let t = self.get_or_none(tx, ty);
            proof {
                assert(offs@.take(k as int + 1).drop_last() =~= offs@.take(k as int));
                assert(offs@.take(k as int + 1).last() == offs@[k as int]);
            }
            if aim.accepts(t) {
                self.set(src, tx, ty, dst);
                if t != Tiles::Void {
                    hit = true;
                }
                assert(self.map_updates@ =~= old(self).map_updates@ + land.aimed(
                    src,
                    x as int,
                    y as int,
                    offs@.take(k as int + 1),
                    aim,
                    dst,
                ));
            }
            k += 1;
        }
        assert(offs@.take(offs@.len() as int) =~= offs@);
        hit
    }
}

/// `c` names a cell of a `w` by `h` board by both its index and its coordinates, and
/// asks for a kind that can stand on a board.
pub open spec fn names_cell(w: int, h: int, c: Choice) -> bool {
    &&& 0 <= c.x < w
    &&& 0 <= c.y < h
    &&& c.i == c.y * w + c.x
    &&& c.dst != Tiles::Key
}

/// Sides that the board's coordinates and a `usize` cell count can hold.
pub open spec fn fits(w: int, h: int) -> bool {
    &&& w < i64::MAX
    &&& h < i64::MAX
    &&& w * h <= usize::MAX
}

/// The ids of a layer, if there is one.
pub open spec fn ids_of(layer: Option<&Vec<u32>>) -> Option<Seq<u32>> {
    match layer {
        Some(v) => Some(v@),
        None => None,
    }
}

/// What loading a `w` by `h` board from `layer` gives: its cells, row by row, or the
/// first thing wrong with the input.
pub open spec fn decode(w: int, h: int, layer: Option<Seq<u32>>) -> Result<Seq<Tiles>, LoadError> {
    if !fits(w, h) {
        Err(LoadError::TooLarge)
    } else {
        match layer {
            None => Ok(Seq::new((w * h) as nat, |j: int| Tiles::Void)),
            Some(ids) => if ids.len() != w * h {
                Err(LoadError::SizeMismatch)
            } else if exists|index: int| 0 <= index < ids.len() && #[trigger] kind_of_id(ids[index]) is None {
                let index = choose|index: int| first_unknown(ids, index);
                Err(LoadError::UnknownTile { index: index as usize, id: ids[index] })
            } else {
                Ok(Seq::new(ids.len(), |j: int| kind_of_id(ids[j])->0))
            },
        }
    }
}

/// `index` is the first position of `ids` whose id no kind stands for.
pub open spec fn first_unknown(ids: Seq<u32>, index: int) -> bool {
    &&& 0 <= index < ids.len()
    &&& kind_of_id(ids[index]) is None
    &&& forall|j: int| 0 <= j < index ==> #[trigger] kind_of_id(ids[j]) is Some
}

} // verus!
