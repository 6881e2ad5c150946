use vstd::prelude::*;
use crate::tiles::Tiles;
use crate::tilemap::{Choice, Land, LoadError, Tilemap, decode, ids_of, names_cell};
use crate::entity::{Entity, lemma_entity_steps_keep_shape, lemma_fresh};
use crate::types::Grass;
use crate::ui::{Ui, saturated};

verus! {

/// Ticks owed to the board each time the player ends a turn.
pub const STEPS_PER_TURN: usize = 6;

/// Milliseconds of real time per tick while ticks are owed.
pub const TURN_MS: u64 = 500;

/// The board as the simulation sees it: its cells and the entity in each.
pub struct World {
    pub land: Land,
    pub ents: Seq<Entity>,
}

/// The requests that the first `k` entities queue in one update phase.
pub open spec fn requests_upto(ents: Seq<Entity>, land: Land, k: nat) -> Seq<Choice>
    decreases k,
{
    if k == 0 {
        seq![]
    } else {
        requests_upto(ents, land, (k - 1) as nat) + ents[k - 1].emitted(land)
    }
}

/// The harvest entries that the first `k` entities record in one update phase.
pub open spec fn harvest_upto(ents: Seq<Entity>, k: nat) -> Seq<(usize, usize)>
    decreases k,
{
    if k == 0 {
        seq![]
    } else {
        harvest_upto(ents, (k - 1) as nat) + ents[k - 1].harvest()
    }
}

/// A request from water to water a carrot: it never plants water on bare grass.
pub open spec fn is_watering(c: Choice) -> bool {
    c.src == Tiles::Water && c.dst == Tiles::Water
}

impl World {
    /// Each cell holds one well-formed entity of the cell's kind that knows its place.
    pub open spec fn wf(self) -> bool {
        &&& self.land.wf()
        &&& self.ents.len() == self.land.cells.len()
        &&& forall|i: int|
            0 <= i < self.ents.len() ==> {
                let e = #[trigger] self.ents[i];
                &&& e.wf()
                &&& e.kind() == self.land.cells[i]
                &&& self.land.in_range(e.at().0 as int, e.at().1 as int)
                &&& self.land.index(e.at().0 as int, e.at().1 as int) == i
            }
    }

    /// Each entity is as it was made for its cell.
    pub open spec fn populated(self) -> bool {
        forall|i: int|
            0 <= i < self.ents.len() ==> #[trigger] self.ents[i] == Entity::fresh(
                self.land.cells[i],
                self.ents[i].at().0,
                self.ents[i].at().1,
            )
    }

    pub open spec fn has_carrot(self) -> bool {
        self.land.cells.contains(Tiles::Carrot)
    }

    /// After the update phase: every entity advanced against the tick-start cells.
    pub open spec fn updated(self) -> World {
        World {
            land: self.land,
            ents: Seq::new(self.ents.len(), |i: int| self.ents[i].next(self.land)),
        }
    }

    /// The requests of the update phase, in traversal order.
    pub open spec fn requests(self) -> Seq<Choice> {
        requests_upto(self.ents, self.land, self.ents.len())
    }

    /// The harvest entries of the update phase, in traversal order.
    pub open spec fn pulses(self) -> Seq<(usize, usize)> {
        harvest_upto(self.ents, self.ents.len())
    }

    /// After the death sweep: every entity that destroyed itself is grass.
    pub open spec fn swept(self) -> World {
        World {
            land: Land {
                cells: Seq::new(
                    self.ents.len(),
                    |i: int|
                        if self.ents[i].gone() {
                            Tiles::Grass
                        } else {
                            self.land.cells[i]
                        },
                ),
                ..self.land
            },
            ents: Seq::new(
                self.ents.len(),
                |i: int|
                    if self.ents[i].gone() {
                        Entity::Grass(Grass { x: self.ents[i].at().0, y: self.ents[i].at().1 })
                    } else {
                        self.ents[i]
                    },
            ),
        }
    }

    /// A new entity of kind `c.dst` takes cell `c.i`.
    pub open spec fn put(self, c: Choice) -> World {
        World {
            land: Land { cells: self.land.cells.update(c.i as int, c.dst), ..self.land },
            ents: self.ents.update(c.i as int, Entity::fresh(c.dst, c.x, c.y)),
        }
    }

    /// One request resolved against the live board: nothing when the cell already is
    /// `c.dst`; bare grass is overwritten (but never watered into water); any other
    /// entity is acted on, and replaced only when that destroys it.
    pub open spec fn resolve(self, c: Choice) -> World {
        let current = self.land.cells[c.i as int];
        if current == c.dst {
            self
        } else if current == Tiles::Grass {
            if is_watering(c) {
                self
            } else {
                self.put(c)
            }
        } else {
            let e = self.ents[c.i as int].interacted(c.dst);
            if e.gone() {
                self.put(c)
            } else {
                World { ents: self.ents.update(c.i as int, e), ..self }
            }
        }
    }

    /// The requests resolved one after another, in queue order.
    pub open spec fn resolved(self, cs: Seq<Choice>) -> World
        decreases cs.len(),
    {
        if cs.len() == 0 {
            self
        } else {
            self.resolved(cs.drop_last()).resolve(cs.last())
        }
    }

    /// The board after one tick: update phase, death sweep, then resolution of the
    /// queued requests.
    pub open spec fn ticked(self) -> World {
        self.updated().swept().resolved(self.requests())
    }
}

/// The board after `k` ticks.
pub open spec fn run_world(w: World, k: nat) -> World
    decreases k,
{
    if k == 0 {
        w
    } else {
        run_world(w, (k - 1) as nat).ticked()
    }
}

/// The money after `k` ticks starting from `money`: each tick credits one unit per
/// harvest entry.
pub open spec fn run_money(w: World, money: int, k: nat) -> int
    decreases k,
{
    if k == 0 {
        money
    } else {
        saturated(run_money(w, money, (k - 1) as nat) + run_world(w, (k - 1) as nat).pulses().len())
    }
}

/// The cell under a pointer at cell coordinates (`x`, `y`), if it is on the board.
pub open spec fn cursor_cell(land: Land, x: int, y: int) -> Option<(usize, usize)> {
    if land.in_range(x, y) {
        Some((x as usize, y as usize))
    } else {
        None
    }
}

/// A placement of the player's held tile on cell `at`. A key checks for the door: on
/// the door it completes the level, and nothing is placed either way. Any other tile,
/// on a cell that is not `Void`, leaves the player's hand as a single change request
/// against that cell, resolved at once by the same rule as a tick's requests
/// (`World::resolve`): bare grass is overwritten, any other entity is acted on.
/// Returns the board, the ledger and the completion flag.
pub open spec fn placed(w: World, at: (usize, usize), ui: Ui, complete: bool) -> (World, Ui, bool) {
    let t = ui.tile_to_set;
    if !w.land.in_range(at.0 as int, at.1 as int) || t == Tiles::Void {
        (w, ui, complete)
    } else {
        let i = w.land.index(at.0 as int, at.1 as int);
        let cell = w.land.cells[i];
        if t == Tiles::Key {
            (w, ui, complete || cell == Tiles::Door)
        } else if cell != Tiles::Void {
            (
                w.resolve(Choice { i: i as usize, x: at.0, y: at.1, src: Tiles::Void, dst: t }),
                Ui { tile_to_set: Tiles::Void, ..ui },
                complete,
            )
        } else {
            (w, ui, complete)
        }
    }
}

/// An entity that never queues a request nor records a harvest.
pub open spec fn idle_entity(e: Entity) -> bool {
    e is Grass || e is Empty || e is Door
}

/// The requests and harvest entries of the first `k` entities, when all but the one at
/// `r` are idle, are those of the entity at `r` once it has been reached.
pub proof fn lemma_single_source_upto(ents: Seq<Entity>, land: Land, r: int, k: nat)
    requires
        0 <= r < ents.len(),
        k <= ents.len(),
        forall|j: int| 0 <= j < ents.len() && j != r ==> idle_entity(#[trigger] ents[j]),
    ensures
        requests_upto(ents, land, k) == (if r < k { ents[r].emitted(land) } else { Seq::<Choice>::empty() }),
        harvest_upto(ents, k) == (if r < k { ents[r].harvest() } else { Seq::<(usize, usize)>::empty() }),
    decreases k,
{
    if k > 0 {
        lemma_single_source_upto(ents, land, r, (k - 1) as nat);
        let prev = requests_upto(ents, land, (k - 1) as nat);
        let prev_h = harvest_upto(ents, (k - 1) as nat);
        if k - 1 != r {
            assert(idle_entity(ents[k - 1]));
            assert(requests_upto(ents, land, k) =~= prev);
            assert(harvest_upto(ents, k) =~= prev_h);
        } else {
            assert(requests_upto(ents, land, k) =~= ents[r].emitted(land));
            assert(harvest_upto(ents, k) =~= ents[r].harvest());
        }
    }
}

/// On a board where one mature, unfrozen root is the only entity that acts (every
/// other cell is grass, void or the door), a tick that reaches the root's growth
/// boundary queues exactly the root's requests to its orthogonal neighbours on the
/// board, in order, and records no harvest; a tick that does not queues nothing.
pub proof fn lemma_lone_root_tick_requests(w: World, r: int)
    requires
        w.wf(),
        0 <= r < w.ents.len(),
        w.ents[r] matches Entity::Root(root) && root.mature() && !root.frozen,
        forall|j: int| 0 <= j < w.ents.len() && j != r ==> idle_entity(#[trigger] w.ents[j]),
    ensures
        w.pulses() == Seq::<(usize, usize)>::empty(),
        w.ents[r] matches Entity::Root(root) && w.requests() == (if root.at_boundary() {
            w.land.aimed(Tiles::Root, root.x as int, root.y as int, crate::tilemap::orthogonal(), crate::tilemap::Aim::Any, Tiles::Root)
        } else {
            Seq::<Choice>::empty()
        }),
{
    lemma_single_source_upto(w.ents, w.land, r, w.ents.len());
}

/// One resolved request keeps the board well formed.
pub proof fn lemma_resolve_wf(w: World, c: Choice)
    requires
        w.wf(),
        w.land.holds(c),
    ensures
        w.resolve(c).wf(),
        w.resolve(c).land.w == w.land.w,
        w.resolve(c).land.h == w.land.h,
{
    crate::tilemap::lemma_index_in(w.land, c.x as int, c.y as int);
    lemma_fresh(c.dst, c.x, c.y);
    lemma_entity_steps_keep_shape(w.ents[c.i as int], w.land, c.dst);
    let r = w.resolve(c);
    assert forall|i: int| 0 <= i < r.ents.len() implies {
        let e = #[trigger] r.ents[i];
        &&& e.wf()
        &&& e.kind() == r.land.cells[i]
        &&& r.land.in_range(e.at().0 as int, e.at().1 as int)
        &&& r.land.index(e.at().0 as int, e.at().1 as int) == i
    } by {
        if i != c.i {
            assert(r.ents[i] == w.ents[i]);
        }
    }
}

/// When a freeze and an eat request meet on the same live root in one tick, the order
/// of the queue decides: freezing first leaves the root to be eaten, so the cell ends
/// as grass; eating first clears the root, and the later freeze then turns the bare
/// grass into ice.
pub proof fn lemma_order_decides(w: World, freeze: Choice, eat: Choice)
    requires
        w.wf(),
        w.land.holds(freeze),
        freeze.i == eat.i,
        freeze.x == eat.x,
        freeze.y == eat.y,
        freeze.dst == Tiles::Ice,
        eat.dst == Tiles::Grass,
        w.ents[freeze.i as int] matches Entity::Root(r) && !r.removed,
    ensures
        w.resolved(seq![freeze, eat]).land.cells[freeze.i as int] == Tiles::Grass,
        w.resolved(seq![eat, freeze]).land.cells[freeze.i as int] == Tiles::Ice,
{
    crate::tilemap::lemma_index_in(w.land, freeze.x as int, freeze.y as int);
    assert(seq![freeze, eat].drop_last() =~= seq![freeze]);
    assert(seq![freeze].drop_last() =~= Seq::<Choice>::empty());
    assert(seq![eat, freeze].drop_last() =~= seq![eat]);
    assert(seq![eat].drop_last() =~= Seq::<Choice>::empty());
    assert(w.resolved(Seq::<Choice>::empty()) == w);
    assert(w.resolved(seq![freeze]) == w.resolve(freeze));
    assert(w.resolved(seq![eat]) == w.resolve(eat));
}

/// Input for one frame, already turned into board terms.
#[derive(Clone, Copy, Debug)]
pub struct TurnInput {
    /// Real time since the last frame, in milliseconds.
    pub elapsed_ms: u64,
    /// The player asked to end the turn, or to skip the ticks still owed.
    pub skip: bool,
    /// A control outside the board took this frame's click.
    pub ui_clicked: bool,
    /// The pointer, in cell coordinates.
    pub cursor: (i64, i64),
    /// The player confirmed a placement.
    pub place: bool,
}

/// The orchestrator: the board, its entities, the backlog of ticks owed, the cursor,
/// and the outcome flags.
pub struct Board {
    pub board: Tilemap,
    pub obj_map: Vec<Entity>,
    pub is_selected: bool,
    pub selected: (usize, usize),
    pub turns_to_change: usize,
    pub turn_timer: u64,
    pub complete: bool,
    pub lose: bool,
}

impl Board {
    pub open spec fn world(&self) -> World {
        World { land: self.board.land(), ents: self.obj_map@ }
    }

    /// Everything but the board itself.
    pub open spec fn status(&self) -> (bool, (usize, usize), usize, u64, bool, bool) {
        (self.is_selected, self.selected, self.turns_to_change, self.turn_timer, self.complete, self.lose)
    }

    /// Between ticks: a well-formed board, and no request or harvest pending.
    pub open spec fn wf(&self) -> bool {
        &&& self.board.wf()
        &&& self.world().wf()
        &&& self.board.map_updates@.len() == 0
        &&& self.board.harvestable@.len() == 0
    }

    /// An empty board, no ticks owed, nothing selected.
    pub fn new() -> (r: Board)
        ensures
            r.wf(),
            r.board.w == 0,
            r.board.h == 0,
            r.status() == (false, (0usize, 0usize), 0usize, 0u64, false, false),
    {
        let r = Board {
            board: Tilemap::new(),
            obj_map: Vec::new(),
            is_selected: false,
            selected: (0, 0),
            turns_to_change: 0,
            turn_timer: 0,
            complete: false,
            lose: false,
        };
        assert(r.board.map@ =~= Seq::<Tiles>::empty());
        r
    }

    /// Loads a `w` by `h` board from `layer`, the designated data layer, and gives every
    /// cell a fresh entity of its kind. Nothing changes when the load fails.
    pub fn load_map(&mut self, w: usize, h: usize, layer: Option<&Vec<u32>>) -> (r: Result<(), LoadError>)
        requires
            old(self).wf(),
        ensures
            final(self).wf(),
            final(self).status() == old(self).status(),
            match decode(w as int, h as int, ids_of(layer)) {
                Ok(cells) => {
                    &&& r is Ok
                    &&& final(self).board.w == w
                    &&& final(self).board.h == h
                    &&& final(self).board.map@ == cells
                    &&& final(self).world().populated()
                },
                Err(e) => r == Err::<(), LoadError>(e) && *final(self) == *old(self),
            },
    {
        match self.board.set_map(w, h, layer) {
            Ok(()) => {},
            Err(e) => {
                return Err(e);
            },
        }
        self.board.set_tile_objs(&mut self.obj_map);
        proof {
            assert forall|i: int| 0 <= i < self.obj_map@.len() implies {
                let e = #[trigger] self.obj_map@[i];
                &&& e.wf()
                &&& e.kind() == self.board.map@[i]
            } by {
                let e = self.obj_map@[i];
                lemma_fresh(self.board.map@[i], e.at().0, e.at().1);
                match ids_of(layer) {
                    Some(ids) => {
                        assert(crate::tiles::kind_of_id(ids[i]) is Some);
                        assert(self.board.map@[i] == crate::tiles::kind_of_id(ids[i])->0);
                    },
                    None => {},
                }
            }
        }
        Ok(())
    }

    /// Puts a new entity of kind `c.dst` in cell `c.i`.
    fn set(&mut self, c: Choice)
        requires
            old(self).board.wf(),
            old(self).world().wf(),
            old(self).world().land.holds(c),
        ensures
            final(self).world() == old(self).world().put(c),
            final(self).world().wf(),
            final(self).board.wf(),
            final(self).board.w == old(self).board.w,
            final(self).board.h == old(self).board.h,
            final(self).board.map_updates == old(self).board.map_updates,
            final(self).board.harvestable == old(self).board.harvestable,
            final(self).status() == old(self).status(),
    {
        proof {
            crate::tilemap::lemma_index_in(self.world().land, c.x as int, c.y as int);
            lemma_fresh(c.dst, c.x, c.y);
        }
        let e = self.board.set_tile_obj(c.dst, c.x, c.y);
        self.obj_map[c.i] = e;
        self.board.map[c.i] = c.dst;
        proof {
            let w = old(self).world();
            let r = self.world();
            assert(r.ents =~= w.put(c).ents);
            assert(r.land.cells =~= w.put(c).land.cells);
            assert forall|i: int| 0 <= i < r.ents.len() implies {
                let e = #[trigger] r.ents[i];
                &&& e.wf()
                &&& e.kind() == r.land.cells[i]
                &&& r.land.in_range(e.at().0 as int, e.at().1 as int)
                &&& r.land.index(e.at().0 as int, e.at().1 as int) == i
            } by {
                if i != c.i {
                    assert(r.ents[i] == w.ents[i]);
                }
            }
        }
    }

    /// Resolves one queued request against the live board.
    fn resolve(&mut self, c: Choice)
        requires
            old(self).board.wf(),
            old(self).world().wf(),
            old(self).world().land.holds(c),
        ensures
            final(self).world() == old(self).world().resolve(c),
            final(self).world().wf(),
            final(self).board.wf(),
            final(self).board.w == old(self).board.w,
            final(self).board.h == old(self).board.h,
            final(self).board.map_updates == old(self).board.map_updates,
            final(self).board.harvestable == old(self).board.harvestable,
            final(self).status() == old(self).status(),
    {
        proof {
            crate::tilemap::lemma_index_in(self.world().land, c.x as int, c.y as int);
            lemma_resolve_wf(self.world(), c);
        }
        let current = self.board.map[c.i];
        if current != c.dst {
            if current == Tiles::Grass {
                if !(c.src == Tiles::Water && c.dst == Tiles::Water) {
                    self.set(c);
                }
            } else {
                let mut e = self.obj_map[c.i];
                e.interact(c.dst);
                if e.removed() {
                    self.set(c);
                } else {
                    self.obj_map[c.i] = e;
                    assert(self.world() == old(self).world().resolve(c));
                }
            }
        }
    }

    /// Runs one tick: every entity updates in row-major order, entities that destroyed
    /// themselves become grass, the queued requests are resolved in order against the
    /// live board, and the economy is credited one unit per harvest entry.
    pub fn step(&mut self, ui: &mut Ui)
        requires
            old(self).wf(),
        ensures
            final(self).wf(),
            final(self).world() == old(self).world().ticked(),
            final(self).status() == old(self).status(),
            *final(ui) == old(ui).credited(old(self).world().pulses().len() as int),
    {
        // Update phase: each entity advances and queues its requests.
        let ghost w0 = self.world();
        let n = self.obj_map.len();
        let mut i: usize = 0;
        assert(self.board.map_updates@ =~= requests_upto(w0.ents, w0.land, 0));
        assert(self.board.harvestable@ =~= harvest_upto(w0.ents, 0));
        while i < n
            invariant
                w0.wf(),
                n == w0.ents.len(),
                n == self.obj_map@.len(),
                i <= n,
                self.board.wf(),
                self.board.land() == w0.land,
                self.status() == old(self).status(),
                forall|j: int|
                    0 <= j < n ==> #[trigger] self.obj_map@[j] == (if j < i {
                        w0.ents[j].next(w0.land)
                    } else {
                        w0.ents[j]
                    }),
                self.board.map_updates@ == requests_upto(w0.ents, w0.land, i as nat),
                self.board.harvestable@ == harvest_upto(w0.ents, i as nat),
            decreases n - i,
        {
            let mut e = self.obj_map[i];
            assert(e == w0.ents[i as int]);
            e.update(&mut self.board);
            self.obj_map[i] = e;
            i += 1;
        }
        let ghost w1 = self.world();
        assert(w1.ents =~= w0.updated().ents);
        assert(w1 == w0.updated());
        proof {
            assert forall|j: int| 0 <= j < n implies {
                let e = #[trigger] w1.ents[j];
                &&& e.wf()
                &&& e.kind() == w1.land.cells[j]
                &&& w1.land.in_range(e.at().0 as int, e.at().1 as int)
                &&& w1.land.index(e.at().0 as int, e.at().1 as int) == j
            } by {
                lemma_entity_steps_keep_shape(w0.ents[j], w0.land, Tiles::Void);
            }
        }
        // Death sweep: entities that destroyed themselves become grass.
        i = 0;
        while i < n
            invariant
                w1.wf(),
                n == w1.ents.len(),
                n == self.obj_map@.len(),
                i <= n,
                self.board.wf(),
                self.board.w == w1.land.w,
                self.board.h == w1.land.h,
                self.board.map@.len() == n,
                self.status() == old(self).status(),
                self.board.map_updates@ == w0.requests(),
                self.board.harvestable@ == w0.pulses(),
                forall|j: int|
                    0 <= j < n ==> #[trigger] self.obj_map@[j] == (if j < i {
                        w1.swept().ents[j]
                    } else {
                        w1.ents[j]
                    }),
                forall|j: int|
                    0 <= j < n ==> #[trigger] self.board.map@[j] == (if j < i {
                        w1.swept().land.cells[j]
                    } else {
                        w1.land.cells[j]
                    }),
            decreases n - i,
        {
            if self.obj_map[i].removed() {
                let (x, y) = self.obj_map[i].pos();
                self.obj_map[i] = Entity::Grass(Grass::new(x, y));
                self.board.map[i] = Tiles::Grass;
            }
            i += 1;
        }
        let ghost w2 = self.world();
        assert(w2.ents =~= w1.swept().ents);
        assert(w2.land.cells =~= w1.swept().land.cells);
        assert(w2 == w1.swept());
        // Resolution: the queue in order, each request against the live board.
        let ghost reqs = self.board.map_updates@;
        let m = self.board.map_updates.len();
        let mut k: usize = 0;
        assert(reqs.take(0) =~= Seq::<Choice>::empty());
        while k < m
            invariant
                m == reqs.len(),
                k <= m,
                self.board.wf(),
                self.world().wf(),
                self.board.map_updates@ == reqs,
                self.board.harvestable@ == w0.pulses(),
                self.board.w == w1.land.w,
                self.board.h == w1.land.h,
                self.status() == old(self).status(),
                self.world() == w2.resolved(reqs.take(k as int)),
            decreases m - k,
        {
            let c = self.board.map_updates[k];
            self.resolve(c);
            proof {
                assert(reqs.take(k as int + 1).drop_last() =~= reqs.take(k as int));
                assert(reqs.take(k as int + 1).last() == c);
            }
            k += 1;
        }
        assert(reqs.take(m as int) =~= reqs);
        self.board.map_updates.clear();
        // Harvest credit: one unit per entry.
        let count = self.board.harvestable.len();
        if count > 0 {
            ui.credit(count);
            self.board.harvestable.clear();
        } else {
            assert(*ui == old(ui).credited(0));
        }
    }

    /// Runs one tick owed to the board.
    pub fn skip(&mut self, ui: &mut Ui)
        requires
            old(self).wf(),
            old(self).turns_to_change > 0,
        ensures
            final(self).wf(),
            final(self).world() == old(self).world().ticked(),
            final(self).turns_to_change == old(self).turns_to_change - 1,
            final(self).is_selected == old(self).is_selected,
            final(self).selected == old(self).selected,
            final(self).turn_timer == old(self).turn_timer,
            final(self).complete == old(self).complete,
            final(self).lose == old(self).lose,
            *final(ui) == old(ui).credited(old(self).world().pulses().len() as int),
    {
        self.step(ui);
        self.turns_to_change -= 1;
    }

    /// With no ticks owed and no carrot left anywhere, the game is lost; otherwise
    /// nothing changes.
    pub fn check_carrot(&mut self)
        ensures
            final(self).lose == (old(self).lose || (old(self).turns_to_change == 0
                && !old(self).world().has_carrot())),
            final(self).board == old(self).board,
            final(self).obj_map == old(self).obj_map,
            final(self).is_selected == old(self).is_selected,
            final(self).selected == old(self).selected,
            final(self).turns_to_change == old(self).turns_to_change,
            final(self).turn_timer == old(self).turn_timer,
            final(self).complete == old(self).complete,
    {
        if self.turns_to_change == 0 {
            let mut carrot = false;
            let mut i: usize = 0;
            while i < self.board.map.len()
                invariant
                    i <= self.board.map@.len(),
                    carrot == exists|j: int| 0 <= j < i && self.board.map@[j] == Tiles::Carrot,
                decreases self.board.map@.len() - i,
            {
                if self.board.map[i] == Tiles::Carrot {
                    carrot = true;
                }
                i += 1;
            }
            if !carrot {
                self.lose = true;
            } else {
                assert(self.world().has_carrot());
            }
        }
    }

    /// Points the cursor at cell (`x`, `y`), or deselects when that is off the board.
    pub fn set_cursor(&mut self, x: i64, y: i64)
        ensures
            final(self).is_selected == cursor_cell(old(self).world().land, x as int, y as int) is Some,
            final(self).selected == (match cursor_cell(old(self).world().land, x as int, y as int) {
                Some(at) => at,
                None => old(self).selected,
            }),
            final(self).board == old(self).board,
            final(self).obj_map == old(self).obj_map,
            final(self).turns_to_change == old(self).turns_to_change,
            final(self).turn_timer == old(self).turn_timer,
            final(self).complete == old(self).complete,
            final(self).lose == old(self).lose,
    {
        if !self.board.in_range_i(x, y) {
            self.is_selected = false;
            return;
        }
        self.is_selected = true;
        self.selected = (x as usize, y as usize);
    }

    pub fn unselect(&mut self)
        ensures
            *final(self) == (Board { is_selected: false, ..*old(self) }),
    {
        self.is_selected = false;
    }

    /// Places the player's held tile on the selected cell (see `placed`).
    pub fn place_tile(&mut self, ui: &mut Ui)
        requires
            old(self).wf(),
        ensures
            final(self).wf(),
            (final(self).world(), *final(ui), final(self).complete) == placed(
                old(self).world(),
                old(self).selected,
                *old(ui),
                old(self).complete,
            ),
            final(self).is_selected == old(self).is_selected,
            final(self).selected == old(self).selected,
            final(self).turns_to_change == old(self).turns_to_change,
            final(self).turn_timer == old(self).turn_timer,
            final(self).lose == old(self).lose,
    {
        let (x, y) = self.selected;
        let i = match self.board.bi(x, y) {
            Some(i) => i,
            None => {
                return;
            },
        };
        let to_place = ui.get_tile();
        if to_place == Tiles::Void {
            return;
        }
        let prev_tile = self.board.map[i];
        if to_place == Tiles::Key {
            if prev_tile == Tiles::Door {
                self.complete = true;
            }
            return;
        }
        if prev_tile != Tiles::Void {
            let dst = ui.pop_tile();
            self.resolve(Choice { i, x, y, src: Tiles::Void, dst });
        }
    }

    /// One frame of the scheduler. With ticks owed, real time advances the turn timer
    /// and each time it passes `TURN_MS` one tick runs; a skip runs every tick still
    /// owed at once; the game is lost if, once none are owed, no carrot is left. With
    /// none owed, a skip ends the turn (`STEPS_PER_TURN` ticks become owed), the cursor
    /// follows the pointer, and a confirmed placement that no other control took places
    /// the held tile.
    pub fn update(&mut self, input: &TurnInput, ui: &mut Ui)
        requires
            old(self).wf(),
        ensures
            final(self).wf(),
            old(self).turns_to_change > 0 ==> {
                let t = timer_sum(old(self).turn_timer, input.elapsed_ms);
                let k = ticks_now(old(self).turns_to_change, t, input.skip);
                &&& final(self).turn_timer == (if t > TURN_MS { 0u64 } else { t })
                &&& final(self).turns_to_change == old(self).turns_to_change - k
                &&& final(self).world() == run_world(old(self).world(), k)
                &&& final(ui).money == run_money(old(self).world(), old(ui).money as int, k)
                &&& final(ui).tile_to_set == old(ui).tile_to_set
                &&& final(self).lose == (old(self).lose || (final(self).turns_to_change == 0
                    && !final(self).world().has_carrot()))
                &&& final(self).is_selected == old(self).is_selected
                &&& final(self).selected == old(self).selected
                &&& final(self).complete == old(self).complete
            },
            old(self).turns_to_change == 0 ==> {
                let sel = cursor_cell(old(self).world().land, input.cursor.0 as int, input.cursor.1 as int);
                let at = match sel {
                    Some(at) => at,
                    None => old(self).selected,
                };
                let acts = !input.ui_clicked && !input.skip && sel is Some && input.place;
                &&& final(self).turns_to_change == (if input.skip { STEPS_PER_TURN } else { 0 })
                &&& final(self).is_selected == sel is Some
                &&& final(self).selected == at
                &&& final(self).turn_timer == old(self).turn_timer
                &&& final(self).lose == old(self).lose
                &&& (final(self).world(), *final(ui), final(self).complete) == (if acts {
                    placed(old(self).world(), at, *old(ui), old(self).complete)
                } else {
                    (old(self).world(), *old(ui), old(self).complete)
                })
            },
    {
        if self.turns_to_change > 0 {
            let ghost w0 = self.world();
            let ghost m0 = ui.money as int;
            let ghost n0 = self.turns_to_change;
            let t = self.turn_timer.saturating_add(input.elapsed_ms);
            self.turn_timer = t;
            assert(run_world(w0, 0) == w0);
            assert(run_money(w0, m0, 0) == m0);
            if t > TURN_MS {
                self.turn_timer = 0;
                self.skip(ui);
                assert(run_world(w0, 1) == w0.ticked());
            }
            if input.skip {
                while self.turns_to_change > 0
                    invariant
                        self.wf(),
                        self.turns_to_change <= n0,
                        self.world() == run_world(w0, (n0 - self.turns_to_change) as nat),
                        ui.money == run_money(w0, m0, (n0 - self.turns_to_change) as nat),
                        ui.tile_to_set == old(ui).tile_to_set,
                        self.turn_timer == (if t > TURN_MS { 0u64 } else { t }),
                        self.is_selected == old(self).is_selected,
                        self.selected == old(self).selected,
                        self.complete == old(self).complete,
                        self.lose == old(self).lose,
                    decreases self.turns_to_change,
                {
                    self.skip(ui);
                }
            }
            self.check_carrot();
        } else {
            let mut clicked = input.ui_clicked;
            if input.skip {
                clicked = true;
                self.turns_to_change = STEPS_PER_TURN;
            }
            self.set_cursor(input.cursor.0, input.cursor.1);
            if !clicked && self.is_selected && input.place && ui.get_tile() != Tiles::Void {
                self.place_tile(ui);
            }
        }
    }
}

/// The turn timer after `elapsed` more milliseconds, held at the largest `u64`.
pub open spec fn timer_sum(timer: u64, elapsed: u64) -> u64 {
    if timer + elapsed > u64::MAX {
        u64::MAX
    } else {
        (timer + elapsed) as u64
    }
}

/// How many ticks a frame runs while `turns` are owed: all of them on a skip,
/// otherwise one when the timer has passed `TURN_MS`.
pub open spec fn ticks_now(turns: usize, timer: u64, skip: bool) -> nat {
    if skip {
        turns as nat
    } else if timer > TURN_MS {
        1
    } else {
        0
    }
}

} // verus!
