use vstd::prelude::*;

use crate::log::LogHandler;
use crate::player::Player;
use crate::rng::rand_in_range;
use crate::MAX_DIM;

verus! {

/// The visual symbol kinds a grid cell can show. Distinct from `Terrain`:
/// a grass row mixes `Grass` and `Hedge` symbols, and `Board` marks a
/// platform composited over water.
#[derive(Clone, Copy, PartialEq, Eq, Structural, Debug)]
pub enum TerrainSymbols {
    Grass,
    Water,
    Goal,
    Hedge,
    Board,
}

/// The terrain category of a whole row, fixed at construction.
/// `GrassNoHedge` is grass without random obstruction, used for the two
/// extreme rows.
#[derive(Clone, Copy, PartialEq, Eq, Structural, Debug)]
pub enum Terrain {
    GrassNoHedge,
    Grass,
    Water,
    Goal,
}

/// An overlay with every slot unset.
pub open spec fn cleared_overlay(width: nat) -> Seq<Option<TerrainSymbols>> {
    Seq::new(width, |i: int| None)
}

/// One horizontal strip of the grid: static terrain cells, a transient
/// overlay composited over them each tick, and a platform lane when the
/// terrain is water.
pub struct Row {
    pub y: usize,
    pub width: usize,
    pub cells: Vec<TerrainSymbols>,
    pub overlay: Vec<Option<TerrainSymbols>>,
    pub terrain: Terrain,
    pub log_handler: Option<LogHandler>,
}

impl Row {
    /// What the static cells may hold for each terrain kind.
    pub open spec fn cells_ok(self) -> bool {
        match self.terrain {
            Terrain::Goal => forall|x: int|
                0 <= x < self.cells@.len() ==> self.cells@[x] is Goal,
            Terrain::GrassNoHedge => forall|x: int|
                0 <= x < self.cells@.len() ==> self.cells@[x] is Grass,
            Terrain::Water => forall|x: int|
                0 <= x < self.cells@.len() ==> self.cells@[x] is Water,
            Terrain::Grass => {
                &&& forall|x: int|
                    0 <= x < self.cells@.len() ==> self.cells@[x] is Grass || self.cells@[x]
                        is Hedge
                &&& self.y == 0 ==> forall|x: int|
                    0 <= x < self.cells@.len() ==> self.cells@[x] is Grass
            },
        }
    }

    /// The row invariant: cells and overlay both span the full width for
    /// the row's whole lifetime, and a lane is present exactly on water.
    pub open spec fn wf(self) -> bool {
        &&& 1 <= self.width <= MAX_DIM
        &&& self.y < MAX_DIM
        &&& self.cells@.len() == self.width
        &&& self.overlay@.len() == self.width
        &&& (self.log_handler is Some <==> self.terrain is Water)
        &&& match self.log_handler {
            Some(h) => h.wf() && h.width == self.width && h.y == self.y,
            None => true,
        }
        &&& self.cells_ok()
    }

    /// The symbol visible at column `x`: the overlay entry when one is
    /// set, else the static cell.
    pub open spec fn cell_at(self, x: int) -> TerrainSymbols {
        match self.overlay@[x] {
            Some(g) => g,
            None => self.cells@[x],
        }
    }

    /// Build a row of the given terrain: goal and hedge-free grass rows
    /// are uniform; grass rows above the top draw a hedge per column with
    /// probability one in four; water rows are uniform water and own a
    /// platform lane with a random direction.
    pub fn new(y: usize, width: usize, terrain: Terrain) -> (r: Row)
        requires
            1 <= width <= MAX_DIM,
            y < MAX_DIM,
        ensures
            r.wf(),
            r.y == y,
            r.width == width,
            r.terrain == terrain,
            r.overlay@ == cleared_overlay(width as nat),
            r.log_handler is Some ==> {
                let h = r.log_handler->Some_0;
                &&& h.logs@.len() >= 1
                &&& h.logs@[0].xli == 0
                &&& 2 <= h.logs@[0].length() <= 3
                &&& crate::log::chained_seq(h.logs@)
            },
    {
        if terrain == Terrain::Grass {
            return Row::new_grass(y, width);
        } else if terrain == Terrain::Water {
            return Row::new_water(y, width);
        }

        let symbol = if terrain == Terrain::Goal {
            TerrainSymbols::Goal
        } else {
            TerrainSymbols::Grass
        };

        Row {
            y,
            width,
            cells: fill_cells(symbol, width),
            overlay: fresh_overlay(width),
            terrain,
            log_handler: None,
        }
    }

    /// A grass row: uniform grass on the top row, elsewhere each column
    /// independently becomes a hedge with probability one in four.
    fn new_grass(y: usize, width: usize) -> (r: Row)
        requires
            1 <= width <= MAX_DIM,
            y < MAX_DIM,
        ensures
            r.wf(),
            r.y == y,
            r.width == width,
            r.terrain == Terrain::Grass,
            r.overlay@ == cleared_overlay(width as nat),
            r.log_handler is None,
    {
        let mut cells: Vec<TerrainSymbols> = Vec::new();

        if y == 0 {
            cells = fill_cells(TerrainSymbols::Grass, width);
        } else {
            let mut i: usize = 0;
            while i < width
                invariant
                    i <= width,
                    cells@.len() == i,
                    forall|x: int|
                        0 <= x < i ==> cells@[x] is Grass || (#[trigger] cells@[x]) is Hedge,
                decreases width - i,
            {
                let rnd_n = rand_in_range(0, 100);

                if rnd_n < 25 {
                    cells.push(TerrainSymbols::Hedge);
                } else {
                    cells.push(TerrainSymbols::Grass);
                }
                i = i + 1;
            }
        }

        Row {
            terrain: Terrain::Grass,
            y,
            width,
            cells,
            overlay: fresh_overlay(width),
            log_handler: None,
        }
    }

    /// A water row: uniform water cells, plus a platform lane drifting in
    /// a direction drawn at random.
    fn new_water(y: usize, width: usize) -> (r: Row)
        requires
            1 <= width <= MAX_DIM,
            y < MAX_DIM,
        ensures
            r.wf(),
            r.y == y,
            r.width == width,
            r.terrain == Terrain::Water,
            r.overlay@ == cleared_overlay(width as nat),
            r.log_handler is Some,
            ({
                let h = r.log_handler->Some_0;
                &&& h.logs@.len() >= 1
                &&& h.logs@[0].xli == 0
                &&& 2 <= h.logs@[0].length() <= 3
                &&& crate::log::chained_seq(h.logs@)
            }),
    {
        let coin = rand_in_range(0, 2);
        let direction: i32 = if coin == 1 {
            1
        } else {
            -1
        };

        let log_handler = LogHandler::new(width, direction, y);

        Row {
            cells: fill_cells(TerrainSymbols::Water, width),
            y,
            width,
            overlay: fresh_overlay(width),
            terrain: Terrain::Water,
            log_handler: Some(log_handler),
        }
    }

    /// The symbol visible at column `x`, preferring the overlay.
    pub fn get_x(&self, x: usize) -> (r: TerrainSymbols)
        requires
            self.wf(),
            x < self.width,
        ensures
            r == self.cell_at(x as int),
    {
        match self.overlay[x] {
            Some(g) => g,
            None => self.cells[x],
        }
    }

    /// Mark every column covered by a platform of this row's lane in the
    /// overlay; columns without a platform keep their overlay entry.
    pub fn fill_overlay(&mut self)
        requires
            old(self).wf(),
        ensures
            final(self).wf(),
            final(self).y == old(self).y,
            final(self).width == old(self).width,
            final(self).cells == old(self).cells,
            final(self).terrain == old(self).terrain,
            final(self).log_handler == old(self).log_handler,
            final(self).overlay@.len() == old(self).overlay@.len(),
            forall|j: int|
                0 <= j < old(self).overlay@.len() ==> final(self).overlay@[j] == (match old(
                    self,
                ).log_handler {
                    Some(h) => if h.covers(j) {
                        Some(TerrainSymbols::Board)
                    } else {
                        old(self).overlay@[j]
                    },
                    None => old(self).overlay@[j],
                }),
    {
        if let Some(h) = &self.log_handler {
            h.get_logs_in_overlay(&mut self.overlay);
        }
    }

    /// Reset every overlay slot to unset.
    pub fn clear_overlay(&mut self)
        requires
            old(self).wf(),
        ensures
            final(self).wf(),
            final(self).y == old(self).y,
            final(self).width == old(self).width,
            final(self).cells == old(self).cells,
            final(self).terrain == old(self).terrain,
            final(self).log_handler == old(self).log_handler,
            final(self).overlay@ == cleared_overlay(old(self).width as nat),
    {
        let overlay = fresh_overlay(self.width);
        self.overlay = overlay;
    }

    /// Delegate one simulation step to this row's lane, if it has one; the
    /// lane may displace the player. Rows without a lane do nothing.
    pub fn update_row(&mut self, player: &mut Player)
        requires
            old(self).wf(),
            old(player).wf(),
            old(player).steps < u32::MAX,
        ensures
            final(self).wf(),
            final(self).y == old(self).y,
            final(self).width == old(self).width,
            final(self).cells == old(self).cells,
            final(self).terrain == old(self).terrain,
            final(self).overlay == old(self).overlay,
            final(self).log_handler is Some <==> old(self).log_handler is Some,
            final(player).wf(),
            final(player).state == old(player).state,
            final(player).symbol == old(player).symbol,
            old(player).steps <= final(player).steps <= old(player).steps + 1,
            old(self).log_handler is None ==> *final(self) == *old(self) && *final(player) == *old(
                player,
            ),
            old(self).log_handler is Some ==> final(self).log_handler is Some && exists|
                mid: Seq<crate::log::Log>,
            |
                #[trigger] final(self).log_handler->Some_0.advanced_from(
                    old(self).log_handler->Some_0,
                    mid,
                ),
    {
        if let Some(log_hndlr) = &mut self.log_handler {
            log_hndlr.update_logs(player);
        }
    }

    /// Write `symbol` into the overlay at column `x`.
    pub fn set_overlay(&mut self, x: usize, symbol: TerrainSymbols)
        requires
            old(self).wf(),
            x < old(self).width,
        ensures
            final(self).wf(),
            final(self).y == old(self).y,
            final(self).width == old(self).width,
            final(self).cells == old(self).cells,
            final(self).terrain == old(self).terrain,
            final(self).log_handler == old(self).log_handler,
            final(self).overlay@ == old(self).overlay@.update(x as int, Some(symbol)),
    {
        self.overlay.set(x, Some(symbol));
    }
}

/// Law: every well-formed row keeps its static cells and its overlay at
/// exactly the row's width; constructors establish this and every method
/// preserves it, so it holds for the row's whole lifetime.
pub proof fn lemma_row_layers_span_width(r: Row)
    requires
        r.wf(),
    ensures
        r.cells@.len() == r.width,
        r.overlay@.len() == r.width,
{
}

/// Law: clearing the overlay is idempotent. A clear leaves an overlay
/// that depends only on the row's width, so clearing a row whose overlay
/// a clear has already reset changes nothing.
pub proof fn lemma_clear_overlay_idempotent(once: Row, twice: Row)
    requires
        twice.width == once.width,
        once.overlay@ == cleared_overlay(once.width as nat),
        twice.overlay@ == cleared_overlay(twice.width as nat),
    ensures
        twice.overlay@ == once.overlay@,
{
}

/// A vector of `width` copies of `symbol`.
fn fill_cells(symbol: TerrainSymbols, width: usize) -> (r: Vec<TerrainSymbols>)
    ensures
        r@.len() == width,
        forall|x: int| 0 <= x < width ==> r@[x] == symbol,
{
    let mut cells: Vec<TerrainSymbols> = Vec::new();
    let mut i: usize = 0;

    while i < width
        invariant
            i <= width,
            cells@.len() == i,
            forall|x: int| 0 <= x < i ==> cells@[x] == symbol,
        decreases width - i,
    {
        cells.push(symbol);
        i = i + 1;
    }
    cells
}

/// An overlay of `width` unset slots.
fn fresh_overlay(width: usize) -> (r: Vec<Option<TerrainSymbols>>)
    ensures
        r@ == cleared_overlay(width as nat),
{
    let mut overlay: Vec<Option<TerrainSymbols>> = Vec::new();
    let mut i: usize = 0;

    while i < width
        invariant
            i <= width,
            overlay@.len() == i,
            forall|x: int| 0 <= x < i ==> overlay@[x] is None,
        decreases width - i,
    {
        overlay.push(None);
        i = i + 1;
    }
    proof {
        assert(overlay@ =~= cleared_overlay(width as nat));
    }
    overlay
}

} // verus!
