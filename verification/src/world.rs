use vstd::prelude::*;

use crate::player::Player;
use crate::rng::rand_in_range;
use crate::row::{cleared_overlay, Row, Terrain, TerrainSymbols};
use crate::MAX_DIM;

verus! {

/// Which terrain the construction rule assigns to row `i` of a grid of
/// `height` rows: the bottom row is hedge-free grass, the top row is the
/// goal, and every row between draws water or grass at random.
pub open spec fn terrain_rule(r: Row, i: int, height: int) -> bool {
    if i == height - 1 {
        r.terrain is GrassNoHedge
    } else if i == 0 {
        r.terrain is Goal
    } else {
        r.terrain is Grass || r.terrain is Water
    }
}

/// The full play field: an ordered sequence of rows, and a tick counter
/// driving the lane-advance schedule.
pub struct World {
    pub width: usize,
    pub height: usize,
    pub map: Vec<Row>,
    pub tick: u32,
}

impl World {
    pub open spec fn wf(self) -> bool {
        &&& 1 <= self.width <= MAX_DIM
        &&& 1 <= self.height <= MAX_DIM
        &&& self.map@.len() == self.height
        &&& forall|i: int|
            0 <= i < self.map@.len() ==> {
                &&& (#[trigger] self.map@[i]).wf()
                &&& self.map@[i].width == self.width
                &&& self.map@[i].y == i
            }
    }

    /// Generate a field: row 0 is the goal edge, row `height - 1` is
    /// hedge-free grass, and each row between is water or grass with even
    /// odds.
    pub fn new(width: usize, height: usize) -> (r: World)
        requires
            1 <= width <= MAX_DIM,
            1 <= height <= MAX_DIM,
        ensures
            r.wf(),
            r.width == width,
            r.height == height,
            r.tick == 0,
            forall|i: int| 0 <= i < height ==> terrain_rule(#[trigger] r.map@[i], i, height as int),
            forall|i: int|
                0 <= i < height ==> (#[trigger] r.map@[i]).overlay@ == cleared_overlay(
                    width as nat,
                ),
    {
        let mut map: Vec<Row> = Vec::new();
        let mut y: usize = 0;

        while y < height
            invariant
                y <= height,
                1 <= width <= MAX_DIM,
                1 <= height <= MAX_DIM,
                map@.len() == y,
                forall|i: int|
                    0 <= i < y ==> {
                        &&& (#[trigger] map@[i]).wf()
                        &&& map@[i].width == width
                        &&& map@[i].y == i
                        &&& terrain_rule(map@[i], i, height as int)
                        &&& map@[i].overlay@ == cleared_overlay(width as nat)
                    },
            decreases height - y,
        {
            if y == height - 1 {
                map.push(Row::new(y, width, Terrain::GrassNoHedge));
            } else if y == 0 {
                map.push(Row::new(y, width, Terrain::Goal));
            } else {
                let rand_n = rand_in_range(0, 100);

                if rand_n >= 50 {
                    map.push(Row::new(y, width, Terrain::Water));
                } else {
                    map.push(Row::new(y, width, Terrain::Grass));
                }
            }
            y = y + 1;
        }

        World { width, height, map, tick: 0 }
    }

    /// Assemble a field from rows built elsewhere, for a caller that wants
    /// full control over every row's terrain.
    pub fn from_rows(width: usize, height: usize, map: Vec<Row>) -> (r: World)
        requires
            1 <= width <= MAX_DIM,
            1 <= height <= MAX_DIM,
            map@.len() == height,
            forall|i: int|
                0 <= i < map@.len() ==> (#[trigger] map@[i]).wf() && map@[i].width == width
                    && map@[i].y == i,
        ensures
            r.wf(),
            r.width == width,
            r.height == height,
            r.tick == 0,
            r.map == map,
    {
        World { width, height, map, tick: 0 }
    }

    /// Reset every row's overlay to unset.
    pub fn clear(&mut self)
        requires
            old(self).wf(),
        ensures
            final(self).wf(),
            final(self).width == old(self).width,
            final(self).height == old(self).height,
            final(self).tick == old(self).tick,
            final(self).map@.len() == old(self).map@.len(),
            forall|i: int|
                0 <= i < old(self).map@.len() ==> {
                    &&& (#[trigger] final(self).map@[i]).y == old(self).map@[i].y
                    &&& final(self).map@[i].width == old(self).map@[i].width
                    &&& final(self).map@[i].cells == old(self).map@[i].cells
                    &&& final(self).map@[i].terrain == old(self).map@[i].terrain
                    &&& final(self).map@[i].log_handler == old(self).map@[i].log_handler
                    &&& final(self).map@[i].overlay@ == cleared_overlay(
                        old(self).map@[i].width as nat,
                    )
                },
    {
        let ghost pre = *old(self);
        let n = self.map.len();
        let mut k: usize = 0;

        while k < n
            invariant
                k <= n,
                n == pre.map@.len(),
                pre.wf(),
                self.width == pre.width,
                self.height == pre.height,
                self.tick == pre.tick,
                self.map@.len() == n,
                forall|i: int| k <= i < n ==> self.map@[i] == pre.map@[i],
                forall|i: int|
                    0 <= i < k ==> {
                        &&& (#[trigger] self.map@[i]).wf()
                        &&& self.map@[i].y == pre.map@[i].y
                        &&& self.map@[i].width == pre.map@[i].width
                        &&& self.map@[i].cells == pre.map@[i].cells
                        &&& self.map@[i].terrain == pre.map@[i].terrain
                        &&& self.map@[i].log_handler == pre.map@[i].log_handler
                        &&& self.map@[i].overlay@ == cleared_overlay(pre.map@[i].width as nat)
                    },
            decreases n - k,
        {
            let row = &mut self.map[k];
            row.clear_overlay();
            k = k + 1;
        }
    }

    /// One simulation tick: count it; on every seventh tick advance all
    /// platform lanes (which may displace the player); then rebuild every
    /// overlay from the current platform positions.
    pub fn update_world(&mut self, player: &mut Player)
        requires
            old(self).wf(),
            old(player).wf(),
            old(self).tick < u32::MAX,
            old(player).steps + old(self).height <= u32::MAX,
        ensures
            final(self).wf(),
            final(self).width == old(self).width,
            final(self).height == old(self).height,
            final(self).tick == old(self).tick + 1,
            final(self).map@.len() == old(self).map@.len(),
            forall|i: int|
                0 <= i < old(self).map@.len() ==> {
                    &&& (#[trigger] final(self).map@[i]).y == old(self).map@[i].y
                    &&& final(self).map@[i].width == old(self).map@[i].width
                    &&& final(self).map@[i].cells == old(self).map@[i].cells
                    &&& final(self).map@[i].terrain == old(self).map@[i].terrain
                },
            final(player).wf(),
            final(player).state == old(player).state,
            final(player).symbol == old(player).symbol,
            old(player).steps <= final(player).steps <= old(player).steps + old(self).height,
            (old(self).tick + 1) % 7 != 0 ==> *final(player) == *old(player) && forall|i: int|
                0 <= i < old(self).map@.len() ==> (#[trigger] final(self).map@[i]).log_handler
                    == old(self).map@[i].log_handler,
            (old(self).tick + 1) % 7 == 0 ==> forall|i: int|
                0 <= i < old(self).map@.len() ==> {
                    &&& ((#[trigger] final(self).map@[i]).log_handler is Some <==> old(
                        self,
                    ).map@[i].log_handler is Some)
                    &&& old(self).map@[i].log_handler is Some ==> exists|mid: Seq<crate::log::Log>|
                        #[trigger] final(self).map@[i].log_handler->Some_0.advanced_from(
                            old(self).map@[i].log_handler->Some_0,
                            mid,
                        )
                },
            forall|i: int, j: int|
                0 <= i < old(self).map@.len() && 0 <= j < old(self).width
                    ==> #[trigger] final(self).map@[i].overlay@[j] == (match final(self).map@[i].log_handler {
                    Some(h) => if h.covers(j) {
                        Some(TerrainSymbols::Board)
                    } else {
                        old(self).map@[i].overlay@[j]
                    },
                    None => old(self).map@[i].overlay@[j],
                }),
    {
        let ghost pre = *old(self);
        let ghost p0 = *old(player);

        self.tick = self.tick + 1;

        if self.tick % 7 == 0 {
            let n = self.map.len();
            let mut k: usize = 0;

            while k < n
                invariant
                    k <= n,
                    n == pre.map@.len(),
                    pre.wf(),
                    p0.wf(),
                    p0.steps + pre.height <= u32::MAX,
                    self.width == pre.width,
                    self.height == pre.height,
                    self.tick == pre.tick + 1,
                    self.map@.len() == n,
                    forall|i: int| k <= i < n ==> self.map@[i] == pre.map@[i],
                    forall|i: int|
                        0 <= i < k ==> {
                            &&& (#[trigger] self.map@[i]).wf()
                            &&& self.map@[i].y == pre.map@[i].y
                            &&& self.map@[i].width == pre.map@[i].width
                            &&& self.map@[i].cells == pre.map@[i].cells
                            &&& self.map@[i].terrain == pre.map@[i].terrain
                            &&& self.map@[i].overlay == pre.map@[i].overlay
                            &&& (self.map@[i].log_handler is Some <==> pre.map@[i].log_handler
                                is Some)
                            &&& pre.map@[i].log_handler is Some ==> exists|
                                mid: Seq<crate::log::Log>,
                            |
                                #[trigger] self.map@[i].log_handler->Some_0.advanced_from(
                                    pre.map@[i].log_handler->Some_0,
                                    mid,
                                )
                        },
                    player.wf(),
                    player.state == p0.state,
                    player.symbol == p0.symbol,
                    p0.steps <= player.steps <= p0.steps + k,
                decreases n - k,
            {
                let row = &mut self.map[k];
                row.update_row(player);
                k = k + 1;
            }
        }

        let ghost moved = *self;
        let ghost p1 = *player;
        let n = self.map.len();
        let mut k: usize = 0;

        while k < n
            invariant
                k <= n,
                n == moved.map@.len(),
                moved.wf(),
                self.width == moved.width,
                self.height == moved.height,
                self.tick == moved.tick,
                self.map@.len() == n,
                *player == p1,
                forall|i: int| k <= i < n ==> self.map@[i] == moved.map@[i],
                forall|i: int|
                    0 <= i < k ==> {
                        &&& (#[trigger] self.map@[i]).wf()
                        &&& self.map@[i].y == moved.map@[i].y
                        &&& self.map@[i].width == moved.map@[i].width
                        &&& self.map@[i].cells == moved.map@[i].cells
                        &&& self.map@[i].terrain == moved.map@[i].terrain
                        &&& self.map@[i].log_handler == moved.map@[i].log_handler
                        &&& self.map@[i].overlay@.len() == moved.map@[i].overlay@.len()
                        &&& forall|j: int|
                            0 <= j < moved.map@[i].overlay@.len()
                                ==> #[trigger] self.map@[i].overlay@[j] == (match moved.map@[i].log_handler {
                                Some(h) => if h.covers(j) {
                                    Some(TerrainSymbols::Board)
                                } else {
                                    moved.map@[i].overlay@[j]
                                },
                                None => moved.map@[i].overlay@[j],
                            })
                    },
            decreases n - k,
        {
            let row = &mut self.map[k];
            row.fill_overlay();
            k = k + 1;
        }
    }

    /// Place a symbol into the overlay at `(x, y)`; writes outside the
    /// grid are silently ignored.
    pub fn set(&mut self, x: usize, y: usize, c: TerrainSymbols)
        requires
            old(self).wf(),
        ensures
            final(self).wf(),
            final(self).width == old(self).width,
            final(self).height == old(self).height,
            final(self).tick == old(self).tick,
            final(self).map@.len() == old(self).map@.len(),
            y < old(self).height && x < old(self).width ==> {
                &&& final(self).map@[y as int].overlay@ == old(self).map@[y as int].overlay@.update(
                    x as int,
                    Some(c),
                )
                &&& forall|i: int|
                    0 <= i < old(self).map@.len() && i != y ==> final(self).map@[i] == old(
                        self,
                    ).map@[i]
                &&& final(self).map@[y as int].cells == old(self).map@[y as int].cells
                &&& final(self).map@[y as int].terrain == old(self).map@[y as int].terrain
                &&& final(self).map@[y as int].log_handler == old(self).map@[y as int].log_handler
            },
            !(y < old(self).height && x < old(self).width) ==> *final(self) == *old(self),
    {
        if y < self.height && x < self.width {
            let row = &mut self.map[y];
            row.set_overlay(x, c);
        }
    }

    /// Read-only access to a row, for collision probes.
    pub fn get_row(&self, y: usize) -> (r: &Row)
        requires
            self.wf(),
            y < self.height,
        ensures
            *r == self.map@[y as int],
    {
        &self.map[y]
    }
}

} // verus!
