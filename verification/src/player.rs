use vstd::prelude::*;

use crate::MAX_DIM;

verus! {

/// A grid coordinate. `x` counts columns from the left, `y` counts rows
/// from the top; row 0 is the goal edge.
#[derive(Clone, Copy, PartialEq, Eq, Structural, Debug)]
pub struct Position {
    pub x: usize,
    pub y: usize,
}

/// The player's life state. `Alive` is the initial state; `Splash`
/// (drowned) and `Happy` (reached the goal) are terminal.
#[derive(Clone, Copy, PartialEq, Eq, Structural, Debug)]
pub enum PlayerState {
    Alive,
    Splash,
    Happy,
}

/// The player token: a position, a display symbol, a life state, and a
/// step counter that grows by one on every move.
pub struct Player {
    pub pos: Position,
    pub symbol: char,
    pub state: PlayerState,
    pub steps: u32,
}

/// `v` clamped into `[lo, hi]`.
pub open spec fn clamp_int(v: int, lo: int, hi: int) -> int {
    if v < lo {
        lo
    } else if v > hi {
        hi
    } else {
        v
    }
}

impl Player {
    /// Coordinates stay small enough that signed intermediate arithmetic
    /// on them can never overflow.
    pub open spec fn wf(self) -> bool {
        &&& self.pos.x <= MAX_DIM
        &&& self.pos.y <= MAX_DIM
    }

    pub fn new(symbol: char, x: usize, y: usize) -> (p: Player)
        requires
            x <= MAX_DIM,
            y <= MAX_DIM,
        ensures
            p.wf(),
            p.pos.x == x,
            p.pos.y == y,
            p.symbol == symbol,
            p.state is Alive,
            p.steps == 0,
    {
        let pos = Position { x, y };

        Player { pos, symbol, state: PlayerState::Alive, steps: 0 }
    }

    /// Move to `(new_x, new_y)` clamped into `[0, max_x - 1] x [0, max_y]`,
    /// counting one step regardless of the distance covered.
    pub fn move_to(&mut self, new_x: usize, new_y: usize, max_x: usize, max_y: usize)
        requires
            1 <= max_x <= MAX_DIM,
            max_y <= MAX_DIM,
            old(self).steps < u32::MAX,
        ensures
            final(self).pos.x == clamp_int(new_x as int, 0, max_x - 1),
            final(self).pos.y == clamp_int(new_y as int, 0, max_y as int),
            final(self).steps == old(self).steps + 1,
            final(self).state == old(self).state,
            final(self).symbol == old(self).symbol,
            final(self).wf(),
    {
        self.steps = self.steps + 1;

        let x = if new_x > max_x - 1 { max_x - 1 } else { new_x };
        let y = if new_y > max_y { max_y } else { new_y };
        self.pos = Position { x, y };
    }

    /// React to the symbol visible at the player's cell: water (with no
    /// overlay covering it) drowns the player, the goal symbol wins; both
    /// transitions are terminal, and nothing happens once the player is no
    /// longer alive.
    pub fn update_state(&mut self, world: &crate::world::World)
        requires
            world.wf(),
            old(self).pos.y < world.height,
            old(self).pos.x < world.width,
        ensures
            final(self).pos == old(self).pos,
            final(self).steps == old(self).steps,
            final(self).wf(),
            ({
                let cell = world.map@[old(self).pos.y as int].cell_at(old(self).pos.x as int);
                if old(self).state is Alive && cell is Water {
                    &&& final(self).state is Splash
                    &&& final(self).symbol == '\u{2205}'
                } else if old(self).state is Alive && cell is Goal {
                    &&& final(self).state is Happy
                    &&& final(self).symbol == old(self).symbol
                } else {
                    &&& final(self).state == old(self).state
                    &&& final(self).symbol == old(self).symbol
                }
            }),
    {
        let row = world.get_row(self.pos.y);
        let cell = row.get_x(self.pos.x);

        if self.state == PlayerState::Alive {
            if cell == crate::row::TerrainSymbols::Water {
                self.set_symbol('\u{2205}');
                self.state = PlayerState::Splash;
            } else if cell == crate::row::TerrainSymbols::Goal {
                self.state = PlayerState::Happy;
            }
        }
    }

    fn set_symbol(&mut self, new_symbol: char)
        ensures
            final(self).symbol == new_symbol,
            final(self).pos == old(self).pos,
            final(self).state == old(self).state,
            final(self).steps == old(self).steps,
    {
        self.symbol = new_symbol;
    }

    pub fn get_pos(&self) -> (r: Position)
        ensures
            r == self.pos,
    {
        self.pos
    }

    pub fn get_symbol(&self) -> (r: char)
        ensures
            r == self.symbol,
    {
        self.symbol
    }

    pub fn get_player_state(&self) -> (r: PlayerState)
        ensures
            r == self.state,
    {
        self.state
    }

    pub fn get_player_steps(&self) -> (r: u32)
        ensures
            r == self.steps,
    {
        self.steps
    }
}

} // verus!
