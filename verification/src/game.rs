use vstd::prelude::*;

use crate::player::{clamp_int, Player};
use crate::row::TerrainSymbols;
use crate::world::World;

verus! {

/// The directional and command signals the input source can report once
/// per tick.
#[derive(Clone, Copy, PartialEq, Eq, Structural, Debug)]
pub enum KeyPress {
    Up,
    Down,
    Left,
    Right,
    Esc,
    NoKey,
    Space,
}

/// The column displacement a key requests.
pub open spec fn key_dx(k: KeyPress) -> int {
    match k {
        KeyPress::Right => 1,
        KeyPress::Left => -1,
        _ => 0,
    }
}

/// The row displacement a key requests.
pub open spec fn key_dy(k: KeyPress) -> int {
    match k {
        KeyPress::Up => -1,
        KeyPress::Down => 1,
        _ => 0,
    }
}

/// Resolve one key pressed during play against the field: compute the
/// requested target clamped into the grid, refuse it when a hedge is
/// visible there, and otherwise move the player (counting one step even
/// for a move that goes nowhere). `Esc` and the absence of a key change
/// nothing here; the caller handles them.
pub fn handle_key_during_play(player: &mut Player, world: &World, key: &KeyPress)
    requires
        world.wf(),
        old(player).wf(),
        old(player).pos.x < world.width,
        old(player).pos.y < world.height,
        old(player).steps < u32::MAX,
    ensures
        final(player).wf(),
        final(player).state == old(player).state,
        final(player).symbol == old(player).symbol,
        final(player).pos.x < world.width,
        final(player).pos.y < world.height,
        ({
            let tx = clamp_int(old(player).pos.x + key_dx(*key), 0, world.width - 1);
            let ty = clamp_int(old(player).pos.y + key_dy(*key), 0, world.height - 1);
            if *key is Esc || *key is NoKey {
                *final(player) == *old(player)
            } else if world.map@[ty].cell_at(tx) is Hedge {
                *final(player) == *old(player)
            } else {
                &&& final(player).pos.x == tx
                &&& final(player).pos.y == ty
                &&& final(player).steps == old(player).steps + 1
            }
        }),
{
    if *key == KeyPress::Esc || *key == KeyPress::NoKey {
        return ;
    }

    let dx: i32;
    let dy: i32;

    match key {
        KeyPress::Up => {
            dx = 0;
            dy = -1;
        },
        KeyPress::Right => {
            dx = 1;
            dy = 0;
        },
        KeyPress::Down => {
            dx = 0;
            dy = 1;
        },
        KeyPress::Left => {
            dx = -1;
            dy = 0;
        },
        _ => {
            dx = 0;
            dy = 0;
        },
    }

    let px = player.get_pos().x as i32;
    let py = player.get_pos().y as i32;

    let new_x: usize = if px + dx < 0 {
        0
    } else if px + dx > world.width as i32 - 1 {
        world.width - 1
    } else {
        (px + dx) as usize
    };

    let new_y: usize = if py + dy < 0 {
        0
    } else if py + dy > world.height as i32 - 1 {
        world.height - 1
    } else {
        (py + dy) as usize
    };

    let row = world.get_row(new_y);
    let cell = row.get_x(new_x);

    if cell == TerrainSymbols::Hedge {
        return ;
    }

    player.move_to(new_x, new_y, world.width, world.height);
}

} // verus!
