use crossing::game::{handle_key_during_play, KeyPress};
use crossing::log::{Log, LogHandler};
use crossing::player::{Player, PlayerState, Position};
use crossing::row::{Row, Terrain, TerrainSymbols};
use crossing::world::World;

fn water_row(y: usize, width: usize, lane: LogHandler) -> Row {
    Row {
        y,
        width,
        cells: vec![TerrainSymbols::Water; width],
        overlay: vec![None; width],
        terrain: Terrain::Water,
        log_handler: Some(lane),
    }
}

#[test]
fn row_layers_span_width() {
    for &terrain in &[Terrain::Goal, Terrain::GrassNoHedge, Terrain::Grass, Terrain::Water] {
        let mut r = Row::new(3, 16, terrain);
        assert_eq!(r.cells.len(), 16);
        assert_eq!(r.overlay.len(), 16);

        r.clear_overlay();
        assert_eq!(r.cells.len(), 16);
        assert_eq!(r.overlay.len(), 16);

        r.fill_overlay();
        assert_eq!(r.cells.len(), 16);
        assert_eq!(r.overlay.len(), 16);
    }
}

#[test]
fn clear_overlay_idempotent() {
    let mut r = Row::new(2, 8, Terrain::Water);
    r.fill_overlay();

    r.clear_overlay();
    let once = r.overlay.clone();
    r.clear_overlay();

    assert_eq!(r.overlay, once);
    assert!(r.overlay.iter().all(|slot| slot.is_none()));
}

#[test]
fn overlay_preferred_over_static_cell() {
    let mut r = Row::new(0, 8, Terrain::Goal);
    assert_eq!(r.get_x(5), TerrainSymbols::Goal);

    r.set_overlay(5, TerrainSymbols::Board);
    assert_eq!(r.get_x(5), TerrainSymbols::Board);
    assert_eq!(r.get_x(4), TerrainSymbols::Goal);

    r.clear_overlay();
    assert_eq!(r.get_x(5), TerrainSymbols::Goal);
}

#[test]
fn fill_overlay_marks_covered_columns() {
    let lane = LogHandler { width: 8, logs: vec![Log::new(8, 2, 3, 1, 1)], direction: 1, y: 1 };
    let mut r = water_row(1, 8, lane);

    r.fill_overlay();

    for x in 0..8usize {
        let expected = if (2..5).contains(&(x as i32)) {
            TerrainSymbols::Board
        } else {
            TerrainSymbols::Water
        };
        assert_eq!(r.get_x(x), expected);
    }
}

#[test]
fn grass_rows_mix_grass_and_hedge_only() {
    for _ in 0..10 {
        let r = Row::new(3, 16, Terrain::Grass);
        assert!(r.cells.iter().all(|c| matches!(c, TerrainSymbols::Grass | TerrainSymbols::Hedge)));

        let top = Row::new(0, 16, Terrain::Grass);
        assert!(top.cells.iter().all(|c| matches!(c, TerrainSymbols::Grass)));
    }
}

#[test]
fn world_new_assigns_terrain_by_rule() {
    let w = World::new(16, 20);
    assert_eq!(w.map.len(), 20);
    assert_eq!(w.map[0].terrain, Terrain::Goal);
    assert_eq!(w.map[19].terrain, Terrain::GrassNoHedge);

    for (i, row) in w.map.iter().enumerate() {
        assert_eq!(row.y, i);
        assert_eq!(row.cells.len(), 16);
        assert_eq!(row.overlay.len(), 16);
        if i != 0 && i != 19 {
            assert!(matches!(row.terrain, Terrain::Grass | Terrain::Water));
        }
        assert_eq!(row.log_handler.is_some(), row.terrain == Terrain::Water);
    }
}

#[test]
fn world_set_writes_only_in_bounds() {
    let rows = vec![Row::new(0, 5, Terrain::Goal), Row::new(1, 5, Terrain::GrassNoHedge)];
    let mut w = World::from_rows(5, 2, rows);

    w.set(3, 1, TerrainSymbols::Board);
    assert_eq!(w.get_row(1).get_x(3), TerrainSymbols::Board);

    // Out-of-range writes are silently ignored.
    w.set(5, 1, TerrainSymbols::Board);
    w.set(0, 2, TerrainSymbols::Board);
    assert_eq!(w.get_row(1).get_x(0), TerrainSymbols::Grass);
    assert_eq!(w.get_row(0).get_x(0), TerrainSymbols::Goal);
}

#[test]
fn update_world_refreshes_overlay_every_tick() {
    let lane = LogHandler { width: 5, logs: vec![Log::new(5, 1, 2, 1, 1)], direction: 1, y: 1 };
    let rows = vec![Row::new(0, 5, Terrain::Goal), water_row(1, 5, lane), Row::new(
        2,
        5,
        Terrain::GrassNoHedge,
    )];
    let mut w = World::from_rows(5, 3, rows);
    let mut p = Player::new('@', 0, 2);

    w.update_world(&mut p);
    assert_eq!(w.tick, 1);

    // Lanes do not advance before the seventh tick: the platform still
    // spans [1, 3) and is composited onto the overlay.
    assert_eq!(w.get_row(1).get_x(0), TerrainSymbols::Water);
    assert_eq!(w.get_row(1).get_x(1), TerrainSymbols::Board);
    assert_eq!(w.get_row(1).get_x(2), TerrainSymbols::Board);
    assert_eq!(w.get_row(1).get_x(3), TerrainSymbols::Water);

    for _ in 0..6 {
        w.clear();
        w.update_world(&mut p);
    }
    assert_eq!(w.tick, 7);

    // On the seventh tick the lane advanced: the platform spans [2, 4).
    assert_eq!(w.get_row(1).get_x(1), TerrainSymbols::Water);
    assert_eq!(w.get_row(1).get_x(2), TerrainSymbols::Board);
    assert_eq!(w.get_row(1).get_x(3), TerrainSymbols::Board);
    assert_eq!(p.get_player_steps(), 0);
}

#[test]
fn seventh_tick_carries_player() {
    // A platform spanning [1, 3] on row 1 drifts right; a player one row
    // above it at column 2 is carried to (3, 1) when the lane advances on
    // the seventh tick, and not before.
    let lane = LogHandler { width: 5, logs: vec![Log::new(5, 1, 2, 1, 1)], direction: 1, y: 1 };
    let rows = vec![Row::new(0, 5, Terrain::Goal), water_row(1, 5, lane), Row::new(
        2,
        5,
        Terrain::GrassNoHedge,
    )];
    let mut w = World::from_rows(5, 3, rows);
    let mut p = Player::new('@', 2, 0);

    for _ in 0..6 {
        w.clear();
        w.update_world(&mut p);
        assert_eq!(p.get_pos().x, 2);
        assert_eq!(p.get_pos().y, 0);
    }

    w.clear();
    w.update_world(&mut p);

    assert_eq!(p.get_pos().x, 3);
    assert_eq!(p.get_pos().y, 1);
    assert_eq!(p.get_player_steps(), 1);
}

#[test]
fn water_transition_is_terminal() {
    let rows = vec![Row::new(0, 5, Terrain::Goal), Row::new(1, 5, Terrain::Water)];
    let w = World::from_rows(5, 2, rows);

    let mut p = Player::new('@', 2, 1);
    assert_eq!(p.get_player_state(), PlayerState::Alive);

    p.update_state(&w);
    assert_eq!(p.get_player_state(), PlayerState::Splash);
    assert_eq!(p.get_symbol(), '\u{2205}');

    // Terminal: standing on the goal afterwards changes nothing.
    p.pos = Position { x: 2, y: 0 };
    p.update_state(&w);
    assert_eq!(p.get_player_state(), PlayerState::Splash);
}

#[test]
fn goal_transition_is_terminal() {
    let rows = vec![Row::new(0, 5, Terrain::Goal), Row::new(1, 5, Terrain::Water)];
    let w = World::from_rows(5, 2, rows);

    let mut p = Player::new('@', 2, 0);
    p.update_state(&w);
    assert_eq!(p.get_player_state(), PlayerState::Happy);
    assert_eq!(p.get_symbol(), '@');

    // Terminal: standing on water afterwards changes nothing.
    p.pos = Position { x: 2, y: 1 };
    p.update_state(&w);
    assert_eq!(p.get_player_state(), PlayerState::Happy);
}

#[test]
fn platform_overlay_keeps_player_alive() {
    let lane = LogHandler { width: 5, logs: vec![Log::new(5, 1, 2, 1, 1)], direction: 1, y: 1 };
    let rows = vec![Row::new(0, 5, Terrain::Goal), water_row(1, 5, lane)];
    let mut w = World::from_rows(5, 2, rows);
    let mut p = Player::new('@', 2, 1);

    w.update_world(&mut p);
    p.update_state(&w);

    // The platform covers column 2: the player stands on wood, not water.
    assert_eq!(p.get_player_state(), PlayerState::Alive);
}

#[test]
fn three_up_moves_reach_row_one() {
    // A 5x5 field with the goal on row 0, hedge-free grass everywhere
    // else; from (0, 4) three upward moves end at (0, 1) with three steps
    // counted and the player still alive.
    let mut rows = vec![Row::new(0, 5, Terrain::Goal)];
    for y in 1..5usize {
        rows.push(Row::new(y, 5, Terrain::GrassNoHedge));
    }
    let w = World::from_rows(5, 5, rows);
    let mut p = Player::new('@', 0, 4);

    for _ in 0..3 {
        handle_key_during_play(&mut p, &w, &KeyPress::Up);
        p.update_state(&w);
    }

    assert_eq!(p.get_pos().x, 0);
    assert_eq!(p.get_pos().y, 1);
    assert_eq!(p.get_player_steps(), 3);
    assert_eq!(p.get_player_state(), PlayerState::Alive);
}

#[test]
fn left_move_clamps_at_edge() {
    let mut rows = vec![Row::new(0, 5, Terrain::Goal)];
    for y in 1..5usize {
        rows.push(Row::new(y, 5, Terrain::GrassNoHedge));
    }
    let w = World::from_rows(5, 5, rows);
    let mut p = Player::new('@', 0, 4);

    handle_key_during_play(&mut p, &w, &KeyPress::Left);

    assert_eq!(p.get_pos().x, 0);
    assert_eq!(p.get_pos().y, 4);
    assert_eq!(p.get_player_steps(), 1);
}

#[test]
fn hedge_blocks_the_move() {
    let mut hedged = Row::new(1, 5, Terrain::GrassNoHedge);
    hedged.cells = vec![TerrainSymbols::Hedge; 5];
    hedged.terrain = Terrain::Grass;

    let rows = vec![
        Row::new(0, 5, Terrain::Goal),
        hedged,
        Row::new(2, 5, Terrain::GrassNoHedge),
    ];
    let w = World::from_rows(5, 3, rows);
    let mut p = Player::new('@', 2, 2);

    handle_key_during_play(&mut p, &w, &KeyPress::Up);

    assert_eq!(p.get_pos().x, 2);
    assert_eq!(p.get_pos().y, 2);
    assert_eq!(p.get_player_steps(), 0);
}

#[test]
fn keys_without_direction() {
    let rows = vec![Row::new(0, 5, Terrain::Goal), Row::new(1, 5, Terrain::GrassNoHedge)];
    let w = World::from_rows(5, 2, rows);
    let mut p = Player::new('@', 2, 1);

    // Esc and the absence of a key change nothing at all.
    handle_key_during_play(&mut p, &w, &KeyPress::Esc);
    handle_key_during_play(&mut p, &w, &KeyPress::NoKey);
    assert_eq!(p.get_player_steps(), 0);

    // Space resolves to a move in place: one step is still counted.
    handle_key_during_play(&mut p, &w, &KeyPress::Space);
    assert_eq!(p.get_pos().x, 2);
    assert_eq!(p.get_pos().y, 1);
    assert_eq!(p.get_player_steps(), 1);
}

#[test]
fn move_to_clamps_and_counts() {
    let mut p = Player::new('@', 0, 0);
    p.move_to(10, 9, 5, 6);
    assert_eq!(p.get_pos().x, 4);
    assert_eq!(p.get_pos().y, 6);
    assert_eq!(p.get_player_steps(), 1);
}
