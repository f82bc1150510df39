use crossing::log::{Log, LogHandler};
use crossing::player::Player;

#[test]
fn platform_length_constant_under_advance() {
    let mut l = Log::new(16, 2, 3, 1, 5);
    assert_eq!(l.xre - l.xli, 3);

    let mut p = Player::new('@', 10, 10);
    for _ in 0..5 {
        l.update_log(&mut p);
        assert_eq!(l.xre - l.xli, 3);
    }
    assert_eq!(l.xli, 7);
    assert_eq!(l.xre, 10);
}

#[test]
fn carry_moves_player_on_platform() {
    // A lane drifting right with one platform spanning columns [2, 4] on
    // row 5; a player standing at (3, 4) is carried to (4, 5) with one
    // step counted.
    let mut lane = LogHandler { width: 16, logs: vec![Log::new(16, 2, 2, 1, 5)], direction: 1, y: 5 };
    let mut p = Player::new('@', 3, 4);

    lane.update_logs(&mut p);

    assert_eq!(p.get_pos().x, 4);
    assert_eq!(p.get_pos().y, 5);
    assert_eq!(p.get_player_steps(), 1);
}

#[test]
fn carry_ignores_player_off_platform() {
    let mut lane = LogHandler { width: 16, logs: vec![Log::new(16, 2, 2, 1, 5)], direction: 1, y: 5 };
    let mut p = Player::new('@', 6, 4);

    lane.update_logs(&mut p);

    assert_eq!(p.get_pos().x, 6);
    assert_eq!(p.get_pos().y, 4);
    assert_eq!(p.get_player_steps(), 0);
}

#[test]
fn carry_single_log_matches_direction() {
    let mut l = Log::new(16, 2, 2, 1, 5);
    let mut p = Player::new('@', 3, 4);
    l.update_log(&mut p);
    assert_eq!(p.get_pos().x, 4);
    assert_eq!(p.get_pos().y, 5);
    assert_eq!(p.get_player_steps(), 1);
    // The platform itself shifted after displacing the player.
    assert_eq!(l.xli, 3);
    assert_eq!(l.xre, 5);
}

#[test]
fn leftward_platform_retires_at_zero() {
    // A leftward platform whose right edge has fallen to 0 is off the map
    // and is removed from the front on the next advance.
    let mut lane =
        LogHandler { width: 16, logs: vec![Log::new(16, -2, 2, -1, 3)], direction: -1, y: 3 };
    let mut p = Player::new('@', 10, 10);

    lane.update_logs(&mut p);

    // The retired platform is gone; only a freshly spawned platform (well
    // inside the map) may remain.
    assert_eq!(lane.logs.len(), 1);
    assert!(lane.logs[0].xli >= 2);
    assert!(lane.logs[0].xre > 0);
}

#[test]
fn rightward_platform_retires_at_width() {
    let mut lane =
        LogHandler { width: 16, logs: vec![Log::new(16, 16, 2, 1, 3)], direction: 1, y: 3 };
    let mut p = Player::new('@', 10, 10);

    lane.update_logs(&mut p);

    // Off the map (xli == width): retired; the spawn from it succeeded
    // since there is ample space behind.
    assert_eq!(lane.logs.len(), 1);
    assert!(lane.logs[0].xli < 16);
}

#[test]
fn on_map_test_by_direction() {
    assert!(!Log::new(16, -2, 2, -1, 3).get_log_on_map());
    assert!(Log::new(16, -2, 3, -1, 3).get_log_on_map());
    assert!(!Log::new(16, 16, 2, 1, 3).get_log_on_map());
    assert!(Log::new(16, 15, 2, 1, 3).get_log_on_map());
}

#[test]
fn spawn_gating_none_when_space_below_gap() {
    // Rightward: space behind is xli; a gap of 3 needs xli >= 3.
    let l = Log::new(16, 2, 2, 1, 4);
    assert!(l.spawn_candidate(3, 2).is_none());

    // Leftward: space behind is width - xre; xre = 14 leaves 2 < 3.
    let l2 = Log::new(16, 12, 2, -1, 4);
    assert!(l2.spawn_candidate(3, 2).is_none());
}

#[test]
fn spawn_gating_some_with_trailing_edge_at_gap() {
    // Rightward: the new platform's trailing (right) edge sits exactly
    // `gap` columns behind the reference's left edge.
    let l = Log::new(16, 5, 2, 1, 4);
    let n = l.spawn_candidate(3, 2).unwrap();
    assert_eq!(n.xre, 5 - 3);
    assert_eq!(n.xli, 5 - 3 - 2);

    // Leftward: the new platform's trailing (left) edge sits exactly
    // `gap` columns behind the reference's right edge.
    let l2 = Log::new(16, 10, 2, -1, 4);
    let n2 = l2.spawn_candidate(4, 3).unwrap();
    assert_eq!(n2.xli, 12 + 4);
    assert_eq!(n2.xre, 12 + 4 + 3);
}

#[test]
fn spawn_new_log_draws_gap_and_length_in_range() {
    // With ample space a spawn is certain, and the drawn gap and length
    // stay inside [3, 5) and [2, 4).
    for _ in 0..50 {
        let l = Log::new(16, 10, 2, 1, 4);
        let n = l.spawn_new_log().unwrap();
        let gap = l.xli - n.xre;
        let len = n.xre - n.xli;
        assert!((3..5).contains(&gap));
        assert!((2..4).contains(&len));
        assert_eq!(n.direction, 1);
        assert_eq!(n.y, 4);
    }
    // With no space a spawn is impossible.
    let tight = Log::new(16, 2, 2, 1, 4);
    assert!(tight.spawn_new_log().is_none());
}

#[test]
fn lane_new_chains_platforms_until_full() {
    for _ in 0..20 {
        let lane = LogHandler::new(16, -1, 2);

        // Each later platform trails its predecessor by a gap in [3, 5)
        // with a length in [2, 4).
        for pair in lane.logs.windows(2) {
            let gap = pair[1].xli - pair[0].xre;
            let len = pair[1].xre - pair[1].xli;
            assert!((3..5).contains(&gap));
            assert!((2..4).contains(&len));
        }

        // The lane is full: no further spawn is possible.
        let last = lane.logs.last().unwrap();
        assert!(16 - last.xre < 4);
    }
}

#[test]
fn lane_stays_populated_as_platforms_retire() {
    // The spawn attempt precedes the retirement check, so a lane whose
    // sole platform leaves the map is replenished in the same advance.
    let mut lane =
        LogHandler { width: 16, logs: vec![Log::new(16, 16, 2, 1, 3)], direction: 1, y: 3 };
    let mut p = Player::new('@', 10, 10);

    for _ in 0..30 {
        lane.update_logs(&mut p);
        assert!(!lane.logs.is_empty());
    }
}

#[test]
fn lane_new_seeds_left_edge() {
    for _ in 0..20 {
        let lane = LogHandler::new(16, -1, 2);
        assert!(!lane.logs.is_empty());
        assert_eq!(lane.logs[0].xli, 0);
        let len = lane.logs[0].xre - lane.logs[0].xli;
        assert!((2..4).contains(&len));
        // A leftward lane fills the row behind the seed.
        assert!(lane.logs.len() >= 2);

        let rlane = LogHandler::new(16, 1, 7);
        assert_eq!(rlane.logs.len(), 1);
        assert_eq!(rlane.logs[0].xli, 0);
    }
}
