use vstd::prelude::*;

use crate::player::{clamp_int, Player};
use crate::rng::rand_in_range;
use crate::row::TerrainSymbols;
use crate::MAX_DIM;

verus! {

/// One floating platform drifting across a water row: a span of columns
/// `[xli, xre)` on row `y`, moving one column per advance in `direction`
/// (`+1` rightwards, `-1` leftwards). The edges may lie outside the grid
/// while the platform drifts on or off the map.
#[derive(Clone, Copy, Debug)]
pub struct Log {
    pub row_width: usize,
    pub xli: i32,
    pub xre: i32,
    pub direction: i32,
    pub y: usize,
}

impl Log {
    pub open spec fn wf(self) -> bool {
        &&& self.direction == 1 || self.direction == -1
        &&& self.xli <= self.xre
        &&& 1 <= self.row_width <= MAX_DIM
        &&& self.y < MAX_DIM
    }

    /// The edges never stray more than a short drift beyond the grid:
    /// the lane retires a platform as soon as it has left the map.
    pub open spec fn in_window(self) -> bool {
        &&& -3 <= self.xli as int
        &&& self.xre as int <= self.row_width + 3
    }

    /// The platform's length, fixed at creation.
    pub open spec fn length(self) -> int {
        self.xre - self.xli
    }

    /// Column `j` is covered by this platform's span `[xli, xre)`.
    pub open spec fn covers(self, j: int) -> bool {
        self.xli <= j < self.xre
    }

    /// Still on the map in its direction of travel: a platform moving
    /// right is on-map while its left edge is left of the width; one
    /// moving left is on-map while its right edge is right of zero.
    pub open spec fn on_map(self) -> bool {
        if self.direction == 1 {
            (self.xli as int) < (self.row_width as int)
        } else if self.direction == -1 {
            (self.xre as int) > 0
        } else {
            false
        }
    }

    /// The carry condition: the player stands exactly one row above this
    /// platform's row, with its column within `[xli, xre]` (both ends
    /// included).
    pub open spec fn carries(self, p: Player) -> bool {
        &&& p.pos.y + 1 == self.y
        &&& self.xli <= p.pos.x as int <= self.xre
    }

    /// This platform, one advance later: both edges moved by `direction`.
    pub open spec fn shifted(self) -> Log {
        Log {
            xli: (self.xli + self.direction) as i32,
            xre: (self.xre + self.direction) as i32,
            ..self
        }
    }

    /// Where a platform spawned behind this one with the given gap and
    /// length would lie: trailing, on the side the lane scrolls away from.
    pub open spec fn candidate_ok(self, n: Log) -> bool {
        &&& n.wf()
        &&& n.in_window()
        &&& n.direction == self.direction
        &&& n.row_width == self.row_width
        &&& n.y == self.y
        &&& 2 <= n.length() <= 3
        &&& self.direction == 1 ==> self.xli - 4 <= n.xre <= self.xli - 3 && 0 <= n.xre
        &&& self.direction == -1 ==> self.xre + 3 <= n.xli <= self.xre + 4 && n.xli
            <= self.row_width
    }

    pub fn new(width: usize, xli: i32, length: i32, direction: i32, y: usize) -> (r: Log)
        requires
            1 <= width <= MAX_DIM,
            y < MAX_DIM,
            direction == 1 || direction == -1,
            0 <= length,
            xli + length <= i32::MAX,
        ensures
            r.row_width == width,
            r.xli == xli,
            r.xre == xli + length,
            r.direction == direction,
            r.y == y,
            r.wf(),
            r.length() == length,
    {
        Log { row_width: width, xli, xre: xli + length, direction, y }
    }

    /// One advance step for this platform alone: if the platform carries
    /// the player (judged on the pre-shift extent), displace the player by
    /// `direction`, clamped into the row, down onto this platform's row,
    /// counting one step; then shift both edges by `direction`.
    pub fn update_log(&mut self, player: &mut Player)
        requires
            old(self).wf(),
            old(self).in_window(),
            old(player).wf(),
            old(self).carries(*old(player)) ==> old(player).steps < u32::MAX,
        ensures
            *final(self) == old(self).shifted(),
            final(self).length() == old(self).length(),
            old(self).carries(*old(player)) ==> {
                &&& final(player).pos.x == clamp_int(
                    old(player).pos.x + old(self).direction,
                    0,
                    old(self).row_width - 1,
                )
                &&& final(player).pos.y == old(self).y
                &&& final(player).steps == old(player).steps + 1
                &&& final(player).state == old(player).state
                &&& final(player).symbol == old(player).symbol
            },
            !old(self).carries(*old(player)) ==> *final(player) == *old(player),
            final(player).wf(),
            final(player).steps <= old(player).steps + 1,
            final(player).steps >= old(player).steps,
    {
        let new_xli = self.xli + self.direction;
        let new_xre = self.xre + self.direction;

        let player_y = player.get_pos().y;
        let player_x = player.get_pos().x;

        if player_y + 1 == self.y {
            if player_x as i32 >= self.xli && player_x as i32 <= self.xre {
                let new_player_x: i32 = player_x as i32 + self.direction;

                let new_player_x_usize: usize = if new_player_x < 0 {
                    0
                } else {
                    new_player_x as usize
                };

                player.move_to(new_player_x_usize, self.y, self.row_width, self.y + 1);
            }
        }

        self.xli = new_xli;
        self.xre = new_xre;
    }

    /// Whether the platform is still on the map in its direction of travel.
    pub fn get_log_on_map(&self) -> (r: bool)
        requires
            self.wf(),
        ensures
            r == self.on_map(),
    {
        if self.direction > 0 {
            self.xli < self.row_width as i32
        } else if self.direction < 0 {
            self.xre > 0
        } else {
            false
        }
    }

    /// The deterministic half of the spawn rule: given the drawn gap
    /// (`distance`) and `length`, place a trailing platform `distance`
    /// columns behind this one, or return `None` exactly when the space
    /// between this platform's trailing edge and the grid boundary on that
    /// side is less than the gap.
    pub fn spawn_candidate(&self, distance: i32, length: i32) -> (r: Option<Log>)
        requires
            self.wf(),
            self.in_window(),
            3 <= distance <= 4,
            2 <= length <= 3,
        ensures
            match r {
                Some(n) => {
                    &&& n.wf()
                    &&& n.in_window()
                    &&& n.direction == self.direction
                    &&& n.row_width == self.row_width
                    &&& n.y == self.y
                    &&& n.length() == length
                    &&& self.direction == 1 ==> n.xre == self.xli - distance && distance
                        <= self.xli
                    &&& self.direction == -1 ==> n.xli == self.xre + distance && distance
                        <= self.row_width - self.xre
                },
                None => {
                    &&& self.direction == 1 ==> self.xli < distance
                    &&& self.direction == -1 ==> self.row_width - self.xre < distance
                },
            },
            self.direction == 1 && distance <= self.xli ==> r is Some,
            self.direction == -1 && distance <= self.row_width - self.xre ==> r is Some,
            r is Some ==> self.candidate_ok(r->Some_0),
    {
        let new_xli: i32;

        if self.direction > 0 {
            if self.xli < distance {
                return None;
            }
            new_xli = self.xli - distance - length;
        } else {
            if self.row_width as i32 - self.xre < distance {
                return None;
            }
            new_xli = self.xre + distance;
        }

        Some(Log::new(self.row_width, new_xli, length, self.direction, self.y))
    }

    /// Draw a gap in `[3, 5)` and a length in `[2, 4)` at random, then
    /// place a trailing platform with them. Returns `None` only when the
    /// remaining space is smaller than the drawn gap, so a spawn is
    /// certain with space for the largest gap and impossible without
    /// space for the smallest.
    pub fn spawn_new_log(&self) -> (r: Option<Log>)
        requires
            self.wf(),
            self.in_window(),
        ensures
            r is Some ==> self.candidate_ok(r->Some_0),
            self.direction == 1 && self.xli >= 4 ==> r is Some,
            self.direction == -1 && self.row_width - self.xre >= 4 ==> r is Some,
            self.direction == 1 && self.xli < 3 ==> r is None,
            self.direction == -1 && self.row_width - self.xre < 3 ==> r is None,
    {
        let distance = rand_in_range(3, 5) as i32;
        let length = rand_in_range(2, 4) as i32;

        self.spawn_candidate(distance, length)
    }
}

/// Every platform in `s`, one advance later.
pub open spec fn shift_seq(s: Seq<Log>) -> Seq<Log> {
    s.map_values(|l: Log| l.shifted())
}

/// The platform list with the leading platform removed when it has left
/// the map; only the front is ever checked.
pub open spec fn retire_front(s: Seq<Log>) -> Seq<Log> {
    if s.len() > 0 && !s[0].on_map() {
        s.drop_first()
    } else {
        s
    }
}

/// Every platform in `s` is well formed, near the grid, and belongs to a
/// lane of the given direction, width and row.
pub open spec fn seq_logs_ok(s: Seq<Log>, dir: int, width: int, y: int) -> bool {
    forall|i: int| #![trigger s[i]] 0 <= i < s.len() ==> {
        &&& s[i].wf()
        &&& s[i].in_window()
        &&& s[i].direction == dir
        &&& s[i].row_width == width
        &&& s[i].y == y
        &&& s[i].length() <= 3
    }
}

/// Platforms never overtake one another: neighbours keep at least the
/// minimum spawn gap, with the leading platform first in the list.
pub open spec fn ordered_seq(s: Seq<Log>, dir: int) -> bool {
    forall|i: int, j: int| #![trigger s[i], s[j]] 0 <= i && j == i + 1 && j < s.len() ==> {
        if dir == 1 {
            s[j].xre + 3 <= s[i].xli
        } else {
            s[i].xre + 3 <= s[j].xli
        }
    }
}

/// Every platform after the first is a spawn candidate of its
/// predecessor: length in `[2, 4)` and a facing-edge gap in `[3, 5)`,
/// placed on the trailing side.
pub open spec fn chained_seq(s: Seq<Log>) -> bool {
    forall|i: int, j: int| #![trigger s[i], s[j]] 0 <= i && j == i + 1 && j < s.len() ==> s[i].candidate_ok(s[j])
}

/// The leading platform has not drifted past the point where it is
/// retired.
pub open spec fn front_ok_seq(s: Seq<Log>, dir: int, width: int) -> bool {
    s.len() > 0 ==> {
        &&& dir == 1 ==> s[0].xli <= width
        &&& dir == -1 ==> s[0].xre >= 0
    }
}

/// `p1` is `p0` carried one column in `dir` (clamped into the row) down
/// onto the lane's row, with one step counted.
pub open spec fn carried_player(p0: Player, p1: Player, dir: int, width: int, lane_y: int) -> bool {
    &&& p1.pos.x == clamp_int(p0.pos.x + dir, 0, width - 1)
    &&& p1.pos.y == lane_y
    &&& p1.steps == p0.steps + 1
    &&& p1.state == p0.state
    &&& p1.symbol == p0.symbol
}

/// Some platform in `s` carries `p`.
pub open spec fn seq_carries(s: Seq<Log>, p: Player) -> bool {
    exists|i: int| 0 <= i < s.len() && (#[trigger] s[i]).carries(p)
}

/// Each platform trails the leading one by at least the spawn gap times
/// its distance in the list.
proof fn lemma_chain_from_front(s: Seq<Log>, dir: int, j: int)
    requires
        dir == 1 || dir == -1,
        ordered_seq(s, dir),
        forall|i: int| #![trigger s[i]] 0 <= i < s.len() ==> s[i].xli <= s[i].xre,
        0 <= j < s.len(),
    ensures
        dir == 1 && 1 <= j ==> s[j].xre <= s[0].xli - 3 * j,
        dir == -1 && 1 <= j ==> s[j].xli >= s[0].xre + 3 * j,
    decreases j,
{
    if j > 1 {
        lemma_chain_from_front(s, dir, j - 1);
    }
}

/// Shifting a lane whose leading platform is still on the map keeps every
/// platform well formed, near the grid, ordered, and the new front within
/// its retirement bound.
proof fn lemma_shift_seq_ok(s: Seq<Log>, dir: int, width: int, y: int)
    requires
        dir == 1 || dir == -1,
        1 <= width <= MAX_DIM,
        seq_logs_ok(s, dir, width, y),
        ordered_seq(s, dir),
        s.len() > 0 ==> s[0].on_map(),
    ensures
        seq_logs_ok(shift_seq(s), dir, width, y),
        ordered_seq(shift_seq(s), dir),
        front_ok_seq(shift_seq(s), dir, width),
{
    assert forall|i: int| #![trigger shift_seq(s)[i]] 0 <= i < shift_seq(s).len() implies {
        &&& shift_seq(s)[i].wf()
        &&& shift_seq(s)[i].in_window()
        &&& shift_seq(s)[i].direction == dir
        &&& shift_seq(s)[i].row_width == width
        &&& shift_seq(s)[i].y == y
        &&& shift_seq(s)[i].length() <= 3
    } by {
        lemma_chain_from_front(s, dir, i);
        assert(shift_seq(s)[i] == s[i].shifted());
    }
    assert forall|i: int, j: int| #![trigger shift_seq(s)[i], shift_seq(s)[j]]
        0 <= i && j == i + 1 && j < shift_seq(s).len() implies {
        if dir == 1 {
            shift_seq(s)[j].xre + 3 <= shift_seq(s)[i].xli
        } else {
            shift_seq(s)[i].xre + 3 <= shift_seq(s)[j].xli
        }
    } by {
        assert(shift_seq(s)[i] == s[i].shifted());
        assert(shift_seq(s)[j] == s[j].shifted());
    }
    assert(ordered_seq(shift_seq(s), dir));
}

/// Appending a spawn candidate of the last platform keeps the lane's
/// invariants: the newcomer trails by at least the minimum gap.
proof fn lemma_push_ok(s: Seq<Log>, n: Log, dir: int, width: int, y: int)
    requires
        dir == 1 || dir == -1,
        seq_logs_ok(s, dir, width, y),
        ordered_seq(s, dir),
        front_ok_seq(s, dir, width),
        s.len() > 0,
        s.last().candidate_ok(n),
    ensures
        seq_logs_ok(s.push(n), dir, width, y),
        ordered_seq(s.push(n), dir),
        front_ok_seq(s.push(n), dir, width),
{
    let t = s.push(n);
    assert forall|i: int| #![trigger t[i]] 0 <= i < t.len() implies {
        &&& t[i].wf()
        &&& t[i].in_window()
        &&& t[i].direction == dir
        &&& t[i].row_width == width
        &&& t[i].y == y
        &&& t[i].length() <= 3
    } by {
        if i < s.len() {
            assert(t[i] == s[i]);
        } else {
            assert(t[i] == n);
        }
    }
    assert forall|i: int, j: int| #![trigger t[i], t[j]] 0 <= i && j == i + 1 && j
        < t.len() implies {
        if dir == 1 {
            t[j].xre + 3 <= t[i].xli
        } else {
            t[i].xre + 3 <= t[j].xli
        }
    } by {
        if i < s.len() - 1 {
            assert(t[i] == s[i]);
            assert(t[j] == s[j]);
        } else {
            assert(t[i] == s[s.len() - 1]);
            assert(t[j] == n);
        }
    }
}

/// The retirement check keeps the lane's invariants and leaves the new
/// leading platform on the map (when any platform is left at all).
proof fn lemma_retire_ok(s: Seq<Log>, dir: int, width: int, y: int)
    requires
        dir == 1 || dir == -1,
        1 <= width <= MAX_DIM,
        seq_logs_ok(s, dir, width, y),
        ordered_seq(s, dir),
        front_ok_seq(s, dir, width),
    ensures
        seq_logs_ok(retire_front(s), dir, width, y),
        ordered_seq(retire_front(s), dir),
        front_ok_seq(retire_front(s), dir, width),
        retire_front(s).len() > 0 ==> retire_front(s)[0].on_map(),
{
    let t = retire_front(s);
    if s.len() > 0 && !s[0].on_map() {
        assert forall|i: int| #![trigger t[i]] 0 <= i < t.len() implies {
            &&& t[i].wf()
            &&& t[i].in_window()
            &&& t[i].direction == dir
            &&& t[i].row_width == width
            &&& t[i].y == y
            &&& t[i].length() <= 3
        } by {
            assert(t[i] == s[i + 1]);
        }
        assert forall|i: int, j: int| #![trigger t[i], t[j]] 0 <= i && j == i + 1 && j
            < t.len() implies {
            if dir == 1 {
                t[j].xre + 3 <= t[i].xli
            } else {
                t[i].xre + 3 <= t[j].xli
            }
        } by {
            assert(t[i] == s[i + 1]);
            assert(t[j] == s[j + 1]);
        }
        if t.len() > 0 {
            assert(t[0] == s[1]);
            assert(s[1].xli <= s[1].xre);
        }
    }
}

/// The per-water-row container and timeline of moving platforms: spawns
/// trailing platforms as space permits, retires the leading one once it
/// has left the map, and shifts the rest each advance, carrying a player
/// standing on one of them.
pub struct LogHandler {
    pub width: usize,
    pub logs: Vec<Log>,
    pub direction: i32,
    pub y: usize,
}

impl LogHandler {
    pub open spec fn wf(self) -> bool {
        &&& self.direction == 1 || self.direction == -1
        &&& 1 <= self.width <= MAX_DIM
        &&& self.y < MAX_DIM
        &&& seq_logs_ok(self.logs@, self.direction as int, self.width as int, self.y as int)
        &&& ordered_seq(self.logs@, self.direction as int)
        &&& front_ok_seq(self.logs@, self.direction as int, self.width as int)
    }

    /// Column `j` of the grid is covered by some platform of this lane.
    pub open spec fn covers(self, j: int) -> bool {
        seq_covers(self.logs@, j)
    }

    /// The last platform leaves enough trailing space for the largest gap
    /// the spawn rule can draw: a spawn is certain on the next advance.
    pub open spec fn spawn_certain(self) -> bool {
        self.logs@.len() > 0 && {
            let last = self.logs@.last();
            if self.direction == 1 {
                last.xli >= 4
            } else {
                self.width - last.xre >= 4
            }
        }
    }

    /// The trailing space is below the smallest gap the spawn rule can
    /// draw (or there is no platform to spawn from): no spawn can happen.
    pub open spec fn spawn_impossible(self) -> bool {
        self.logs@.len() == 0 || {
            let last = self.logs@.last();
            if self.direction == 1 {
                last.xli < 3
            } else {
                self.width - last.xre < 3
            }
        }
    }

    /// One advance of this lane, related to the state `pre` before it:
    /// `mid` is `pre`'s platform list after the spawn attempt (from the
    /// last platform) and the retirement check (of the first), and the
    /// final list is `mid` with every platform shifted.
    pub open spec fn advanced_from(self, pre: LogHandler, mid: Seq<Log>) -> bool {
        &&& self.width == pre.width
        &&& self.direction == pre.direction
        &&& self.y == pre.y
        &&& (mid == retire_front(pre.logs@) || (pre.logs@.len() > 0 && exists|n: Log|
            (#[trigger] pre.logs@.last().candidate_ok(n)) && mid == retire_front(
                pre.logs@.push(n),
            )))
        &&& self.logs@ == shift_seq(mid)
    }

    /// Build a lane: seed one platform at the left edge with a random
    /// length in `[2, 4)`, then repeatedly spawn trailing platforms from
    /// the most recently added one until space runs out.
    pub fn new(width: usize, direction: i32, y: usize) -> (r: LogHandler)
        requires
            1 <= width <= MAX_DIM,
            direction == 1 || direction == -1,
            y < MAX_DIM,
        ensures
            r.wf(),
            r.width == width,
            r.direction == direction,
            r.y == y,
            r.logs@.len() >= 1,
            r.logs@[0].xli == 0,
            2 <= r.logs@[0].length() <= 3,
            chained_seq(r.logs@),
            direction == 1 ==> r.logs@.len() == 1,
            direction == -1 && width >= 7 ==> r.logs@.len() >= 2,
            direction == -1 ==> width - r.logs@.last().xre < 4,
    {
        let length = rand_in_range(2, 4) as i32;

        let log = Log::new(width, 0, length, direction, y);
        let mut vector: Vec<Log> = Vec::new();
        vector.push(log);

        loop
            invariant
                vector@.len() >= 1,
                vector@[0].xli == 0,
                2 <= vector@[0].length() <= 3,
                seq_logs_ok(vector@, direction as int, width as int, y as int),
                ordered_seq(vector@, direction as int),
                front_ok_seq(vector@, direction as int, width as int),
                chained_seq(vector@),
                1 <= width <= MAX_DIM,
                direction == 1 || direction == -1,
                y < MAX_DIM,
                direction == 1 ==> vector@.len() == 1,
                direction == -1 && width >= 7 ==> vector@.len() >= 2 || (vector@.len() == 1
                    && width - vector@[0].xre >= 4),
            ensures
                direction == -1 && width >= 7 ==> vector@.len() >= 2,
                direction == -1 ==> width - vector@.last().xre < 4,
            decreases (if direction == 1 {
                vector@.last().xli + 4
            } else {
                width + 4 - vector@.last().xre
            }),
        {
            let last = vector[vector.len() - 1];
            let new_log = last.spawn_new_log();

            match new_log {
                Some(n) => {
                    let ghost oldv = vector@;
                    vector.push(n);
                    proof {
                        assert forall|i: int, j: int| #![trigger vector@[i], vector@[j]]
                            0 <= i && j == i + 1 && j
                            < vector@.len() implies vector@[i].candidate_ok(vector@[j]) by {
                            if j < oldv.len() {
                                assert(vector@[i] == oldv[i]);
                                assert(vector@[j] == oldv[j]);
                            } else {
                                assert(vector@[i] == last);
                                assert(vector@[j] == n);
                            }
                        }
                    }
                },
                None => {
                    proof {
                        assert(last == vector@[vector@.len() - 1]);
                        assert(last.row_width == width);
                        if direction == -1 && width >= 7 && vector@.len() < 2 {
                            assert(last == vector@[0]);
                            assert(width - last.xre >= 4);
                            assert(new_log is Some);
                        }
                        if direction == -1 {
                            assert(width - last.xre < 4);
                        }
                    }
                    break;
                },
            }
        }

        LogHandler { width, logs: vector, direction, y }
    }

    /// One advance of the lane: attempt to spawn a trailing platform from
    /// the current last one; retire the leading platform if it has left
    /// the map; then shift every platform, carrying the player along if
    /// one carries it (judged on the pre-shift extents).
    #[verifier::rlimit(100)]
    pub fn update_logs(&mut self, player: &mut Player)
        requires
            old(self).wf(),
            old(player).wf(),
            old(player).steps < u32::MAX,
        ensures
            final(self).wf(),
            final(self).width == old(self).width,
            final(self).direction == old(self).direction,
            final(self).y == old(self).y,
            final(player).wf(),
            final(player).state == old(player).state,
            final(player).symbol == old(player).symbol,
            old(player).steps <= final(player).steps <= old(player).steps + 1,
            exists|mid: Seq<Log>|
                {
                    &&& #[trigger] final(self).advanced_from(*old(self), mid)
                    &&& seq_carries(mid, *old(player)) ==> carried_player(
                        *old(player),
                        *final(player),
                        old(self).direction as int,
                        old(self).width as int,
                        old(self).y as int,
                    )
                    &&& !seq_carries(mid, *old(player)) ==> *final(player) == *old(player)
                },
            old(self).spawn_certain() ==> exists|n: Log|
                (#[trigger] old(self).logs@.last().candidate_ok(n)) && final(self).logs@
                    == shift_seq(retire_front(old(self).logs@.push(n))),
            old(self).spawn_certain() ==> final(self).logs@.len() >= old(self).logs@.len(),
            old(self).spawn_impossible() ==> final(self).logs@ == shift_seq(
                retire_front(old(self).logs@),
            ),
            old(self).logs@.len() >= 1 && old(self).width >= 4 ==> final(self).logs@.len() >= 1,
    {
        let ghost pre = *old(self);
        let ghost dir = pre.direction as int;
        let ghost w = pre.width as int;
        let ghost laney = pre.y as int;

        // Spawn a trailing platform from the current last one, if any.
        if self.logs.len() > 0 {
            let last = self.logs[self.logs.len() - 1];
            let new_log = last.spawn_new_log();
            if let Some(n) = new_log {
                self.logs.push(n);
                proof {
                    assert(pre.logs@.last() == last);
                    assert(pre.logs@.last().candidate_ok(n));
                    assert(self.logs@ == pre.logs@.push(n));
                    lemma_push_ok(pre.logs@, n, dir, w, laney);
                }
            }
        }
        let ghost grown = self.logs@;

        proof {
            if pre.logs@.len() > 0 {
                let lastg = pre.logs@[pre.logs@.len() - 1];
                assert(lastg == pre.logs@.last());
                assert(lastg.row_width == pre.width && lastg.direction == pre.direction);
            }
            if pre.spawn_certain() {
                assert(grown.len() == pre.logs@.len() + 1);
            }
            if pre.spawn_impossible() {
                assert(grown == pre.logs@);
            }
            assert(seq_logs_ok(grown, dir, w, laney));
            assert(ordered_seq(grown, dir));
            assert(front_ok_seq(grown, dir, w));
            lemma_retire_ok(grown, dir, w, laney);
        }

        // Retire the leading platform once it has left the map.
        if self.logs.len() > 0 {
            let front = self.logs[0];
            if !front.get_log_on_map() {
                self.logs.remove(0);
                proof {
                    assert(self.logs@ =~= grown.drop_first());
                }
            }
        }
        let ghost mid = self.logs@;

        proof {
            assert(mid == retire_front(grown));
            assert(seq_logs_ok(mid, dir, w, laney));
            assert(ordered_seq(mid, dir));
            assert(mid.len() > 0 ==> mid[0].on_map());
        }

        // Shift every platform, displacing a carried player first.
        self.shift_all(player);

        proof {
            if grown != pre.logs@ {
                let cand = choose|c: Log|
                    (#[trigger] pre.logs@.last().candidate_ok(c)) && grown == pre.logs@.push(c);
                assert(pre.logs@.last().candidate_ok(cand) && mid == retire_front(
                    pre.logs@.push(cand),
                ));
            }
            assert(mid == retire_front(pre.logs@) || (pre.logs@.len() > 0 && exists|c: Log|
                (#[trigger] pre.logs@.last().candidate_ok(c)) && mid == retire_front(
                    pre.logs@.push(c),
                )));
            assert(self.logs@ == shift_seq(mid));
            assert(self.advanced_from(pre, mid));
            lemma_shift_seq_ok(mid, dir, w, laney);
            if pre.spawn_certain() {
                let cand = choose|c: Log|
                    (#[trigger] pre.logs@.last().candidate_ok(c)) && grown == pre.logs@.push(c);
                assert(pre.logs@.last().candidate_ok(cand) && self.logs@ == shift_seq(
                    retire_front(pre.logs@.push(cand)),
                ));
                assert(mid.len() >= grown.len() - 1);
                assert(self.logs@.len() >= pre.logs@.len());
            }
            if pre.spawn_impossible() {
                assert(self.logs@ == shift_seq(retire_front(pre.logs@)));
            }
            if pre.logs@.len() >= 1 && pre.width >= 4 {
                if grown.len() >= 2 {
                    assert(mid.len() >= grown.len() - 1);
                } else {
                    assert(grown == pre.logs@);
                    assert(grown[0] == grown[grown.len() - 1]);
                    if !grown[0].on_map() {
                        assert(pre.spawn_certain());
                        assert(false);
                    }
                    assert(mid == grown);
                }
                assert(self.logs@.len() >= 1);
            }
        }
    }

    /// Shift every platform by the lane's direction, first displacing the
    /// player if some platform carries it; the carry decision uses the
    /// pre-shift extents.
    #[verifier::rlimit(100)]
    fn shift_all(&mut self, player: &mut Player)
        requires
            old(self).direction == 1 || old(self).direction == -1,
            1 <= old(self).width <= MAX_DIM,
            old(self).y < MAX_DIM,
            seq_logs_ok(
                old(self).logs@,
                old(self).direction as int,
                old(self).width as int,
                old(self).y as int,
            ),
            old(player).wf(),
            old(player).steps < u32::MAX,
        ensures
            final(self).width == old(self).width,
            final(self).direction == old(self).direction,
            final(self).y == old(self).y,
            final(self).logs@ == shift_seq(old(self).logs@),
            final(player).wf(),
            final(player).state == old(player).state,
            final(player).symbol == old(player).symbol,
            old(player).steps <= final(player).steps <= old(player).steps + 1,
            seq_carries(old(self).logs@, *old(player)) ==> carried_player(
                *old(player),
                *final(player),
                old(self).direction as int,
                old(self).width as int,
                old(self).y as int,
            ),
            !seq_carries(old(self).logs@, *old(player)) ==> *final(player) == *old(player),
    {
        let ghost pre = *old(self);
        let ghost mid = pre.logs@;
        let ghost dir = pre.direction as int;
        let ghost w = pre.width as int;
        let ghost laney = pre.y as int;

        let n = self.logs.len();
        let mut k: usize = 0;

        while k < n
            invariant
                k <= n,
                n == mid.len(),
                dir == pre.direction as int,
                w == pre.width as int,
                laney == pre.y as int,
                pre.direction == 1 || pre.direction == -1,
                1 <= pre.width <= MAX_DIM,
                pre.y < MAX_DIM,
                seq_logs_ok(mid, dir, w, laney),
                self.width == pre.width,
                self.direction == pre.direction,
                self.y == pre.y,
                self.logs@.len() == n,
                forall|i: int| k <= i < n ==> self.logs@[i] == mid[i],
                forall|i: int| 0 <= i < k ==> self.logs@[i] == (#[trigger] mid[i]).shifted(),
                old(player).wf(),
                old(player).steps < u32::MAX,
                player.wf(),
                player.state == old(player).state,
                player.symbol == old(player).symbol,
                (*player == *old(player) && forall|i: int|
                    0 <= i < k ==> !(#[trigger] mid[i]).carries(*old(player))) || (carried_player(
                    *old(player),
                    *player,
                    pre.direction as int,
                    pre.width as int,
                    pre.y as int,
                ) && exists|i: int| 0 <= i < k && (#[trigger] mid[i]).carries(*old(player))),
            decreases n - k,
        {
            let ghost p_before = *player;
            let mut l = self.logs[k];
            proof {
                assert(self.logs@[k as int] == mid[k as int]);
                assert(mid[k as int].wf());
                assert(mid[k as int].in_window());
            }
            let ghost lk = l;
            l.update_log(player);
            self.logs.set(k, l);
            proof {
                if p_before == *old(player) {
                    if lk.carries(p_before) {
                        assert(carried_player(*old(player), *player, dir, w, laney));
                        assert(0 <= k < mid.len() && mid[k as int].carries(*old(player)));
                        assert(exists|i: int|
                            0 <= i < k + 1 && (#[trigger] mid[i]).carries(*old(player)));
                    } else {
                        assert(*player == *old(player));
                        assert forall|i: int| 0 <= i < k + 1 implies !(#[trigger] mid[i]).carries(
                            *old(player),
                        ) by {}
                    }
                } else {
                    assert(carried_player(*old(player), p_before, dir, w, laney));
                    assert(!lk.carries(p_before));
                    assert(*player == p_before);
                }
            }
            k = k + 1;
        }

        proof {
            assert(self.logs@ =~= shift_seq(mid));
            if seq_carries(mid, *old(player)) {
                let i = choose|i: int| 0 <= i < mid.len() && (#[trigger] mid[i]).carries(
                    *old(player),
                );
                assert(!(*player == *old(player) && forall|j: int|
                    0 <= j < n ==> !(#[trigger] mid[j]).carries(*old(player))));
            }
        }
    }
}

/// Law: a platform's length is invariant for its lifetime. It is fixed at
/// creation, and an advance shifts both edges together, so the span never
/// stretches or shrinks.
pub proof fn lemma_advance_preserves_length(l: Log)
    requires
        l.wf(),
        l.in_window(),
    ensures
        l.shifted().length() == l.length(),
{
}

/// Law: carry correctness, the carried half. For any rightward lane
/// holding a platform that spans columns `[2, 4]` before the advance, a
/// player standing at `(3, lane row - 1)` is carried to `(4, lane row)`
/// with exactly one step counted — whatever the advance's random spawn
/// drew. `mid` and the two player clauses are what the advance's own
/// contract provides.
pub proof fn lemma_carry_on_platform(
    h0: LogHandler,
    h1: LogHandler,
    mid: Seq<Log>,
    p0: Player,
    p1: Player,
)
    requires
        h0.wf(),
        h0.direction == 1,
        h0.width >= 5,
        exists|i: int|
            0 <= i < h0.logs@.len() && (#[trigger] h0.logs@[i]).xli == 2 && h0.logs@[i].xre == 4,
        p0.pos.x == 3,
        p0.pos.y + 1 == h0.y,
        h1.advanced_from(h0, mid),
        seq_carries(mid, p0) ==> carried_player(
            p0,
            p1,
            h0.direction as int,
            h0.width as int,
            h0.y as int,
        ),
    ensures
        p1.pos.x == 4,
        p1.pos.y == h0.y,
        p1.steps == p0.steps + 1,
{
    let i = choose|i: int|
        0 <= i < h0.logs@.len() && (#[trigger] h0.logs@[i]).xli == 2 && h0.logs@[i].xre == 4;
    let l = h0.logs@[i];
    assert(l.y == h0.y);
    assert(l.carries(p0));
    assert(l.on_map());

    if mid == retire_front(h0.logs@) {
        let s = h0.logs@;
        if s.len() > 0 && !s[0].on_map() {
            assert(i != 0);
            assert(mid[i - 1] == s[i]);
            assert(mid[i - 1].carries(p0));
        } else {
            assert(mid[i].carries(p0));
        }
    } else {
        let n = choose|n: Log|
            (#[trigger] h0.logs@.last().candidate_ok(n)) && mid == retire_front(h0.logs@.push(n));
        let grown = h0.logs@.push(n);
        assert(grown[i] == l);
        assert(grown[0] == h0.logs@[0]);
        if grown.len() > 0 && !grown[0].on_map() {
            assert(i != 0);
            assert(mid[i - 1] == grown[i]);
            assert(mid[i - 1].carries(p0));
        } else {
            assert(mid[i].carries(p0));
        }
    }
    assert(seq_carries(mid, p0));
}

/// Law: carry correctness, the untouched half. For a rightward lane
/// holding exactly one platform spanning `[2, 4]`, a player at
/// `(6, lane row - 1)` — outside the platform's inclusive pre-advance
/// span — is left exactly where it was, steps included: with that sole
/// platform too close to the boundary, no same-tick spawn can reach
/// column 6 either.
pub proof fn lemma_no_carry_off_platform(
    h0: LogHandler,
    h1: LogHandler,
    mid: Seq<Log>,
    p0: Player,
    p1: Player,
)
    requires
        h0.wf(),
        h0.direction == 1,
        h0.width >= 7,
        h0.logs@.len() == 1,
        h0.logs@[0].xli == 2,
        h0.logs@[0].xre == 4,
        p0.pos.x == 6,
        p0.pos.y + 1 == h0.y,
        h1.advanced_from(h0, mid),
        !seq_carries(mid, p0) ==> p1 == p0,
    ensures
        p1 == p0,
{
    if mid != retire_front(h0.logs@) {
        let n = choose|n: Log|
            (#[trigger] h0.logs@.last().candidate_ok(n)) && mid == retire_front(h0.logs@.push(n));
        assert(h0.logs@.last() == h0.logs@[0]);
        assert(false);
    }
    assert(h0.logs@[0].on_map());
    assert(mid == h0.logs@);
    if seq_carries(mid, p0) {
        let k = choose|k: int| 0 <= k < mid.len() && (#[trigger] mid[k]).carries(p0);
        assert(mid[k] == h0.logs@[0]);
        assert(false);
    }
}

/// Law: a leftward platform whose right edge has fallen to zero is no
/// longer on the map, so the retirement check removes it from the front
/// of its lane.
pub proof fn lemma_leftward_retirement(s: Seq<Log>)
    requires
        s.len() > 0,
        s[0].direction == -1,
        s[0].xre <= 0,
    ensures
        retire_front(s) == s.drop_first(),
{
}

/// Column `j` is covered by some platform in `s`.
pub open spec fn seq_covers(s: Seq<Log>, j: int) -> bool {
    exists|i: int| 0 <= i < s.len() && (#[trigger] s[i]).covers(j)
}

/// Column `j` is covered by one of the first `k` platforms in `s`.
pub open spec fn prefix_covers(s: Seq<Log>, k: int, j: int) -> bool {
    exists|i: int| 0 <= i < k && (#[trigger] s[i]).covers(j)
}

/// Write the platform symbol into every overlay slot within `[xli, xre)`,
/// clipped to the overlay's extent; other slots keep their entry.
fn mark_span(overlay: &mut Vec<Option<TerrainSymbols>>, xli: i32, xre: i32, width: usize)
    requires
        old(overlay)@.len() == width,
        width <= MAX_DIM,
        -4 <= xli as int,
        xli <= xre,
        xre as int <= width + 4,
    ensures
        final(overlay)@.len() == width,
        forall|j: int|
            0 <= j < width ==> final(overlay)@[j] == (if xli <= j < xre {
                Some(TerrainSymbols::Board)
            } else {
                old(overlay)@[j]
            }),
{
    let mut x: i32 = xli;

    while x < xre
        invariant
            overlay@.len() == width,
            width <= MAX_DIM,
            -4 <= xli as int,
            xli <= x <= xre,
            xre as int <= width + 4,
            forall|j: int|
                0 <= j < width ==> overlay@[j] == (if xli <= j < x {
                    Some(TerrainSymbols::Board)
                } else {
                    old(overlay)@[j]
                }),
        decreases xre - x,
    {
        if x >= 0 && x < width as i32 {
            overlay.set(x as usize, Some(TerrainSymbols::Board));
        }
        x = x + 1;
    }
}

impl LogHandler {
    /// Composite this lane's platforms into a row overlay: every grid
    /// column covered by a platform's `[xli, xre)` span is marked with the
    /// platform symbol; the rest keep their entries.
    pub fn get_logs_in_overlay(&self, overlay: &mut Vec<Option<TerrainSymbols>>)
        requires
            self.wf(),
            old(overlay)@.len() == self.width,
        ensures
            final(overlay)@.len() == old(overlay)@.len(),
            forall|j: int|
                0 <= j < old(overlay)@.len() ==> final(overlay)@[j] == (if self.covers(j) {
                    Some(TerrainSymbols::Board)
                } else {
                    old(overlay)@[j]
                }),
    {
        let ghost logs = self.logs@;
        let n = self.logs.len();
        let mut li: usize = 0;

        while li < n
            invariant
                li <= n,
                n == logs.len(),
                logs == self.logs@,
                self.wf(),
                overlay@.len() == self.width,
                forall|j: int|
                    0 <= j < self.width ==> overlay@[j] == (if prefix_covers(logs, li as int, j) {
                        Some(TerrainSymbols::Board)
                    } else {
                        old(overlay)@[j]
                    }),
            decreases n - li,
        {
            let l = self.logs[li];
            let ghost snap = overlay@;

            mark_span(overlay, l.xli, l.xre, self.width);

            proof {
                assert forall|j: int| 0 <= j < self.width implies overlay@[j] == (if prefix_covers(
                    logs,
                    li + 1,
                    j,
                ) {
                    Some(TerrainSymbols::Board)
                } else {
                    old(overlay)@[j]
                }) by {
                    if l.covers(j) {
                        assert(logs[li as int].covers(j));
                        assert(prefix_covers(logs, li + 1, j));
                    } else {
                        if prefix_covers(logs, li + 1, j) {
                            let i = choose|i: int| 0 <= i < li + 1 && (#[trigger] logs[i]).covers(
                                j,
                            );
                            assert(prefix_covers(logs, li as int, j));
                        }
                    }
                }
            }
            li = li + 1;
        }

        proof {
            assert forall|j: int| 0 <= j < self.width implies (prefix_covers(logs, n as int, j)
                == self.covers(j)) by {
                if prefix_covers(logs, n as int, j) {
                    let i = choose|i: int| 0 <= i < n && (#[trigger] logs[i]).covers(j);
                    assert(seq_covers(logs, j));
                }
                if seq_covers(logs, j) {
                    let i = choose|i: int| 0 <= i < logs.len() && (#[trigger] logs[i]).covers(j);
                    assert(prefix_covers(logs, n as int, j));
                }
            }
        }
    }
}

} // verus!
