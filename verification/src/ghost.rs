//! The ghosts: how a ghost walks the maze and picks a new direction.
//!
//! Directions are numbered 0 up (w), 1 left (a), 2 down (s), 3 right (d).
//! Columns are twice as dense as rows, so a horizontal step moves one column
//! but looks two columns ahead.

use vstd::prelude::*;
use rand::Rng;
use crate::grid::{free_cell, listed, rows};

verus! {

/// A ghost: its cell `[x, y]`, the direction it walks in, and two flags that
/// the rules carry along unchanged.
#[derive(Clone, Copy)]
pub struct Monster {
    pub position: [u8; 2],
    pub direction: u8,
    pub mortal: bool,
    pub active: bool,
}

/// Draws a number from `x..y` with `rand`'s thread-local generator
/// (`rand::thread_rng().gen_range(x..y)`). Claimed: the draw lies in the
/// range, as `gen_range` documents; it panics on an empty range, hence the
/// `requires`. Nothing is claimed of which number comes out.
#[verifier::external_body]
fn random(x: u8, y: u8) -> (r: u8)
    requires
        x < y,
    ensures
        x <= r < y,
{
    let mut rng = rand::thread_rng();
    rng.gen_range(x..y)
}

/// Whether the cell that a ghost at `(x, y)` looks at before stepping in
/// direction `d` (0..4) is free.
pub open spec fn ahead_free(obs: Seq<Seq<u8>>, x: u8, y: u8, d: u8) -> bool {
    if d == 0 {
        !listed(obs, x, (y - 1) as u8)
    } else if d == 1 {
        !listed(obs, (x - 2) as u8, y)
    } else if d == 2 {
        !listed(obs, x, (y + 1) as u8)
    } else {
        !listed(obs, (x + 2) as u8, y)
    }
}

/// The inputs on which a ghost step stays inside the grid and the `u8`
/// range: every row it reads exists and no coordinate under- or overflows.
pub open spec fn ghost_can_move(g: Monster, obs: Seq<Seq<u8>>) -> bool {
    let x = g.position[0];
    let y = g.position[1];
    let n = obs.len();
    if g.direction == 0 {
        &&& 1 <= y && y - 1 < n
        &&& !ahead_free(obs, x, y, 0) ==> y < n
        &&& 1 <= x <= 254
    } else if g.direction == 1 {
        &&& 2 <= x && 1 <= y < 255 && y + 1 < n
    } else if g.direction == 2 {
        &&& y < 255 && y + 1 < n
        &&& 1 <= x <= 254
    } else if g.direction == 3 {
        &&& x <= 253 && 1 <= y < 255 && y + 1 < n
    } else {
        true
    }
}

/// The ghost after one step on the grid `obs`, with `r` the draw that decides
/// a turn into a side corridor and `nd` the direction taken when the way
/// ahead is blocked.
pub open spec fn ghost_after(g: Monster, obs: Seq<Seq<u8>>, r: u8, nd: u8) -> Monster {
    let x = g.position[0];
    let y = g.position[1];
    let d = g.direction;
    if d < 4 {
        let free = ahead_free(obs, x, y, d);
        let d1 = if free { d } else { nd };
        if d == 0 || d == 2 {
            let y1: u8 = if !free { y } else if d == 0 { (y - 1) as u8 } else { (y + 1) as u8 };
            let d2 = if !listed(obs, (x + 1) as u8, y1) && r == 0 { 3u8 } else { d1 };
            let d3 = if !listed(obs, (x - 1) as u8, y1) && r == 1 { 1u8 } else { d2 };
            Monster { position: [x, y1], direction: d3, ..g }
        } else {
            let x1: u8 = if !free { x } else if d == 1 { (x - 1) as u8 } else { (x + 1) as u8 };
            let d2 = if !listed(obs, x1, (y + 1) as u8) && r == 0 && x1 % 2 == 0 { 2u8 } else { d1 };
            let d3 = if !listed(obs, x1, (y - 1) as u8) && r == 1 && x1 % 2 == 0 { 0u8 } else { d2 };
            Monster { position: [x1, y], direction: d3, ..g }
        }
    } else {
        g
    }
}

/// `b` is a possible outcome of a random step of `a`: some draw `r` in
/// `0..3` and some new direction `nd`, other than the old one, give it.
pub open spec fn ghost_moved(a: Monster, b: Monster, obs: Seq<Seq<u8>>) -> bool {
    exists|r: u8, nd: u8|
        r < 3 && nd < 4 && nd != a.direction && b == #[trigger] ghost_after(a, obs, r, nd)
}

/// A ghost at home: cell `[21, 11]`, walking up, neither mortal nor active.
pub open spec fn ghost_home() -> Monster {
    Monster { position: [21, 11], direction: 0, mortal: false, active: false }
}

/// The `draw`-th direction other than `current`, counting up from 0.
pub open spec fn nth_other(current: u8, draw: u8) -> u8 {
    if draw < current { draw } else { (draw + 1) as u8 }
}

/// The `draw`-th direction other than `current`, counting up from 0.
pub fn other_direction(current: u8, draw: u8) -> (d: u8)
    requires
        current < 4,
        draw < 3,
    ensures
        d < 4,
        d != current,
        d == nth_other(current, draw),
{
    if draw < current {
        draw
    } else {
        draw + 1
    }
}

/// A uniform draw from `0..3` picks each direction other than `current`
/// exactly once: every other direction is the `nth_other` of one draw, and
/// distinct draws give distinct directions.
pub proof fn law_other_direction_is_uniform(current: u8, d: u8)
    requires
        current < 4,
        d < 4,
        d != current,
    ensures
        exists|draw: u8| draw < 3 && #[trigger] nth_other(current, draw) == d,
        forall|a: u8, b: u8|
            a < 3 && b < 3 && #[trigger] nth_other(current, a) == #[trigger] nth_other(current, b) ==> a == b,
{
    let draw: u8 = if d < current { d } else { (d - 1) as u8 };
    assert(nth_other(current, draw) == d);
}

/// A ghost step moves the ghost at most one cell, only along its walking
/// direction: a vertical move only onto a cell free of walls, a horizontal
/// one only when the cell two columns ahead is free. Its flags never change,
/// and it keeps walking in one of the four directions when it did and the
/// replacement direction is one of them.
pub proof fn law_ghost_step_is_local(g: Monster, obs: Seq<Seq<u8>>, r: u8, nd: u8)
    requires
        g.direction < 4,
        ghost_can_move(g, obs),
    ensures
        ({
            let h = ghost_after(g, obs, r, nd);
            let x = g.position[0];
            let y = g.position[1];
            &&& h.mortal == g.mortal && h.active == g.active
            &&& nd < 4 ==> h.direction < 4
            &&& g.direction == 0 ==> h.position[0] == x && (h.position[1] == y || (h.position[1]
                == y - 1 && !listed(obs, x, h.position[1])))
            &&& g.direction == 2 ==> h.position[0] == x && (h.position[1] == y || (h.position[1]
                == y + 1 && !listed(obs, x, h.position[1])))
            &&& g.direction == 1 ==> h.position[1] == y && (h.position[0] == x || (h.position[0]
                == x - 1 && !listed(obs, (x - 2) as u8, y)))
            &&& g.direction == 3 ==> h.position[1] == y && (h.position[0] == x || (h.position[0]
                == x + 1 && !listed(obs, (x + 2) as u8, y)))
        }),
{
}

/// A ghost whose way ahead is blocked stays on its cell, and, when the draw
/// asks for no side turn, walks on in the replacement direction.
pub proof fn law_blocked_ghost_turns(g: Monster, obs: Seq<Seq<u8>>, nd: u8)
    requires
        g.direction < 4,
        ghost_can_move(g, obs),
        !ahead_free(obs, g.position[0], g.position[1], g.direction),
    ensures
        ghost_after(g, obs, 2, nd) == (Monster { direction: nd, ..g }),
{
    let h = ghost_after(g, obs, 2, nd);
    assert(h.position =~= g.position);
}

/// Where a ghost step takes the ghost and where it then walks, cell by
/// cell. It steps one cell ahead when that way is free (for a horizontal
/// walker: when the cell two columns ahead is free), else it stays and takes
/// `nd`. Then, on draw 0, it turns right (vertical walker) or down
/// (horizontal walker) when that side cell is free, and on draw 1 left or up;
/// a horizontal walker, going left or right alike, turns only on an even
/// column. On draw 2 it never turns.
pub proof fn law_ghost_step_by_cells(g: Monster, obs: Seq<Seq<u8>>, r: u8, nd: u8)
    requires
        g.direction < 4,
        ghost_can_move(g, obs),
    ensures
        ({
            let h = ghost_after(g, obs, r, nd);
            let x = g.position[0];
            let y = g.position[1];
            let d = g.direction;
            &&& h.mortal == g.mortal && h.active == g.active
            &&& (d == 1 || d == 3) ==> {
                let free = if d == 1 {
                    !obs[y as int].contains((x - 2) as u8)
                } else {
                    !obs[y as int].contains((x + 2) as u8)
                };
                let x1: int = if !free { x as int } else if d == 1 { x - 1 } else { x + 1 };
                let walk: u8 = if free { d } else { nd };
                &&& h.position[0] == x1 && h.position[1] == y
                &&& h.direction == if x1 % 2 == 0 && r == 1 && !obs[y - 1].contains(x1 as u8) {
                    0u8
                } else if x1 % 2 == 0 && r == 0 && !obs[y + 1].contains(x1 as u8) {
                    2u8
                } else {
                    walk
                }
            }
            &&& (d == 0 || d == 2) ==> {
                let free = if d == 0 { !obs[y - 1].contains(x) } else { !obs[y + 1].contains(x) };
                let y1: int = if !free { y as int } else if d == 0 { y - 1 } else { y + 1 };
                let walk: u8 = if free { d } else { nd };
                &&& h.position[0] == x && h.position[1] == y1
                &&& h.direction == if r == 1 && !obs[y1].contains((x - 1) as u8) {
                    1u8
                } else if r == 0 && !obs[y1].contains((x + 1) as u8) {
                    3u8
                } else {
                    walk
                }
            }
        }),
{
}

impl Monster {
    /// Puts the ghost back in the ghost house: cell `[21, 11]`, walking up,
    /// neither mortal nor active.
    pub fn default(&mut self)
        ensures
            *final(self) == ghost_home(),
    {
        self.position = [21, 11];
        self.direction = 0;
        self.mortal = false;
        self.active = false;
    }

    /// A random direction other than the current one, drawn uniformly among
    /// the other three (among all four when the current one is none of them).
    pub fn change_direction(&mut self) -> (d: u8)
        ensures
            *final(self) == *old(self),
            d < 4,
            d != old(self).direction,
    {
        if self.direction >= 4 {
            random(0, 4)
        } else {
            let draw = random(0, 3);
            other_direction(self.direction, draw)
        }
    }

    /// Whether a step of this ghost stays inside the grid and the `u8` range.
    pub fn can_move(&self, obstacles: &Vec<Vec<u8>>) -> (ok: bool)
        ensures
            ok == ghost_can_move(*self, rows(obstacles)),
    {
        let x = self.position[0];
        let y = self.position[1];
        let n = obstacles.len();
        if self.direction == 0 {
            1 <= y && ((y - 1) as usize) < n && 1 <= x && x <= 254 && ((y as usize) < n
                || free_cell(x, y - 1, obstacles))
        } else if self.direction == 1 {
            2 <= x && 1 <= y && y < 255 && ((y + 1) as usize) < n
        } else if self.direction == 2 {
            y < 255 && ((y + 1) as usize) < n && 1 <= x && x <= 254
        } else if self.direction == 3 {
            x <= 253 && 1 <= y && y < 255 && ((y + 1) as usize) < n
        } else {
            true
        }
    }

    /// Whether the cell the ghost looks at before its next step is free.
    pub fn way_ahead_free(&self, obstacles: &Vec<Vec<u8>>) -> (free: bool)
        requires
            self.direction < 4,
            ghost_can_move(*self, rows(obstacles)),
        ensures
            free == ahead_free(rows(obstacles), self.position[0], self.position[1], self.direction),
    {
        let x = self.position[0];
        let y = self.position[1];
        if self.direction == 0 {
            free_cell(x, y - 1, obstacles)
        } else if self.direction == 1 {
            free_cell(x - 2, y, obstacles)
        } else if self.direction == 2 {
            free_cell(x, y + 1, obstacles)
        } else {
            free_cell(x + 2, y, obstacles)
        }
    }

    /// One step of the ghost with the draws given: it moves one cell ahead if
    /// the way is free, else it takes direction `new_direction`; then, when
    /// `random_value` is 0 or 1 and the side cell is free, it turns into that
    /// side corridor (for horizontal walkers only on even columns).
    pub fn step(&mut self, obstacles: &Vec<Vec<u8>>, random_value: u8, new_direction: u8)
        requires
            ghost_can_move(*old(self), rows(obstacles)),
        ensures
            *final(self) == ghost_after(*old(self), rows(obstacles), random_value, new_direction),
    {
        let ghost obs = rows(obstacles);
        let d = self.direction;
        if d < 4 {
            let free = self.way_ahead_free(obstacles);
            let x = self.position[0];
            let y = self.position[1];
            if d == 0 || d == 2 {
                let y1: u8 = if !free { y } else if d == 0 { y - 1 } else { y + 1 };
                self.position = [x, y1];
                if !free {
                    self.direction = new_direction;
                }
                if free_cell(x + 1, y1, obstacles) && random_value == 0 {
                    self.direction = 3;
                }
                if free_cell(x - 1, y1, obstacles) && random_value == 1 {
                    self.direction = 1;
                }
            } else {
                let x1: u8 = if !free { x } else if d == 1 { x - 1 } else { x + 1 };
                self.position = [x1, y];
                if !free {
                    self.direction = new_direction;
                }
                if free_cell(x1, y + 1, obstacles) && random_value == 0 && x1 % 2 == 0 {
                    self.direction = 2;
                }
                if free_cell(x1, y - 1, obstacles) && random_value == 1 && x1 % 2 == 0 {
                    self.direction = 0;
                }
            }
        }
    }

    /// One step of the ghost: a draw from `0..3` decides side turns, and a
    /// blocked ghost turns to a random other direction.
    pub fn move_ghost(&mut self, obstacles: &Vec<Vec<u8>>)
        requires
            ghost_can_move(*old(self), rows(obstacles)),
        ensures
            ghost_moved(*old(self), *final(self), rows(obstacles)),
    {
        let ghost before = *self;
        let random_value = random(0, 3);
        let blocked = self.direction < 4 && !self.way_ahead_free(obstacles);
        let new_direction = if blocked { self.change_direction() } else { self.direction };
        self.step(obstacles, random_value, new_direction);
        let ghost witness: u8 = if blocked { new_direction } else if before.direction < 4 {
            nth_other(before.direction, 0)
        } else {
            0
        };
        assert(ghost_after(before, rows(obstacles), random_value, witness) == *self);
    }
}

} // verus!
