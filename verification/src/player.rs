//! The player: steering through a one-slot queue of wished directions,
//! walking, and eating coins.
//!
//! Directions are numbered 0 up (w), 1 left (a), 2 down (s), 3 right (d).

use vstd::prelude::*;
use crate::grid::{free_cell, listed, rows};

verus! {

/// The player: cell `[x, y]`, the direction walked in, the direction wished
/// for next, hearts left and frames drawn so far.
#[derive(Clone, Copy)]
pub struct Player {
    pub position: [u8; 2],
    pub current_direction: u8,
    pub direction_queue: u8,
    pub hearts: u8,
    pub frames: u32,
}

/// The cell probed before a step from `(x, y)` in direction `d` (0..4): the
/// next row up or down, or two columns left or right.
pub open spec fn probe_cell(x: u8, y: u8, d: u8) -> (u8, u8) {
    if d == 0 {
        (x, (y - 1) as u8)
    } else if d == 1 {
        ((x - 2) as u8, y)
    } else if d == 2 {
        (x, (y + 1) as u8)
    } else {
        ((x + 2) as u8, y)
    }
}

/// Whether probing in direction `d` from `(x, y)` on a grid of `n` rows is
/// safe (see `probe_ok`).
pub fn probe_in_bounds(x: u8, y: u8, d: u8, n: usize) -> (ok: bool)
    ensures
        ok == probe_ok(x, y, d, n as nat),
{
    if d == 0 {
        1 <= y && ((y - 1) as usize) < n
    } else if d == 1 {
        2 <= x && (y as usize) < n
    } else if d == 2 {
        y < 255 && ((y + 1) as usize) < n
    } else if d == 3 {
        x <= 253 && (y as usize) < n
    } else {
        true
    }
}

/// Probing in direction `d` from `(x, y)` on a grid of `n` rows neither
/// under- or overflows a coordinate nor reads a missing row.
pub open spec fn probe_ok(x: u8, y: u8, d: u8, n: nat) -> bool {
    if d == 0 {
        1 <= y && y - 1 < n
    } else if d == 1 {
        2 <= x && y < n
    } else if d == 2 {
        y < 255 && y + 1 < n
    } else if d == 3 {
        x <= 253 && y < n
    } else {
        true
    }
}

/// Whether the probed cell in direction `d` is free of walls.
pub open spec fn probe_free(obs: Seq<Seq<u8>>, x: u8, y: u8, d: u8) -> bool {
    !listed(obs, probe_cell(x, y, d).0, probe_cell(x, y, d).1)
}

/// The player after trying to step in direction `d`: horizontally one column
/// whenever the probed cell is free, vertically one row when it is free and
/// the frame count is odd (rows are twice as far apart as columns).
pub open spec fn player_stepped(p: Player, obs: Seq<Seq<u8>>, d: u8) -> Player {
    let x = p.position[0];
    let y = p.position[1];
    if d < 4 && probe_free(obs, x, y, d) {
        if d == 0 {
            if p.frames % 2 == 1 { Player { position: [x, (y - 1) as u8], ..p } } else { p }
        } else if d == 1 {
            Player { position: [(x - 1) as u8, y], ..p }
        } else if d == 2 {
            if p.frames % 2 == 1 { Player { position: [x, (y + 1) as u8], ..p } } else { p }
        } else {
            Player { position: [(x + 1) as u8, y], ..p }
        }
    } else {
        p
    }
}

/// The player after the queued direction is tried: on an even column, it
/// becomes the walking direction when the probed cell that way is free.
pub open spec fn player_queued(p: Player, obs: Seq<Seq<u8>>) -> Player {
    let x = p.position[0];
    let y = p.position[1];
    let d = p.direction_queue;
    if x % 2 == 0 && d < 4 && probe_free(obs, x, y, d) {
        Player { current_direction: d, ..p }
    } else {
        p
    }
}

/// A row of coins without those in column `x`.
pub open spec fn without(row: Seq<u8>, x: u8) -> Seq<u8> {
    row.filter(|c: u8| c != x)
}

/// The coin grid after the coins of cell `(x, y)` are eaten.
pub open spec fn coins_eaten(coins: Seq<Seq<u8>>, x: u8, y: u8) -> Seq<Seq<u8>> {
    coins.update(y as int, without(coins[y as int], x))
}

/// Removing a column shortens a row exactly when the row holds it, and
/// leaves no occurrence of it.
pub proof fn lemma_without(row: Seq<u8>, x: u8)
    ensures
        without(row, x).len() <= row.len(),
        without(row, x).len() < row.len() <==> row.contains(x),
        !without(row, x).contains(x),
        forall|c: u8| c != x ==> (without(row, x).contains(c) <==> row.contains(c)),
    decreases row.len(),
{
    reveal(Seq::filter);
    if row.len() > 0 {
        let rest = row.drop_last();
        lemma_without(rest, x);
        assert(without(row, x) == if row.last() != x {
            without(rest, x).push(row.last())
        } else {
            without(rest, x)
        });
        assert(row == rest.push(row.last()));
        assert forall|c: u8| row.contains(c) <==> (rest.contains(c) || row.last() == c) by {
            if row.contains(c) {
                let i = choose|i: int| 0 <= i < row.len() && row[i] == c;
                if i < row.len() - 1 {
                    assert(rest[i] == c);
                }
            }
            if rest.contains(c) {
                let i = choose|i: int| 0 <= i < rest.len() && rest[i] == c;
                assert(row[i] == c);
            }
        }
        let w = without(rest, x);
        assert forall|c: u8| w.push(row.last()).contains(c) <==> (w.contains(c) || row.last() == c) by {
            let wp = w.push(row.last());
            if wp.contains(c) {
                let i = choose|i: int| 0 <= i < wp.len() && wp[i] == c;
                if i < w.len() {
                    assert(w[i] == c);
                }
            }
            if w.contains(c) {
                let i = choose|i: int| 0 <= i < w.len() && w[i] == c;
                assert(wp[i] == c);
            }
            if row.last() == c {
                assert(wp[w.len() as int] == c);
            }
        }
    } else {
        assert(!row.contains(x));
    }
}

/// A row without column `x` already holds no `x`, so removing it again
/// changes nothing.
proof fn lemma_without_absent(row: Seq<u8>, x: u8)
    requires
        !row.contains(x),
    ensures
        without(row, x) == row,
    decreases row.len(),
{
    reveal(Seq::filter);
    if row.len() > 0 {
        let rest = row.drop_last();
        assert(!rest.contains(x)) by {
            if rest.contains(x) {
                let i = choose|i: int| 0 <= i < rest.len() && rest[i] == x;
                assert(row[i] == x);
            }
        }
        lemma_without_absent(rest, x);
        assert(row.last() != x) by {
            assert(row[row.len() - 1] == row.last());
        }
        assert(rest.push(row.last()) =~= row);
    }
}

/// Eating the coins of a cell twice eats nothing the second time.
pub proof fn law_eating_is_idempotent(coins: Seq<Seq<u8>>, x: u8, y: u8)
    requires
        y < coins.len(),
    ensures
        coins_eaten(coins_eaten(coins, x, y), x, y) == coins_eaten(coins, x, y),
{
    lemma_without(coins[y as int], x);
    lemma_without_absent(without(coins[y as int], x), x);
    assert(coins_eaten(coins_eaten(coins, x, y), x, y) =~= coins_eaten(coins, x, y));
}

/// Eating removes exactly the coins of the eaten cell: every other coin
/// stays, none is added, and the grid keeps its rows.
pub proof fn law_eating_removes_only_that_cell(coins: Seq<Seq<u8>>, x: u8, y: u8)
    requires
        y < coins.len(),
    ensures
        coins_eaten(coins, x, y).len() == coins.len(),
        forall|r: int, c: u8|
            0 <= r < coins.len() ==> (#[trigger] coins_eaten(coins, x, y)[r].contains(c) <==> (
            coins[r].contains(c) && !(r == y && c == x))),
{
    lemma_without(coins[y as int], x);
}

/// A player step moves the player at most one cell, only along direction
/// `d`, and only when the probed cell is free: so a vertical step never
/// enters a wall, and it happens only on odd frames. Nothing but the
/// position changes.
pub proof fn law_player_step_is_local(p: Player, obs: Seq<Seq<u8>>, d: u8)
    requires
        d < 4,
        probe_ok(p.position[0], p.position[1], d, obs.len()),
    ensures
        ({
            let q = player_stepped(p, obs, d);
            let x = p.position[0];
            let y = p.position[1];
            &&& q == (Player { position: q.position, ..p })
            &&& q.position =~= p.position || probe_free(obs, x, y, d)
            &&& d == 0 ==> q.position[0] == x && (q.position[1] == y || (q.position[1] == y - 1
                && !listed(obs, x, q.position[1])))
            &&& d == 2 ==> q.position[0] == x && (q.position[1] == y || (q.position[1] == y + 1
                && !listed(obs, x, q.position[1])))
            &&& d == 1 ==> q.position[1] == y && (q.position[0] == x || q.position[0] == x - 1)
            &&& d == 3 ==> q.position[1] == y && (q.position[0] == x || q.position[0] == x + 1)
            &&& (d == 0 || d == 2) && p.frames % 2 == 0 ==> q == p
        }),
{
}

/// Trying the queued direction never moves the player; it only ever makes
/// the queued direction the walking one, only on an even column, and only
/// when the way there is free.
pub proof fn law_queue_only_steers(p: Player, obs: Seq<Seq<u8>>)
    ensures
        p.position[0] % 2 != 0 ==> player_queued(p, obs) == p,
        player_queued(p, obs) == p || (player_queued(p, obs) == (Player {
            current_direction: p.direction_queue,
            ..p
        }) && probe_free(obs, p.position[0], p.position[1], p.direction_queue)),
{
}

/// Stepping in the walking direction is stepping up, left, down or right
/// for directions 0 to 3 (what `move_player` does through `move_up`,
/// `move_left`, `move_down`, `move_right`), and no step at all otherwise.
pub proof fn law_move_player_dispatches(p: Player, obs: Seq<Seq<u8>>)
    ensures
        p.current_direction == 0 ==> player_stepped(p, obs, p.current_direction) == player_stepped(p, obs, 0),
        p.current_direction == 1 ==> player_stepped(p, obs, p.current_direction) == player_stepped(p, obs, 1),
        p.current_direction == 2 ==> player_stepped(p, obs, p.current_direction) == player_stepped(p, obs, 2),
        p.current_direction == 3 ==> player_stepped(p, obs, p.current_direction) == player_stepped(p, obs, 3),
        p.current_direction >= 4 ==> player_stepped(p, obs, p.current_direction) == p,
{
}

/// Where a step in direction `d` takes the player, cell by cell: one column
/// left or right whenever the cell two columns that way is free, on every
/// frame; one row up or down when that cell is free and the frame count is
/// odd; nowhere otherwise. Nothing but the position changes.
pub proof fn law_step_by_direction(p: Player, obs: Seq<Seq<u8>>, d: u8)
    requires
        d < 4,
        probe_ok(p.position[0], p.position[1], d, obs.len()),
    ensures
        ({
            let q = player_stepped(p, obs, d);
            let x = p.position[0];
            let y = p.position[1];
            &&& q.current_direction == p.current_direction && q.direction_queue == p.direction_queue
            &&& q.hearts == p.hearts && q.frames == p.frames
            &&& d == 1 ==> q.position[1] == y && q.position[0] == if !obs[y as int].contains((x - 2) as u8) {
                x - 1
            } else {
                x as int
            }
            &&& d == 3 ==> q.position[1] == y && q.position[0] == if !obs[y as int].contains((x + 2) as u8) {
                x + 1
            } else {
                x as int
            }
            &&& d == 0 ==> q.position[0] == x && q.position[1] == if !obs[y - 1].contains(x) && p.frames % 2
                == 1 {
                y - 1
            } else {
                y as int
            }
            &&& d == 2 ==> q.position[0] == x && q.position[1] == if !obs[y + 1].contains(x) && p.frames % 2
                == 1 {
                y + 1
            } else {
                y as int
            }
        }),
{
}

/// On an even column the queued direction, whichever of the four it is,
/// becomes the walking direction whenever the cell probed that way is free
/// (and only then); on an odd column nothing changes. The position never
/// changes.
pub proof fn law_queue_taken_when_free(p: Player, obs: Seq<Seq<u8>>)
    requires
        p.position[0] % 2 == 0 ==> probe_ok(p.position[0], p.position[1], p.direction_queue, obs.len()),
    ensures
        ({
            let q = player_queued(p, obs);
            let x = p.position[0];
            let y = p.position[1];
            let d = p.direction_queue;
            let free = if d == 0 {
                !obs[y - 1].contains(x)
            } else if d == 1 {
                !obs[y as int].contains((x - 2) as u8)
            } else if d == 2 {
                !obs[y + 1].contains(x)
            } else {
                !obs[y as int].contains((x + 2) as u8)
            };
            &&& q.position == p.position && q.direction_queue == p.direction_queue
            &&& q.hearts == p.hearts && q.frames == p.frames
            &&& q.current_direction == if x % 2 == 0 && d < 4 && free {
                d
            } else {
                p.current_direction
            }
        }),
{
}

impl Player {
    /// Puts the player back on its start cell `[24, 18]`, walking and wishing
    /// left; hearts and frames are kept.
    pub fn default(&mut self)
        ensures
            *final(self) == (Player {
                position: [24, 18],
                direction_queue: 1,
                current_direction: 1,
                ..*old(self)
            }),
    {
        self.position = [24, 18];
        self.direction_queue = 1;
        self.current_direction = 1;
    }

    /// Takes the queued direction when the player stands on an even column
    /// and the way that direction is free.
    pub fn queue_checker(&mut self, obstacles: &Vec<Vec<u8>>)
        requires
            old(self).position[0] % 2 == 0 ==> probe_ok(
                old(self).position[0],
                old(self).position[1],
                old(self).direction_queue,
                obstacles.len() as nat,
            ),
        ensures
            *final(self) == player_queued(*old(self), rows(obstacles)),
    {
        if !(self.position[0] % 2 == 0) {
            return ;
        }
        let direction: u8 = self.direction_queue;
        let x = self.position[0];
        let y = self.position[1];
        if direction == 0 {
            if free_cell(x, y - 1, obstacles) {
                self.current_direction = direction;
            }
        } else if direction == 1 {
            if free_cell(x - 2, y, obstacles) {
                self.current_direction = direction;
            }
        } else if direction == 2 {
            if free_cell(x, y + 1, obstacles) {
                self.current_direction = direction;
            }
        } else if direction == 3 {
            if free_cell(x + 2, y, obstacles) {
                self.current_direction = direction;
            }
        }
    }

    /// One row up if the cell above is free and the frame count is odd.
    pub fn move_up(&mut self, obstacles: &Vec<Vec<u8>>)
        requires
            probe_ok(old(self).position[0], old(self).position[1], 0, obstacles.len() as nat),
        ensures
            *final(self) == player_stepped(*old(self), rows(obstacles), 0),
    {
        let x = self.position[0];
        let y = self.position[1];
        if free_cell(x, y - 1, obstacles) {
            if self.frames % 2 == 1 {
                self.position = [x, y - 1];
            }
        }
    }

    /// One column left if the cell two columns left is free.
    pub fn move_left(&mut self, obstacles: &Vec<Vec<u8>>)
        requires
            probe_ok(old(self).position[0], old(self).position[1], 1, obstacles.len() as nat),
        ensures
            *final(self) == player_stepped(*old(self), rows(obstacles), 1),
    {
        let x = self.position[0];
        let y = self.position[1];
        if free_cell(x - 2, y, obstacles) {
            self.position = [x - 1, y];
        }
    }

    /// One row down if the cell below is free and the frame count is odd.
    pub fn move_down(&mut self, obstacles: &Vec<Vec<u8>>)
        requires
            probe_ok(old(self).position[0], old(self).position[1], 2, obstacles.len() as nat),
        ensures
            *final(self) == player_stepped(*old(self), rows(obstacles), 2),
    {
        let x = self.position[0];
        let y = self.position[1];
        if free_cell(x, y + 1, obstacles) {
            if self.frames % 2 == 1 {
                self.position = [x, y + 1];
            }
        }
    }

    /// One column right if the cell two columns right is free.
    pub fn move_right(&mut self, obstacles: &Vec<Vec<u8>>)
        requires
            probe_ok(old(self).position[0], old(self).position[1], 3, obstacles.len() as nat),
        ensures
            *final(self) == player_stepped(*old(self), rows(obstacles), 3),
    {
        let x = self.position[0];
        let y = self.position[1];
        if free_cell(x + 2, y, obstacles) {
            self.position = [x + 1, y];
        }
    }

    /// One step in the walking direction.
    pub fn move_player(&mut self, obstacles: &Vec<Vec<u8>>)
        requires
            probe_ok(
                old(self).position[0],
                old(self).position[1],
                old(self).current_direction,
                obstacles.len() as nat,
            ),
        ensures
            *final(self) == player_stepped(*old(self), rows(obstacles), old(self).current_direction),
    {
        let direction: u8 = self.current_direction;
        if direction == 0 {
            self.move_up(obstacles);
        } else if direction == 1 {
            self.move_left(obstacles);
        } else if direction == 2 {
            self.move_down(obstacles);
        } else if direction == 3 {
            self.move_right(obstacles);
        }
    }

    /// Eats the coins on the player's cell; returns whether there were any
    /// (the caller plays the coin sound then).
    pub fn check_position(&mut self, coins: &mut Vec<Vec<u8>>) -> (eaten: bool)
        requires
            old(self).position[1] < old(coins).len(),
        ensures
            *final(self) == *old(self),
            rows(final(coins)) == coins_eaten(rows(old(coins)), old(self).position[0], old(self).position[1]),
            eaten == rows(old(coins))[old(self).position[1] as int].contains(old(self).position[0]),
    {
        let x = self.position[0] as usize;
        let y = self.position[1] as usize;
        let ghost before = rows(coins);
        let ghost xs = self.position[0];
        let initial_length = coins[y].len();
        let ghost old_row = coins@[y as int]@;
        assert(old_row == before[y as int]);
        let mut kept: Vec<u8> = Vec::new();
        let mut i: usize = 0;
        while i < coins[y].len()
            invariant
                y < coins.len(),
                coins@[y as int]@ == old_row,
                i <= old_row.len(),
                kept@ == without(old_row.take(i as int), xs),
                x == xs,
            decreases old_row.len() - i,
        {
            let coin_x = coins[y][i];
            proof {
                reveal_with_fuel(Seq::filter, 1);
                assert(old_row.take(i + 1).drop_last() =~= old_row.take(i as int));
            }
            if coin_x != x as u8 {
                kept.push(coin_x);
            }
            i += 1;
        }
        assert(old_row.take(old_row.len() as int) =~= old_row);
        proof { lemma_without(old_row, xs); }
        coins.set(y, kept);
        let ghost ys = self.position[1];
        assert forall|j: int| 0 <= j < coins.len() implies #[trigger] rows(coins)[j] == coins_eaten(before, xs, ys)[j] by {
            if j != y {
                assert(rows(coins)[j] == coins@[j]@);
            }
        }
        assert(rows(coins) =~= coins_eaten(before, xs, ys));
        coins[y].len() < initial_length
    }
}

} // verus!
