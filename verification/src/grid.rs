//! The maze as rows of column numbers: `grid[y]` lists the columns `x` of row
//! `y` that hold a wall (or, for the coin grid, a coin).

use vstd::prelude::*;

verus! {

/// The grid as a sequence of rows of column numbers.
pub open spec fn rows(grid: &Vec<Vec<u8>>) -> Seq<Seq<u8>> {
    grid.deep_view()
}

/// `(x, y)` is listed in row `y` of `grid` (which must exist).
pub open spec fn listed(grid: Seq<Seq<u8>>, x: u8, y: u8) -> bool {
    grid[y as int].contains(x)
}

/// Whether `x` occurs in `row`.
pub fn row_contains(row: &Vec<u8>, x: u8) -> (found: bool)
    ensures
        found == row@.contains(x),
{
    let mut i: usize = 0;
    while i < row.len()
        invariant
            i <= row.len(),
            forall|j: int| 0 <= j < i ==> row@[j] != x,
        decreases row.len() - i,
    {
        if row[i] == x {
            assert(row@[i as int] == x);
            return true;
        }
        i += 1;
    }
    false
}

/// A clone of a grid has the same rows.
pub proof fn lemma_clone_rows(a: Vec<Vec<u8>>, b: Vec<Vec<u8>>)
    requires
        a.len() == b.len(),
        forall|i: int| 0 <= i < a.len() ==> cloned::<Vec<u8>>(a[i], b[i]),
    ensures
        rows(&a) == rows(&b),
{
    assert forall|i: int| 0 <= i < a.len() implies a[i]@ == b[i]@ by {
        if a[i] != b[i] {
            assert(b[i].len() == a[i].len());
            assert forall|j: int| 0 <= j < a[i].len() implies a[i]@[j] == b[i]@[j] by {
                assert(cloned::<u8>(a[i][j], b[i][j]));
            }
            assert(a[i]@ =~= b[i]@);
        }
    }
    assert(rows(&a) =~= rows(&b));
}

/// Whether the cell `cur_pos` (`[x, y]`) is free of walls.
pub fn check_position(cur_pos: [u8; 2], obstacles: Vec<Vec<u8>>) -> (free: bool)
    requires
        cur_pos[1] < obstacles.len(),
    ensures
        free == !listed(rows(&obstacles), cur_pos[0], cur_pos[1]),
{
    let x = cur_pos[0] as usize;
    let y = cur_pos[1] as usize;
    assert(rows(&obstacles)[y as int] == obstacles@[y as int]@);
    !row_contains(&obstacles[y], x as u8)
}

/// Calls `check_position` on a copy of the grid, as the movement rules do.
pub(crate) fn free_cell(x: u8, y: u8, obstacles: &Vec<Vec<u8>>) -> (free: bool)
    requires
        y < obstacles.len(),
    ensures
        free == !listed(rows(obstacles), x, y),
{
    let copy = obstacles.clone();
    proof { lemma_clone_rows(*obstacles, copy); }
    check_position([x, y], copy)
}

} // verus!
