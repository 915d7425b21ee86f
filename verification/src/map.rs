//! Reading the maze out of its text drawing.

use vstd::prelude::*;
use vstd::utf8::encode_utf8;
use crate::grid::rows;

verus! {

/// The maze drawn as lines of text.
pub struct MapCalculator {
    pub map: Vec<String>,
}

/// The columns, counted modulo 256 as a `u8` holds them, at which `row`
/// holds `character`, in increasing order.
pub open spec fn columns_of(row: Seq<char>, character: char) -> Seq<u8>
    decreases row.len(),
{
    if row.len() == 0 {
        Seq::empty()
    } else {
        let before = columns_of(row.drop_last(), character);
        if row.last() == character {
            before.push(((row.len() - 1) % 256) as u8)
        } else {
            before
        }
    }
}

/// The length in bytes of a line, as `str::len` gives it.
pub open spec fn byte_len(line: Seq<char>) -> usize {
    encode_utf8(line).len() as usize
}

/// The width that the running maximum in `calculate_max_map_width` reaches
/// over `lines`: a longer line replaces the maximum by its byte length taken
/// modulo 256.
pub open spec fn max_width(lines: Seq<Seq<char>>) -> u8
    decreases lines.len(),
{
    if lines.len() == 0 {
        0
    } else {
        let m = max_width(lines.drop_last());
        let l = byte_len(lines.last());
        if l > m {
            (l % 256) as u8
        } else {
            m
        }
    }
}

/// In a line of at most 256 characters, the columns listed for a character
/// are exactly those where the line holds it.
pub proof fn law_columns_mark_the_character(line: Seq<char>, character: char, x: u8)
    requires
        line.len() <= 256,
    ensures
        columns_of(line, character).contains(x) <==> (x < line.len() && line[x as int] == character),
    decreases line.len(),
{
    if line.len() > 0 {
        let rest = line.drop_last();
        law_columns_mark_the_character(rest, character, x);
        let before = columns_of(rest, character);
        let last = ((line.len() - 1) % 256) as u8;
        assert(last == line.len() - 1);
        if line.last() == character {
            let after = before.push(last);
            if after.contains(x) {
                let i = choose|i: int| 0 <= i < after.len() && after[i] == x;
                if i < before.len() {
                    assert(before[i] == x);
                }
            }
            if before.contains(x) {
                let i = choose|i: int| 0 <= i < before.len() && before[i] == x;
                assert(after[i] == x);
            }
            if x == last {
                assert(after[before.len() as int] == x);
            }
        }
        if x < rest.len() {
            assert(rest[x as int] == line[x as int]);
        }
    }
}

/// The columns of `character` in one line.
fn columns_in_line(line: &String, character: char) -> (columns: Vec<u8>)
    ensures
        columns@ == columns_of(line@, character),
{
    let s = line.as_str();
    let ghost chars = s@;
    let mut columns: Vec<u8> = Vec::new();
    let mut col: u8 = 0;
    let ghost mut i: int = 0;
    for ch in it: s.chars()
        invariant
            it.seq() == chars,
            i == it.index(),
            col == i % 256,
            columns@ == columns_of(chars.take(i), character),
    {
        proof {
            assert(chars.take(i + 1).drop_last() =~= chars.take(i));
            assert(chars.take(i + 1).last() == ch);
        }
        if ch == character {
            columns.push(col);
        }
        col = if col == 255 { 0 } else { col + 1 };
        proof { i = i + 1; }
    }
    assert(chars.take(chars.len() as int) =~= chars);
    columns
}

impl MapCalculator {
    /// For each line of the drawing, the columns at which `character` stands.
    pub fn calculate_map(&self, character: char) -> (coordinates: Vec<Vec<u8>>)
        ensures
            coordinates.len() == self.map.len(),
            forall|r: int|
                0 <= r < self.map.len() ==> #[trigger] rows(&coordinates)[r] == columns_of(
                    self.map@[r]@,
                    character,
                ),
    {
        let mut coordinates_vector: Vec<Vec<u8>> = Vec::new();
        let mut row_idx: usize = 0;
        while row_idx < self.map.len()
            invariant
                row_idx <= self.map.len(),
                coordinates_vector.len() == row_idx,
                forall|r: int|
                    0 <= r < row_idx ==> #[trigger] coordinates_vector@[r]@ == columns_of(
                        self.map@[r]@,
                        character,
                    ),
            decreases self.map.len() - row_idx,
        {
            let columns = columns_in_line(&self.map[row_idx], character);
            coordinates_vector.push(columns);
            row_idx += 1;
        }
        assert forall|r: int| 0 <= r < self.map.len() implies #[trigger] rows(&coordinates_vector)[r]
            == columns_of(self.map@[r]@, character) by {
            assert(rows(&coordinates_vector)[r] == coordinates_vector@[r]@);
        }
        coordinates_vector
    }
}

/// The width of the maze: the running maximum of the lines' byte lengths.
pub fn calculate_max_map_width(map: Vec<String>) -> (width: u8)
    ensures
        width == max_width(map@.map_values(|line: String| line@)),
{
    let ghost lines = map@.map_values(|line: String| line@);
    let mut max_width_so_far: u8 = 0;
    let mut i: usize = 0;
    while i < map.len()
        invariant
            i <= map.len(),
            lines == map@.map_values(|line: String| line@),
            max_width_so_far == max_width(lines.take(i as int)),
        decreases map.len() - i,
    {
        let len = map[i].as_str().len();
        proof {
            assert(lines.take(i + 1).drop_last() =~= lines.take(i as int));
            assert(lines.take(i + 1).last() == map@[i as int]@);
        }
        if len > max_width_so_far as usize {
            assert((len as u8) == len % 256) by (bit_vector);
            max_width_so_far = len as u8;
        }
        i += 1;
    }
    assert(lines.take(map.len() as int) =~= lines);
    max_width_so_far
}

} // verus!
