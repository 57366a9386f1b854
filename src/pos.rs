//! The cursor: a 1-based column, and a row where 0 is the header band.

use vstd::prelude::*;

verus! {

/// A cursor position: column `x` counts from 1; row `y` counts data rows from
/// 1, and row 0 is the band of column names.
#[derive(Clone, Copy, Debug, PartialEq, Eq, Structural)]
pub struct Pos {
    pub x: usize,
    pub y: usize,
}

impl Pos {
    /// The column is at least 1.
    pub open spec fn wf(&self) -> bool {
        self.x >= 1
    }

    pub fn new(x: usize, y: usize) -> (p: Pos)
        ensures
            p.x == x,
            p.y == y,
    {
        Pos { x, y }
    }
}

/// `v` kept within `[lo, usize::MAX]`.
pub open spec fn clamp_index(v: int, lo: int) -> usize {
    if v < lo {
        lo as usize
    } else if v > usize::MAX {
        usize::MAX
    } else {
        v as usize
    }
}

/// The cursor moved by `dx` columns and `dy` rows: the column stays at 1 or
/// more and the row at 0 or more; a jump up by more than two rows stops at
/// the first data row rather than on the header band.
pub open spec fn moved(c: Pos, dx: int, dy: int) -> Pos {
    let x = clamp_index(c.x + dx, 1);
    let y = clamp_index(c.y + dy, 0);
    Pos { x, y: if dy < -2 && y == 0 { 1 } else { y } }
}

/// Moves the cursor by `dx` columns and `dy` rows (see `moved`).
pub fn move_cursor(cursor: &mut Pos, dx: i16, dy: i16)
    ensures
        *final(cursor) == moved(*old(cursor), dx as int, dy as int),
        final(cursor).wf(),
{
    let new_x: i128 = cursor.x as i128 + dx as i128;
    let new_y: i128 = cursor.y as i128 + dy as i128;
    cursor.x = if new_x < 1 {
        1
    } else if new_x > usize::MAX as i128 {
        usize::MAX
    } else {
        new_x as usize
    };
    cursor.y = if new_y < 0 {
        0
    } else if new_y > usize::MAX as i128 {
        usize::MAX
    } else {
        new_y as usize
    };
    if dy < -2 && cursor.y == 0 {
        cursor.y = 1;
    }
}

} // verus!
