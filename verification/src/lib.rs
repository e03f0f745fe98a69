//! Core of a falling-block puzzle game: the playing-field grid, the active
//! piece with its rotation and collision rules, line clearing with group-based
//! gravity, and scoring.
//!
//! The field is a 23 x 12 matrix of cell codes: `0` is empty, `1` marks the
//! permanent border columns and the floor row, and `2..=8` mark blocks left
//! behind by locked pieces (the value records which variant placed the block).

use vstd::prelude::*;

pub mod engine;
pub mod tetromino;

verus! {

/// The playing field: 23 x 12 cell codes stored row-major.
#[derive(Clone, Debug)]
pub struct TetrisMap {
    pub cells: Vec<u8>,
}

/// How many cells of the sequence hold a block code (a value of `2` or more).
pub open spec fn count_blocks(s: Seq<u8>) -> int
    decreases s.len(),
{
    if s.len() == 0 {
        0
    } else {
        count_blocks(s.drop_last()) + if s.last() >= 2 {
            1int
        } else {
            0int
        }
    }
}

pub proof fn lemma_count_blocks_bounds(s: Seq<u8>)
    ensures
        0 <= count_blocks(s) <= s.len(),
    decreases s.len(),
{
    if s.len() > 0 {
        lemma_count_blocks_bounds(s.drop_last());
    }
}

pub proof fn lemma_count_blocks_push(s: Seq<u8>, v: u8)
    ensures
        count_blocks(s.push(v)) == count_blocks(s) + if v >= 2 {
            1int
        } else {
            0int
        },
{
    assert(s.push(v).drop_last() =~= s);
    assert(s.push(v).last() == v);
}

pub proof fn lemma_count_blocks_update(s: Seq<u8>, i: int, v: u8)
    requires
        0 <= i < s.len(),
    ensures
        count_blocks(s.update(i, v)) == count_blocks(s) + (if v >= 2 {
            1int
        } else {
            0int
        }) - (if s[i] >= 2 {
            1int
        } else {
            0int
        }),
    decreases s.len(),
{
    let s2 = s.update(i, v);
    if i == s.len() - 1 {
        assert(s2.drop_last() =~= s.drop_last());
        assert(s2.last() == v);
    } else {
        assert(s2.drop_last() =~= s.drop_last().update(i, v));
        assert(s2.last() == s.last());
        lemma_count_blocks_update(s.drop_last(), i, v);
    }
}

impl TetrisMap {
    /// The backing vector holds exactly one code per grid cell.
    pub open spec fn wf(self) -> bool {
        self.cells@.len() == 276
    }

    /// Cell code at row `r`, column `c`.
    pub open spec fn at(self, r: int, c: int) -> u8 {
        self.cells@[r * 12 + c]
    }

    /// The first and last column of every row hold the border marker `1`.
    pub open spec fn bordered(self) -> bool {
        forall|r: int, c: int|
            0 <= r < 23 && 0 <= c < 12 && (c == 0 || c == 11) ==> #[trigger] self.at(r, c) == 1
    }

    /// The bottom row is entirely the border marker `1`; it acts as the floor.
    pub open spec fn floor_solid(self) -> bool {
        forall|c: int| 0 <= c < 12 ==> #[trigger] self.at(22, c) == 1
    }

    /// Interior cells are either empty or block codes, never the border marker.
    pub open spec fn interior_clean(self) -> bool {
        forall|r: int, c: int| 0 <= r < 22 && 1 <= c < 11 ==> #[trigger] self.at(r, c) != 1
    }

    /// Structural invariant of the playing field, kept by every core operation.
    pub open spec fn inv(self) -> bool {
        self.wf() && self.bordered() && self.floor_solid() && self.interior_clean()
    }

    /// Number of block cells on the field.
    pub open spec fn blocks(self) -> int {
        count_blocks(self.cells@)
    }

    /// Every cell of row `r` is non-zero, the border cells included.
    pub open spec fn row_full(self, r: int) -> bool {
        forall|c: int| 0 <= c < 12 ==> #[trigger] self.at(r, c) != 0
    }

    /// Row `r` is the canonical empty row: border at both ends, interior clear.
    pub open spec fn row_canonical_empty(self, r: int) -> bool {
        self.at(r, 0) == 1 && self.at(r, 11) == 1 && forall|c: int|
            1 <= c < 11 ==> #[trigger] self.at(r, c) == 0
    }

    /// Every cell of the fresh field: border columns and floor at `1`,
    /// interior empty.
    pub open spec fn is_blank(self) -> bool {
        forall|r: int, c: int|
            0 <= r < 23 && 0 <= c < 12 ==> #[trigger] self.at(r, c) == (if r == 22 || c == 0 || c
                == 11 {
                1u8
            } else {
                0u8
            })
    }

    /// Read one cell.
    pub fn cell(&self, r: usize, c: usize) -> (v: u8)
        requires
            self.wf(),
            r < 23,
            c < 12,
        ensures
            v == self.at(r as int, c as int),
    {
        self.cells[r * 12 + c]
    }

    /// Write one cell, leaving every other cell as it was.
    pub fn set_cell(&mut self, r: usize, c: usize, v: u8)
        requires
            old(self).wf(),
            r < 23,
            c < 12,
        ensures
            final(self).wf(),
            final(self).at(r as int, c as int) == v,
            forall|rr: int, cc: int|
                0 <= rr < 23 && 0 <= cc < 12 && !(rr == r as int && cc == c as int)
                    ==> #[trigger] final(self).at(rr, cc) == old(self).at(rr, cc),
            final(self).blocks() == old(self).blocks() + (if v >= 2 {
                1int
            } else {
                0int
            }) - (if old(self).at(r as int, c as int) >= 2 {
                1int
            } else {
                0int
            }),
    {
        let idx: usize = r * 12 + c;
        proof {
            lemma_count_blocks_update(self.cells@, idx as int, v);
        }
        self.cells[idx] = v;
        proof {
            assert forall|rr: int, cc: int|
                0 <= rr < 23 && 0 <= cc < 12 && !(rr == r as int && cc == c as int)
                    implies #[trigger] self.at(rr, cc) == old(self).at(rr, cc) by {
                assert(rr * 12 + cc != r as int * 12 + c as int);
            }
        }
    }
}

/// The border invariant: as long as the field invariant holds, the first and
/// last column of every row carry the permanent border marker.
pub proof fn lemma_inv_bordered(m: TetrisMap)
    requires
        m.inv(),
    ensures
        forall|r: int| 0 <= r < 23 ==> m.at(r, 0) == 1 && #[trigger] m.at(r, 11) == 1,
{
    assert forall|r: int| 0 <= r < 23 implies m.at(r, 0) == 1 && #[trigger] m.at(r, 11) == 1 by {
        assert(m.at(r, 0) == 1);
        assert(m.at(r, 11) == 1);
    }
}

/// A fresh playing field: empty interior, border columns and a solid floor row.
pub fn blank_tetris_map() -> (m: TetrisMap)
    ensures
        m.inv(),
        m.blocks() == 0,
        m.is_blank(),
{
    let mut cells: Vec<u8> = Vec::new();
    let mut r: usize = 0;
    while r < 23
        invariant
            r <= 23,
            cells@.len() == r * 12,
            count_blocks(cells@) == 0,
            forall|rr: int, cc: int|
                0 <= rr < r as int && 0 <= cc < 12 ==> #[trigger] cells@[rr * 12 + cc] == (if rr
                    == 22 || cc == 0 || cc == 11 {
                    1u8
                } else {
                    0u8
                }),
        decreases 23 - r,
    {
        let mut c: usize = 0;
        while c < 12
            invariant
                r < 23,
                c <= 12,
                cells@.len() == r * 12 + c,
                count_blocks(cells@) == 0,
                forall|rr: int, cc: int|
                    0 <= rr < r as int && 0 <= cc < 12 ==> #[trigger] cells@[rr * 12 + cc] == (if rr
                        == 22 || cc == 0 || cc == 11 {
                        1u8
                    } else {
                        0u8
                    }),
                forall|cc: int|
                    0 <= cc < c as int ==> #[trigger] cells@[r as int * 12 + cc] == (if r as int
                        == 22 || cc == 0 || cc == 11 {
                        1u8
                    } else {
                        0u8
                    }),
            decreases 12 - c,
        {
            let v: u8 = if r == 22 || c == 0 || c == 11 {
                1
            } else {
                0
            };
            proof {
                lemma_count_blocks_push(cells@, v);
            }
            cells.push(v);
            c += 1;
        }
        r += 1;
    }
    let m = TetrisMap { cells };
    proof {
        assert forall|r: int, c: int| 0 <= r < 23 && 0 <= c < 12 implies #[trigger] m.at(r, c) == (
        if r == 22 || c == 0 || c == 11 {
            1u8
        } else {
            0u8
        }) by {
            assert(m.cells@[r * 12 + c] == (if r == 22 || c == 0 || c == 11 {
                1u8
            } else {
                0u8
            }));
        }
    }
    m
}

/// Number of block cells in column `c` at row `b` or further down.
pub open spec fn col_blocks_below(m: TetrisMap, c: int, b: int) -> int
    decreases 23 - b,
{
    if b < 0 || b >= 23 {
        0
    } else {
        (if m.at(b, c) >= 2 {
            1int
        } else {
            0int
        }) + col_blocks_below(m, c, b + 1)
    }
}

/// Columns with the same cells from row `b` down hold the same block count.
pub proof fn lemma_col_blocks_congruent(m1: TetrisMap, m2: TetrisMap, c: int, b: int)
    requires
        forall|r: int| b <= r < 23 ==> m1.at(r, c) == m2.at(r, c),
    ensures
        col_blocks_below(m1, c, b) == col_blocks_below(m2, c, b),
    decreases 23 - b,
{
    if 0 <= b < 23 {
        lemma_col_blocks_congruent(m1, m2, c, b + 1);
    }
}

/// Changing one cell of a column shifts the counts below it by the obvious
/// difference and leaves the counts further down alone.
pub proof fn lemma_col_blocks_single_change(m1: TetrisMap, m2: TetrisMap, c: int, rr: int, b: int)
    requires
        0 <= rr < 23,
        0 <= b,
        forall|r: int| 0 <= r < 23 && r != rr ==> m1.at(r, c) == m2.at(r, c),
    ensures
        b <= rr ==> col_blocks_below(m2, c, b) == col_blocks_below(m1, c, b) + (if m2.at(rr, c)
            >= 2 {
            1int
        } else {
            0int
        }) - (if m1.at(rr, c) >= 2 {
            1int
        } else {
            0int
        }),
        b > rr ==> col_blocks_below(m2, c, b) == col_blocks_below(m1, c, b),
    decreases 23 - b,
{
    if b < 23 {
        lemma_col_blocks_single_change(m1, m2, c, rr, b + 1);
    }
}

/// Sliding the one block of a column from `row0` down to `rest` (over a path
/// that was and stays clear) keeps the column's block count, and the count at
/// or below any row can only grow.
pub proof fn lemma_col_blocks_shifted(m1: TetrisMap, m2: TetrisMap, c: int, row0: int, rest: int, b: int)
    requires
        0 <= row0 <= rest < 23,
        m2.at(rest, c) == m1.at(row0, c),
        forall|r: int| row0 <= r < rest ==> #[trigger] m2.at(r, c) == 0,
        forall|r: int| row0 < r <= rest ==> #[trigger] m1.at(r, c) == 0,
        forall|r: int| 0 <= r < 23 && !(row0 <= r <= rest) ==> m1.at(r, c) == m2.at(r, c),
        0 <= b,
    ensures
        b <= row0 ==> col_blocks_below(m2, c, b) == col_blocks_below(m1, c, b),
        row0 < b <= rest ==> col_blocks_below(m2, c, b) == col_blocks_below(m1, c, b) + (if m2.at(
            rest,
            c,
        ) >= 2 {
            1int
        } else {
            0int
        }),
        b > rest ==> col_blocks_below(m2, c, b) == col_blocks_below(m1, c, b),
        col_blocks_below(m2, c, b) >= col_blocks_below(m1, c, b),
    decreases 23 - b,
{
    if b < 23 {
        lemma_col_blocks_shifted(m1, m2, c, row0, rest, b + 1);
    }
}

/// How many rows below row `upto` are entirely non-zero.
pub open spec fn full_rows_below(m: TetrisMap, upto: int) -> int
    decreases upto,
{
    if upto <= 0 {
        0
    } else {
        full_rows_below(m, upto - 1) + if m.row_full(upto - 1) {
            1int
        } else {
            0int
        }
    }
}

pub proof fn lemma_full_rows_below_bounds(m: TetrisMap, upto: int)
    ensures
        0 <= full_rows_below(m, upto) <= if upto <= 0 {
            0int
        } else {
            upto
        },
    decreases upto,
{
    if upto > 0 {
        lemma_full_rows_below_bounds(m, upto - 1);
    }
}

} // verus!
