//! Game state and the line-clearing engine: full-row detection, the
//! group-based gravity that resettles blocks after a clear, and scoring.

use crate::tetromino::Tetromino;
use crate::{
    blank_tetris_map, col_blocks_below, count_blocks, full_rows_below, lemma_col_blocks_congruent,
    lemma_col_blocks_shifted, lemma_col_blocks_single_change, TetrisMap,
};
use vstd::prelude::*;

verus! {

/// Duration of one display frame, in microseconds.
pub const FMS: u32 = 1_000_000u32 / 60;

/// Points awarded for clearing `dropped` rows at once on the given level.
pub open spec fn award_math(dropped: int, level: int) -> int {
    (if dropped == 1 {
        40int
    } else if dropped == 2 {
        100int
    } else if dropped == 3 {
        300int
    } else if dropped == 4 {
        1200int
    } else {
        0int
    }) * (level + 1)
}

/// Executable scoring rule, saturating at the integer limit.
pub fn score_award(dropped: usize, level: usize) -> (points: usize)
    ensures
        award_math(dropped as int, level as int) <= usize::MAX ==> points == award_math(
            dropped as int,
            level as int,
        ),
        award_math(dropped as int, level as int) > usize::MAX ==> points == usize::MAX,
{
    let base: usize = if dropped == 1 {
        40
    } else if dropped == 2 {
        100
    } else if dropped == 3 {
        300
    } else if dropped == 4 {
        1200
    } else {
        0
    };
    let lvl1: usize = level.saturating_add(1);
    match base.checked_mul(lvl1) {
        Some(points) => points,
        None => usize::MAX,
    }
}

/// The fall delay, in microseconds, the driver should use on the given level.
pub open spec fn spec_delay(level: int) -> int {
    if level == 0 {
        48 * (FMS as int)
    } else if level == 1 {
        42 * (FMS as int)
    } else if level == 2 {
        38 * (FMS as int)
    } else if level == 3 {
        33 * (FMS as int)
    } else if level == 4 {
        28 * (FMS as int)
    } else if level == 5 {
        23 * (FMS as int)
    } else if level == 6 {
        18 * (FMS as int)
    } else if level == 7 {
        13 * (FMS as int)
    } else if level == 8 {
        8 * (FMS as int)
    } else if level == 9 {
        6 * (FMS as int)
    } else if 10 <= level <= 12 {
        5 * (FMS as int)
    } else if 13 <= level <= 15 {
        4 * (FMS as int)
    } else if 16 <= level <= 18 {
        3 * (FMS as int)
    } else if 19 <= level <= 28 {
        2 * (FMS as int)
    } else {
        FMS as int
    }
}

/// The game state the driver owns: field, active piece, score and level.
pub struct TetrisEngine {
    pub tetris_map: TetrisMap,
    pub live_tetromino: Tetromino,
    pub score: usize,
    pub level: usize,
    pub rows_cleared: usize,
    pub game_over: bool,
}

impl TetrisEngine {
    /// Invariant of the game state: the field is well formed, the piece's
    /// anchor is in range, and the level is derived from the cleared count.
    pub open spec fn inv(self) -> bool {
        self.tetris_map.inv() && self.live_tetromino.wf() && self.level == self.rows_cleared as int
            / 10
    }

    /// A fresh game: blank field, one freshly spawned piece, zero score.
    pub fn new() -> (e: Self)
        ensures
            e.inv(),
            e.score == 0,
            e.level == 0,
            e.rows_cleared == 0,
            !e.game_over,
            e.tetris_map.blocks() == 0,
            e.tetris_map.is_blank(),
            e.live_tetromino.x == 4 && e.live_tetromino.y == 0 && e.live_tetromino.rot == 0,
    {
        TetrisEngine {
            tetris_map: blank_tetris_map(),
            live_tetromino: Tetromino::new(),
            score: 0,
            level: 0,
            rows_cleared: 0,
            game_over: false,
        }
    }

    /// The fall delay for the current level, in microseconds.
    pub fn get_delay(&self) -> (delay: u32)
        ensures
            delay == spec_delay(self.level as int),
    {
        if self.level == 0 {
            48 * FMS
        } else if self.level == 1 {
            42 * FMS
        } else if self.level == 2 {
            38 * FMS
        } else if self.level == 3 {
            33 * FMS
        } else if self.level == 4 {
            28 * FMS
        } else if self.level == 5 {
            23 * FMS
        } else if self.level == 6 {
            18 * FMS
        } else if self.level == 7 {
            13 * FMS
        } else if self.level == 8 {
            8 * FMS
        } else if self.level == 9 {
            6 * FMS
        } else if self.level <= 12 {
            5 * FMS
        } else if self.level <= 15 {
            4 * FMS
        } else if self.level <= 18 {
            3 * FMS
        } else if self.level <= 28 {
            2 * FMS
        } else {
            FMS
        }
    }
}

/// True iff every cell of row `r`, borders included, is non-zero.
#[verifier::loop_isolation(false)]
fn row_is_full(map: &TetrisMap, r: usize) -> (full: bool)
    requires
        map.wf(),
        r < 23,
    ensures
        full == map.row_full(r as int),
{
    let mut c: usize = 0;
    while c < 12
        invariant
            c <= 12,
            forall|cc: int| 0 <= cc < c as int ==> #[trigger] map.at(r as int, cc) != 0,
        decreases 12 - c,
    {
        if map.cell(r, c) == 0 {
            return false;
        }
        c += 1;
    }
    true
}

/// Overwrite a full row with the canonical empty row `1, 0, ..., 0, 1`.
/// Exactly the ten interior block cells disappear from the count.
#[verifier::loop_isolation(false)]
fn clear_row(map: &mut TetrisMap, r: usize)
    requires
        old(map).inv(),
        r < 22,
        old(map).row_full(r as int),
    ensures
        final(map).inv(),
        final(map).row_canonical_empty(r as int),
        forall|rr: int, cc: int|
            0 <= rr < 23 && 0 <= cc < 12 && rr != r as int ==> #[trigger] final(map).at(rr, cc)
                == old(map).at(rr, cc),
        final(map).blocks() == old(map).blocks() - 10,
        forall|cc: int|
            1 <= cc < 11 ==> col_blocks_below(*final(map), cc, 0) == col_blocks_below(
                *old(map),
                cc,
                0,
            ) - 1,
        forall|cc: int, b: int|
            0 <= cc < 12 && 0 <= b ==> col_blocks_below(*final(map), cc, b) >= col_blocks_below(
                *old(map),
                cc,
                b,
            ) - 1,
{
    let mut c: usize = 0;
    while c < 12
        invariant
            c <= 12,
            map.inv(),
            forall|rr: int, cc: int|
                0 <= rr < 23 && 0 <= cc < 12 && rr != r as int ==> #[trigger] map.at(rr, cc) == old(
                    map,
                ).at(rr, cc),
            forall|cc: int|
                c as int <= cc < 12 ==> #[trigger] map.at(r as int, cc) == old(map).at(r as int, cc),
            forall|cc: int|
                0 <= cc < c as int ==> #[trigger] map.at(r as int, cc) == (if cc == 0 || cc == 11 {
                    1u8
                } else {
                    0u8
                }),
            map.blocks() == old(map).blocks() - (if c as int <= 1 {
                0int
            } else if c as int <= 11 {
                c as int - 1
            } else {
                10int
            }),
        decreases 12 - c,
    {
        let v: u8 = if c == 0 || c == 11 {
            1
        } else {
            0
        };
        proof {
            // the cell still holds its original code, which the invariant pins
            if 1 <= c as int && c as int <= 10 {
                assert(old(map).at(r as int, c as int) != 0);
                assert(old(map).at(r as int, c as int) != 1);
            } else {
                assert(old(map).at(r as int, c as int) == 1);
            }
        }
        map.set_cell(r, c, v);
        c += 1;
    }
    proof {
        assert forall|cc: int, b: int|
            0 <= cc < 12 && 0 <= b implies col_blocks_below(*map, cc, b) >= col_blocks_below(
            *old(map),
            cc,
            b,
        ) - 1 by {
            lemma_col_blocks_single_change(*old(map), *map, cc, r as int, b);
        }
        assert forall|cc: int|
            1 <= cc < 11 implies col_blocks_below(*map, cc, 0) == col_blocks_below(
            *old(map),
            cc,
            0,
        ) - 1 by {
            assert(old(map).at(r as int, cc) != 0);
            assert(old(map).at(r as int, cc) != 1);
            assert(map.at(r as int, cc) == 0);
            lemma_col_blocks_single_change(*old(map), *map, cc, r as int, 0);
        }
    }
}

/// Scan all rows above the floor, top to bottom; clear each full row in
/// place and report how many there were, together with the lowest one.
#[verifier::loop_isolation(false)]
fn clear_pass(map: &mut TetrisMap) -> (res: (usize, usize))
    requires
        old(map).inv(),
    ensures
        final(map).inv(),
        res.0 == full_rows_below(*old(map), 22),
        res.0 <= 22,
        final(map).blocks() == old(map).blocks() - 10 * res.0,
        forall|r: int| 0 <= r < 22 ==> !final(map).row_full(r),
        res.0 == 0 ==> final(map).cells@ == old(map).cells@,
        res.0 > 0 ==> res.1 < 22 && old(map).row_full(res.1 as int),
        forall|cc: int|
            1 <= cc < 11 ==> col_blocks_below(*final(map), cc, 0) == col_blocks_below(
                *old(map),
                cc,
                0,
            ) - res.0,
        forall|cc: int, b: int|
            0 <= cc < 12 && 0 <= b ==> col_blocks_below(*final(map), cc, b) >= col_blocks_below(
                *old(map),
                cc,
                b,
            ) - res.0,
{
    let mut dropped: usize = 0;
    let mut lowest: usize = 0;
    let mut row: usize = 0;
    while row < 22
        invariant
            row <= 22,
            dropped <= row,
            map.inv(),
            dropped == full_rows_below(*old(map), row as int),
            map.blocks() == old(map).blocks() - 10 * dropped,
            forall|r: int, c: int|
                0 <= r < 23 && 0 <= c < 12 && !(r < row as int && old(map).row_full(r))
                    ==> #[trigger] map.at(r, c) == old(map).at(r, c),
            forall|r: int|
                0 <= r < row as int && old(map).row_full(r) ==> map.row_canonical_empty(r),
            dropped == 0 ==> map.cells@ == old(map).cells@,
            dropped > 0 ==> lowest < 22 && old(map).row_full(lowest as int),
            forall|cc: int|
                1 <= cc < 11 ==> col_blocks_below(*map, cc, 0) == col_blocks_below(
                    *old(map),
                    cc,
                    0,
                ) - dropped,
            forall|cc: int, b: int|
                0 <= cc < 12 && 0 <= b ==> col_blocks_below(*map, cc, b) >= col_blocks_below(
                    *old(map),
                    cc,
                    b,
                ) - dropped,
        decreases 22 - row,
    {
        let full = row_is_full(map, row);
        proof {
            // row `row` is still as it was handed in
            assert forall|c: int| 0 <= c < 12 implies map.at(row as int, c) == old(map).at(
                row as int,
                c,
            ) by {}
            if full {
                assert forall|c: int| 0 <= c < 12 implies #[trigger] old(map).at(row as int, c)
                    != 0 by {
                    assert(map.at(row as int, c) != 0);
                }
                assert(old(map).row_full(row as int));
            } else {
                let cw = choose|c: int| 0 <= c < 12 && #[trigger] map.at(row as int, c) == 0;
                assert(old(map).at(row as int, cw) == 0);
                assert(!old(map).row_full(row as int));
            }
        }
        if full {
            clear_row(map, row);
            dropped += 1;
            lowest = row;
        }
        row += 1;
    }
    proof {
        assert forall|r: int| 0 <= r < 22 implies !map.row_full(r) by {
            if old(map).row_full(r) {
                assert(map.row_canonical_empty(r));
                assert(map.at(r, 1) == 0);
            } else {
                let cw = choose|c: int| 0 <= c < 12 && #[trigger] old(map).at(r, c) == 0;
                assert(map.at(r, cw) == old(map).at(r, cw));
            }
        }
    }
    (dropped, lowest)
}

/// True iff the cell directly below every member of the group is empty.
#[verifier::loop_isolation(false)]
fn can_fall(map: &TetrisMap, row: usize, cols: &Vec<usize>) -> (b: bool)
    requires
        map.wf(),
        row <= 21,
        forall|i: int| 0 <= i < cols@.len() ==> 1 <= #[trigger] cols@[i] < 11,
    ensures
        b == (forall|i: int|
            0 <= i < cols@.len() ==> map.at(row as int + 1, #[trigger] cols@[i] as int) == 0),
{
    let mut i: usize = 0;
    while i < cols.len()
        invariant
            i <= cols@.len(),
            forall|j: int| 0 <= j < i as int ==> map.at(row as int + 1, #[trigger] cols@[j] as int) == 0,
        decreases cols@.len() - i,
    {
        if map.cell(row + 1, cols[i]) != 0 {
            return false;
        }
        i += 1;
    }
    true
}

/// Column `c` belongs to the group.
pub open spec fn group_contains(cols: Seq<usize>, c: int) -> bool {
    exists|i: int| 0 <= i < cols.len() && #[trigger] cols[i] == c
}

/// Let one group of horizontally contiguous blocks fall as a rigid unit,
/// one row at a time, until some member would land on a non-empty cell.
/// Returns the row the group came to rest in: its cells moved there
/// unchanged, the rows it passed through are empty, some cell right below
/// the resting row is occupied, and nothing outside the group's columns
/// (or above its starting row) was touched.
#[verifier::loop_isolation(false)]
fn drop_group(map: &mut TetrisMap, row0: usize, cols: &Vec<usize>) -> (rest: usize)
    requires
        old(map).inv(),
        row0 <= 21,
        cols@.len() >= 1,
        forall|i: int| 0 <= i < cols@.len() ==> 1 <= #[trigger] cols@[i] < 11,
        forall|i: int, j: int| 0 <= i < j < cols@.len() ==> cols@[i] < cols@[j],
        forall|i: int| 0 <= i < cols@.len() ==> old(map).at(row0 as int, #[trigger] cols@[i] as int) >= 2,
    ensures
        final(map).inv(),
        final(map).blocks() == old(map).blocks(),
        row0 <= rest <= 21,
        forall|r: int, c: int|
            0 <= r < 23 && 0 <= c < 12 && (r < row0 as int || !group_contains(cols@, c))
                ==> #[trigger] final(map).at(r, c) == old(map).at(r, c),
        forall|i: int|
            0 <= i < cols@.len() ==> final(map).at(rest as int, #[trigger] cols@[i] as int) == old(
                map,
            ).at(row0 as int, cols@[i] as int),
        forall|i: int, r: int|
            0 <= i < cols@.len() && row0 as int <= r < rest as int ==> #[trigger] final(map).at(
                r,
                cols@[i] as int,
            ) == 0,
        forall|i: int, r: int|
            0 <= i < cols@.len() && (rest as int) < r < 23 ==> #[trigger] final(map).at(
                r,
                cols@[i] as int,
            ) == old(map).at(r, cols@[i] as int),
        forall|i: int, r: int|
            0 <= i < cols@.len() && (row0 as int) < r <= rest as int ==> #[trigger] old(map).at(
                r,
                cols@[i] as int,
            ) == 0,
        exists|i: int|
            0 <= i < cols@.len() && final(map).at(rest as int + 1, #[trigger] cols@[i] as int) != 0,
        forall|c: int|
            0 <= c < 12 ==> col_blocks_below(*final(map), c, 0) == col_blocks_below(*old(map), c, 0),
        forall|c: int, b: int|
            0 <= c < 12 && 0 <= b ==> col_blocks_below(*final(map), c, b) >= col_blocks_below(
                *old(map),
                c,
                b,
            ),
{
    let mut row: usize = row0;
    let mut falling: bool = can_fall(map, row, cols);
    while falling
        invariant
            map.inv(),
            map.blocks() == old(map).blocks(),
            row0 <= row <= 21,
            forall|r: int, c: int|
                0 <= r < 23 && 0 <= c < 12 && (r < row0 as int || !group_contains(cols@, c))
                    ==> #[trigger] map.at(r, c) == old(map).at(r, c),
            forall|i: int|
                0 <= i < cols@.len() ==> map.at(row as int, #[trigger] cols@[i] as int) == old(
                    map,
                ).at(row0 as int, cols@[i] as int),
            forall|i: int, r: int|
                0 <= i < cols@.len() && row0 as int <= r < row as int ==> #[trigger] map.at(
                    r,
                    cols@[i] as int,
                ) == 0,
            forall|i: int, r: int|
                0 <= i < cols@.len() && (row as int) < r < 23 ==> #[trigger] map.at(
                    r,
                    cols@[i] as int,
                ) == old(map).at(r, cols@[i] as int),
            forall|i: int, r: int|
                0 <= i < cols@.len() && (row0 as int) < r <= row as int ==> #[trigger] old(map).at(
                    r,
                    cols@[i] as int,
                ) == 0,
            falling == (forall|i: int|
                0 <= i < cols@.len() ==> map.at(row as int + 1, #[trigger] cols@[i] as int) == 0),
        decreases 21 - row,
    {
        proof {
            // the floor is never empty, so the group is still above row 21
            assert(map.at(22, cols@[0] as int) == 1);
            assert(map.at(row as int + 1, cols@[0] as int) == 0);
            assert(row < 21);
        }
        let ghost m0 = *map;
        let mut i: usize = 0;
        while i < cols.len()
            invariant
                i <= cols@.len(),
                row < 21,
                map.inv(),
                map.blocks() == m0.blocks(),
                forall|j: int|
                    0 <= j < cols@.len() ==> m0.at(row as int, #[trigger] cols@[j] as int) == old(
                        map,
                    ).at(row0 as int, cols@[j] as int),
                forall|j: int| 0 <= j < cols@.len() ==> m0.at(row as int, #[trigger] cols@[j] as int) >= 2,
                forall|j: int| 0 <= j < cols@.len() ==> m0.at(row as int + 1, #[trigger] cols@[j] as int) == 0,
                forall|r: int, c: int|
                    0 <= r < 23 && 0 <= c < 12 && (r < row0 as int || !group_contains(cols@, c))
                        ==> #[trigger] map.at(r, c) == old(map).at(r, c),
                forall|j: int, r: int|
                    0 <= j < cols@.len() && row0 as int <= r < row as int ==> #[trigger] map.at(
                        r,
                        cols@[j] as int,
                    ) == 0,
                forall|j: int, r: int|
                    0 <= j < cols@.len() && row as int + 1 < r < 23 ==> #[trigger] map.at(
                        r,
                        cols@[j] as int,
                    ) == old(map).at(r, cols@[j] as int),
                forall|j: int|
                    0 <= j < i as int ==> map.at(row as int + 1, #[trigger] cols@[j] as int) == m0.at(
                        row as int,
                        cols@[j] as int,
                    ) && map.at(row as int, cols@[j] as int) == 0,
                forall|j: int|
                    i as int <= j < cols@.len() ==> map.at(row as int, #[trigger] cols@[j] as int)
                        == m0.at(row as int, cols@[j] as int) && map.at(
                        row as int + 1,
                        cols@[j] as int,
                    ) == 0,
            decreases cols@.len() - i,
        {
            let c = cols[i];
            let v = map.cell(row, c);
            map.set_cell(row + 1, c, v);
            map.set_cell(row, c, 0);
            proof {
                assert(group_contains(cols@, c as int));
                assert forall|j: int|
                    0 <= j < cols@.len() && j != i as int implies cols@[j] as int != c as int by {
                    if j < i as int {
                        assert(cols@[j] < cols@[i as int]);
                    } else {
                        assert(cols@[i as int] < cols@[j]);
                    }
                }
            }
            i += 1;
        }
        row += 1;
        falling = can_fall(map, row, cols);
    }
    proof {
        let iw = choose|i: int|
            0 <= i < cols@.len() && #[trigger] map.at(row as int + 1, cols@[i] as int) != 0;
        assert(map.at(row as int + 1, cols@[iw] as int) != 0);
        assert forall|c: int, b: int|
            0 <= c < 12 && 0 <= b implies col_blocks_below(*map, c, b) >= col_blocks_below(
            *old(map),
            c,
            b,
        ) && (b == 0 ==> col_blocks_below(*map, c, b) == col_blocks_below(*old(map), c, b)) by {
            if group_contains(cols@, c) {
                let i = choose|i: int| 0 <= i < cols@.len() && #[trigger] cols@[i] == c;
                assert(cols@[i] as int == c);
                assert(map.at(row as int, c) == old(map).at(row0 as int, c));
                assert forall|r: int| row0 as int <= r < row as int implies #[trigger] map.at(r, c)
                    == 0 by {
                    assert(map.at(r, cols@[i] as int) == 0);
                }
                assert forall|r: int| (row0 as int) < r <= row as int implies #[trigger] old(
                    map,
                ).at(r, c) == 0 by {
                    assert(old(map).at(r, cols@[i] as int) == 0);
                }
                assert forall|r: int|
                    0 <= r < 23 && !(row0 as int <= r <= row as int) implies old(map).at(r, c)
                    == map.at(r, c) by {
                    if r < row0 as int {
                        assert(map.at(r, c) == old(map).at(r, c));
                    } else {
                        assert(map.at(r, cols@[i] as int) == old(map).at(r, cols@[i] as int));
                    }
                }
                lemma_col_blocks_shifted(*old(map), *map, c, row0 as int, row as int, b);
            } else {
                assert forall|r: int| b <= r < 23 implies old(map).at(r, c) == map.at(r, c) by {
                    assert(map.at(r, c) == old(map).at(r, c));
                }
                lemma_col_blocks_congruent(*old(map), *map, c, b);
            }
        }
    }
    row
}

/// Find the maximal horizontal runs of block cells in one row and let each
/// run fall as far as the group gravity rule allows.
#[verifier::loop_isolation(false)]
fn settle_row(map: &mut TetrisMap, up_row: usize)
    requires
        old(map).inv(),
        up_row <= 20,
    ensures
        final(map).inv(),
        final(map).blocks() == old(map).blocks(),
        forall|r: int, c: int|
            0 <= r < 23 && 0 <= c < 12 && r < up_row as int ==> #[trigger] final(map).at(r, c)
                == old(map).at(r, c),
        forall|c: int|
            0 <= c < 12 ==> col_blocks_below(*final(map), c, 0) == col_blocks_below(*old(map), c, 0),
        forall|c: int, b: int|
            0 <= c < 12 && 0 <= b ==> col_blocks_below(*final(map), c, b) >= col_blocks_below(
                *old(map),
                c,
                b,
            ),
{
    let mut contiguous_cells: Vec<usize> = Vec::new();
    let mut col: usize = 0;
    while col < 12
        invariant
            col <= 12,
            map.inv(),
            map.blocks() == old(map).blocks(),
            forall|r: int, c: int|
                0 <= r < 23 && 0 <= c < 12 && r < up_row as int ==> #[trigger] map.at(r, c) == old(
                    map,
                ).at(r, c),
            forall|c: int|
                0 <= c < 12 ==> col_blocks_below(*map, c, 0) == col_blocks_below(*old(map), c, 0),
            forall|c: int, b: int|
                0 <= c < 12 && 0 <= b ==> col_blocks_below(*map, c, b) >= col_blocks_below(
                    *old(map),
                    c,
                    b,
                ),
            forall|i: int| 0 <= i < contiguous_cells@.len() ==> 1 <= #[trigger] contiguous_cells@[i] < 11,
            forall|i: int, j: int|
                0 <= i < j < contiguous_cells@.len() ==> contiguous_cells@[i]
                    < contiguous_cells@[j],
            forall|i: int| 0 <= i < contiguous_cells@.len() ==> #[trigger] contiguous_cells@[i] < col,
            forall|i: int|
                0 <= i < contiguous_cells@.len() ==> map.at(
                    up_row as int,
                    #[trigger] contiguous_cells@[i] as int,
                ) >= 2,
        decreases 12 - col,
    {
        if map.cell(up_row, col) > 1 {
            proof {
                // border cells hold 1, so a block cell is interior
                assert(map.at(up_row as int, 0) == 1);
                assert(map.at(up_row as int, 11) == 1);
            }
            contiguous_cells.push(col);
        } else {
            if contiguous_cells.len() > 0 {
                drop_group(map, up_row, &contiguous_cells);
                contiguous_cells = Vec::new();
            }
        }
        col += 1;
    }
}

/// Re-settle every row strictly above the lowest cleared row, from just
/// above it upward to the top.
#[verifier::loop_isolation(false)]
fn compact_above(map: &mut TetrisMap, lowest: usize)
    requires
        old(map).inv(),
        lowest < 22,
    ensures
        final(map).inv(),
        final(map).blocks() == old(map).blocks(),
        forall|c: int|
            0 <= c < 12 ==> col_blocks_below(*final(map), c, 0) == col_blocks_below(*old(map), c, 0),
        forall|c: int, b: int|
            0 <= c < 12 && 0 <= b ==> col_blocks_below(*final(map), c, b) >= col_blocks_below(
                *old(map),
                c,
                b,
            ),
{
    let mut up_row: usize = lowest;
    while up_row > 0
        invariant
            up_row <= lowest,
            map.inv(),
            map.blocks() == old(map).blocks(),
            forall|c: int|
                0 <= c < 12 ==> col_blocks_below(*map, c, 0) == col_blocks_below(*old(map), c, 0),
            forall|c: int, b: int|
                0 <= c < 12 && 0 <= b ==> col_blocks_below(*map, c, b) >= col_blocks_below(
                    *old(map),
                    c,
                    b,
                ),
        decreases up_row,
    {
        up_row -= 1;
        settle_row(map, up_row);
    }
}

/// Fields with the same cell contents agree on which rows are full.
proof fn lemma_row_full_congr(m1: TetrisMap, m2: TetrisMap, r: int)
    requires
        m1.cells@ == m2.cells@,
    ensures
        m1.row_full(r) == m2.row_full(r),
{
    if m1.row_full(r) {
        assert forall|c: int| 0 <= c < 12 implies #[trigger] m2.at(r, c) != 0 by {
            assert(m1.at(r, c) != 0);
        }
    }
    if m2.row_full(r) {
        assert forall|c: int| 0 <= c < 12 implies #[trigger] m1.at(r, c) != 0 by {
            assert(m2.at(r, c) != 0);
        }
    }
}

/// Fields with the same cell contents agree on the count of full rows.
proof fn lemma_full_rows_below_congr(m1: TetrisMap, m2: TetrisMap, upto: int)
    requires
        m1.cells@ == m2.cells@,
    ensures
        full_rows_below(m1, upto) == full_rows_below(m2, upto),
    decreases upto,
{
    if upto > 0 {
        lemma_full_rows_below_congr(m1, m2, upto - 1);
        lemma_row_full_congr(m1, m2, upto - 1);
    }
}

/// When the field's blocks are exactly those of its full rows (ten per full
/// row and no others), the clearing engine removes exactly those rows: its
/// block-count and drop-count guarantees leave only one possible count.
pub proof fn lemma_dropped_exact_when_blocks_match(m1: TetrisMap, m2: TetrisMap, dropped: int)
    requires
        m2.blocks() == m1.blocks() - 10 * dropped,
        0 <= m2.blocks(),
        dropped >= full_rows_below(m1, 22),
        m1.blocks() == 10 * full_rows_below(m1, 22),
    ensures
        dropped == full_rows_below(m1, 22),
{
}

impl TetrisEngine {
    /// Run the line-clearing engine after a piece has locked: clear full
    /// rows and re-settle the groups above them, repeating until no row is
    /// full, then award points and update the cleared count and the level.
    ///
    /// At least every row that was full is cleared; exactly ten block cells
    /// vanish per cleared row, one from each interior column, and within a
    /// column blocks only ever move straight down (the count at or below any
    /// row loses at most the cleared rows' share). The piece and the
    /// game-over flag are untouched, and nothing at all happens when no row
    /// was full to begin with.
    #[verifier::loop_isolation(false)]
    pub fn delete_full_rows(&mut self) -> (dropped: usize)
        requires
            old(self).inv(),
        ensures
            final(self).inv(),
            final(self).live_tetromino == old(self).live_tetromino,
            final(self).game_over == old(self).game_over,
            forall|r: int| 0 <= r < 22 ==> !final(self).tetris_map.row_full(r),
            final(self).tetris_map.blocks() == old(self).tetris_map.blocks() - 10 * dropped,
            0 <= final(self).tetris_map.blocks(),
            dropped >= full_rows_below(old(self).tetris_map, 22),
            (dropped == 0 <==> full_rows_below(old(self).tetris_map, 22) == 0),
            forall|c: int|
                1 <= c < 11 ==> col_blocks_below(final(self).tetris_map, c, 0) == col_blocks_below(
                    old(self).tetris_map,
                    c,
                    0,
                ) - dropped,
            forall|c: int, b: int|
                0 <= c < 12 && 0 <= b ==> col_blocks_below(final(self).tetris_map, c, b)
                    >= col_blocks_below(old(self).tetris_map, c, b) - dropped,
            dropped == 0 ==> final(self).tetris_map.cells@ == old(self).tetris_map.cells@,
            final(self).rows_cleared == (if old(self).rows_cleared + dropped <= usize::MAX {
                old(self).rows_cleared + dropped
            } else {
                usize::MAX as int
            }),
            final(self).level == final(self).rows_cleared as int / 10,
            final(self).score == (if old(self).score + award_math(
                dropped as int,
                old(self).level as int,
            ) <= usize::MAX {
                old(self).score + award_math(dropped as int, old(self).level as int)
            } else {
                usize::MAX as int
            }),
    {
        proof {
            crate::lemma_count_blocks_bounds(old(self).tetris_map.cells@);
        }
        let mut total: usize = 0;
        let mut again: bool = true;
        while again
            invariant
                self.live_tetromino == old(self).live_tetromino,
                self.game_over == old(self).game_over,
                self.score == old(self).score,
                self.level == old(self).level,
                self.rows_cleared == old(self).rows_cleared,
                self.tetris_map.inv(),
                self.tetris_map.blocks() == old(self).tetris_map.blocks() - 10 * total,
                total <= 27,
                total == 0 ==> self.tetris_map.cells@ == old(self).tetris_map.cells@,
                total > 0 ==> full_rows_below(old(self).tetris_map, 22) > 0,
                total > 0 ==> total >= full_rows_below(old(self).tetris_map, 22),
                forall|c: int|
                    1 <= c < 11 ==> col_blocks_below(self.tetris_map, c, 0) == col_blocks_below(
                        old(self).tetris_map,
                        c,
                        0,
                    ) - total,
                forall|c: int, b: int|
                    0 <= c < 12 && 0 <= b ==> col_blocks_below(self.tetris_map, c, b)
                        >= col_blocks_below(old(self).tetris_map, c, b) - total,
                !again ==> forall|r: int| 0 <= r < 22 ==> !self.tetris_map.row_full(r),
                !again && total == 0 ==> full_rows_below(old(self).tetris_map, 22) == 0,
            decreases self.tetris_map.blocks(), (if again {
                1int
            } else {
                0int
            }),
        {
            let ghost entry_map = self.tetris_map;
            let (d, lowest) = clear_pass(&mut self.tetris_map);
            proof {
                crate::lemma_count_blocks_bounds(self.tetris_map.cells@);
                if total == 0 {
                    lemma_full_rows_below_congr(entry_map, old(self).tetris_map, 22);
                }
                crate::lemma_full_rows_below_bounds(entry_map, 22);
            }
            if d > 0 {
                total = total + d;
                compact_above(&mut self.tetris_map, lowest);
            } else {
                again = false;
            }
        }
        proof {
            crate::lemma_count_blocks_bounds(self.tetris_map.cells@);
        }
        let dropped = total;
        let points = score_award(dropped, self.level);
        self.score = self.score.saturating_add(points);
        self.rows_cleared = self.rows_cleared.saturating_add(dropped);
        self.level = self.rows_cleared / 10;
        dropped
    }

    /// The piece the driver is about to drop can still descend one row.
    pub open spec fn can_descend(self) -> bool {
        self.live_tetromino.with_y(self.live_tetromino.y + 1).fits(self.tetris_map)
    }

    /// One scheduled fall step. The piece falls one row if it can; a piece
    /// blocked at the very top ends the game; otherwise the piece locks into
    /// the field, full rows are cleared and scored, and a new piece spawns.
    pub fn tick(&mut self)
        requires
            old(self).inv(),
        ensures
            final(self).inv(),
            old(self).can_descend() ==> *final(self) == (TetrisEngine {
                live_tetromino: old(self).live_tetromino.with_y(old(self).live_tetromino.y + 1),
                ..*old(self)
            }),
            !old(self).can_descend() && old(self).live_tetromino.y == 0 ==> *final(self) == (
            TetrisEngine { game_over: true, ..*old(self) }),
            !old(self).can_descend() && old(self).live_tetromino.y != 0 ==> {
                &&& final(self).game_over == old(self).game_over
                &&& final(self).live_tetromino.x == 4
                &&& final(self).live_tetromino.y == 0
                &&& final(self).live_tetromino.rot == 0
                &&& (forall|r: int| 0 <= r < 22 ==> !final(self).tetris_map.row_full(r))
                &&& final(self).score >= old(self).score
                &&& final(self).rows_cleared >= old(self).rows_cleared
                &&& exists|mid: TetrisMap, d: int|
                    #![trigger crate::tetromino::is_merge_of(mid, old(self).live_tetromino, old(self).tetris_map), award_math(d, old(self).level as int)]
                    {
                        &&& crate::tetromino::is_merge_of(
                            mid,
                            old(self).live_tetromino,
                            old(self).tetris_map,
                        )
                        &&& 0 <= d
                        &&& final(self).tetris_map.blocks() == count_blocks(mid.cells@) - 10 * d
                        &&& (forall|c: int|
                            1 <= c < 11 ==> col_blocks_below(final(self).tetris_map, c, 0)
                                == col_blocks_below(mid, c, 0) - d)
                        &&& (forall|c: int, b: int|
                            0 <= c < 12 && 0 <= b ==> col_blocks_below(final(self).tetris_map, c, b)
                                >= col_blocks_below(mid, c, b) - d)
                        &&& final(self).rows_cleared == (if old(self).rows_cleared + d
                            <= usize::MAX {
                            old(self).rows_cleared + d
                        } else {
                            usize::MAX as int
                        })
                        &&& final(self).level == final(self).rows_cleared as int / 10
                        &&& final(self).score == (if old(self).score + award_math(
                            d,
                            old(self).level as int,
                        ) <= usize::MAX {
                            old(self).score + award_math(d, old(self).level as int)
                        } else {
                            usize::MAX as int
                        })
                    }
            },
    {
        let moved = self.live_tetromino.down(&self.tetris_map);
        if !moved {
            if self.live_tetromino.y == 0 {
                self.game_over = true;
            } else {
                let p = self.live_tetromino;
                p.add_to_map(&mut self.tetris_map);
                let ghost mid = self.tetris_map;
                let d = self.delete_full_rows();
                self.live_tetromino = Tetromino::new();
                proof {
                    assert(crate::tetromino::is_merge_of(
                        mid,
                        old(self).live_tetromino,
                        old(self).tetris_map,
                    ));
                }
            }
        }
    }
}

} // verus!
