//! The active falling piece: the seven shapes, their 2x4 occupancy templates,
//! the four rotation transforms, collision checking against the field, and the
//! move / rotate / fall commands.

use crate::TetrisMap;
use vstd::prelude::*;

verus! {

/// The seven tetromino shapes.
#[derive(Copy, Clone, Debug, PartialEq, Eq, Structural)]
pub enum TetrominoType {
    I,
    J,
    L,
    O,
    S,
    T,
    Z,
}

/// True where the 2x4 occupancy template of the given variant holds a block.
pub open spec fn template_filled(v: TetrominoType, row: int, col: int) -> bool {
    match v {
        TetrominoType::I => row == 1 && 0 <= col < 4,
        TetrominoType::J => (row == 0 && 0 <= col < 3) || (row == 1 && col == 2),
        TetrominoType::L => (row == 0 && 0 <= col < 3) || (row == 1 && col == 0),
        TetrominoType::O => (row == 0 || row == 1) && (col == 1 || col == 2),
        TetrominoType::S => (row == 0 && (col == 1 || col == 2)) || (row == 1 && (col == 0 || col
            == 1)),
        TetrominoType::T => (row == 0 && 0 <= col < 3) || (row == 1 && col == 1),
        TetrominoType::Z => (row == 0 && (col == 0 || col == 1)) || (row == 1 && (col == 1 || col
            == 2)),
    }
}

/// A template cell that is filled for the given variant.
pub open spec fn template_witness(v: TetrominoType) -> (int, int) {
    match v {
        TetrominoType::I => (1int, 0int),
        TetrominoType::J => (0int, 0int),
        TetrominoType::L => (0int, 0int),
        TetrominoType::O => (0int, 1int),
        TetrominoType::S => (0int, 1int),
        TetrominoType::T => (0int, 0int),
        TetrominoType::Z => (0int, 0int),
    }
}

pub proof fn lemma_template_nonempty(v: TetrominoType)
    ensures
        0 <= template_witness(v).0 < 2,
        0 <= template_witness(v).1 < 4,
        template_filled(v, template_witness(v).0, template_witness(v).1),
{
}

impl TetrominoType {
    /// Cell code a locked piece of this variant leaves on the field.
    pub open spec fn color(self) -> u8 {
        match self {
            TetrominoType::I => 2,
            TetrominoType::J => 3,
            TetrominoType::L => 4,
            TetrominoType::O => 5,
            TetrominoType::S => 6,
            TetrominoType::T => 7,
            TetrominoType::Z => 8,
        }
    }

    /// Executable counterpart of [`Self::color`].
    pub fn color_code(&self) -> (code: u8)
        ensures
            code == self.color(),
            2 <= code <= 8,
    {
        match self {
            TetrominoType::I => 2,
            TetrominoType::J => 3,
            TetrominoType::L => 4,
            TetrominoType::O => 5,
            TetrominoType::S => 6,
            TetrominoType::T => 7,
            TetrominoType::Z => 8,
        }
    }

    /// The 2x4 binary occupancy template of this variant: `1` exactly on the
    /// filled cells, `0` everywhere else.
    pub fn map(&self) -> (m: [[u8; 4]; 2])
        ensures
            forall|r: int, c: int|
                0 <= r < 2 && 0 <= c < 4 ==> (#[trigger] m@[r]@[c]) == (if template_filled(
                    *self,
                    r,
                    c,
                ) {
                    1u8
                } else {
                    0u8
                }),
    {
        match self {
            TetrominoType::I => [[0, 0, 0, 0], [1, 1, 1, 1]],
            TetrominoType::J => [[1, 1, 1, 0], [0, 0, 1, 0]],
            TetrominoType::L => [[1, 1, 1, 0], [1, 0, 0, 0]],
            TetrominoType::O => [[0, 1, 1, 0], [0, 1, 1, 0]],
            TetrominoType::S => [[0, 1, 1, 0], [1, 1, 0, 0]],
            TetrominoType::T => [[1, 1, 1, 0], [0, 1, 0, 0]],
            TetrominoType::Z => [[1, 1, 0, 0], [0, 1, 1, 0]],
        }
    }
}

/// The active falling piece: variant, top-left anchor, rotation state.
#[derive(Copy, Clone, Debug, PartialEq, Eq, Structural)]
pub struct Tetromino {
    pub variant: TetrominoType,
    pub x: usize,
    pub y: usize,
    /// Number of quarter turns, always in `0..=3`.
    pub rot: usize,
}

impl Tetromino {
    /// The ranges the movement guards keep the anchor within.
    pub open spec fn wf(self) -> bool {
        self.rot < 4 && self.x <= 12 && self.y <= 23
    }

    /// Grid row hit by template cell `(row, col)` under this piece's rotation.
    pub open spec fn hit_row(self, row: int, col: int) -> int {
        if self.rot == 0 {
            self.y + row
        } else if self.rot == 1 {
            self.y + col
        } else if self.rot == 2 {
            self.y + 1 - row
        } else {
            self.y + 3 - col
        }
    }

    /// Grid column hit by template cell `(row, col)` under this piece's rotation.
    pub open spec fn hit_col(self, row: int, col: int) -> int {
        if self.rot == 0 {
            self.x + col
        } else if self.rot == 1 {
            self.x + 1 - row
        } else if self.rot == 2 {
            self.x + 2 - col
        } else {
            self.x + row
        }
    }

    /// The piece covers absolute grid cell `(r, c)`.
    pub open spec fn occupies(self, r: int, c: int) -> bool {
        exists|row: int, col: int|
            0 <= row < 2 && 0 <= col < 4 && #[trigger] template_filled(self.variant, row, col)
                && self.hit_row(row, col) == r && self.hit_col(row, col) == c
    }

    /// Every covered cell lies on the field and is empty there.
    pub open spec fn fits(self, m: TetrisMap) -> bool {
        forall|row: int, col: int|
            0 <= row < 2 && 0 <= col < 4 && #[trigger] template_filled(self.variant, row, col)
                ==> 0 <= self.hit_row(row, col) < 23 && 0 <= self.hit_col(row, col) < 12 && m.at(
                self.hit_row(row, col),
                self.hit_col(row, col),
            ) == 0
    }

    /// The same piece with its anchor column replaced.
    pub open spec fn with_x(self, nx: int) -> Self {
        Tetromino { x: nx as usize, ..self }
    }

    /// The same piece with its anchor row replaced.
    pub open spec fn with_y(self, ny: int) -> Self {
        Tetromino { y: ny as usize, ..self }
    }

    /// The same piece turned one quarter turn clockwise.
    pub open spec fn turned(self) -> Self {
        Tetromino { rot: (((self.rot + 1) as int) % 4) as usize, ..self }
    }
}

/// A piece that fits somewhere on the field cannot sit below row 22.
pub proof fn lemma_fits_row_bound(p: Tetromino, m: TetrisMap)
    requires
        p.fits(m),
    ensures
        p.y <= 22,
{
    let w = template_witness(p.variant);
    lemma_template_nonempty(p.variant);
    assert(p.hit_row(w.0, w.1) < 23);
    assert(p.hit_row(w.0, w.1) >= p.y);
}

impl Tetromino {
    /// Absolute cell hit by template cell `(row, col)`, if it lies on the field.
    fn target(&self, row: usize, col: usize) -> (t: Option<(usize, usize)>)
        requires
            self.rot < 4,
            row < 2,
            col < 4,
            self.x <= 12,
            self.y <= 24,
        ensures
            (match t {
                Some(p) => p.0 == self.hit_row(row as int, col as int) && p.1 == self.hit_col(
                    row as int,
                    col as int,
                ) && p.0 < 23 && p.1 < 12,
                None => !(0 <= self.hit_row(row as int, col as int) < 23 && 0 <= self.hit_col(
                    row as int,
                    col as int,
                ) < 12),
            }),
    {
        if self.rot == 0 {
            let r: usize = self.y + row;
            let c: usize = self.x + col;
            if r < 23 && c < 12 {
                Some((r, c))
            } else {
                None
            }
        } else if self.rot == 1 {
            let r: usize = self.y + col;
            let c: usize = self.x + 1 - row;
            if r < 23 && c < 12 {
                Some((r, c))
            } else {
                None
            }
        } else if self.rot == 2 {
            let r: usize = self.y + 1 - row;
            if self.x + 2 < col {
                return None;
            }
            let c: usize = self.x + 2 - col;
            if r < 23 && c < 12 {
                Some((r, c))
            } else {
                None
            }
        } else {
            let r: usize = self.y + 3 - col;
            let c: usize = self.x + row;
            if r < 23 && c < 12 {
                Some((r, c))
            } else {
                None
            }
        }
    }

    /// True iff the piece, as currently placed, collides with nothing:
    /// every covered cell is on the field and empty.
    #[verifier::loop_isolation(false)]
    pub fn check(&self, tetris_map: &TetrisMap) -> (ok: bool)
        requires
            self.rot < 4,
            self.x <= 12,
            self.y <= 24,
            tetris_map.wf(),
        ensures
            ok == self.fits(*tetris_map),
    {
        let tetromino_map = self.variant.map();
        let mut row: usize = 0;
        while row < 2
            invariant
                row <= 2,
                forall|rr: int, cc: int|
                    0 <= rr < row as int && 0 <= cc < 4 && #[trigger] template_filled(
                        self.variant,
                        rr,
                        cc,
                    ) ==> 0 <= self.hit_row(rr, cc) < 23 && 0 <= self.hit_col(rr, cc) < 12
                        && tetris_map.at(self.hit_row(rr, cc), self.hit_col(rr, cc)) == 0,
            decreases 2 - row,
        {
            let mut col: usize = 0;
            while col < 4
                invariant
                    row < 2,
                    col <= 4,
                    forall|rr: int, cc: int|
                        0 <= rr < row as int && 0 <= cc < 4 && #[trigger] template_filled(
                            self.variant,
                            rr,
                            cc,
                        ) ==> 0 <= self.hit_row(rr, cc) < 23 && 0 <= self.hit_col(rr, cc) < 12
                            && tetris_map.at(self.hit_row(rr, cc), self.hit_col(rr, cc)) == 0,
                    forall|cc: int|
                        0 <= cc < col as int && #[trigger] template_filled(
                            self.variant,
                            row as int,
                            cc,
                        ) ==> 0 <= self.hit_row(row as int, cc) < 23 && 0 <= self.hit_col(
                            row as int,
                            cc,
                        ) < 12 && tetris_map.at(
                            self.hit_row(row as int, cc),
                            self.hit_col(row as int, cc),
                        ) == 0,
                decreases 4 - col,
            {
                if tetromino_map[row][col] == 1 {
                    match self.target(row, col) {
                        None => {
                            return false;
                        },
                        Some((r, c)) => {
                            if tetris_map.cell(r, c) != 0 {
                                return false;
                            }
                        },
                    }
                }
                col += 1;
            }
            row += 1;
        }
        true
    }

    /// Advance one quarter turn; if the new state collides, advance one more
    /// quarter turn without a further check (the engine's deliberate
    /// try-next-state policy instead of a revert).
    pub fn rotate(&mut self, tetris_map: &TetrisMap)
        requires
            old(self).wf(),
            tetris_map.wf(),
        ensures
            final(self).wf(),
            final(self).variant == old(self).variant,
            final(self).x == old(self).x,
            final(self).y == old(self).y,
            old(self).turned().fits(*tetris_map) ==> *final(self) == old(self).turned(),
            !old(self).turned().fits(*tetris_map) ==> *final(self) == old(self).turned().turned(),
    {
        self.rot = (self.rot + 1) % 4;
        if !self.check(tetris_map) {
            self.rot = (self.rot + 1) % 4;
        }
    }

    /// Move one column to the left unless the border guard or a collision
    /// forbids it; a refused move leaves the piece unchanged.
    pub fn left(&mut self, tetris_map: &TetrisMap)
        requires
            old(self).wf(),
            tetris_map.wf(),
        ensures
            final(self).wf(),
            old(self).x > 0 && old(self).with_x(old(self).x - 1).fits(*tetris_map) ==> *final(self)
                == old(self).with_x(old(self).x - 1),
            !(old(self).x > 0 && old(self).with_x(old(self).x - 1).fits(*tetris_map))
                ==> *final(self) == *old(self),
    {
        if self.x > 0 {
            self.x -= 1;
            if !self.check(tetris_map) {
                self.x += 1;
            }
        }
    }

    /// Move one column to the right unless the border guard or a collision
    /// forbids it; a refused move leaves the piece unchanged.
    pub fn right(&mut self, tetris_map: &TetrisMap)
        requires
            old(self).wf(),
            tetris_map.wf(),
        ensures
            final(self).wf(),
            old(self).x < 12 && old(self).with_x(old(self).x + 1).fits(*tetris_map) ==> *final(self)
                == old(self).with_x(old(self).x + 1),
            !(old(self).x < 12 && old(self).with_x(old(self).x + 1).fits(*tetris_map))
                ==> *final(self) == *old(self),
    {
        if self.x < 12 {
            self.x += 1;
            if !self.check(tetris_map) {
                self.x -= 1;
            }
        }
    }

    /// Fall one row. Returns `false`, leaving the piece unchanged, when the
    /// row below is blocked: the caller must then lock the piece.
    pub fn down(&mut self, tetris_map: &TetrisMap) -> (moved: bool)
        requires
            old(self).wf(),
            tetris_map.wf(),
        ensures
            final(self).wf(),
            moved == old(self).with_y(old(self).y + 1).fits(*tetris_map),
            moved ==> *final(self) == old(self).with_y(old(self).y + 1),
            !moved ==> *final(self) == *old(self),
    {
        self.y += 1;
        if !self.check(tetris_map) {
            self.y -= 1;
            return false;
        }
        proof {
            lemma_fits_row_bound(*self, *tetris_map);
        }
        true
    }

    /// Lock the piece into the field: write its color code to every covered
    /// cell that is still empty; no other cell changes.
    #[verifier::loop_isolation(false)]
    pub fn add_to_map(&self, tetris_map: &mut TetrisMap)
        requires
            self.rot < 4,
            self.x <= 12,
            self.y <= 24,
            old(tetris_map).inv(),
        ensures
            final(tetris_map).inv(),
            is_merge_of(*final(tetris_map), *self, *old(tetris_map)),
            final(tetris_map).blocks() >= old(tetris_map).blocks(),
    {
        let color_code = self.variant.color_code();
        let tetromino_map = self.variant.map();
        let mut row: usize = 0;
        while row < 2
            invariant
                row <= 2,
                tetris_map.inv(),
                tetris_map.blocks() >= old(tetris_map).blocks(),
                // every cell is either untouched or was empty and now carries the color
                forall|r: int, c: int|
                    0 <= r < 23 && 0 <= c < 12 ==> #[trigger] tetris_map.at(r, c) == old(
                        tetris_map,
                    ).at(r, c) || (self.occupies(r, c) && old(tetris_map).at(r, c) == 0
                        && tetris_map.at(r, c) == self.variant.color()),
                // every processed template cell has been merged
                forall|rr: int, cc: int|
                    0 <= rr < row as int && 0 <= cc < 4 && #[trigger] template_filled(
                        self.variant,
                        rr,
                        cc,
                    ) && 0 <= self.hit_row(rr, cc) < 23 && 0 <= self.hit_col(rr, cc) < 12 && old(
                        tetris_map,
                    ).at(self.hit_row(rr, cc), self.hit_col(rr, cc)) == 0 ==> tetris_map.at(
                        self.hit_row(rr, cc),
                        self.hit_col(rr, cc),
                    ) == self.variant.color(),
            decreases 2 - row,
        {
            let mut col: usize = 0;
            while col < 4
                invariant
                    row < 2,
                    col <= 4,
                    tetris_map.inv(),
                    tetris_map.blocks() >= old(tetris_map).blocks(),
                    forall|r: int, c: int|
                        0 <= r < 23 && 0 <= c < 12 ==> #[trigger] tetris_map.at(r, c) == old(
                            tetris_map,
                        ).at(r, c) || (self.occupies(r, c) && old(tetris_map).at(r, c) == 0
                            && tetris_map.at(r, c) == self.variant.color()),
                    forall|rr: int, cc: int|
                        0 <= rr < row as int && 0 <= cc < 4 && #[trigger] template_filled(
                            self.variant,
                            rr,
                            cc,
                        ) && 0 <= self.hit_row(rr, cc) < 23 && 0 <= self.hit_col(rr, cc) < 12
                            && old(tetris_map).at(self.hit_row(rr, cc), self.hit_col(rr, cc)) == 0
                            ==> tetris_map.at(self.hit_row(rr, cc), self.hit_col(rr, cc))
                            == self.variant.color(),
                    forall|cc: int|
                        0 <= cc < col as int && #[trigger] template_filled(
                            self.variant,
                            row as int,
                            cc,
                        ) && 0 <= self.hit_row(row as int, cc) < 23 && 0 <= self.hit_col(
                            row as int,
                            cc,
                        ) < 12 && old(tetris_map).at(
                            self.hit_row(row as int, cc),
                            self.hit_col(row as int, cc),
                        ) == 0 ==> tetris_map.at(
                            self.hit_row(row as int, cc),
                            self.hit_col(row as int, cc),
                        ) == self.variant.color(),
                decreases 4 - col,
            {
                if tetromino_map[row][col] == 1 {
                    match self.target(row, col) {
                        None => {
                        },
                        Some((r, c)) => {
                            if tetris_map.cell(r, c) == 0 {
                                proof {
                                    // the written cell is covered by the piece
                                    assert(self.occupies(r as int, c as int));
                                    // a currently empty cell was empty from the start
                                    assert(old(tetris_map).at(r as int, c as int) == 0);
                                }
                                tetris_map.set_cell(r, c, color_code);
                            }
                        },
                    }
                }
                col += 1;
            }
            row += 1;
        }
        proof {
            assert forall|r: int, c: int| 0 <= r < 23 && 0 <= c < 12 implies #[trigger] tetris_map
                .at(r, c) == (if self.occupies(r, c) && old(tetris_map).at(r, c) == 0 {
                self.variant.color()
            } else {
                old(tetris_map).at(r, c)
            }) by {
                if self.occupies(r, c) && old(tetris_map).at(r, c) == 0 {
                    let (row, col): (int, int) = choose|row: int, col: int|
                        0 <= row < 2 && 0 <= col < 4 && #[trigger] template_filled(
                            self.variant,
                            row,
                            col,
                        ) && self.hit_row(row, col) == r && self.hit_col(row, col) == c;
                    assert(tetris_map.at(r, c) == self.variant.color());
                }
            }
        }
    }
}

/// `merged` is `base` with the piece's color code written into every cell the
/// piece covers that was empty in `base`, and nothing else changed.
pub open spec fn is_merge_of(merged: TetrisMap, p: Tetromino, base: TetrisMap) -> bool {
    forall|r: int, c: int|
        0 <= r < 23 && 0 <= c < 12 ==> #[trigger] merged.at(r, c) == (if p.occupies(r, c) && base.at(
            r,
            c,
        ) == 0 {
            p.variant.color()
        } else {
            base.at(r, c)
        })
}

/// Locking a piece that fits writes its color exactly on the covered cells
/// and leaves every other cell as it was.
pub proof fn lemma_merge_of_fitting(merged: TetrisMap, p: Tetromino, base: TetrisMap)
    requires
        is_merge_of(merged, p, base),
        p.fits(base),
    ensures
        forall|r: int, c: int|
            0 <= r < 23 && 0 <= c < 12 && p.occupies(r, c) ==> #[trigger] merged.at(r, c)
                == p.variant.color(),
        forall|r: int, c: int|
            0 <= r < 23 && 0 <= c < 12 && !p.occupies(r, c) ==> #[trigger] merged.at(r, c)
                == base.at(r, c),
{
    assert forall|r: int, c: int| 0 <= r < 23 && 0 <= c < 12 && p.occupies(r, c) implies #[trigger] merged
        .at(r, c) == p.variant.color() by {
        let (row, col): (int, int) = choose|row: int, col: int|
            0 <= row < 2 && 0 <= col < 4 && #[trigger] template_filled(p.variant, row, col)
                && p.hit_row(row, col) == r && p.hit_col(row, col) == c;
        assert(base.at(r, c) == 0);
    }
}

/// Four quarter turns bring a piece back to its original state, and with it
/// to its original set of covered cells.
pub proof fn lemma_rotate_four_times(p: Tetromino)
    requires
        p.rot < 4,
    ensures
        p.turned().turned().turned().turned() == p,
        forall|r: int, c: int| p.turned().turned().turned().turned().occupies(r, c)
            == p.occupies(r, c),
{
}

/// A fresh field accepts the spawn position for every one of the seven
/// variants in rotation state 0.
pub proof fn lemma_spawn_fits(v: TetrominoType, m: TetrisMap)
    requires
        m.is_blank(),
    ensures
        (Tetromino { variant: v, x: 4, y: 0, rot: 0 }).fits(m),
{
    let p = Tetromino { variant: v, x: 4, y: 0, rot: 0 };
    assert forall|row: int, col: int|
        0 <= row < 2 && 0 <= col < 4 && #[trigger] template_filled(v, row, col) implies 0
        <= p.hit_row(row, col) < 23 && 0 <= p.hit_col(row, col) < 12 && m.at(
        p.hit_row(row, col),
        p.hit_col(row, col),
    ) == 0 by {
        assert(p.hit_row(row, col) == row);
        assert(p.hit_col(row, col) == 4 + col);
    }
}

/// Relies on `rand::random_range` over `0..n`: the thread-local generator
/// returns a value of the half-open range, which is non-empty since `n >= 1`.
#[verifier::external_body]
fn random_below(n: u8) -> (r: u8)
    requires
        1 <= n,
    ensures
        r < n,
{
    rand::random_range(0..n)
}

/// The variant a drawn index selects: indices 0 to 6 enumerate the seven
/// shapes in order; anything larger falls back to Z.
pub open spec fn variant_of_index(i: int) -> TetrominoType {
    if i == 0 {
        TetrominoType::I
    } else if i == 1 {
        TetrominoType::J
    } else if i == 2 {
        TetrominoType::L
    } else if i == 3 {
        TetrominoType::O
    } else if i == 4 {
        TetrominoType::S
    } else if i == 5 {
        TetrominoType::T
    } else {
        TetrominoType::Z
    }
}

/// Map a drawn index to its variant; a deterministic test can feed any
/// sequence of indices through this function.
pub fn variant_from(i: u8) -> (v: TetrominoType)
    ensures
        v == variant_of_index(i as int),
{
    if i == 0 {
        TetrominoType::I
    } else if i == 1 {
        TetrominoType::J
    } else if i == 2 {
        TetrominoType::L
    } else if i == 3 {
        TetrominoType::O
    } else if i == 4 {
        TetrominoType::S
    } else if i == 5 {
        TetrominoType::T
    } else {
        TetrominoType::Z
    }
}

impl Tetromino {
    /// Spawn a fresh piece: a variant chosen at random, anchored at the fixed
    /// top-center position, in rotation state 0.
    pub fn new() -> (t: Self)
        ensures
            t.wf(),
            t.x == 4,
            t.y == 0,
            t.rot == 0,
    {
        let i: u8 = random_below(7);
        let variant = variant_from(i);
        Tetromino { variant, x: 4, y: 0, rot: 0 }
    }
}

} // verus!
