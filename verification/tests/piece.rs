use tetris::blank_tetris_map;
use tetris::tetromino::{variant_from, Tetromino, TetrominoType};

fn variants() -> [TetrominoType; 7] {
    [
        TetrominoType::I,
        TetrominoType::J,
        TetrominoType::L,
        TetrominoType::O,
        TetrominoType::S,
        TetrominoType::T,
        TetrominoType::Z,
    ]
}

#[test]
fn spawn_position_fits_all_variants_on_blank_grid() {
    let map = blank_tetris_map();
    for v in variants() {
        let piece = Tetromino { variant: v, x: 4, y: 0, rot: 0 };
        assert!(piece.check(&map), "variant {:?} should fit at spawn", v);
    }
}

#[test]
fn check_rejects_cell_collision() {
    let mut map = blank_tetris_map();
    map.set_cell(1, 5, 2);
    // the I piece at spawn covers row 1, columns 4..=7
    let piece = Tetromino { variant: TetrominoType::I, x: 4, y: 0, rot: 0 };
    assert!(!piece.check(&map));
    // the O piece at spawn covers rows 0..=1, columns 5..=6
    let piece = Tetromino { variant: TetrominoType::O, x: 4, y: 0, rot: 0 };
    assert!(!piece.check(&map));
    // a piece elsewhere is not affected
    let piece = Tetromino { variant: TetrominoType::O, x: 7, y: 0, rot: 0 };
    assert!(piece.check(&map));
}

#[test]
fn check_rejects_border_collision() {
    let map = blank_tetris_map();
    // the J piece at x = 0 covers column 0, the left border
    let piece = Tetromino { variant: TetrominoType::J, x: 0, y: 0, rot: 0 };
    assert!(!piece.check(&map));
    // the floor blocks the I piece lying on row 22
    let piece = Tetromino { variant: TetrominoType::I, x: 4, y: 21, rot: 0 };
    assert!(!piece.check(&map));
}

#[test]
fn rotating_four_times_restores_the_piece() {
    let map = blank_tetris_map();
    for v in variants() {
        let original = Tetromino { variant: v, x: 5, y: 8, rot: 0 };
        let mut piece = original;
        for _ in 0..4 {
            piece.rotate(&map);
        }
        assert_eq!(piece, original, "variant {:?} after four quarter turns", v);
    }
}

#[test]
fn blocked_rotation_advances_two_states() {
    let map = blank_tetris_map();
    // the I piece lying just above the floor cannot stand upright: the first
    // quarter turn collides with the floor, so the rotation advances again
    let mut piece = Tetromino { variant: TetrominoType::I, x: 4, y: 20, rot: 0 };
    piece.rotate(&map);
    assert_eq!(piece.rot, 2);
    assert_eq!(piece.x, 4);
    assert_eq!(piece.y, 20);
}

#[test]
fn left_stops_at_the_wall() {
    let map = blank_tetris_map();
    let mut piece = Tetromino { variant: TetrominoType::O, x: 4, y: 0, rot: 0 };
    for _ in 0..10 {
        piece.left(&map);
    }
    // the O template occupies columns 1..=2 of its own frame, so the anchor
    // itself may reach column 0 and the guard refuses to go further
    assert_eq!(piece.x, 0);
}

#[test]
fn right_stops_at_the_wall() {
    let map = blank_tetris_map();
    let mut piece = Tetromino { variant: TetrominoType::O, x: 4, y: 0, rot: 0 };
    for _ in 0..10 {
        piece.right(&map);
    }
    // at x = 9 the O piece would cover column 11, the right border
    assert_eq!(piece.x, 8);
}

#[test]
fn blocked_move_is_a_silent_no_op() {
    let mut map = blank_tetris_map();
    map.set_cell(0, 4, 2);
    map.set_cell(1, 4, 2);
    map.set_cell(0, 7, 2);
    map.set_cell(1, 7, 2);
    let mut piece = Tetromino { variant: TetrominoType::O, x: 4, y: 0, rot: 0 };
    piece.left(&map);
    assert_eq!(piece.x, 4);
    piece.right(&map);
    assert_eq!(piece.x, 4);
}

#[test]
fn down_descends_until_the_floor() {
    let map = blank_tetris_map();
    let mut piece = Tetromino { variant: TetrominoType::O, x: 4, y: 0, rot: 0 };
    let mut steps = 0;
    while piece.down(&map) {
        steps += 1;
    }
    assert_eq!(steps, 20);
    assert_eq!(piece.y, 20);
    // a further step is still refused and changes nothing
    assert!(!piece.down(&map));
    assert_eq!(piece.y, 20);
}

#[test]
fn merge_writes_the_color_on_exactly_the_covered_cells() {
    let mut map = blank_tetris_map();
    let piece = Tetromino { variant: TetrominoType::O, x: 4, y: 0, rot: 0 };
    piece.add_to_map(&mut map);
    let mut nonzero = 0;
    for r in 0..22 {
        for c in 1..11 {
            if map.cell(r, c) != 0 {
                nonzero += 1;
            }
        }
    }
    assert_eq!(nonzero, 4);
    assert_eq!(map.cell(0, 5), 5);
    assert_eq!(map.cell(0, 6), 5);
    assert_eq!(map.cell(1, 5), 5);
    assert_eq!(map.cell(1, 6), 5);
}

#[test]
fn merge_leaves_occupied_cells_untouched() {
    let mut map = blank_tetris_map();
    map.set_cell(0, 5, 3);
    let piece = Tetromino { variant: TetrominoType::O, x: 4, y: 0, rot: 0 };
    piece.add_to_map(&mut map);
    assert_eq!(map.cell(0, 5), 3);
    assert_eq!(map.cell(0, 6), 5);
    assert_eq!(map.cell(1, 5), 5);
    assert_eq!(map.cell(1, 6), 5);
}

#[test]
fn spawned_pieces_start_top_center_and_vary() {
    let mut seen = [false; 7];
    for _ in 0..200 {
        let piece = Tetromino::new();
        assert_eq!(piece.x, 4);
        assert_eq!(piece.y, 0);
        assert_eq!(piece.rot, 0);
        let idx = match piece.variant {
            TetrominoType::I => 0,
            TetrominoType::J => 1,
            TetrominoType::L => 2,
            TetrominoType::O => 3,
            TetrominoType::S => 4,
            TetrominoType::T => 5,
            TetrominoType::Z => 6,
        };
        seen[idx] = true;
    }
    let distinct = seen.iter().filter(|s| **s).count();
    assert!(distinct >= 2, "200 random spawns gave a single variant");
}

#[test]
fn drawn_indices_map_to_the_variants_in_order() {
    // a deterministic index sequence drives the variant selection directly
    for (i, want) in variants().iter().enumerate() {
        assert_eq!(variant_from(i as u8), *want);
    }
    // anything out of range falls back to Z, as the drawn index never is
    assert_eq!(variant_from(7), TetrominoType::Z);
    assert_eq!(variant_from(200), TetrominoType::Z);
}

#[test]
fn color_codes_identify_the_variants() {
    let expected: [u8; 7] = [2, 3, 4, 5, 6, 7, 8];
    for (v, want) in variants().iter().zip(expected.iter()) {
        assert_eq!(v.color_code(), *want);
    }
}

#[test]
fn template_maps_have_four_blocks_each() {
    for v in variants() {
        let m = v.map();
        let blocks: u8 = m.iter().map(|row| row.iter().sum::<u8>()).sum();
        assert_eq!(blocks, 4, "variant {:?}", v);
    }
}
