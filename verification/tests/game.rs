use tetris::blank_tetris_map;
use tetris::engine::{score_award, TetrisEngine};
use tetris::tetromino::{Tetromino, TetrominoType};
use tetris::TetrisMap;

fn fill_row(map: &mut TetrisMap, r: usize) {
    for c in 1..11 {
        map.set_cell(r, c, 2);
    }
}

fn assert_border_intact(map: &TetrisMap) {
    for r in 0..23 {
        assert_eq!(map.cell(r, 0), 1, "left border broken in row {}", r);
        assert_eq!(map.cell(r, 11), 1, "right border broken in row {}", r);
    }
    for c in 0..12 {
        assert_eq!(map.cell(22, c), 1, "floor broken in column {}", c);
    }
}

#[test]
fn blank_map_has_borders_floor_and_empty_interior() {
    let map = blank_tetris_map();
    assert_border_intact(&map);
    for r in 0..22 {
        for c in 1..11 {
            assert_eq!(map.cell(r, c), 0);
        }
    }
}

#[test]
fn scoring_follows_the_line_count_table() {
    assert_eq!(score_award(0, 0), 0);
    assert_eq!(score_award(1, 0), 40);
    assert_eq!(score_award(2, 0), 100);
    assert_eq!(score_award(3, 0), 300);
    assert_eq!(score_award(4, 0), 1200);
    assert_eq!(score_award(1, 1), 80);
    assert_eq!(score_award(3, 1), 600);
    assert_eq!(score_award(4, 2), 3600);
    // more than four rows at once is never awarded
    assert_eq!(score_award(5, 3), 0);
    assert_eq!(score_award(0, 9), 0);
}

#[test]
fn clearing_nothing_changes_nothing() {
    let mut engine = TetrisEngine::new();
    let before = engine.tetris_map.cells.clone();
    let dropped = engine.delete_full_rows();
    assert_eq!(dropped, 0);
    assert_eq!(engine.score, 0);
    assert_eq!(engine.rows_cleared, 0);
    assert_eq!(engine.level, 0);
    assert_eq!(engine.tetris_map.cells, before);
}

#[test]
fn clearing_two_full_rows_drops_a_group_two_rows() {
    let mut engine = TetrisEngine::new();
    // exactly rows 5 and 6 are full
    fill_row(&mut engine.tetris_map, 5);
    fill_row(&mut engine.tetris_map, 6);
    // a two-cell group above the cleared rows ...
    engine.tetris_map.set_cell(4, 3, 3);
    engine.tetris_map.set_cell(4, 4, 3);
    // ... with a foothold two rows further down
    engine.tetris_map.set_cell(7, 3, 2);
    engine.tetris_map.set_cell(7, 4, 2);

    let dropped = engine.delete_full_rows();

    assert_eq!(dropped, 2);
    assert_eq!(engine.score, 100);
    assert_eq!(engine.rows_cleared, 2);
    assert_eq!(engine.level, 0);
    // both cleared rows are the canonical empty row again
    for c in 1..11 {
        assert_eq!(engine.tetris_map.cell(5, c), 0);
    }
    // the group fell exactly two rows, onto its foothold
    assert_eq!(engine.tetris_map.cell(4, 3), 0);
    assert_eq!(engine.tetris_map.cell(4, 4), 0);
    assert_eq!(engine.tetris_map.cell(6, 3), 3);
    assert_eq!(engine.tetris_map.cell(6, 4), 3);
    assert_eq!(engine.tetris_map.cell(7, 3), 2);
    assert_eq!(engine.tetris_map.cell(7, 4), 2);
    assert_border_intact(&engine.tetris_map);
}

#[test]
fn group_gravity_can_leave_a_gap_under_an_overhang() {
    let mut engine = TetrisEngine::new();
    fill_row(&mut engine.tetris_map, 10);
    // a three-cell group whose left column finds a foothold right below;
    // the whole group stops there, leaving the cells under its right end open
    engine.tetris_map.set_cell(9, 2, 4);
    engine.tetris_map.set_cell(9, 3, 4);
    engine.tetris_map.set_cell(9, 4, 4);
    engine.tetris_map.set_cell(11, 2, 6);

    let dropped = engine.delete_full_rows();

    assert_eq!(dropped, 1);
    // the group moved one row down as a rigid unit and was stopped by the
    // single block under its left column
    assert_eq!(engine.tetris_map.cell(10, 2), 4);
    assert_eq!(engine.tetris_map.cell(10, 3), 4);
    assert_eq!(engine.tetris_map.cell(10, 4), 4);
    assert_eq!(engine.tetris_map.cell(11, 3), 0);
    assert_eq!(engine.tetris_map.cell(11, 4), 0);
}

#[test]
fn level_rises_when_the_tenth_row_clears() {
    let mut engine = TetrisEngine::new();
    engine.rows_cleared = 9;
    engine.level = 0;
    fill_row(&mut engine.tetris_map, 21);
    let dropped = engine.delete_full_rows();
    assert_eq!(dropped, 1);
    assert_eq!(engine.rows_cleared, 10);
    assert_eq!(engine.level, 1);
    assert_eq!(engine.score, 40);
}

#[test]
fn twenty_nine_cleared_rows_mean_level_two() {
    let mut engine = TetrisEngine::new();
    engine.rows_cleared = 25;
    engine.level = 2;
    for r in 18..22 {
        fill_row(&mut engine.tetris_map, r);
    }
    let dropped = engine.delete_full_rows();
    assert_eq!(dropped, 4);
    assert_eq!(engine.rows_cleared, 29);
    assert_eq!(engine.level, 2);
    // four rows at once on level 2: 1200 * 3
    assert_eq!(engine.score, 3600);
}

#[test]
fn o_piece_dropped_on_a_blank_grid_rests_on_the_floor() {
    let mut map = blank_tetris_map();
    let mut piece = Tetromino { variant: TetrominoType::O, x: 4, y: 0, rot: 0 };
    while piece.down(&map) {}
    piece.add_to_map(&mut map);

    let mut nonzero = Vec::new();
    for r in 0..22 {
        for c in 1..11 {
            if map.cell(r, c) != 0 {
                nonzero.push((r, c));
            }
        }
    }
    // a 2x2 block resting on the floor row
    assert_eq!(nonzero, vec![(20, 5), (20, 6), (21, 5), (21, 6)]);
    for (r, c) in nonzero {
        assert_eq!(map.cell(r, c), 5);
    }

    let mut engine = TetrisEngine {
        tetris_map: map,
        live_tetromino: Tetromino::new(),
        score: 0,
        level: 0,
        rows_cleared: 0,
        game_over: false,
    };
    let dropped = engine.delete_full_rows();
    assert_eq!(dropped, 0);
    assert_border_intact(&engine.tetris_map);
}

#[test]
fn tick_lets_the_piece_fall_one_row() {
    let mut engine = TetrisEngine::new();
    let before = engine.live_tetromino;
    engine.tick();
    assert_eq!(engine.live_tetromino.y, 1);
    assert_eq!(engine.live_tetromino.x, before.x);
    assert_eq!(engine.live_tetromino.variant, before.variant);
    assert_eq!(engine.score, 0);
    assert!(!engine.game_over);
}

#[test]
fn tick_locks_a_blocked_piece_and_respawns() {
    let mut engine = TetrisEngine::new();
    engine.live_tetromino = Tetromino { variant: TetrominoType::O, x: 4, y: 20, rot: 0 };
    engine.tick();
    assert!(!engine.game_over);
    assert_eq!(engine.tetris_map.cell(20, 5), 5);
    assert_eq!(engine.tetris_map.cell(20, 6), 5);
    assert_eq!(engine.tetris_map.cell(21, 5), 5);
    assert_eq!(engine.tetris_map.cell(21, 6), 5);
    // a fresh piece took over at the top
    assert_eq!(engine.live_tetromino.x, 4);
    assert_eq!(engine.live_tetromino.y, 0);
    assert_eq!(engine.live_tetromino.rot, 0);
}

#[test]
fn tick_ends_the_game_when_a_piece_is_stuck_at_the_top() {
    let mut engine = TetrisEngine::new();
    engine.live_tetromino = Tetromino { variant: TetrominoType::O, x: 4, y: 0, rot: 0 };
    // block the cells right below the spawn position
    engine.tetris_map.set_cell(2, 5, 2);
    engine.tetris_map.set_cell(2, 6, 2);
    engine.tick();
    assert!(engine.game_over);
    // the stuck piece was not merged
    assert_eq!(engine.tetris_map.cell(0, 5), 0);
    assert_eq!(engine.tetris_map.cell(1, 5), 0);
}

#[test]
fn fall_delay_follows_the_level_table() {
    let fms: u32 = 1_000_000 / 60;
    let mut engine = TetrisEngine::new();
    assert_eq!(engine.get_delay(), 48 * fms);
    engine.rows_cleared = 90;
    engine.level = 9;
    assert_eq!(engine.get_delay(), 6 * fms);
    engine.rows_cleared = 110;
    engine.level = 11;
    assert_eq!(engine.get_delay(), 5 * fms);
    engine.rows_cleared = 280;
    engine.level = 28;
    assert_eq!(engine.get_delay(), 2 * fms);
    engine.rows_cleared = 300;
    engine.level = 30;
    assert_eq!(engine.get_delay(), fms);
}

#[test]
fn cascading_clears_reach_a_fixed_point() {
    let mut engine = TetrisEngine::new();
    // row 21 is full; row 20 is full except one column; the block that will
    // fall into that column sits isolated two rows higher
    fill_row(&mut engine.tetris_map, 21);
    for c in 1..11 {
        if c != 5 {
            engine.tetris_map.set_cell(20, c, 3);
        }
    }
    engine.tetris_map.set_cell(19, 5, 4);

    let dropped = engine.delete_full_rows();

    // the first pass clears row 21 and every group settles onto the floor
    // row, the lone block filling the one open column there; the re-scan
    // finds that row full again and clears it too
    assert_eq!(dropped, 2);
    assert_eq!(engine.rows_cleared, 2);
    // everything has been cleared away
    for r in 0..22 {
        for c in 1..11 {
            assert_eq!(engine.tetris_map.cell(r, c), 0, "cell ({}, {})", r, c);
        }
    }
}
