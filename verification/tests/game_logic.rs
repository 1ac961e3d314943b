use tetris_cli::board::{Board, EMPTY_CELL};
use tetris_cli::game::{Dir, GameState, UpdateEndState, INITIAL_FALL_SPD, LAND_TIME_DELAY, SPD_INC};
use tetris_cli::tetromino::{shape_coords, shape_index, ShapeType, Tetromino};

fn piece_at(shape: ShapeType, x: i64, y: i64) -> Tetromino {
    Tetromino { pos: (x, y), shape, coords: shape_coords(shape), fg: shape_index(shape) }
}

fn all_shapes() -> Vec<ShapeType> {
    vec![
        ShapeType::T,
        ShapeType::L,
        ShapeType::Mirror,
        ShapeType::S,
        ShapeType::Z,
        ShapeType::Square,
        ShapeType::Line,
    ]
}

#[test]
fn rotate_left_then_right_restores_offsets() {
    for shape in all_shapes() {
        if shape == ShapeType::Square {
            continue;
        }
        let mut p = piece_at(shape, 4000, 0);
        let orig = p.coords;
        p.rotate(Dir::Left);
        p.rotate(Dir::Right);
        assert_eq!(p.coords, orig);
    }
}

#[test]
fn rotate_square_is_noop() {
    let mut p = piece_at(ShapeType::Square, 4000, 0);
    let orig = p.coords;
    p.rotate(Dir::Left);
    assert_eq!(p.coords, orig);
    p.rotate(Dir::Right);
    assert_eq!(p.coords, orig);
}

#[test]
fn rotate_left_turns_offsets_quarter_turn() {
    let mut p = piece_at(ShapeType::Line, 4000, 0);
    p.rotate(Dir::Left);
    // (x, y) becomes (y, -x): the vertical line lies flat
    assert_eq!(p.coords, [(-1, 0), (0, 0), (1, 0), (2, 0)]);
}

#[test]
fn rotate_down_changes_nothing() {
    let mut p = piece_at(ShapeType::T, 4000, 0);
    let orig = p.coords;
    p.rotate(Dir::Down);
    assert_eq!(p.coords, orig);
}

#[test]
fn select_spawns_at_fixed_position_with_catalog_offsets() {
    for _ in 0..50 {
        let p = Tetromino::select();
        assert_eq!(p.pos, (4000, 0));
        assert_eq!(p.coords, shape_coords(p.shape));
        assert_eq!(p.fg, shape_index(p.shape));
        assert!(p.fg < 7);
    }
}

#[test]
fn cannot_move_down_from_bottom_row() {
    // vertical line resting with its lowest cell on row 19
    let p = piece_at(ShapeType::Line, 4000, 17_000);
    let gs = GameState::from_parts(0, p, INITIAL_FALL_SPD, Board::new(), LAND_TIME_DELAY);
    assert!(!gs.can_move_curr_shape(Dir::Down));
}

#[test]
fn cannot_move_down_into_locked_block() {
    let mut b = Board::new();
    b.set_cell(4, 10, 3);
    // T piece directly above the block: origin cell at (4, 8), lowest at (4, 9)
    let p = piece_at(ShapeType::T, 4000, 8_000);
    let gs = GameState::from_parts(0, p, INITIAL_FALL_SPD, b, LAND_TIME_DELAY);
    assert!(!gs.can_move_curr_shape(Dir::Down));
}

#[test]
fn cannot_move_past_side_walls() {
    // vertical line in the leftmost column
    let p = piece_at(ShapeType::Line, 0, 5_000);
    let gs = GameState::from_parts(0, p, INITIAL_FALL_SPD, Board::new(), LAND_TIME_DELAY);
    assert!(!gs.can_move_curr_shape(Dir::Left));
    assert!(gs.can_move_curr_shape(Dir::Right));
}

#[test]
fn rotation_legality_checked_without_moving_piece() {
    // vertical line in the leftmost column cannot lie flat: cells would
    // leave the grid on the left
    let p = piece_at(ShapeType::Line, 0, 5_000);
    let gs = GameState::from_parts(0, p, INITIAL_FALL_SPD, Board::new(), LAND_TIME_DELAY);
    assert!(!gs.can_rotate_curr_shape(Dir::Left));
    assert!(gs.can_rotate_curr_shape(Dir::Down));
    // the piece itself was not touched by the test
    assert_eq!(gs.current_piece().coords, shape_coords(ShapeType::Line));
}

#[test]
fn clear_single_full_row_shifts_rows_above() {
    let mut b = Board::new();
    for x in 0..10 {
        b.set_cell(x, 5, 2);
    }
    // a marker above the full row and one below it
    b.set_cell(3, 4, 1);
    b.set_cell(7, 12, 4);
    let n = b.clear_full_rows();
    assert_eq!(n, 1);
    // the marker above shifted down one row
    assert_eq!(b.cell_at(3, 4), EMPTY_CELL);
    assert_eq!(b.cell_at(3, 5), 1);
    // the row below stayed
    assert_eq!(b.cell_at(7, 12), 4);
    // the top row is empty
    for x in 0..10 {
        assert_eq!(b.cell_at(x, 0), EMPTY_CELL);
    }
}

#[test]
fn clear_moves_top_row_content_down_and_empties_it() {
    let mut b = Board::new();
    for x in 0..10 {
        b.set_cell(x, 5, 2);
    }
    // a block already sitting in the top row
    b.set_cell(3, 0, 6);
    let n = b.clear_full_rows();
    assert_eq!(n, 1);
    // the block shifted into row 1 and the top row is empty, not duplicated
    assert_eq!(b.cell_at(3, 1), 6);
    for x in 0..10 {
        assert_eq!(b.cell_at(x, 0), EMPTY_CELL);
    }
}

#[test]
fn full_top_row_is_cleared() {
    let mut b = Board::new();
    for x in 0..10 {
        b.set_cell(x, 0, 2);
    }
    b.set_cell(7, 12, 4);
    let n = b.clear_full_rows();
    assert_eq!(n, 1);
    for x in 0..10 {
        assert_eq!(b.cell_at(x, 0), EMPTY_CELL);
    }
    // rows below the cleared top row stayed
    assert_eq!(b.cell_at(7, 12), 4);
}

#[test]
fn clear_no_full_rows_leaves_board_unchanged() {
    let mut b = Board::new();
    b.set_cell(0, 19, 1);
    b.set_cell(9, 19, 2);
    b.set_cell(4, 7, 3);
    let mut before = Vec::new();
    for y in 0..20 {
        for x in 0..10 {
            before.push(b.cell_at(x, y));
        }
    }
    let n = b.clear_full_rows();
    assert_eq!(n, 0);
    let mut i: usize = 0;
    for y in 0..20 {
        for x in 0..10 {
            assert_eq!(b.cell_at(x, y), before[i]);
            i += 1;
        }
    }
}

#[test]
fn clear_two_full_rows_counts_both_and_shifts_twice() {
    let mut b = Board::new();
    for x in 0..10 {
        b.set_cell(x, 18, 2);
        b.set_cell(x, 19, 2);
    }
    b.set_cell(2, 17, 5);
    let n = b.clear_full_rows();
    assert_eq!(n, 2);
    // the lone marker fell two rows, everything else is empty
    assert_eq!(b.cell_at(2, 19), 5);
    assert_eq!(b.cell_at(2, 18), EMPTY_CELL);
    assert_eq!(b.cell_at(2, 17), EMPTY_CELL);
    for x in 0..10 {
        if x != 2 {
            assert_eq!(b.cell_at(x, 19), EMPTY_CELL);
        }
    }
}

#[test]
fn two_row_clear_scores_double_increment() {
    let mut b = Board::new();
    for x in 0..10 {
        b.set_cell(x, 18, 2);
        b.set_cell(x, 19, 2);
    }
    let p = piece_at(ShapeType::T, 4000, 0);
    let mut gs = GameState::from_parts(1000, p, INITIAL_FALL_SPD, b, LAND_TIME_DELAY);
    gs.check_rows();
    assert_eq!(gs.score(), 1000 + 200);
    assert_eq!(gs.fall_speed(), INITIAL_FALL_SPD + 2 * SPD_INC);
}

#[test]
fn three_row_clear_scores_quadruple_increment() {
    let mut b = Board::new();
    for x in 0..10 {
        b.set_cell(x, 17, 2);
        b.set_cell(x, 18, 2);
        b.set_cell(x, 19, 2);
    }
    let p = piece_at(ShapeType::T, 4000, 0);
    let mut gs = GameState::from_parts(0, p, INITIAL_FALL_SPD, b, LAND_TIME_DELAY);
    gs.check_rows();
    assert_eq!(gs.score(), 400);
    assert_eq!(gs.fall_speed(), INITIAL_FALL_SPD + 3 * SPD_INC);
}

#[test]
fn single_row_clear_scores_base_increment() {
    let mut b = Board::new();
    for x in 0..10 {
        b.set_cell(x, 19, 2);
    }
    let p = piece_at(ShapeType::T, 4000, 0);
    let mut gs = GameState::from_parts(0, p, INITIAL_FALL_SPD, b, LAND_TIME_DELAY);
    gs.check_rows();
    assert_eq!(gs.score(), 100);
    assert_eq!(gs.fall_speed(), INITIAL_FALL_SPD + SPD_INC);
}

#[test]
fn save_tetromino_writes_color_index() {
    let p = piece_at(ShapeType::Line, 4000, 17_000);
    let mut gs = GameState::from_parts(0, p, INITIAL_FALL_SPD, Board::new(), LAND_TIME_DELAY);
    gs.save_tetromino();
    let fg = shape_index(ShapeType::Line) as i8;
    for y in 16..20 {
        assert_eq!(gs.board().cell_at(4, y), fg);
    }
    assert_eq!(gs.board().cell_at(4, 15), EMPTY_CELL);
    assert_eq!(gs.board().cell_at(3, 17), EMPTY_CELL);
}

#[test]
fn gravity_advances_piece_by_speed_over_time() {
    let p = piece_at(ShapeType::T, 4000, 1000);
    let mut gs = GameState::from_parts(0, p, INITIAL_FALL_SPD, Board::new(), LAND_TIME_DELAY);
    let r = gs.update(0, 16);
    assert_eq!(r, UpdateEndState::Continue);
    // 900 sub-cells per second for 16 ms, truncated
    assert_eq!(gs.current_piece().pos, (4000, 1000 + 14));
}

#[test]
fn quit_key_short_circuits_tick() {
    let p = piece_at(ShapeType::T, 4000, 1000);
    let mut gs = GameState::from_parts(7, p, INITIAL_FALL_SPD, Board::new(), LAND_TIME_DELAY);
    let r = gs.update(127, 16);
    assert_eq!(r, UpdateEndState::Quit);
    assert_eq!(gs.score(), 7);
    assert_eq!(gs.current_piece().pos, (4000, 1000));
}

#[test]
fn side_move_applies_when_legal() {
    let p = piece_at(ShapeType::T, 4000, 1000);
    let mut gs = GameState::from_parts(0, p, INITIAL_FALL_SPD, Board::new(), LAND_TIME_DELAY);
    let r = gs.update(b'a', 0);
    assert_eq!(r, UpdateEndState::Continue);
    assert_eq!(gs.current_piece().pos, (3000, 1000));
    let r = gs.update(b'd', 0);
    assert_eq!(r, UpdateEndState::Continue);
    assert_eq!(gs.current_piece().pos, (4000, 1000));
}

#[test]
fn rotation_key_applies_when_legal() {
    let p = piece_at(ShapeType::Line, 4000, 5000);
    let mut gs = GameState::from_parts(0, p, INITIAL_FALL_SPD, Board::new(), LAND_TIME_DELAY);
    let r = gs.update(b'q', 0);
    assert_eq!(r, UpdateEndState::Continue);
    assert_eq!(gs.current_piece().coords, [(-1, 0), (0, 0), (1, 0), (2, 0)]);
}

#[test]
fn hard_drop_line_on_empty_board_locks_at_bottom_and_continues() {
    let p = piece_at(ShapeType::Line, 4000, 0);
    let mut gs = GameState::from_parts(0, p, INITIAL_FALL_SPD, Board::new(), LAND_TIME_DELAY);

    // the drop itself: the piece snaps to its lowest legal resting row
    let r = gs.update(b's', 16);
    assert_eq!(r, UpdateEndState::Continue);
    assert_eq!(gs.current_piece().pos, (4000, 17_000));

    // repeat hard drops until the grace timer runs out and the piece locks
    let mut locked = false;
    for _ in 0..200 {
        assert!(gs.lock_write_in_grid(b's'));
        let r = gs.update(b's', 16);
        assert_eq!(r, UpdateEndState::Continue);
        if gs.board().is_occupied(4, 19) {
            locked = true;
            break;
        }
    }
    assert!(locked);
    let fg = shape_index(ShapeType::Line) as i8;
    for y in 16..20 {
        assert_eq!(gs.board().cell_at(4, y), fg);
    }
    // a fresh piece spawned and the timer was reset
    assert_eq!(gs.current_piece().pos, (4000, 0));
    assert_eq!(gs.land_timer_left(), LAND_TIME_DELAY);
}

#[test]
fn locking_last_gap_clears_bottom_row_and_ramps_speed() {
    let mut b = Board::new();
    for x in 1..10 {
        b.set_cell(x, 19, 2);
    }
    // vertical line filling the one remaining cell of row 19
    let p = piece_at(ShapeType::Line, 0, 17_000);
    let mut gs = GameState::from_parts(0, p, INITIAL_FALL_SPD, b, 0);
    assert!(gs.lock_write_in_grid(0));
    let r = gs.update(0, 16);
    assert_eq!(r, UpdateEndState::Continue);
    // locking scored 100 + 45, the cleared row another 100
    assert_eq!(gs.score(), 245);
    // exactly one speed increment
    assert_eq!(gs.fall_speed(), INITIAL_FALL_SPD + SPD_INC);
    // the rest of the line shifted down one row; row 19 keeps only column 0
    let fg = shape_index(ShapeType::Line) as i8;
    assert_eq!(gs.board().cell_at(0, 19), fg);
    for x in 1..10 {
        assert_eq!(gs.board().cell_at(x, 19), EMPTY_CELL);
    }
    assert_eq!(gs.board().cell_at(0, 18), fg);
    assert_eq!(gs.board().cell_at(0, 17), fg);
}

#[test]
fn piece_settling_at_spawn_loses_the_game() {
    let mut b = Board::new();
    // blocks right under the spawn cells of a T piece
    b.set_cell(3, 1, 2);
    b.set_cell(4, 1, 2);
    b.set_cell(5, 1, 2);
    b.set_cell(4, 2, 2);
    let p = piece_at(ShapeType::T, 4000, 0);
    let mut gs = GameState::from_parts(0, p, INITIAL_FALL_SPD, b, 0);
    let r = gs.update(0, 16);
    assert_eq!(r, UpdateEndState::Lost);
    assert_eq!(gs.score(), 0);
}

#[test]
fn grace_timer_counts_down_by_elapsed_milliseconds() {
    // resting on the bottom with a fresh timer: the tick only counts down
    let p = piece_at(ShapeType::Line, 4000, 17_000);
    let mut gs = GameState::from_parts(0, p, INITIAL_FALL_SPD, Board::new(), LAND_TIME_DELAY);
    let r = gs.update(0, 30);
    assert_eq!(r, UpdateEndState::Continue);
    assert_eq!(gs.land_timer_left(), LAND_TIME_DELAY - 30);
    assert!(!gs.board().is_occupied(4, 19));
}

#[test]
fn grace_timer_expires_after_a_tenth_of_a_second() {
    // 0.1 s of accumulated delta time uses the whole grace period
    let p = piece_at(ShapeType::Line, 4000, 17_000);
    let mut gs = GameState::from_parts(0, p, INITIAL_FALL_SPD, Board::new(), LAND_TIME_DELAY);
    let r = gs.update(0, 100);
    assert_eq!(r, UpdateEndState::Continue);
    assert_eq!(gs.land_timer_left(), 0);
    // the next grounded tick locks the piece
    assert!(gs.lock_write_in_grid(0));
    let r = gs.update(0, 16);
    assert_eq!(r, UpdateEndState::Continue);
    assert!(gs.board().is_occupied(4, 19));
}

#[test]
fn new_game_starts_clean() {
    let gs = GameState::new();
    assert_eq!(gs.score(), 0);
    assert_eq!(gs.fall_speed(), INITIAL_FALL_SPD);
    assert_eq!(gs.land_timer_left(), LAND_TIME_DELAY);
    for y in 0..20 {
        for x in 0..10 {
            assert!(!gs.board().is_occupied(x, y));
        }
    }
    assert_eq!(gs.current_piece().pos, (4000, 0));
}

#[test]
fn piece_cells_abs_places_spawned_t() {
    let p = piece_at(ShapeType::T, 4000, 0);
    let gs = GameState::from_parts(0, p, INITIAL_FALL_SPD, Board::new(), LAND_TIME_DELAY);
    let cells = gs.piece_cells_abs();
    assert_eq!(cells, vec![(3, 0), (4, 0), (5, 0), (4, 1)]);
}
