//! The per-tick simulation state machine: input actions, gravity, the
//! landing-grace timer, locking, row clearing and scoring.

use vstd::prelude::*;
use crate::board::{cleared_count_from, cleared_grid_from, grid_wf, Board, EMPTY_CELL};
use crate::tetromino::{rotated_model, spawned_piece, PieceModel, Tetromino};
use crate::{GRID_HEIGHT, GRID_WIDTH, SUBCELL};

verus! {

/// Target simulation rate of the outer loop, in ticks per second.
pub const FPS: u64 = 60;

/// Fall speed at the start of a game, in sub-cells per second.
pub const INITIAL_FALL_SPD: u32 = 900;

/// The landing-grace countdown granted before a grounded piece locks, in
/// milliseconds: each tick consumes the milliseconds that elapsed.
pub const LAND_TIME_DELAY: u64 = 100;

/// How much each cleared row adds to the fall speed, in sub-cells per second.
pub const SPD_INC: u32 = 50;

/// Score for a single cleared row; also the base of the multi-clear bonus.
pub const ROW_SCORE_INC: u64 = 100;

/// Base score awarded whenever a piece locks.
pub const PIECE_SCORE_INC: u64 = 100;

/// Multiplier of the speed-dependent part of the locking score, applied to
/// the fall speed in sub-cells per second and scaled back down by the
/// sub-cell resolution.
pub const PIECE_SCORE_FAL_MULT: u64 = 50;

/// The key (Backspace) that leaves the game at once.
pub const QUIT_KEY: u8 = 127;

/// A generous bound on how far down a piece's position can ever be, in
/// sub-cell units: one gravity step from the lowest reachable cell, at the
/// largest representable fall speed. Positions stay below it, so the position
/// arithmetic stays far from overflow.
pub const POS_LIMIT: i64 = 8_000_000_000;

/// A direction in which a piece may move or rotate.
#[derive(PartialEq, Eq, Structural, Clone, Copy, Debug)]
pub enum Dir {
    Down,
    Left,
    Right,
}

/// What a tick reports back to the outer loop.
#[derive(PartialEq, Eq, Structural, Clone, Copy, Debug)]
pub enum UpdateEndState {
    Quit,
    Lost,
    Continue,
}

/// Mathematical model of a whole game state.
pub struct GameModel {
    pub score: int,
    pub piece: PieceModel,
    pub fall_spd: int,
    pub grid: Seq<Seq<i8>>,
    pub land_timer: int,
}

/// The grid cell that holds a sub-cell position: division rounding toward
/// negative infinity.
pub open spec fn floor_cell(v: int) -> int {
    v / (SUBCELL as int)
}

/// The absolute grid cells a piece occupies: the cell that holds its
/// position, displaced by each of its offsets.
pub open spec fn piece_cells(p: PieceModel) -> Seq<(int, int)> {
    p.coords.map_values(|c: (int, int)| (floor_cell(p.x) + c.0, floor_cell(p.y) + c.1))
}

/// One candidate cell is admissible: inside the side and bottom bounds, and
/// free wherever it lies within the visible grid. Cells above the grid are
/// admissible — a piece spawns partially above the visible grid.
pub open spec fn cell_admissible(g: Seq<Seq<i8>>, x: int, y: int) -> bool {
    &&& 0 <= x < GRID_WIDTH
    &&& y < GRID_HEIGHT
    &&& (y < 0 || g[y][x] == EMPTY_CELL)
}

/// Every candidate cell, displaced by (dx, dy), is admissible.
pub open spec fn placement_admissible(
    g: Seq<Seq<i8>>,
    cells: Seq<(int, int)>,
    dx: int,
    dy: int,
) -> bool {
    forall|i: int|
        0 <= i < cells.len() ==> cell_admissible(
            g,
            (#[trigger] cells[i]).0 + dx,
            cells[i].1 + dy,
        )
}

/// The offset a move in the direction applies to every cell.
pub open spec fn dir_delta(dir: Dir) -> (int, int) {
    match dir {
        Dir::Left => (-1, 0),
        Dir::Right => (1, 0),
        Dir::Down => (0, 1),
    }
}

/// Whether a piece can move one cell in the direction on the grid.
pub open spec fn can_move_piece(g: Seq<Seq<i8>>, p: PieceModel, dir: Dir) -> bool {
    placement_admissible(g, piece_cells(p), dir_delta(dir).0, dir_delta(dir).1)
}

/// Whether a piece, turned a quarter turn, would sit legally where it is:
/// the same admissibility test, on the rotated cells, without any
/// directional offset. A downward "rotation" is trivially allowed.
pub open spec fn can_rotate_piece(g: Seq<Seq<i8>>, p: PieceModel, dir: Dir) -> bool {
    dir == Dir::Down || placement_admissible(g, piece_cells(rotated_model(p, dir)), 0, 0)
}

/// The vertical position a hard drop reaches from a whole-cell position:
/// half a cell down at a time, while a downward move stays legal.
pub open spec fn hard_drop_y(g: Seq<Seq<i8>>, p: PieceModel) -> int
    decreases 20 * (SUBCELL as int) - p.y
        when p.wf()
        via hard_drop_y_decreases
{
    if can_move_piece(g, p, Dir::Down) {
        hard_drop_y(g, PieceModel { y: p.y + (SUBCELL as int) / 2, ..p })
    } else {
        p.y
    }
}

/// While a downward move is legal the piece's origin cell sits above row
/// `GRID_HEIGHT - 1`, so its position is nowhere near the measure's bound.
#[via_fn]
proof fn hard_drop_y_decreases(g: Seq<Seq<i8>>, p: PieceModel) {
    if can_move_piece(g, p, Dir::Down) {
        lemma_can_move_down_bounds_y(g, p);
    }
}

/// A piece that can still move down sits with its origin cell above the
/// bottom row, which bounds its vertical position.
pub proof fn lemma_can_move_down_bounds_y(g: Seq<Seq<i8>>, p: PieceModel)
    requires
        p.wf(),
        can_move_piece(g, p, Dir::Down),
    ensures
        floor_cell(p.y) <= GRID_HEIGHT - 2,
        p.y < 19 * (SUBCELL as int),
{
    let w = choose|i: int| 0 <= i < p.coords.len() && #[trigger] p.coords[i] == (0int, 0int);
    assert(piece_cells(p)[w] == (floor_cell(p.x), floor_cell(p.y)));
    assert(cell_admissible(g, piece_cells(p)[w].0 + 0, piece_cells(p)[w].1 + 1));
    assert(floor_cell(p.y) + 1 <= GRID_HEIGHT - 1);
    assert(p.y < 19 * (SUBCELL as int)) by {
        vstd::arithmetic::div_mod::lemma_fundamental_div_mod(p.y, SUBCELL as int);
    }
}

/// The piece after the at-most-one discrete action a key applies: a sideways
/// move or a rotation where legal, or a hard drop; any other key leaves the
/// piece alone.
pub open spec fn action_piece_model(g: Seq<Seq<i8>>, p: PieceModel, key: u8) -> PieceModel {
    if key == 97 && can_move_piece(g, p, Dir::Left) {  // the 'a' key
        PieceModel { x: p.x - (SUBCELL as int), ..p }
    } else if key == 100 && can_move_piece(g, p, Dir::Right) {  // 'd'
        PieceModel { x: p.x + (SUBCELL as int), ..p }
    } else if key == 113 && can_rotate_piece(g, p, Dir::Left) {  // 'q'
        rotated_model(p, Dir::Left)
    } else if key == 101 && can_rotate_piece(g, p, Dir::Right) {  // 'e'
        rotated_model(p, Dir::Right)
    } else if key == 115 {  // 's': hard drop
        let snapped = PieceModel { y: floor_cell(p.y) * (SUBCELL as int), ..p };
        PieceModel { y: hard_drop_y(g, snapped), ..snapped }
    } else {
        p
    }
}

/// The whole state after the discrete action: only the piece changes.
pub open spec fn apply_action(m: GameModel, key: u8) -> GameModel {
    GameModel { piece: action_piece_model(m.grid, m.piece, key), ..m }
}

/// How far gravity advances a piece in one tick, in sub-cell units: the fall
/// speed over the elapsed time, truncated.
pub open spec fn gravity_advance(fall_spd: int, dt: int) -> int {
    fall_spd * dt / 1000
}

/// Addition capped at the largest unsigned 64-bit value.
pub open spec fn sat_add_u64(a: int, b: int) -> int {
    if a + b <= u64::MAX {
        a + b
    } else {
        u64::MAX as int
    }
}

/// Addition capped at the largest unsigned 32-bit value.
pub open spec fn sat_add_u32(a: int, b: int) -> int {
    if a + b <= u32::MAX {
        a + b
    } else {
        u32::MAX as int
    }
}

/// Subtraction stopping at zero.
pub open spec fn sat_sub(a: int, b: int) -> int {
    if a - b >= 0 {
        a - b
    } else {
        0
    }
}

/// The score a lock awards before any rows clear: a fixed base plus a
/// speed-dependent bonus.
pub open spec fn lock_score(fall_spd: int) -> int {
    PIECE_SCORE_INC + fall_spd * PIECE_SCORE_FAL_MULT / (SUBCELL as int)
}

/// The score `n` rows cleared in one pass award: one row scores the base
/// increment; several rows score the base increment times twice one less
/// than their number — a deliberately non-linear multi-clear bonus.
pub open spec fn row_clear_score(n: int) -> int {
    if n == 1 {
        ROW_SCORE_INC as int
    } else if n > 1 {
        (ROW_SCORE_INC as int) * (2 * (n - 1))
    } else {
        0
    }
}

/// The grid with the piece's cells written with its color index.
pub open spec fn lock_grid(g: Seq<Seq<i8>>, p: PieceModel) -> Seq<Seq<i8>> {
    Seq::new(
        g.len(),
        |y: int|
            Seq::new(
                g[y].len(),
                |x: int|
                    if exists|i: int|
                        0 <= i < piece_cells(p).len() && #[trigger] piece_cells(p)[i] == (x, y) {
                        p.fg as i8
                    } else {
                        g[y][x]
                    },
            ),
    )
}

/// Everything a lock does to the state, short of spawning the next piece:
/// the locking score, the piece written into the grid, the row clear with
/// its score and speed ramp, and the timer reset. The piece field keeps the
/// locked piece as a placeholder; the spawn replaces it.
pub open spec fn locked_model(m: GameModel) -> GameModel {
    let score1 = sat_add_u64(m.score, lock_score(m.fall_spd));
    let g1 = lock_grid(m.grid, m.piece);
    let n = cleared_count_from(g1, 0);
    GameModel {
        score: sat_add_u64(score1, row_clear_score(n)),
        piece: m.piece,
        fall_spd: sat_add_u32(m.fall_spd, (SPD_INC as int) * n),
        grid: cleared_grid_from(g1, 0),
        land_timer: LAND_TIME_DELAY as int,
    }
}

/// Whether this tick ends in a lock.
pub open spec fn tick_locks(m: GameModel, key: u8) -> bool {
    key != QUIT_KEY && {
        let m1 = apply_action(m, key);
        &&& !can_move_piece(m1.grid, m1.piece, Dir::Down)
        &&& m1.land_timer <= 0
        &&& m1.piece.y > SUBCELL as int
    }
}

/// All cells a lock this tick would write lie inside the visible grid. A
/// tick that would lock a piece straddling the top border has no place for
/// the cells above the grid: such a write is a programming error in the
/// caller's driving of the machine, and is excluded up front.
pub open spec fn lock_in_grid(m: GameModel, key: u8) -> bool {
    tick_locks(m, key) ==> {
        let cells = piece_cells(apply_action(m, key).piece);
        forall|i: int| 0 <= i < cells.len() ==> 0 <= (#[trigger] cells[i]).1 < GRID_HEIGHT
    }
}

/// The state after one tick, except that in the lock case the piece field is
/// a placeholder: the spawn that ends a lock replaces it.
pub open spec fn tick_model(m: GameModel, key: u8, dt: int) -> GameModel {
    if key == QUIT_KEY {
        m
    } else {
        let m1 = apply_action(m, key);
        if can_move_piece(m1.grid, m1.piece, Dir::Down) {
            GameModel {
                piece: PieceModel {
                    y: m1.piece.y + gravity_advance(m1.fall_spd, dt),
                    ..m1.piece
                },
                ..m1
            }
        } else if m1.land_timer > 0 {
            GameModel { land_timer: sat_sub(m1.land_timer, dt), ..m1 }
        } else if m1.piece.y <= SUBCELL as int {
            m1
        } else {
            locked_model(m1)
        }
    }
}

/// What one tick reports: quit on the quit key, lost when a piece settles
/// while still within one cell of the spawn row, and continue otherwise.
pub open spec fn tick_outcome(m: GameModel, key: u8) -> UpdateEndState {
    if key == QUIT_KEY {
        UpdateEndState::Quit
    } else {
        let m1 = apply_action(m, key);
        if can_move_piece(m1.grid, m1.piece, Dir::Down) {
            UpdateEndState::Continue
        } else if m1.land_timer > 0 {
            UpdateEndState::Continue
        } else if m1.piece.y <= SUBCELL as int {
            UpdateEndState::Lost
        } else {
            UpdateEndState::Continue
        }
    }
}

impl GameModel {
    /// The simulation invariant: a well-formed grid and piece, the position
    /// within its working range, and the piece's columns inside the grid
    /// (side moves and rotations are validated, and gravity never moves a
    /// piece sideways).
    pub open spec fn wf(self) -> bool {
        &&& self.piece.wf()
        &&& grid_wf(self.grid)
        &&& 0 <= self.piece.x <= POS_LIMIT as int
        &&& 0 <= self.piece.y <= POS_LIMIT as int
        &&& forall|i: int|
            0 <= i < piece_cells(self.piece).len() ==> 0 <= (#[trigger] piece_cells(
                self.piece,
            )[i]).0 < GRID_WIDTH
        &&& 0 <= self.score <= u64::MAX
        &&& 0 <= self.fall_spd <= u32::MAX
        &&& 0 <= self.land_timer <= u64::MAX
    }
}

/// The live simulation state: score, the falling piece, the fall speed, the
/// locked blocks and the landing-grace timer.
pub struct GameState {
    score: u64,
    curr_shape: Tetromino,
    fall_spd: u32,
    blocks: Board,
    land_timer: u64,
}

impl View for GameState {
    type V = GameModel;

    closed spec fn view(&self) -> GameModel {
        GameModel {
            score: self.score as int,
            piece: self.curr_shape@,
            fall_spd: self.fall_spd as int,
            grid: self.blocks.grid(),
            land_timer: self.land_timer as int,
        }
    }
}

impl GameState {
    /// The accumulated score.
    pub fn score(&self) -> (r: u64)
        ensures
            r == self@.score,
    {
        self.score
    }

    /// The current fall speed, in sub-cells per second.
    pub fn fall_speed(&self) -> (r: u32)
        ensures
            r == self@.fall_spd,
    {
        self.fall_spd
    }

    /// What is left of the landing-grace countdown.
    pub fn land_timer_left(&self) -> (r: u64)
        ensures
            r == self@.land_timer,
    {
        self.land_timer
    }

    /// The locked blocks.
    pub fn board(&self) -> (r: &Board)
        ensures
            r.grid() == self@.grid,
    {
        &self.blocks
    }

    /// The piece now falling.
    pub fn current_piece(&self) -> (r: &Tetromino)
        ensures
            r@ == self@.piece,
    {
        &self.curr_shape
    }

    /// A fresh game: zero score, initial speed, a full grace timer, an empty
    /// board and a random piece at the spawn position.
    pub fn new() -> (r: GameState)
        ensures
            r@.wf(),
            r@.score == 0,
            r@.fall_spd == INITIAL_FALL_SPD,
            r@.land_timer == LAND_TIME_DELAY,
            grid_wf(r@.grid),
            forall|y: int, x: int|
                0 <= y < GRID_HEIGHT && 0 <= x < GRID_WIDTH ==> r@.grid[y][x] == EMPTY_CELL,
            spawned_piece(r@.piece),
    {
        let r = GameState {
            score: 0,
            curr_shape: Tetromino::select(),
            fall_spd: INITIAL_FALL_SPD,
            blocks: Board::new(),
            land_timer: LAND_TIME_DELAY,
        };
        proof {
            assert(r@.piece.x == 4 * (SUBCELL as int));
            assert(floor_cell(r@.piece.y) == 0);
            assert(floor_cell(r@.piece.x) == 4);
        }
        r
    }

    /// A game state assembled from its parts; scenarios and the outer loop
    /// use it to study particular positions.
    pub fn from_parts(
        score: u64,
        curr_shape: Tetromino,
        fall_spd: u32,
        blocks: Board,
        land_timer: u64,
    ) -> (r: GameState)
        requires
            curr_shape@.wf(),
            blocks.wf(),
            0 <= curr_shape.pos.0 <= POS_LIMIT,
            0 <= curr_shape.pos.1 <= POS_LIMIT,
            forall|i: int|
                0 <= i < piece_cells(curr_shape@).len() ==> 0 <= (#[trigger] piece_cells(
                    curr_shape@,
                )[i]).0 < GRID_WIDTH,
        ensures
            r@.wf(),
            r@.score == score,
            r@.piece == curr_shape@,
            r@.fall_spd == fall_spd,
            r@.grid == blocks.grid(),
            r@.land_timer == land_timer,
    {
        GameState { score, curr_shape, fall_spd, blocks, land_timer }
    }
}

/// Moving a position one whole cell moves the cell that holds it by one.
proof fn lemma_floor_shift(v: int)
    ensures
        floor_cell(v + SUBCELL as int) == floor_cell(v) + 1,
        floor_cell(v - SUBCELL as int) == floor_cell(v) - 1,
{
    vstd::arithmetic::div_mod::lemma_div_plus_one(v, SUBCELL as int);
    vstd::arithmetic::div_mod::lemma_div_minus_one(v, SUBCELL as int);
}

/// The shared candidate-cell test: every cell of the piece, displaced by
/// (dx, dy), is admissible on the board. Both the movement predicate and the
/// rotation predicate reduce to it.
fn placement_admissible_exec(blocks: &Board, piece: &Tetromino, dx: i64, dy: i64) -> (r: bool)
    requires
        blocks.wf(),
        0 <= piece.pos.0 <= POS_LIMIT,
        0 <= piece.pos.1 <= POS_LIMIT,
        -1 <= dx <= 1,
        0 <= dy <= 1,
    ensures
        r == placement_admissible(blocks.grid(), piece_cells(piece@), dx as int, dy as int),
{
    let px = ((piece.pos.0 as u64) / (SUBCELL as u64)) as i64;
    let py = ((piece.pos.1 as u64) / (SUBCELL as u64)) as i64;
    proof {
        assert(px == floor_cell(piece@.x));
        assert(py == floor_cell(piece@.y));
    }
    let mut ok = true;
    let mut i: usize = 0;
    while i < 4
        invariant
            blocks.wf(),
            0 <= px <= POS_LIMIT,
            0 <= py <= POS_LIMIT,
            px == floor_cell(piece@.x),
            py == floor_cell(piece@.y),
            -1 <= dx <= 1,
            0 <= dy <= 1,
            i <= 4,
            piece@.coords.len() == 4,
            ok == (forall|j: int|
                0 <= j < i ==> cell_admissible(
                    blocks.grid(),
                    (#[trigger] piece_cells(piece@)[j]).0 + dx,
                    piece_cells(piece@)[j].1 + dy,
                )),
        decreases 4 - i,
    {
        let c = piece.coords[i];
        let cx = px + c.0 as i64 + dx;
        let cy = py + c.1 as i64 + dy;
        proof {
            assert(piece@.coords[i as int] == (c.0 as int, c.1 as int));
            assert(piece_cells(piece@)[i as int] == (px + c.0 as int, py + c.1 as int));
        }
        if cx < 0 || cx >= GRID_WIDTH as i64 || cy >= GRID_HEIGHT as i64 {
            ok = false;
        } else if cy >= 0 && blocks.is_occupied(cx as usize, cy as usize) {
            ok = false;
        }
        i = i + 1;
    }
    ok
}

impl GameState {
    /// Whether the current piece can move one cell in the given direction:
    /// every displaced cell stays inside the side and bottom bounds and hits
    /// no locked block. Rows above the grid count as free.
    pub fn can_move_curr_shape(&self, dir: Dir) -> (r: bool)
        requires
            self@.wf(),
        ensures
            r == can_move_piece(self@.grid, self@.piece, dir),
    {
        let (dx, dy): (i64, i64) = match dir {
            Dir::Left => (-1, 0),
            Dir::Right => (1, 0),
            Dir::Down => (0, 1),
        };
        placement_admissible_exec(&self.blocks, &self.curr_shape, dx, dy)
    }

    /// Whether the current piece, turned a quarter turn, would sit legally
    /// where it is. The test runs on a copy: the piece itself is untouched.
    pub fn can_rotate_curr_shape(&self, dir: Dir) -> (r: bool)
        requires
            self@.wf(),
        ensures
            r == can_rotate_piece(self@.grid, self@.piece, dir),
    {
        if dir == Dir::Down {
            return true;
        }
        let mut temp = self.curr_shape;
        temp.rotate(dir);
        placement_admissible_exec(&self.blocks, &temp, 0, 0)
    }
}

/// The at-most-one discrete action of a tick, applied to a piece: a sideways
/// move or a rotation where legal, a hard drop, or nothing.
#[verifier::rlimit(30)]
fn action_piece_exec(blocks: &Board, piece: Tetromino, key: u8) -> (r: Tetromino)
    requires
        blocks.wf(),
        piece@.wf(),
        0 <= piece.pos.0 <= POS_LIMIT,
        0 <= piece.pos.1 <= POS_LIMIT,
        forall|i: int|
            0 <= i < piece_cells(piece@).len() ==> 0 <= (#[trigger] piece_cells(piece@)[i]).0
                < GRID_WIDTH,
    ensures
        r@ == action_piece_model(blocks.grid(), piece@, key),
        r@.wf(),
        0 <= r.pos.0 <= POS_LIMIT,
        0 <= r.pos.1 <= POS_LIMIT,
        forall|i: int|
            0 <= i < piece_cells(r@).len() ==> 0 <= (#[trigger] piece_cells(r@)[i]).0 < GRID_WIDTH,
{
    if key == 97 && placement_admissible_exec(blocks, &piece, -1, 0) {  // 'a': move left
        let r = Tetromino { pos: (piece.pos.0 - SUBCELL, piece.pos.1), ..piece };
        proof {
            lemma_floor_shift(piece@.x);
            let w = choose|i: int|
                0 <= i < piece@.coords.len() && #[trigger] piece@.coords[i] == (0int, 0int);
            assert(cell_admissible(
                blocks.grid(),
                piece_cells(piece@)[w].0 - 1,
                piece_cells(piece@)[w].1 + 0,
            ));
            assert(floor_cell(piece@.x) >= 1);
            assert(piece@.x >= SUBCELL) by {
                vstd::arithmetic::div_mod::lemma_fundamental_div_mod(piece@.x, SUBCELL as int);
            }
            assert(r@.coords == piece@.coords);
            assert forall|i: int| 0 <= i < piece_cells(r@).len() implies 0 <= (#[trigger]
            piece_cells(r@)[i]).0 < GRID_WIDTH by {
                assert(piece_cells(r@)[i].0 == piece_cells(piece@)[i].0 - 1);
                assert(cell_admissible(
                    blocks.grid(),
                    piece_cells(piece@)[i].0 - 1,
                    piece_cells(piece@)[i].1 + 0,
                ));
            }
            assert(r@.wf());
        }
        r
    } else if key == 100 && placement_admissible_exec(blocks, &piece, 1, 0) {  // 'd': move right
        let r = Tetromino { pos: (piece.pos.0 + SUBCELL, piece.pos.1), ..piece };
        proof {
            lemma_floor_shift(piece@.x);
            let w = choose|i: int|
                0 <= i < piece@.coords.len() && #[trigger] piece@.coords[i] == (0int, 0int);
            assert(cell_admissible(
                blocks.grid(),
                piece_cells(piece@)[w].0 + 1,
                piece_cells(piece@)[w].1 + 0,
            ));
            assert(floor_cell(piece@.x) <= GRID_WIDTH - 2);
            assert(piece@.x < (GRID_WIDTH - 1) * (SUBCELL as int)) by {
                vstd::arithmetic::div_mod::lemma_fundamental_div_mod(piece@.x, SUBCELL as int);
            }
            assert(r@.coords == piece@.coords);
            assert forall|i: int| 0 <= i < piece_cells(r@).len() implies 0 <= (#[trigger]
            piece_cells(r@)[i]).0 < GRID_WIDTH by {
                assert(piece_cells(r@)[i].0 == piece_cells(piece@)[i].0 + 1);
                assert(cell_admissible(
                    blocks.grid(),
                    piece_cells(piece@)[i].0 + 1,
                    piece_cells(piece@)[i].1 + 0,
                ));
            }
            assert(r@.wf());
        }
        r
    } else if key == 113 || key == 101 {  // 'q' or 'e': rotate
        let dir = if key == 113 {
            Dir::Left
        } else {
            Dir::Right
        };
        let mut temp = piece;
        temp.rotate(dir);
        if placement_admissible_exec(blocks, &temp, 0, 0) {
            proof {
                assert forall|i: int| 0 <= i < piece_cells(temp@).len() implies 0 <= (#[trigger]
                piece_cells(temp@)[i]).0 < GRID_WIDTH by {
                    assert(cell_admissible(
                        blocks.grid(),
                        piece_cells(temp@)[i].0 + 0,
                        piece_cells(temp@)[i].1 + 0,
                    ));
                }
                assert(temp@.wf());
            }
            temp
        } else {
            piece
        }
    } else if key == 115 {  // 's': hard drop
        let fl = ((piece.pos.1 as u64) / (SUBCELL as u64)) as i64;
        let mut t = Tetromino { pos: (piece.pos.0, fl * SUBCELL), ..piece };
        proof {
            assert(t@.y == floor_cell(piece@.y) * (SUBCELL as int));
            assert(0 <= t@.y <= piece@.y) by {
                vstd::arithmetic::div_mod::lemma_fundamental_div_mod(piece@.y, SUBCELL as int);
            }
        }
        let ghost snapped = t@;
        loop
            invariant
                blocks.wf(),
                t@.wf(),
                t.pos.0 == piece.pos.0,
                t.shape == piece.shape,
                t.fg == piece.fg,
                t@.coords == snapped.coords,
                snapped == (PieceModel { y: floor_cell(piece@.y) * (SUBCELL as int), ..piece@ }),
                0 <= t.pos.0 <= POS_LIMIT,
                0 <= t.pos.1 <= POS_LIMIT,
                hard_drop_y(blocks.grid(), t@) == hard_drop_y(blocks.grid(), snapped),
            ensures
                t@ == (PieceModel { y: hard_drop_y(blocks.grid(), snapped), ..snapped }),
            decreases 20 * SUBCELL - t.pos.1,
        {
            if !placement_admissible_exec(blocks, &t, 0, 1) {
                proof {
                    assert(!can_move_piece(blocks.grid(), t@, Dir::Down));
                    assert(hard_drop_y(blocks.grid(), t@) == t@.y);
                }
                break;
            }
            proof {
                assert(can_move_piece(blocks.grid(), t@, Dir::Down));
                lemma_can_move_down_bounds_y(blocks.grid(), t@);
                assert(hard_drop_y(blocks.grid(), t@) == hard_drop_y(
                    blocks.grid(),
                    PieceModel { y: t@.y + (SUBCELL as int) / 2, ..t@ },
                )) by {
                    reveal_with_fuel(hard_drop_y, 2);
                }
            }
            t.pos = (t.pos.0, t.pos.1 + SUBCELL / 2);
        }
        proof {
            assert forall|i: int| 0 <= i < piece_cells(t@).len() implies 0 <= (#[trigger]
            piece_cells(t@)[i]).0 < GRID_WIDTH by {
                assert(piece_cells(t@)[i].0 == piece_cells(piece@)[i].0);
                assert(0 <= piece_cells(piece@)[i].0 < GRID_WIDTH);
            }
            assert(t@.coords == piece@.coords);
            assert(t@.wf());
        }
        t
    } else {
        piece
    }
}

/// The grid with the first `k` of the piece's cells written: the staging
/// steps of a lock.
spec fn lock_grid_partial(g: Seq<Seq<i8>>, p: PieceModel, k: int) -> Seq<Seq<i8>> {
    Seq::new(
        g.len(),
        |y: int|
            Seq::new(
                g[y].len(),
                |x: int|
                    if exists|i: int| 0 <= i < k && #[trigger] piece_cells(p)[i] == (x, y) {
                        p.fg as i8
                    } else {
                        g[y][x]
                    },
            ),
    )
}

impl GameState {
    /// Permanently writes the current piece's four cells into the board with
    /// its color index. The caller has already settled the piece: every cell
    /// lies inside the visible grid. No further validation happens here.
    pub fn save_tetromino(&mut self)
        requires
            old(self)@.wf(),
            forall|i: int|
                0 <= i < piece_cells(old(self)@.piece).len() ==> 0 <= (#[trigger] piece_cells(
                    old(self)@.piece,
                )[i]).1 < GRID_HEIGHT,
        ensures
            final(self)@ == (GameModel {
                grid: lock_grid(old(self)@.grid, old(self)@.piece),
                ..old(self)@
            }),
            final(self)@.wf(),
    {
        let ghost g0 = self@.grid;
        let ghost p0 = self@.piece;
        let px = ((self.curr_shape.pos.0 as u64) / (SUBCELL as u64)) as i64;
        let py = ((self.curr_shape.pos.1 as u64) / (SUBCELL as u64)) as i64;
        let fgv = self.curr_shape.fg as i8;
        proof {
            assert(px == floor_cell(p0.x));
            assert(py == floor_cell(p0.y));
            assert(fgv == p0.fg as i8);
            assert(lock_grid_partial(g0, p0, 0) =~~= g0);
        }
        let mut i: usize = 0;
        while i < 4
            invariant
                self.blocks.wf(),
                self.score == old(self).score,
                self.fall_spd == old(self).fall_spd,
                self.land_timer == old(self).land_timer,
                self.curr_shape == old(self).curr_shape,
                old(self)@.wf(),
                g0 == old(self)@.grid,
                p0 == old(self)@.piece,
                forall|j: int|
                    0 <= j < piece_cells(p0).len() ==> 0 <= (#[trigger] piece_cells(p0)[j]).1
                        < GRID_HEIGHT,
                px == floor_cell(p0.x),
                py == floor_cell(p0.y),
                fgv == p0.fg as i8,
                i <= 4,
                self.blocks.grid() == lock_grid_partial(g0, p0, i as int),
            decreases 4 - i,
        {
            let c = self.curr_shape.coords[i];
            let cx = px + c.0 as i64;
            let cy = py + c.1 as i64;
            proof {
                assert(p0.coords[i as int] == (c.0 as int, c.1 as int));
                assert(piece_cells(p0)[i as int] == (cx as int, cy as int));
                assert(0 <= piece_cells(p0)[i as int].0 < GRID_WIDTH);
                assert(0 <= piece_cells(p0)[i as int].1 < GRID_HEIGHT);
            }
            let ghost gprev = self.blocks.grid();
            self.blocks.set_cell(cx as usize, cy as usize, fgv);
            proof {
                let k = i as int;
                assert forall|y: int, x: int|
                    0 <= y < gprev.len() && 0 <= x < gprev[y].len() implies self.blocks.grid(
                )[y][x] == lock_grid_partial(g0, p0, k + 1)[y][x] by {
                    if y == cy as int && x == cx as int {
                        assert(piece_cells(p0)[k] == (x, y));
                    } else {
                        assert(self.blocks.grid()[y][x] == gprev[y][x]);
                        assert(forall|j: int|
                            0 <= j < k + 1 && #[trigger] piece_cells(p0)[j] == (x, y) ==> j < k);
                    }
                }
                assert(self.blocks.grid() =~~= lock_grid_partial(g0, p0, k + 1));
            }
            i = i + 1;
        }
        proof {
            assert(lock_grid_partial(g0, p0, 4) =~~= lock_grid(g0, p0));
        }
    }

    /// Clears every full row, then applies the policy each clear carries:
    /// one speed increment per cleared row, the base score for a single row,
    /// and the non-linear bonus for several rows in one pass.
    pub fn check_rows(&mut self)
        requires
            old(self)@.wf(),
        ensures
            final(self)@ == (GameModel {
                score: sat_add_u64(
                    old(self)@.score,
                    row_clear_score(cleared_count_from(old(self)@.grid, 0)),
                ),
                fall_spd: sat_add_u32(
                    old(self)@.fall_spd,
                    (SPD_INC as int) * cleared_count_from(old(self)@.grid, 0),
                ),
                grid: cleared_grid_from(old(self)@.grid, 0),
                ..old(self)@
            }),
            final(self)@.wf(),
    {
        let n = self.blocks.clear_full_rows();

        let inc = SPD_INC * (n as u32);
        self.fall_spd = if self.fall_spd <= u32::MAX - inc {
            self.fall_spd + inc
        } else {
            u32::MAX
        };

        if n == 1 {
            self.score = if self.score <= u64::MAX - ROW_SCORE_INC {
                self.score + ROW_SCORE_INC
            } else {
                u64::MAX
            };
        } else if n > 1 {
            let bonus = ROW_SCORE_INC * (((n as u64) - 1) * 2);
            self.score = if self.score <= u64::MAX - bonus {
                self.score + bonus
            } else {
                u64::MAX
            };
        }
    }

    /// Whether the lock this tick would perform — if it performs one at all —
    /// writes only inside the visible grid. The outer loop confirms this
    /// before each tick; a failure marks a corrupted drive of the machine.
    pub fn lock_write_in_grid(&self, key: u8) -> (b: bool)
        requires
            self@.wf(),
        ensures
            b == lock_in_grid(self@, key),
    {
        if key == QUIT_KEY {
            return true;
        }
        let p1 = action_piece_exec(&self.blocks, self.curr_shape, key);
        let ghost m1 = apply_action(self@, key);
        proof {
            assert(p1@ == m1.piece);
        }
        if placement_admissible_exec(&self.blocks, &p1, 0, 1) {
            return true;
        }
        if self.land_timer > 0 {
            return true;
        }
        if p1.pos.1 <= SUBCELL {
            return true;
        }
        proof {
            assert(tick_locks(self@, key));
        }
        let py = ((p1.pos.1 as u64) / (SUBCELL as u64)) as i64;
        proof {
            assert(py == floor_cell(p1@.y));
        }
        let mut ok = true;
        let mut i: usize = 0;
        while i < 4
            invariant
                i <= 4,
                p1@.coords.len() == 4,
                0 <= p1.pos.1 <= POS_LIMIT,
                py == floor_cell(p1@.y),
                ok == (forall|j: int|
                    0 <= j < i ==> 0 <= (#[trigger] piece_cells(p1@)[j]).1 < GRID_HEIGHT),
            decreases 4 - i,
        {
            let c = p1.coords[i];
            let cy = py + c.1 as i64;
            proof {
                assert(p1@.coords[i as int] == (c.0 as int, c.1 as int));
                assert(piece_cells(p1@)[i as int].1 == cy as int);
            }
            if cy < 0 || cy >= GRID_HEIGHT as i64 {
                ok = false;
            }
            i = i + 1;
        }
        ok
    }

    /// One simulation tick. The quit key short-circuits; otherwise at most
    /// one discrete action applies, and then, in priority order: gravity
    /// while the piece can fall, the landing-grace countdown, the loss test
    /// for a piece that settled within one cell of the spawn row, or the
    /// lock — scoring, writing the piece, clearing rows, resetting the grace
    /// timer and spawning a fresh random piece.
    pub fn update(&mut self, key: u8, delta_time_ms: u64) -> (r: UpdateEndState)
        requires
            old(self)@.wf(),
            delta_time_ms <= 1000,
            lock_in_grid(old(self)@, key),
        ensures
            final(self)@.wf(),
            r == tick_outcome(old(self)@, key),
            !tick_locks(old(self)@, key) ==> final(self)@ == tick_model(
                old(self)@,
                key,
                delta_time_ms as int,
            ),
            tick_locks(old(self)@, key) ==> final(self)@ == (GameModel {
                piece: final(self)@.piece,
                ..tick_model(old(self)@, key, delta_time_ms as int)
            }) && spawned_piece(final(self)@.piece),
    {
        if key == QUIT_KEY {
            return UpdateEndState::Quit;
        }
        let ghost m0 = self@;
        self.curr_shape = action_piece_exec(&self.blocks, self.curr_shape, key);
        proof {
            assert(self@ == apply_action(m0, key));
        }
        let ghost m1 = self@;

        if self.can_move_curr_shape(Dir::Down) {
            proof {
                lemma_can_move_down_bounds_y(self@.grid, self@.piece);
                assert((self.fall_spd as int) * (delta_time_ms as int) <= 4_294_967_295_000int)
                    by (nonlinear_arith)
                    requires
                        self.fall_spd <= u32::MAX,
                        delta_time_ms <= 1000,
                ;
            }
            let prod = (self.fall_spd as u64) * delta_time_ms;
            let adv64 = prod / 1000;
            proof {
                vstd::arithmetic::div_mod::lemma_div_is_ordered(
                    prod as int,
                    4_294_967_295_000int,
                    1000int,
                );
            }
            let adv = adv64 as i64;
            self.curr_shape.pos = (self.curr_shape.pos.0, self.curr_shape.pos.1 + adv);
            proof {
                assert(adv == gravity_advance(m1.fall_spd, delta_time_ms as int));
                assert(self@ == tick_model(m0, key, delta_time_ms as int));
                assert(self@.piece.coords == m1.piece.coords);
                assert forall|i: int| 0 <= i < piece_cells(self@.piece).len() implies 0 <= (
                #[trigger] piece_cells(self@.piece)[i]).0 < GRID_WIDTH by {
                    assert(piece_cells(self@.piece)[i].0 == piece_cells(m1.piece)[i].0);
                    assert(0 <= piece_cells(m1.piece)[i].0 < GRID_WIDTH);
                }
                assert(self@.wf());
            }
            UpdateEndState::Continue
        } else if self.land_timer > 0 {
            self.land_timer = if self.land_timer >= delta_time_ms {
                self.land_timer - delta_time_ms
            } else {
                0
            };
            proof {
                assert(self@ == tick_model(m0, key, delta_time_ms as int));
            }
            UpdateEndState::Continue
        } else if self.curr_shape.pos.1 <= SUBCELL {
            UpdateEndState::Lost
        } else {
            proof {
                assert(tick_locks(m0, key));
            }
            let bonus = (self.fall_spd as u64) * PIECE_SCORE_FAL_MULT / (SUBCELL as u64);
            let pts = PIECE_SCORE_INC + bonus;
            proof {
                assert(pts == lock_score(m1.fall_spd));
            }
            self.score = if self.score <= u64::MAX - pts {
                self.score + pts
            } else {
                u64::MAX
            };
            self.save_tetromino();
            self.check_rows();
            self.land_timer = LAND_TIME_DELAY;
            self.curr_shape = Tetromino::select();
            proof {
                assert forall|i: int| 0 <= i < piece_cells(self@.piece).len() implies 0 <= (
                #[trigger] piece_cells(self@.piece)[i]).0 < GRID_WIDTH by {
                    assert(floor_cell(self@.piece.x) == 4);
                }
                assert(self@ == (GameModel {
                    piece: self@.piece,
                    ..tick_model(m0, key, delta_time_ms as int)
                }));
            }
            UpdateEndState::Continue
        }
    }

    /// The absolute grid cells of the current piece, for the renderer: the
    /// cell that holds the position, displaced by each offset. Cells above
    /// the grid keep their negative row.
    pub fn piece_cells_abs(&self) -> (v: Vec<(i64, i64)>)
        requires
            self@.wf(),
        ensures
            v@.len() == piece_cells(self@.piece).len(),
            forall|i: int|
                0 <= i < v@.len() ==> ((#[trigger] v@[i]).0 as int, v@[i].1 as int) == piece_cells(
                    self@.piece,
                )[i],
    {
        let px = ((self.curr_shape.pos.0 as u64) / (SUBCELL as u64)) as i64;
        let py = ((self.curr_shape.pos.1 as u64) / (SUBCELL as u64)) as i64;
        proof {
            assert(px == floor_cell(self@.piece.x));
            assert(py == floor_cell(self@.piece.y));
        }
        let mut v: Vec<(i64, i64)> = Vec::new();
        let mut i: usize = 0;
        while i < 4
            invariant
                i <= 4,
                self@.piece.coords.len() == 4,
                0 <= self.curr_shape.pos.0 <= POS_LIMIT,
                0 <= self.curr_shape.pos.1 <= POS_LIMIT,
                px == floor_cell(self@.piece.x),
                py == floor_cell(self@.piece.y),
                v@.len() == i,
                forall|j: int|
                    0 <= j < i ==> ((#[trigger] v@[j]).0 as int, v@[j].1 as int) == piece_cells(
                        self@.piece,
                    )[j],
            decreases 4 - i,
        {
            let c = self.curr_shape.coords[i];
            proof {
                assert(self@.piece.coords[i as int] == (c.0 as int, c.1 as int));
            }
            v.push((px + c.0 as i64, py + c.1 as i64));
            i = i + 1;
        }
        v
    }
}

/// Law: a piece with a cell already on the bottom row cannot move down,
/// whatever the piece, its position and the board.
pub proof fn lemma_bottom_row_blocks_down(g: Seq<Seq<i8>>, p: PieceModel, i: int)
    requires
        0 <= i < piece_cells(p).len(),
        piece_cells(p)[i].1 == GRID_HEIGHT - 1,
    ensures
        !can_move_piece(g, p, Dir::Down),
{
    assert(!cell_admissible(g, piece_cells(p)[i].0 + 0, piece_cells(p)[i].1 + 1));
}

/// Law: the row-clear awards — short of the score cap, a pass that clears
/// exactly one row raises the score by exactly the row increment, one that
/// clears exactly two rows by exactly twice the increment, and one that
/// clears exactly three rows by exactly four times.
pub proof fn lemma_multi_clear_scoring(m: GameModel)
    requires
        m.score >= 0,
        cleared_count_from(m.grid, 0) == 1 ==> m.score + (ROW_SCORE_INC as int) <= u64::MAX,
        cleared_count_from(m.grid, 0) == 2 ==> m.score + 2 * (ROW_SCORE_INC as int) <= u64::MAX,
        cleared_count_from(m.grid, 0) == 3 ==> m.score + 4 * (ROW_SCORE_INC as int) <= u64::MAX,
    ensures
        cleared_count_from(m.grid, 0) == 1 ==> sat_add_u64(
            m.score,
            row_clear_score(cleared_count_from(m.grid, 0)),
        ) == m.score + (ROW_SCORE_INC as int),
        cleared_count_from(m.grid, 0) == 2 ==> sat_add_u64(
            m.score,
            row_clear_score(cleared_count_from(m.grid, 0)),
        ) == m.score + 2 * (ROW_SCORE_INC as int),
        cleared_count_from(m.grid, 0) == 3 ==> sat_add_u64(
            m.score,
            row_clear_score(cleared_count_from(m.grid, 0)),
        ) == m.score + 4 * (ROW_SCORE_INC as int),
{
}

} // verus!
