//! Shape catalog, coordinate geometry and the rotation transform of the
//! falling pieces.

use vstd::prelude::*;
use crate::game::Dir;
use crate::rng::random_below;
use crate::SUBCELL;

verus! {

/// The seven tetromino kinds.
#[derive(PartialEq, Eq, Structural, Clone, Copy, Debug)]
pub enum ShapeType {
    T,
    L,
    Mirror,
    S,
    Z,
    Square,
    Line,
}

/// Index of a shape in the catalog; doubles as its display color index.
pub open spec fn shape_index_spec(s: ShapeType) -> int {
    match s {
        ShapeType::T => 0,
        ShapeType::L => 1,
        ShapeType::Mirror => 2,
        ShapeType::S => 3,
        ShapeType::Z => 4,
        ShapeType::Square => 5,
        ShapeType::Line => 6,
    }
}

/// The canonical four cell offsets of each shape, relative to the cell that
/// holds the piece's position. All offsets fit in [-2, 2] x [-2, 2] and every
/// shape covers its own origin cell.
pub open spec fn spec_shape_coords(s: ShapeType) -> Seq<(int, int)> {
    match s {
        ShapeType::T => seq![(-1, 0), (0, 0), (1, 0), (0, 1)],
        ShapeType::L => seq![(-1, -1), (0, -1), (0, 0), (0, 1)],
        ShapeType::Mirror => seq![(1, -1), (0, -1), (0, 0), (0, 1)],
        ShapeType::S => seq![(0, -1), (0, 0), (1, 0), (1, 1)],
        ShapeType::Z => seq![(0, -1), (0, 0), (-1, 0), (-1, 1)],
        ShapeType::Square => seq![(0, 0), (1, 0), (0, 1), (1, 1)],
        ShapeType::Line => seq![(0, -1), (0, 0), (0, 1), (0, 2)],
    }
}

/// Mathematical model of a piece: position in sub-cell units and the four
/// cell offsets, as unbounded integers.
pub struct PieceModel {
    pub x: int,
    pub y: int,
    pub shape: ShapeType,
    pub coords: Seq<(int, int)>,
    pub fg: int,
}

impl PieceModel {
    /// Every offset stays inside the [-2, 2] x [-2, 2] bounding box.
    pub open spec fn offsets_bounded(self) -> bool {
        forall|i: int|
            0 <= i < self.coords.len() ==> {
                let c = #[trigger] self.coords[i];
                -2 <= c.0 <= 2 && -2 <= c.1 <= 2
            }
    }

    /// The piece covers the cell that holds its position.
    pub open spec fn has_origin_cell(self) -> bool {
        exists|i: int| 0 <= i < self.coords.len() && #[trigger] self.coords[i] == (0int, 0int)
    }

    pub open spec fn wf(self) -> bool {
        &&& self.coords.len() == 4
        &&& self.offsets_bounded()
        &&& self.has_origin_cell()
        &&& 0 <= self.fg < 7
    }
}

/// One cell offset after a quarter turn: left maps (x, y) to (y, -x), right
/// maps (x, y) to (-y, x); a downward "rotation" is the identity.
pub open spec fn rotated_offset(c: (int, int), dir: Dir) -> (int, int) {
    match dir {
        Dir::Left => (c.1, -c.0),
        Dir::Right => (-c.1, c.0),
        Dir::Down => c,
    }
}

/// The model of a piece after a rotation: a Square never changes, any other
/// shape has every offset turned about the piece's local origin.
pub open spec fn rotated_model(p: PieceModel, dir: Dir) -> PieceModel {
    if p.shape == ShapeType::Square {
        p
    } else {
        PieceModel { coords: p.coords.map_values(|c: (int, int)| rotated_offset(c, dir)), ..p }
    }
}

/// An active, falling piece.
#[derive(PartialEq, Clone, Copy, Debug)]
pub struct Tetromino {
    /// Position in sub-cell units (`SUBCELL` units per grid cell): x then y.
    pub pos: (i64, i64),
    /// The kind of the piece; immutable for the piece's lifetime.
    pub shape: ShapeType,
    /// Four cell offsets relative to the cell that holds `pos`.
    pub coords: [(i16, i16); 4],
    /// Display color index, derived from the shape.
    pub fg: usize,
}

/// The offsets of an executable piece, as unbounded integers.
pub open spec fn offsets_model(a: [(i16, i16); 4]) -> Seq<(int, int)> {
    a@.map_values(|c: (i16, i16)| (c.0 as int, c.1 as int))
}

impl View for Tetromino {
    type V = PieceModel;

    open spec fn view(&self) -> PieceModel {
        PieceModel {
            x: self.pos.0 as int,
            y: self.pos.1 as int,
            shape: self.shape,
            coords: offsets_model(self.coords),
            fg: self.fg as int,
        }
    }
}

/// The catalog table as executable data.
pub fn shape_coords(s: ShapeType) -> (r: [(i16, i16); 4])
    ensures
        offsets_model(r) == spec_shape_coords(s),
{
    let r: [(i16, i16); 4] = match s {
        ShapeType::T => [(-1, 0), (0, 0), (1, 0), (0, 1)],
        ShapeType::L => [(-1, -1), (0, -1), (0, 0), (0, 1)],
        ShapeType::Mirror => [(1, -1), (0, -1), (0, 0), (0, 1)],
        ShapeType::S => [(0, -1), (0, 0), (1, 0), (1, 1)],
        ShapeType::Z => [(0, -1), (0, 0), (-1, 0), (-1, 1)],
        ShapeType::Square => [(0, 0), (1, 0), (0, 1), (1, 1)],
        ShapeType::Line => [(0, -1), (0, 0), (0, 1), (0, 2)],
    };
    proof {
        assert(offsets_model(r) =~= spec_shape_coords(s));
    }
    r
}

/// The catalog index of a shape as executable data.
pub fn shape_index(s: ShapeType) -> (r: usize)
    ensures
        r == shape_index_spec(s),
{
    match s {
        ShapeType::T => 0,
        ShapeType::L => 1,
        ShapeType::Mirror => 2,
        ShapeType::S => 3,
        ShapeType::Z => 4,
        ShapeType::Square => 5,
        ShapeType::Line => 6,
    }
}

/// The shape at a catalog index.
pub fn shape_from_index(i: u8) -> (s: ShapeType)
    requires
        i < 7,
    ensures
        shape_index_spec(s) == i,
{
    match i {
        0 => ShapeType::T,
        1 => ShapeType::L,
        2 => ShapeType::Mirror,
        3 => ShapeType::S,
        4 => ShapeType::Z,
        5 => ShapeType::Square,
        _ => ShapeType::Line,
    }
}

/// Every catalog entry is a well-formed offset table.
pub proof fn lemma_catalog_wf(s: ShapeType)
    ensures
        spec_shape_coords(s).len() == 4,
        forall|i: int|
            0 <= i < 4 ==> {
                let c = #[trigger] spec_shape_coords(s)[i];
                -2 <= c.0 <= 2 && -2 <= c.1 <= 2
            },
        exists|i: int| 0 <= i < 4 && #[trigger] spec_shape_coords(s)[i] == (0int, 0int),
{
    match s {
        ShapeType::T => assert(spec_shape_coords(s)[1] == (0int, 0int)),
        ShapeType::L => assert(spec_shape_coords(s)[2] == (0int, 0int)),
        ShapeType::Mirror => assert(spec_shape_coords(s)[2] == (0int, 0int)),
        ShapeType::S => assert(spec_shape_coords(s)[1] == (0int, 0int)),
        ShapeType::Z => assert(spec_shape_coords(s)[1] == (0int, 0int)),
        ShapeType::Square => assert(spec_shape_coords(s)[0] == (0int, 0int)),
        ShapeType::Line => assert(spec_shape_coords(s)[1] == (0int, 0int)),
    }
}

/// A piece as it is created: at the fixed spawn position, with its shape's
/// canonical offsets and color index.
pub open spec fn spawned_piece(p: PieceModel) -> bool {
    &&& p.x == 4 * (SUBCELL as int)
    &&& p.y == 0
    &&& p.coords == spec_shape_coords(p.shape)
    &&& p.fg == shape_index_spec(p.shape)
}

impl Tetromino {
    /// Picks one of the seven shapes at random and returns a piece at the
    /// spawn position with that shape's canonical offsets and color index.
    pub fn select() -> (r: Tetromino)
        ensures
            r@.wf(),
            spawned_piece(r@),
    {
        let idx = random_below(7);
        let shape = shape_from_index(idx);
        let r = Tetromino { pos: (4 * SUBCELL, 0), shape, coords: shape_coords(shape), fg: idx as usize };
        proof {
            lemma_catalog_wf(shape);
        }
        r
    }

    /// Turns the piece a quarter turn about its local origin, in place; a
    /// Square piece is left unchanged. Legality against the board is the
    /// caller's concern: this transform always succeeds.
    pub fn rotate(&mut self, dir: Dir)
        requires
            old(self)@.wf(),
        ensures
            final(self)@ == rotated_model(old(self)@, dir),
            final(self)@.wf(),
    {
        if self.shape == ShapeType::Square {
            return;
        }

        let ghost orig = self@;
        let mut i: usize = 0;
        while i < 4
            invariant
                0 <= i <= 4,
                self.pos == old(self).pos,
                self.shape == old(self).shape,
                self.fg == old(self).fg,
                orig == old(self)@,
                orig.wf(),
                forall|j: int|
                    0 <= j < i ==> offsets_model(self.coords)[j] == rotated_offset(
                        orig.coords[j],
                        dir,
                    ),
                forall|j: int| i <= j < 4 ==> offsets_model(self.coords)[j] == orig.coords[j],
            decreases 4 - i,
        {
            let c = self.coords[i];
            let ghost before = self.coords;
            assert(offsets_model(self.coords)[i as int] == orig.coords[i as int]);
            assert(-2 <= c.0 <= 2 && -2 <= c.1 <= 2);
            match dir {
                Dir::Left => {
                    self.coords[i] = (c.1, -c.0);
                },
                Dir::Right => {
                    self.coords[i] = (-c.1, c.0);
                },
                Dir::Down => {},
            }
            proof {
                assert(forall|j: int|
                    0 <= j < 4 && j != i ==> offsets_model(self.coords)[j] == offsets_model(
                        before,
                    )[j]);
                assert(offsets_model(self.coords)[i as int] == rotated_offset(
                    orig.coords[i as int],
                    dir,
                ));
                assert forall|j: int| 0 <= j < i + 1 implies offsets_model(self.coords)[j]
                    == rotated_offset(orig.coords[j], dir) by {
                    if j < i {
                        assert(offsets_model(self.coords)[j] == offsets_model(before)[j]);
                        assert(offsets_model(before)[j] == rotated_offset(orig.coords[j], dir));
                    }
                }
            }
            i = i + 1;
        }
        proof {
            assert(self@.coords =~= rotated_model(old(self)@, dir).coords);
            assert(self@ == rotated_model(old(self)@, dir));
            let w = choose|k: int| 0 <= k < orig.coords.len() && orig.coords[k] == (0int, 0int);
            assert(self@.coords[w] == (0int, 0int));
        }
    }
}

/// Law: for a piece of any shape but Square, rotating left and then right
/// restores the original cell offsets.
pub proof fn lemma_rotate_round_trip(p: PieceModel)
    requires
        p.shape != ShapeType::Square,
    ensures
        rotated_model(rotated_model(p, Dir::Left), Dir::Right) == p,
{
    assert(rotated_model(rotated_model(p, Dir::Left), Dir::Right).coords =~= p.coords);
}

/// Law: rotation never changes a Square piece, in either direction.
pub proof fn lemma_square_rotate_noop(p: PieceModel, dir: Dir)
    requires
        p.shape == ShapeType::Square,
    ensures
        rotated_model(p, dir) == p,
{
}

} // verus!
