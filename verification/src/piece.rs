//! The piece catalog: the seven fixed shapes, their spawn colors and spawn
//! positions, and the geometric transforms (translation and rotation).

use vstd::prelude::*;

verus! {

broadcast use vstd::array::group_array_axioms;

/// The seven shape variants.
#[derive(Clone, Copy, PartialEq, Eq, Debug)]
pub enum PieceType {
    T,
    Straight,
    L,
    RevL,
    Block,
    S,
    Z,
}

/// A falling piece: a color identity, exactly four block offsets relative to
/// the piece's position, and an absolute board position of its rotation
/// origin. A piece is an immutable value: every transform returns a new one.
#[derive(Clone, Copy, PartialEq, Eq, Debug)]
pub struct Piece {
    pub color: u8,
    pub blocks: [(i8, i8); 4],
    pub position: (i8, i8),
}

/// The fixed color identity of each shape, distinct across the seven shapes.
pub open spec fn spec_color(t: PieceType) -> u8 {
    match t {
        PieceType::T => 1,
        PieceType::Straight => 2,
        PieceType::L => 3,
        PieceType::RevL => 4,
        PieceType::Block => 5,
        PieceType::S => 6,
        PieceType::Z => 7,
    }
}

/// The fixed block offsets of each shape around its rotation origin.
pub open spec fn spec_blocks(t: PieceType) -> [(i8, i8); 4] {
    match t {
        PieceType::T => [(-1i8, 0i8), (0i8, 0i8), (1i8, 0i8), (0i8, 1i8)],
        PieceType::Straight => [(-1i8, 0i8), (0i8, 0i8), (1i8, 0i8), (2i8, 0i8)],
        PieceType::L => [(0i8, -1i8), (0i8, 0i8), (0i8, 1i8), (1i8, 1i8)],
        PieceType::RevL => [(0i8, -1i8), (0i8, 0i8), (0i8, 1i8), (-1i8, 1i8)],
        PieceType::Block => [(0i8, 0i8), (0i8, 1i8), (1i8, 0i8), (1i8, 1i8)],
        PieceType::S => [(0i8, 0i8), (1i8, 0i8), (-1i8, 1i8), (0i8, 1i8)],
        PieceType::Z => [(-1i8, 0i8), (0i8, 0i8), (0i8, 1i8), (1i8, 1i8)],
    }
}

/// The fixed spawn row of each shape: 1 for L and RevL so that their
/// footprint starts on the board, 0 for the rest.
pub open spec fn spec_spawn_row(t: PieceType) -> i8 {
    match t {
        PieceType::L => 1,
        PieceType::RevL => 1,
        _ => 0,
    }
}

/// The spawn column, the same for every shape.
pub const SPAWN_COLUMN: i8 = 4;

/// The shape-selection table: which shape a drawn index below 7 names.
pub open spec fn spec_shape_of(i: int) -> PieceType {
    if i == 0 {
        PieceType::T
    } else if i == 1 {
        PieceType::Straight
    } else if i == 2 {
        PieceType::L
    } else if i == 3 {
        PieceType::RevL
    } else if i == 4 {
        PieceType::Block
    } else if i == 5 {
        PieceType::S
    } else {
        PieceType::Z
    }
}

/// The shape-selection table is a bijection between the indices `0..7` and
/// the seven shape variants, so drawing the index uniformly gives every
/// shape the same probability.
pub proof fn lemma_shape_of_bijective()
    ensures
        spec_shape_of(0) == PieceType::T,
        spec_shape_of(1) == PieceType::Straight,
        spec_shape_of(2) == PieceType::L,
        spec_shape_of(3) == PieceType::RevL,
        spec_shape_of(4) == PieceType::Block,
        spec_shape_of(5) == PieceType::S,
        spec_shape_of(6) == PieceType::Z,
        forall|i: int, j: int|
            0 <= i < 7 && 0 <= j < 7 && i != j ==> spec_shape_of(i) != spec_shape_of(j),
{
}

/// The shape a drawn index below 7 names, exactly as the selection table
/// says.
pub fn shape_of_index(idx: u8) -> (t: PieceType)
    requires
        idx < 7,
    ensures
        t == spec_shape_of(idx as int),
{
    if idx == 0 {
        PieceType::T
    } else if idx == 1 {
        PieceType::Straight
    } else if idx == 2 {
        PieceType::L
    } else if idx == 3 {
        PieceType::RevL
    } else if idx == 4 {
        PieceType::Block
    } else if idx == 5 {
        PieceType::S
    } else {
        PieceType::Z
    }
}

/// The piece that shape `t` spawns as: its fixed color, its catalog block
/// offsets, and the spawn position.
pub open spec fn spec_from(t: PieceType) -> Piece {
    Piece { color: spec_color(t), blocks: spec_blocks(t), position: (SPAWN_COLUMN, spec_spawn_row(t)) }
}

/// Every block offset of `p` lies within `[-2, 2]` in both coordinates. The
/// seven catalog shapes satisfy this, and rotation and translation preserve
/// it, so every piece the state machine ever holds does too.
pub open spec fn offsets_small(p: Piece) -> bool {
    forall|k: int|
        0 <= k < 4 ==> {
            &&& -2 <= (#[trigger] p.blocks@[k]).0 <= 2
            &&& -2 <= p.blocks@[k].1 <= 2
        }
}

/// The catalog never spawns a piece with an offset outside `[-2, 2]`.
pub proof fn lemma_catalog_offsets_small(t: PieceType)
    ensures
        offsets_small(spec_from(t)),
{
    let b = spec_from(t).blocks;
    assert forall|k: int| 0 <= k < 4 implies -2 <= (#[trigger] b@[k]).0 <= 2 && -2 <= b@[k].1
        <= 2 by {
        match t {
            PieceType::T => { assert(b == spec_blocks(PieceType::T)); }
            PieceType::Straight => { assert(b == spec_blocks(PieceType::Straight)); }
            PieceType::L => { assert(b == spec_blocks(PieceType::L)); }
            PieceType::RevL => { assert(b == spec_blocks(PieceType::RevL)); }
            PieceType::Block => { assert(b == spec_blocks(PieceType::Block)); }
            PieceType::S => { assert(b == spec_blocks(PieceType::S)); }
            PieceType::Z => { assert(b == spec_blocks(PieceType::Z)); }
        }
    }
}

/// `p` moved one row downward.
pub open spec fn spec_dropped(p: Piece) -> Piece {
    Piece { color: p.color, blocks: p.blocks, position: (p.position.0, (p.position.1 + 1) as i8) }
}

/// `p` moved one column to the left.
pub open spec fn spec_moved_left(p: Piece) -> Piece {
    Piece { color: p.color, blocks: p.blocks, position: ((p.position.0 - 1) as i8, p.position.1) }
}

/// `p` moved one column to the right.
pub open spec fn spec_moved_right(p: Piece) -> Piece {
    Piece { color: p.color, blocks: p.blocks, position: ((p.position.0 + 1) as i8, p.position.1) }
}

/// `p` moved to row `y`, keeping its column, blocks and color.
pub open spec fn with_row(p: Piece, y: i8) -> Piece {
    Piece { color: p.color, blocks: p.blocks, position: (p.position.0, y) }
}

/// `p` rotated 90 degrees about its own position: each block offset `(x, y)`
/// becomes `(y, -x)`.
pub open spec fn spec_rotated(p: Piece) -> Piece {
    Piece {
        color: p.color,
        blocks: [
            (p.blocks@[0].1, (-(p.blocks@[0].0 as int)) as i8),
            (p.blocks@[1].1, (-(p.blocks@[1].0 as int)) as i8),
            (p.blocks@[2].1, (-(p.blocks@[2].0 as int)) as i8),
            (p.blocks@[3].1, (-(p.blocks@[3].0 as int)) as i8),
        ],
        position: p.position,
    }
}

impl Piece {
    /// Constructs the spawn-position piece of the given shape.
    pub fn from(name: &PieceType) -> (p: Piece)
        ensures
            p == spec_from(*name),
    {
        match *name {
            PieceType::T => Piece {
                color: 1,
                blocks: [(-1, 0), (0, 0), (1, 0), (0, 1)],
                position: (4, 0),
            },
            PieceType::Straight => Piece {
                color: 2,
                blocks: [(-1, 0), (0, 0), (1, 0), (2, 0)],
                position: (4, 0),
            },
            PieceType::L => Piece {
                color: 3,
                blocks: [(0, -1), (0, 0), (0, 1), (1, 1)],
                position: (4, 1),
            },
            PieceType::RevL => Piece {
                color: 4,
                blocks: [(0, -1), (0, 0), (0, 1), (-1, 1)],
                position: (4, 1),
            },
            PieceType::Block => Piece {
                color: 5,
                blocks: [(0, 0), (0, 1), (1, 0), (1, 1)],
                position: (4, 0),
            },
            PieceType::S => Piece {
                color: 6,
                blocks: [(0, 0), (1, 0), (-1, 1), (0, 1)],
                position: (4, 0),
            },
            PieceType::Z => Piece {
                color: 7,
                blocks: [(-1, 0), (0, 0), (0, 1), (1, 1)],
                position: (4, 0),
            },
        }
    }

    /// Moves the piece one row downward. No bounds or collision check: the
    /// caller decides legality through the collision detector.
    pub fn drop(&self) -> (p: Piece)
        requires
            self.position.1 < i8::MAX,
        ensures
            p == spec_dropped(*self),
            p.position.1 == self.position.1 + 1,
    {
        Piece { position: (self.position.0, self.position.1 + 1), ..*self }
    }

    /// Moves the piece one column to the left. No bounds or collision check.
    pub fn left(&self) -> (p: Piece)
        requires
            self.position.0 > i8::MIN,
        ensures
            p == spec_moved_left(*self),
            p.position.0 == self.position.0 - 1,
    {
        Piece { position: (self.position.0 - 1, self.position.1), ..*self }
    }

    /// Moves the piece one column to the right. No bounds or collision check.
    pub fn right(&self) -> (p: Piece)
        requires
            self.position.0 < i8::MAX,
        ensures
            p == spec_moved_right(*self),
            p.position.0 == self.position.0 + 1,
    {
        Piece { position: (self.position.0 + 1, self.position.1), ..*self }
    }

    /// Rotates the piece 90 degrees about its own position: each offset
    /// `(x, y)` becomes `(y, -x)`. Purely geometric; no bounds check.
    pub fn rotate(&self) -> (p: Piece)
        requires
            forall|k: int| 0 <= k < 4 ==> (#[trigger] self.blocks@[k]).0 > i8::MIN,
        ensures
            p == spec_rotated(*self),
            is_rotation_of(p, *self),
    {
        let b = &self.blocks;
        let new_blocks = [
            (b[0].1, -b[0].0),
            (b[1].1, -b[1].0),
            (b[2].1, -b[2].0),
            (b[3].1, -b[3].0),
        ];
        let p = Piece { blocks: new_blocks, ..*self };
        proof {
            assert(p.blocks =~= spec_rotated(*self).blocks);
        }
        p
    }
}

/// Whether `r` is `p` rotated 90 degrees: same color and position, and each
/// block offset `(x, y)` of `p` turned into `(y, -x)`.
pub open spec fn is_rotation_of(r: Piece, p: Piece) -> bool {
    &&& r.color == p.color
    &&& r.position == p.position
    &&& forall|k: int|
        0 <= k < 4 ==> {
            &&& (#[trigger] r.blocks@[k]).0 == p.blocks@[k].1
            &&& r.blocks@[k].1 == -(p.blocks@[k].0 as int)
        }
}

/// A rotation keeps every block offset within `[-2, 2]` when the original
/// offsets were within it: the rotated offsets are a swap and a negation.
pub proof fn lemma_rotation_offsets_small(r: Piece, p: Piece)
    requires
        is_rotation_of(r, p),
        offsets_small(p),
    ensures
        offsets_small(r),
{
    assert forall|k: int| 0 <= k < 4 implies -2 <= (#[trigger] r.blocks@[k]).0 <= 2 && -2
        <= r.blocks@[k].1 <= 2 by {
        assert(-2 <= p.blocks@[k].0 <= 2 && -2 <= p.blocks@[k].1 <= 2);
    }
}

/// Rotation is a group of order four: four successive rotations restore the
/// original block offsets exactly, along with the color and the position.
pub proof fn lemma_rotation_order_four(p: Piece, q: Piece, r: Piece, s: Piece, t: Piece)
    requires
        is_rotation_of(q, p),
        is_rotation_of(r, q),
        is_rotation_of(s, r),
        is_rotation_of(t, s),
    ensures
        t.blocks == p.blocks,
        t.color == p.color,
        t.position == p.position,
{
    assert forall|k: int| 0 <= k < 4 implies #[trigger] t.blocks@[k] == p.blocks@[k] by {
        assert(q.blocks@[k].0 == p.blocks@[k].1);
        assert(r.blocks@[k].0 == q.blocks@[k].1);
        assert(s.blocks@[k].0 == r.blocks@[k].1);
        assert(t.blocks@[k].0 == s.blocks@[k].1);
        assert(t.blocks@[k].0 == p.blocks@[k].0);
        assert(t.blocks@[k].1 == p.blocks@[k].1);
    }
    assert(t.blocks =~= p.blocks);
}

} // verus!
