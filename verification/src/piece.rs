//! The tetromino catalog and the active piece.
//!
//! Each rotation state of a kind occupies four cells of a 4x4 bounding
//! box.  A rotation state is recorded as those four cells, listed in
//! row-major order of the box; the classical shapes have 1 (O), 2
//! (I, S, Z) or 4 (T, J, L) rotation states.

use vstd::prelude::*;

use crate::kind::BlockType;

verus! {

/// How many rotation states a kind has.
pub open spec fn rot_count_of(k: BlockType) -> nat {
    match k {
        BlockType::I => 2,
        BlockType::O => 1,
        BlockType::T => 4,
        BlockType::S => 2,
        BlockType::Z => 2,
        BlockType::J => 4,
        BlockType::L => 4,
    }
}

/// The four cells `(x, y)` of the 4x4 bounding box that rotation state
/// `r` of kind `k` occupies, in row-major order of the box.
pub open spec fn rot_cells_of(k: BlockType, r: int) -> Seq<(i32, i32)> {
    match k {
        BlockType::I => if r == 0 {
            seq![(0, 1), (1, 1), (2, 1), (3, 1)]
        } else {
            seq![(2, 0), (2, 1), (2, 2), (2, 3)]
        },
        BlockType::O => seq![(1, 0), (2, 0), (1, 1), (2, 1)],
        BlockType::T => if r == 0 {
            seq![(1, 0), (0, 1), (1, 1), (2, 1)]
        } else if r == 1 {
            seq![(1, 0), (1, 1), (2, 1), (1, 2)]
        } else if r == 2 {
            seq![(0, 1), (1, 1), (2, 1), (1, 2)]
        } else {
            seq![(1, 0), (0, 1), (1, 1), (1, 2)]
        },
        BlockType::S => if r == 0 {
            seq![(1, 0), (2, 0), (0, 1), (1, 1)]
        } else {
            seq![(1, 0), (1, 1), (2, 1), (2, 2)]
        },
        BlockType::Z => if r == 0 {
            seq![(0, 0), (1, 0), (1, 1), (2, 1)]
        } else {
            seq![(2, 0), (1, 1), (2, 1), (1, 2)]
        },
        BlockType::J => if r == 0 {
            seq![(0, 0), (0, 1), (1, 1), (2, 1)]
        } else if r == 1 {
            seq![(1, 0), (2, 0), (1, 1), (1, 2)]
        } else if r == 2 {
            seq![(0, 1), (1, 1), (2, 1), (2, 2)]
        } else {
            seq![(1, 0), (1, 1), (0, 2), (1, 2)]
        },
        BlockType::L => if r == 0 {
            seq![(2, 0), (0, 1), (1, 1), (2, 1)]
        } else if r == 1 {
            seq![(1, 0), (1, 1), (1, 2), (2, 2)]
        } else if r == 2 {
            seq![(0, 1), (1, 1), (2, 1), (0, 2)]
        } else {
            seq![(0, 0), (1, 0), (1, 1), (1, 2)]
        },
    }
}

/// Basic facts about every rotation state: four cells, each inside the
/// 4x4 box, no two the same.
pub proof fn lemma_catalog(k: BlockType, r: int)
    requires
        0 <= r < rot_count_of(k),
    ensures
        rot_cells_of(k, r).len() == 4,
        forall|i: int|
            0 <= i < 4 ==> 0 <= #[trigger] rot_cells_of(k, r)[i].0 < 4 && 0 <= rot_cells_of(
                k,
                r,
            )[i].1 < 4,
        forall|i: int, j: int|
            0 <= i < j < 4 ==> #[trigger] rot_cells_of(k, r)[i] != #[trigger] rot_cells_of(k, r)[j],
{
}

/// A kind together with its full list of rotation states.
pub struct Tetromino {
    pub kind: BlockType,
    pub rotations: Vec<Vec<(i32, i32)>>,
}

impl Tetromino {
    /// The catalog entry lists exactly the rotation states of the kind.
    pub open spec fn wf(&self) -> bool {
        &&& self.rotations@.len() == rot_count_of(self.kind)
        &&& forall|r: int|
            0 <= r < self.rotations@.len() ==> #[trigger] self.rotations@[r]@ == rot_cells_of(
                self.kind,
                r,
            )
    }

    /// Look up the rotation states of a kind.
    pub fn new(kind: BlockType) -> (t: Tetromino)
        ensures
            t.kind == kind,
            t.wf(),
    {
        let rotations: Vec<Vec<(i32, i32)>> = match kind {
            BlockType::I => vec![
                vec![(0, 1), (1, 1), (2, 1), (3, 1)],
                vec![(2, 0), (2, 1), (2, 2), (2, 3)],
            ],
            BlockType::O => vec![vec![(1, 0), (2, 0), (1, 1), (2, 1)]],
            BlockType::T => vec![
                vec![(1, 0), (0, 1), (1, 1), (2, 1)],
                vec![(1, 0), (1, 1), (2, 1), (1, 2)],
                vec![(0, 1), (1, 1), (2, 1), (1, 2)],
                vec![(1, 0), (0, 1), (1, 1), (1, 2)],
            ],
            BlockType::S => vec![
                vec![(1, 0), (2, 0), (0, 1), (1, 1)],
                vec![(1, 0), (1, 1), (2, 1), (2, 2)],
            ],
            BlockType::Z => vec![
                vec![(0, 0), (1, 0), (1, 1), (2, 1)],
                vec![(2, 0), (1, 1), (2, 1), (1, 2)],
            ],
            BlockType::J => vec![
                vec![(0, 0), (0, 1), (1, 1), (2, 1)],
                vec![(1, 0), (2, 0), (1, 1), (1, 2)],
                vec![(0, 1), (1, 1), (2, 1), (2, 2)],
                vec![(1, 0), (1, 1), (0, 2), (1, 2)],
            ],
            BlockType::L => vec![
                vec![(2, 0), (0, 1), (1, 1), (2, 1)],
                vec![(1, 0), (1, 1), (1, 2), (2, 2)],
                vec![(0, 1), (1, 1), (2, 1), (0, 2)],
                vec![(0, 0), (1, 0), (1, 1), (1, 2)],
            ],
        };
        let t = Tetromino { kind, rotations };
        proof {
            assert(forall|r: int|
                0 <= r < t.rotations@.len() ==> #[trigger] t.rotations@[r]@ =~= rot_cells_of(
                    t.kind,
                    r,
                ));
        }
        t
    }
}

/// The next rotation index clockwise, for a kind with `n` states.
pub open spec fn cw_index(r: int, n: int) -> int {
    (r + 1) % n
}

/// The next rotation index counter-clockwise, for a kind with `n` states.
pub open spec fn ccw_index(r: int, n: int) -> int {
    if r == 0 {
        n - 1
    } else {
        r - 1
    }
}

/// The piece in play: a kind, a rotation index, and the board position
/// of the top-left corner of its 4x4 bounding box.  `y` may be negative
/// while the piece still hangs above the visible rows.
#[derive(Copy, Clone, Debug, PartialEq, Eq, Structural)]
pub struct ActivePiece {
    pub kind: BlockType,
    pub rotation: usize,
    pub x: i32,
    pub y: i32,
}

/// A freshly spawned piece: rotation 0, near the top center of a
/// 10-wide board, one row above the visible area.
pub open spec fn spawn_of(k: BlockType) -> ActivePiece {
    ActivePiece { kind: k, rotation: 0, x: 3 as i32, y: -1 as i32 }
}

/// The absolute board coordinates of the four cells the piece occupies.
pub open spec fn piece_cells(p: ActivePiece) -> Seq<(int, int)> {
    rot_cells_of(p.kind, (p.rotation as int) % (rot_count_of(p.kind) as int)).map_values(
        |off: (i32, i32)| (p.x as int + off.0 as int, p.y as int + off.1 as int),
    )
}

impl ActivePiece {
    /// The rotation index stays below the kind's rotation count, and the
    /// position stays in the band the collision checks allow: every
    /// committed position keeps all four cells inside the side walls and
    /// above the floor, which pins `x` to `[-3, 9]` and `y` to `[-4, 19]`.
    pub open spec fn wf(&self) -> bool {
        &&& (self.rotation as int) < rot_count_of(self.kind)
        &&& -3 <= self.x <= 9
        &&& -4 <= self.y <= 19
    }

    /// Spawn a piece of the given kind at the top of the board.
    pub fn new(kind: BlockType) -> (p: ActivePiece)
        ensures
            p == spawn_of(kind),
            p.wf(),
    {
        ActivePiece { kind, rotation: 0, x: 10i32 / 2 - 2, y: -1 }
    }

    /// The four absolute cells the piece occupies, recomputed on demand.
    pub fn cells(&self) -> (v: Vec<(i32, i32)>)
        requires
            self.wf(),
        ensures
            v@.len() == piece_cells(*self).len(),
            v@.len() == 4,
            forall|i: int|
                0 <= i < 4 ==> (#[trigger] v@[i].0 as int, v@[i].1 as int) == piece_cells(
                    *self,
                )[i],
    {
        let t = Tetromino::new(self.kind);
        let n = t.rotations.len();
        let idx = self.rotation % n;
        let grid = &t.rotations[idx];
        proof {
            lemma_catalog(self.kind, idx as int);
        }
        let mut v: Vec<(i32, i32)> = Vec::new();
        let mut i: usize = 0;
        while i < grid.len()
            invariant
                self.wf(),
                grid@ == rot_cells_of(self.kind, (self.rotation as int) % (rot_count_of(
                    self.kind,
                ) as int)),
                grid@.len() == 4,
                forall|j: int| 0 <= j < 4 ==> 0 <= #[trigger] grid@[j].0 < 4 && 0 <= grid@[j].1 < 4,
                i <= 4,
                v@.len() == i,
                forall|j: int|
                    0 <= j < i ==> (#[trigger] v@[j].0 as int, v@[j].1 as int) == piece_cells(
                        *self,
                    )[j],
            decreases grid@.len() - i,
        {
            let off = grid[i];
            v.push((self.x + off.0, self.y + off.1));
            i = i + 1;
        }
        v
    }

    /// Advance the rotation index clockwise, wrapping at the end.
    pub fn rotate_cw(&mut self)
        requires
            old(self).wf(),
        ensures
            final(self).wf(),
            final(self).kind == old(self).kind,
            final(self).x == old(self).x,
            final(self).y == old(self).y,
            final(self).rotation as int == cw_index(
                old(self).rotation as int,
                rot_count_of(old(self).kind) as int,
            ),
    {
        let t = Tetromino::new(self.kind);
        let n = t.rotations.len();
        self.rotation = (self.rotation + 1) % n;
    }

    /// Retreat the rotation index counter-clockwise, wrapping at zero.
    pub fn rotate_ccw(&mut self)
        requires
            old(self).wf(),
        ensures
            final(self).wf(),
            final(self).kind == old(self).kind,
            final(self).x == old(self).x,
            final(self).y == old(self).y,
            final(self).rotation as int == ccw_index(
                old(self).rotation as int,
                rot_count_of(old(self).kind) as int,
            ),
    {
        let t = Tetromino::new(self.kind);
        let n = t.rotations.len();
        if self.rotation == 0 {
            self.rotation = n - 1;
        } else {
            self.rotation = self.rotation - 1;
        }
    }
}

/// The four cells of a well-formed piece sit within the 4x4 box at the
/// piece's position.
pub proof fn lemma_piece_cells_bounds(p: ActivePiece)
    requires
        p.wf(),
    ensures
        piece_cells(p).len() == 4,
        forall|i: int|
            0 <= i < 4 ==> p.x <= #[trigger] piece_cells(p)[i].0 <= p.x + 3 && p.y <= piece_cells(
                p,
            )[i].1 <= p.y + 3,
        forall|i: int, j: int| 0 <= i < j < 4 ==> piece_cells(p)[i] != piece_cells(p)[j],
{
    let r = (p.rotation as int) % (rot_count_of(p.kind) as int);
    lemma_catalog(p.kind, r);
}

/// Law: turning a piece twice clockwise and then twice counter-clockwise
/// from any starting state returns it to its original rotation index,
/// for every kind, including across the wrap-around.
pub proof fn lemma_rotation_round_trip(k: BlockType, r: int)
    requires
        0 <= r < rot_count_of(k),
    ensures
        ({
            let n = rot_count_of(k) as int;
            ccw_index(ccw_index(cw_index(cw_index(r, n), n), n), n) == r
        }),
{
    let n = rot_count_of(k) as int;
    assert(n == 1 || n == 2 || n == 4);
    let r1 = cw_index(r, n);
    let r2 = cw_index(r1, n);
    if r + 1 < n {
        assert(r1 == r + 1) by (nonlinear_arith)
            requires
                0 <= r && r + 1 < n && r1 == (r + 1) % n,
        ;
    } else {
        assert(r1 == 0) by (nonlinear_arith)
            requires
                0 <= r && r + 1 == n && r1 == (r + 1) % n,
        ;
    }
    if r1 + 1 < n {
        assert(r2 == r1 + 1) by (nonlinear_arith)
            requires
                0 <= r1 && r1 + 1 < n && r2 == (r1 + 1) % n,
        ;
    } else {
        assert(r2 == 0) by (nonlinear_arith)
            requires
                0 <= r1 && r1 + 1 == n && r2 == (r1 + 1) % n,
        ;
    }
}

} // verus!
