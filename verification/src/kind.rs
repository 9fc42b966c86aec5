//! The seven tetromino kinds.

use vstd::prelude::*;

verus! {

/// One of the seven classical tetromino shapes.
#[derive(Copy, Clone, Debug, PartialEq, Eq, Structural)]
pub enum BlockType {
    I,
    O,
    T,
    S,
    Z,
    J,
    L,
}

/// The display color of a kind, as an RGB triple.
pub open spec fn color_of(k: BlockType) -> (u8, u8, u8) {
    match k {
        BlockType::I => (0, 255, 255),
        BlockType::O => (255, 255, 0),
        BlockType::T => (255, 0, 255),
        BlockType::S => (0, 255, 0),
        BlockType::Z => (255, 0, 0),
        BlockType::J => (0, 0, 255),
        BlockType::L => (255, 165, 0),
    }
}

/// The kind that a piece index in `[0, 7)` stands for; the order matches
/// the list returned by `BlockType::all`.
pub open spec fn kind_of_index(i: int) -> BlockType {
    if i == 0 {
        BlockType::I
    } else if i == 1 {
        BlockType::O
    } else if i == 2 {
        BlockType::T
    } else if i == 3 {
        BlockType::S
    } else if i == 4 {
        BlockType::Z
    } else if i == 5 {
        BlockType::J
    } else {
        BlockType::L
    }
}

impl BlockType {
    /// Every kind, in a fixed order.
    pub fn all() -> (v: Vec<BlockType>)
        ensures
            v@.len() == 7,
            forall|i: int| 0 <= i < 7 ==> v@[i] == kind_of_index(i),
    {
        let v = vec![
            BlockType::I,
            BlockType::O,
            BlockType::T,
            BlockType::S,
            BlockType::Z,
            BlockType::J,
            BlockType::L,
        ];
        proof {
            assert(forall|i: int| 0 <= i < 7 ==> v@[i] == kind_of_index(i));
        }
        v
    }

    /// The kind that a piece index in `[0, 7)` stands for.
    pub fn from_index(i: u8) -> (k: BlockType)
        requires
            i < 7,
        ensures
            k == kind_of_index(i as int),
    {
        if i == 0 {
            BlockType::I
        } else if i == 1 {
            BlockType::O
        } else if i == 2 {
            BlockType::T
        } else if i == 3 {
            BlockType::S
        } else if i == 4 {
            BlockType::Z
        } else if i == 5 {
            BlockType::J
        } else {
            BlockType::L
        }
    }

    /// The display color of this kind, as an RGB triple.
    pub fn color(self) -> (c: (u8, u8, u8))
        ensures
            c == color_of(self),
    {
        match self {
            BlockType::I => (0, 255, 255),
            BlockType::O => (255, 255, 0),
            BlockType::T => (255, 0, 255),
            BlockType::S => (0, 255, 0),
            BlockType::Z => (255, 0, 0),
            BlockType::J => (0, 0, 255),
            BlockType::L => (255, 165, 0),
        }
    }
}

} // verus!
