use vstd::prelude::*;

verus! {

/// The six kinds of chess pieces, in the order of the encoder's layers.
#[derive(Clone, Copy, Debug, PartialEq, Eq, Structural)]
pub enum PieceKind {
    Pawn,
    Rook,
    Knight,
    Bishop,
    Queen,
    King,
}

/// The two sides of a game.
#[derive(Clone, Copy, Debug, PartialEq, Eq, Structural)]
pub enum Side {
    White,
    Black,
}

/// A piece of one kind belonging to one side.
#[derive(Clone, Copy, Debug, PartialEq, Eq, Structural)]
pub struct Placed {
    pub kind: PieceKind,
    pub side: Side,
}

/// Index of the encoder layer that holds pieces of kind `k`.
pub open spec fn layer_of(k: PieceKind) -> int {
    match k {
        PieceKind::Pawn => 0,
        PieceKind::Rook => 1,
        PieceKind::Knight => 2,
        PieceKind::Bishop => 3,
        PieceKind::Queen => 4,
        PieceKind::King => 5,
    }
}

/// +1 for White, -1 for Black.
pub open spec fn sign_of(s: Side) -> int {
    match s {
        Side::White => 1,
        Side::Black => -1,
    }
}

pub open spec fn opponent(s: Side) -> Side {
    match s {
        Side::White => Side::Black,
        Side::Black => Side::White,
    }
}

impl PieceKind {
    pub fn layer(self) -> (r: usize)
        ensures
            r as int == layer_of(self),
            r < 6,
    {
        match self {
            PieceKind::Pawn => 0,
            PieceKind::Rook => 1,
            PieceKind::Knight => 2,
            PieceKind::Bishop => 3,
            PieceKind::Queen => 4,
            PieceKind::King => 5,
        }
    }
}

impl Side {
    pub fn other(self) -> (r: Side)
        ensures
            r == opponent(self),
    {
        match self {
            Side::White => Side::Black,
            Side::Black => Side::White,
        }
    }
}

} // verus!
