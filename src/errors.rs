use vstd::prelude::*;

verus! {

/// A feature of chess that the engine does not support yet.
#[derive(Debug, Clone, Copy, PartialEq, Eq, Structural)]
pub enum Feature {
    Castling,
    EnPassant,
    Draw,
    Resignation,
    GameOverDetection,
}

/// Every way a game operation can be refused.
#[derive(Debug, Clone, Copy, PartialEq, Eq, Structural)]
pub enum GameError {
    EmptyCell,
    OccupiedCell,
    SideNotChanged,
    SideAlreadyChanged,
    OpponentPiece,
    InvalidMove,
    GameOver,
    InvalidPosition,
    AlonePiece,
    Unsupported(Feature),
}

/// Ways a textual position can be rejected.
#[derive(Debug, Clone, Copy, PartialEq, Eq, Structural)]
pub enum PosErr {
    InvalidPosition,
    ParseError,
}

} // verus!
