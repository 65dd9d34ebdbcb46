use vstd::prelude::*;
use crate::pieces::{Character, Side};
use crate::position::{Pos, column_of};

verus! {

/// The piece that starts on a column of a side's back rank: R N B Q K B N R.
pub open spec fn back_rank_spec(col: int, side: Side) -> Character {
    if col == 0 || col == 7 {
        Character::Rook(side)
    } else if col == 1 || col == 6 {
        Character::Knight(side)
    } else if col == 2 || col == 5 {
        Character::Bishop(side)
    } else if col == 3 {
        Character::Queen(side)
    } else {
        Character::King(side)
    }
}

/// The side that a square's half of the board belongs to at setup: ranks below 4 are White's.
pub open spec fn home_side(rank: int) -> Side {
    if rank < 4 {
        Side::White
    } else {
        Side::Black
    }
}

/// What stands on a square in the standard starting arrangement.
pub open spec fn home_piece(p: Pos) -> Option<Character> {
    let rank = p.1 as int;
    if rank == 1 || rank == 8 {
        Some(back_rank_spec(column_of(p.0), home_side(rank)))
    } else if rank == 2 || rank == 7 {
        Some(Character::Pawn(home_side(rank)))
    } else {
        None
    }
}

/// The piece that starts on a column of a side's back rank.
pub fn back_rank_piece(col: usize, side: Side) -> (r: Character)
    ensures
        r == back_rank_spec(col as int, side),
{
    if col == 0 || col == 7 {
        Character::Rook(side)
    } else if col == 1 || col == 6 {
        Character::Knight(side)
    } else if col == 2 || col == 5 {
        Character::Bishop(side)
    } else if col == 3 {
        Character::Queen(side)
    } else {
        Character::King(side)
    }
}

} // verus!
