use vstd::prelude::*;
use crate::chess_board::{ChessBoard, empty_cells, home_squares_free, set_up};
use crate::errors::{Feature, GameError};
use crate::moves::{Moving, is_move};
use crate::pieces::{Character, Piece, Side};
use crate::position::{Pos, parsed_pos};

verus! {

/// Where a game stands between two moves.
#[derive(Debug, Clone, Copy, PartialEq, Eq, Structural, Default)]
pub enum GameState {
    #[default]
    Idle,
    PiecePicked,
    PiecePlaced,
    Ended,
}

/// A game: the board (absent while a picked piece holds it), the side to
/// move, the state of the turn and what each side has captured.
pub struct Game {
    pub board: Option<ChessBoard>,
    pub state: GameState,
    pub side: Side,
    pub captured_white: Vec<Character>,
    pub captured_black: Vec<Character>,
}

impl Game {
    /// What a side has captured so far.
    pub open spec fn captured_by(&self, side: Side) -> Seq<Character> {
        match side {
            Side::White => self.captured_white@,
            Side::Black => self.captured_black@,
        }
    }

    /// A piece may be picked: the game is idle and holds its board.
    pub open spec fn turn_open(&self) -> bool {
        self.state == GameState::Idle && self.board is Some
    }

    /// Why picking the piece on `p` is refused, if it is. The turn state is
    /// looked at before the square.
    pub open spec fn pick_error(&self, p: Pos) -> Option<GameError> {
        if !self.turn_open() {
            Some(GameError::SideNotChanged)
        } else if !p.wf() {
            Some(GameError::InvalidPosition)
        } else if self.board.unwrap().at(p) is None {
            Some(GameError::EmptyCell)
        } else if self.board.unwrap().at(p).unwrap().owner() != self.side {
            Some(GameError::OpponentPiece)
        } else {
            None
        }
    }

    /// A fresh game: empty board, White to move, nothing captured.
    pub open spec fn is_fresh(&self) -> bool {
        &&& self.board matches Some(b) && b@ == empty_cells()
        &&& self.state == GameState::Idle
        &&& self.side == Side::White
        &&& self.captured_white@.len() == 0
        &&& self.captured_black@.len() == 0
    }

    pub fn new() -> (r: Game)
        ensures
            r.is_fresh(),
    {
        Game {
            board: Some(ChessBoard::new()),
            side: Side::White,
            state: GameState::Idle,
            captured_white: Vec::new(),
            captured_black: Vec::new(),
        }
    }

    fn place_pieces(&mut self)
        requires
            old(self).board matches Some(b) && home_squares_free(b@),
        ensures
            final(self).board matches Some(b) && b@ == set_up(old(self).board.unwrap()@),
            final(self).state == old(self).state,
            final(self).side == old(self).side,
            final(self).captured_white == old(self).captured_white,
            final(self).captured_black == old(self).captured_black,
    {
        let mut board = self.board.unwrap();
        board.place_character_init();
        self.board = Some(board);
    }

    /// Sets the pieces up on their free squares, White to move.
    pub fn start(&mut self)
        requires
            old(self).board matches Some(b) && home_squares_free(b@),
        ensures
            final(self).board matches Some(b) && b@ == set_up(old(self).board.unwrap()@),
            final(self).side == Side::White,
            final(self).state == old(self).state,
            final(self).captured_white == old(self).captured_white,
            final(self).captured_black == old(self).captured_black,
    {
        self.start_with(Side::White);
    }

    /// Sets the pieces up on their free squares, `side` to move.
    pub fn start_with(&mut self, side: Side)
        requires
            old(self).board matches Some(b) && home_squares_free(b@),
        ensures
            final(self).board matches Some(b) && b@ == set_up(old(self).board.unwrap()@),
            final(self).side == side,
            final(self).state == old(self).state,
            final(self).captured_white == old(self).captured_white,
            final(self).captured_black == old(self).captured_black,
    {
        self.side = side;
        self.place_pieces();
    }

    pub fn whose_turn(&self) -> (r: Side)
        ensures
            r == self.side,
    {
        self.side
    }

    pub fn captured_pieces(&self, side: Side) -> (r: &Vec<Character>)
        ensures
            r@ == self.captured_by(side),
    {
        match side {
            Side::White => &self.captured_white,
            Side::Black => &self.captured_black,
        }
    }

    /// Is a piece ready to be picked: the game idle and holding its board?
    pub fn is_turn_open(&self) -> (r: bool)
        ensures
            r == self.turn_open(),
    {
        match self.state {
            GameState::Idle => self.board.is_some(),
            _ => false,
        }
    }

    /// Picks the piece on a square given as text, such as "e2".
    pub fn pick(&mut self, pos: &str) -> (r: Result<Piece, GameError>)
        ensures
            !old(self).turn_open() ==> r == Err::<Piece, GameError>(GameError::SideNotChanged)
                && *final(self) == *old(self),
            old(self).turn_open() && parsed_pos(pos@) is None ==> r == Err::<Piece, GameError>(
                GameError::InvalidPosition,
            ) && *final(self) == *old(self),
            parsed_pos(pos@) matches Some(p) ==> old(self).picked(*final(self), p, r),
    {
        if !self.is_turn_open() {
            return Err(GameError::SideNotChanged);
        }
        match Pos::try_from(pos) {
            Ok(p) => self.pick_at(p),
            Err(_) => Err(GameError::InvalidPosition),
        }
    }

    /// `r` and `after` are what picking the piece on `p` makes of this game:
    /// a refusal leaves the game as it was; otherwise the piece leaves the
    /// board and takes the board with it.
    pub open spec fn picked(self, after: Game, p: Pos, r: Result<Piece, GameError>) -> bool {
        match self.pick_error(p) {
            Some(e) => r == Err::<Piece, GameError>(e) && after == self,
            None => r matches Ok(piece) && {
                &&& piece.character == self.board.unwrap().at(p).unwrap()
                &&& piece.position == p
                &&& piece.side == self.side
                &&& piece.surrounding matches Some(b) && b@ == self.board.unwrap()@.update(
                    p.index_spec(),
                    None,
                )
                &&& after.board is None
                &&& after.state == GameState::PiecePicked
                &&& after.side == self.side
                &&& after.captured_white == self.captured_white
                &&& after.captured_black == self.captured_black
            },
        }
    }

    /// Picks the piece on `pos`. While the piece is held, the game has no board.
    pub fn pick_at(&mut self, pos: Pos) -> (r: Result<Piece, GameError>)
        ensures
            old(self).picked(*final(self), pos, r),
    {
        match self.state {
            GameState::Idle => {},
            _ => {
                return Err(GameError::SideNotChanged);
            },
        }
        let mut board = match self.board {
            Some(b) => b,
            None => {
                return Err(GameError::SideNotChanged);
            },
        };
        if !Pos::is_valid(pos.0, pos.1) {
            return Err(GameError::InvalidPosition);
        }
        match board.pick_character(pos) {
            Ok(character) => {
                if character.side() == self.side {
                    self.board = None;
                    self.state = GameState::PiecePicked;
                    Ok(Piece::new(character, pos, Some(board)))
                } else {
                    Err(GameError::OpponentPiece)
                }
            },
            Err(_) => Err(GameError::EmptyCell),
        }
    }

    /// Hands the turn to the other side once a piece has been placed.
    pub fn change_side(&mut self) -> (r: Result<(), GameError>)
        ensures
            old(self).state == GameState::PiecePlaced ==> r is Ok && final(self).side
                == old(self).side.other() && final(self).state == GameState::Idle
                && final(self).board == old(self).board && final(self).captured_white
                == old(self).captured_white && final(self).captured_black
                == old(self).captured_black,
            old(self).state != GameState::PiecePlaced ==> r == Err::<(), GameError>(
                GameError::SideAlreadyChanged,
            ) && *final(self) == *old(self),
    {
        match self.state {
            GameState::PiecePlaced => {
                self.side = match self.side {
                    Side::White => Side::Black,
                    Side::Black => Side::White,
                };
                self.state = GameState::Idle;
                Ok(())
            },
            _ => Err(GameError::SideAlreadyChanged),
        }
    }

    /// `after` holds the same board, state, turn and captures as `self`.
    pub open spec fn same_as(self, after: Game) -> bool {
        &&& self.board matches Some(b) ==> after.board matches Some(nb) && nb@ == b@
        &&& self.board is None ==> after.board is None
        &&& after.state == self.state
        &&& after.side == self.side
        &&& after.captured_white == self.captured_white
        &&& after.captured_black == self.captured_black
    }

    /// `r` and `after` are what promoting the piece on `p` makes of this game.
    /// A White pawn on rank 2 or a Black pawn on rank 7 becomes a queen and
    /// moves to rank 8 of its file, when the queen may go there; any other
    /// picked piece is put back and the promotion refused.
    pub open spec fn promoted(self, after: Game, p: Pos, r: Result<Option<Character>, GameError>) -> bool {
        match self.pick_error(p) {
            Some(e) => r == Err::<Option<Character>, GameError>(e) && after == self,
            None => {
                let b = self.board.unwrap();
                let cleared = b@.update(p.index_spec(), None);
                let target = Pos(p.0, 8);
                let queen = Character::Queen(self.side);
                let taken = b.at(target);
                if b.at(p).unwrap() is Pawn && promotion_rank(self.side, p) && is_move(
                    queen,
                    p,
                    cleared,
                    target,
                ) {
                    &&& r == Ok::<Option<Character>, GameError>(taken)
                    &&& after.board matches Some(nb) && nb@ == cleared.update(
                        target.index_spec(),
                        Some(queen),
                    )
                    &&& after.state == GameState::Idle
                    &&& after.side == self.side.other()
                    &&& after.captured_by(self.side) == match taken {
                        Some(x) => self.captured_by(self.side).push(x),
                        None => self.captured_by(self.side),
                    }
                    &&& after.captured_by(self.side.other()) == self.captured_by(self.side.other())
                } else {
                    r == Err::<Option<Character>, GameError>(GameError::InvalidMove)
                        && self.same_as(after)
                }
            },
        }
    }

    /// Promotes the pawn on a square given as text, such as "e2". Text that
    /// names no square is refused whatever the state of the game.
    pub fn promote_pawn(&mut self, pos: &str) -> (r: Result<Option<Character>, GameError>)
        ensures
            parsed_pos(pos@) is None ==> r == Err::<Option<Character>, GameError>(
                GameError::InvalidPosition,
            ) && *final(self) == *old(self),
            parsed_pos(pos@) matches Some(p) ==> old(self).promoted(*final(self), p, r),
    {
        match Pos::try_from(pos) {
            Ok(p) => self.promote_pawn_at(p),
            Err(_) => Err(GameError::InvalidPosition),
        }
    }

    /// Promotes the pawn on `pos`.
    pub fn promote_pawn_at(&mut self, pos: Pos) -> (r: Result<Option<Character>, GameError>)
        ensures
            old(self).promoted(*final(self), pos, r),
    {
        let ghost before = *self;
        let piece = match self.pick_at(pos) {
            Ok(piece) => piece,
            Err(e) => {
                return Err(e);
            },
        };
        let is_pawn = matches!(piece.character, Character::Pawn(_));
        let promotable = match piece.side {
            Side::White => pos.1 == 2,
            Side::Black => pos.1 == 7,
        };
        let target = Pos(pos.0, 8);
        if is_pawn && promotable {
            let queen = Piece::new(Character::Queen(piece.side), pos, piece.surrounding);
            if queen.can_move(target) {
                return queen.place_at_pos(self, target);
            }
        }
        piece.place_back(self);
        proof {
            let b = before.board.unwrap();
            assert(self.board.unwrap()@ =~= b@);
        }
        Err(GameError::InvalidMove)
    }

    /// Castling is not supported.
    pub fn castle(&mut self) -> (r: Result<(), GameError>)
        ensures
            r == Err::<(), GameError>(GameError::Unsupported(Feature::Castling)),
            *final(self) == *old(self),
    {
        Err(GameError::Unsupported(Feature::Castling))
    }

    /// Capturing en passant is not supported: the piece is put back.
    pub fn en_passant_capture(&mut self, piece: Piece) -> (r: Result<(), GameError>)
        requires
            piece.wf(),
        ensures
            r == Err::<(), GameError>(GameError::Unsupported(Feature::EnPassant)),
            piece.placed_back(*old(self), *final(self)),
    {
        piece.place_back(self);
        Err(GameError::Unsupported(Feature::EnPassant))
    }

    /// Offering a draw is not supported.
    pub fn request_draw(&mut self) -> (r: Result<(), GameError>)
        ensures
            r == Err::<(), GameError>(GameError::Unsupported(Feature::Draw)),
            *final(self) == *old(self),
    {
        Err(GameError::Unsupported(Feature::Draw))
    }

    /// Resigning is not supported.
    pub fn resign(&mut self) -> (r: Result<(), GameError>)
        ensures
            r == Err::<(), GameError>(GameError::Unsupported(Feature::Resignation)),
            *final(self) == *old(self),
    {
        Err(GameError::Unsupported(Feature::Resignation))
    }

    /// Telling whether the game is over is not supported.
    pub fn is_game_over(&self) -> (r: Result<bool, GameError>)
        ensures
            r == Err::<bool, GameError>(GameError::Unsupported(Feature::GameOverDetection)),
    {
        Err(GameError::Unsupported(Feature::GameOverDetection))
    }
}

/// Picking a piece of the side that is not to move is refused with
/// `OpponentPiece`, and the game, board included, stays as it was.
pub proof fn lemma_pick_opponent(before: Game, after: Game, p: Pos, r: Result<Piece, GameError>)
    requires
        before.picked(after, p, r),
        p.wf(),
        before.state == GameState::Idle,
        before.board matches Some(b) && b.at(p) matches Some(c) && c.owner() != before.side,
    ensures
        r == Err::<Piece, GameError>(GameError::OpponentPiece),
        after == before,
{
}

/// A side's piece on this square may be promoted: rank 2 for White, rank 7 for Black.
pub open spec fn promotion_rank(side: Side, p: Pos) -> bool {
    match side {
        Side::White => p.1 == 2,
        Side::Black => p.1 == 7,
    }
}

impl Default for Game {
    fn default() -> (r: Game)
        ensures
            r.is_fresh(),
    {
        Game::new()
    }
}

} // verus!
