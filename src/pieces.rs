use vstd::prelude::*;
use vstd::string::StringExecFns;
use crate::chess_board::ChessBoard;
use crate::errors::GameError;
use crate::game::{Game, GameState};
use crate::moves::{Moving, is_move};
use crate::position::{Pos, parsed_pos};

verus! {

/// One of the two players.
#[derive(Debug, Clone, Copy, PartialEq, Eq, Hash, Structural)]
pub enum Side {
    White,
    Black,
}

/// The name of a side.
pub open spec fn side_name(s: Side) -> Seq<char> {
    match s {
        Side::White => "White"@,
        Side::Black => "Black"@,
    }
}

impl Side {
    /// The other player.
    pub open spec fn other(self) -> Side {
        match self {
            Side::White => Side::Black,
            Side::Black => Side::White,
        }
    }

    /// +1 for White, -1 for Black: the sign that turns "forward" toward the opponent.
    pub open spec fn sign(self) -> int {
        match self {
            Side::White => 1,
            Side::Black => -1,
        }
    }

    pub fn to_string(&self) -> (r: String)
        ensures
            r@ == side_name(*self),
    {
        match self {
            Side::White => String::from_str("White"),
            Side::Black => String::from_str("Black"),
        }
    }
}

/// A piece kind together with the side that owns it.
#[derive(Debug, Clone, Copy, Hash, PartialEq, Eq, Structural)]
pub enum Character {
    King(Side),
    Queen(Side),
    Knight(Side),
    Rook(Side),
    Bishop(Side),
    Pawn(Side),
}

/// The name of a piece kind.
pub open spec fn kind_name(c: Character) -> Seq<char> {
    match c {
        Character::King(_) => "King"@,
        Character::Queen(_) => "Queen"@,
        Character::Knight(_) => "Knight"@,
        Character::Rook(_) => "Rook"@,
        Character::Bishop(_) => "Bishop"@,
        Character::Pawn(_) => "Pawn"@,
    }
}

/// The display glyph of a piece: upper case for White, lower case for Black.
pub open spec fn glyph(c: Character) -> char {
    match c {
        Character::King(Side::White) => 'K',
        Character::Queen(Side::White) => 'Q',
        Character::Knight(Side::White) => 'N',
        Character::Rook(Side::White) => 'R',
        Character::Bishop(Side::White) => 'B',
        Character::Pawn(Side::White) => 'P',
        Character::King(Side::Black) => 'k',
        Character::Queen(Side::Black) => 'q',
        Character::Knight(Side::Black) => 'n',
        Character::Rook(Side::Black) => 'r',
        Character::Bishop(Side::Black) => 'b',
        Character::Pawn(Side::Black) => 'p',
    }
}

impl Character {
    /// The side that owns the piece.
    pub open spec fn owner(self) -> Side {
        match self {
            Character::King(s) => s,
            Character::Queen(s) => s,
            Character::Knight(s) => s,
            Character::Rook(s) => s,
            Character::Bishop(s) => s,
            Character::Pawn(s) => s,
        }
    }

    pub fn side(self) -> (r: Side)
        ensures
            r == self.owner(),
    {
        match self {
            Self::King(side) => side,
            Self::Queen(side) => side,
            Self::Knight(side) => side,
            Self::Rook(side) => side,
            Self::Bishop(side) => side,
            Self::Pawn(side) => side,
        }
    }

    pub fn is_white(&self) -> (r: bool)
        ensures
            r == (self.owner() == Side::White),
    {
        self.side() == Side::White
    }

    pub fn is_black(&self) -> (r: bool)
        ensures
            r == (self.owner() == Side::Black),
    {
        !self.is_white()
    }

    pub fn symbol(&self) -> (r: char)
        ensures
            r == glyph(*self),
    {
        let (white, black) = match self {
            Self::King(_) => ('K', 'k'),
            Self::Queen(_) => ('Q', 'q'),
            Self::Knight(_) => ('N', 'n'),
            Self::Rook(_) => ('R', 'r'),
            Self::Bishop(_) => ('B', 'b'),
            Self::Pawn(_) => ('P', 'p'),
        };
        if self.is_white() {
            white
        } else {
            black
        }
    }

    pub fn same_side(character_a: Character, character_b: Character) -> (r: bool)
        ensures
            r == (character_a.owner() == character_b.owner()),
    {
        character_a.side() == character_b.side()
    }

    /// The kind's name and the side's name, joined by an underscore.
    pub fn to_string(&self) -> (r: String)
        ensures
            r@ == kind_name(*self) + "_"@ + side_name(self.owner()),
    {
        let name = match self {
            Self::King(_) => String::from_str("King"),
            Self::Queen(_) => String::from_str("Queen"),
            Self::Knight(_) => String::from_str("Knight"),
            Self::Bishop(_) => String::from_str("Bishop"),
            Self::Rook(_) => String::from_str("Rook"),
            Self::Pawn(_) => String::from_str("Pawn"),
        };
        let side = self.side().to_string();
        name.concat("_").concat(side.as_str())
    }
}

/// A picked piece: its kind, the square it came from, its side, and the board
/// it took along, on which that square is left empty.
///
/// Placing it consumes it, and it cannot be cloned, so a held board is
/// handed back at most once.
#[derive(Debug)]
pub struct Piece {
    pub character: Character,
    pub position: Pos,
    pub side: Side,
    pub surrounding: Option<ChessBoard>,
}

impl Piece {
    /// The piece came from a square of the board, and the board it holds has
    /// that square free.
    pub open spec fn wf(self) -> bool {
        &&& self.position.wf()
        &&& self.surrounding matches Some(b) ==> b.at(self.position) is None
    }

    /// `after` is `before` with the held board handed back, the piece on its
    /// own square again, and the turn open; a piece that holds no board
    /// changes nothing.
    pub open spec fn placed_back(self, before: Game, after: Game) -> bool {
        match self.surrounding {
            None => after == before,
            Some(b) => {
                &&& after.board matches Some(nb) && nb@ == b@.update(
                    self.position.index_spec(),
                    Some(self.character),
                )
                &&& after.state == GameState::Idle
                &&& after.side == before.side
                &&& after.captured_white == before.captured_white
                &&& after.captured_black == before.captured_black
            },
        }
    }

    /// `after` is `before` once the piece has moved to `target` on its held
    /// board: whatever stood there goes to the capture list of the side to
    /// move, the board is handed back, and the turn passes to the other side.
    pub open spec fn moved(self, before: Game, after: Game, target: Pos) -> bool {
        let b = self.surrounding.unwrap();
        let taken = b.at(target);
        let mover = before.side;
        &&& after.board matches Some(nb) && nb@ == b@.update(
            target.index_spec(),
            Some(self.character),
        )
        &&& after.state == GameState::Idle
        &&& after.side == mover.other()
        &&& after.captured_by(mover) == match taken {
            Some(x) => before.captured_by(mover).push(x),
            None => before.captured_by(mover),
        }
        &&& after.captured_by(mover.other()) == before.captured_by(mover.other())
    }

    pub fn new(character: Character, position: Pos, surrounding: Option<ChessBoard>) -> (r: Piece)
        ensures
            r == (Piece { character, position, side: character.owner(), surrounding }),
    {
        let side = character.side();
        Piece { character, position, side, surrounding }
    }

    pub fn new_alone(character: Character, position: Pos) -> (r: Piece)
        ensures
            r == (Piece { character, position, side: character.owner(), surrounding: None }),
    {
        Self::new(character, position, None)
    }

    pub fn same_side(piece_a: &Piece, piece_b: &Piece) -> (r: bool)
        ensures
            r == (piece_a.side == piece_b.side),
    {
        piece_a.side == piece_b.side
    }

    /// Places the piece on a square given as text, such as "e4".
    pub fn place_at(self, game: &mut Game, pos: &str) -> (r: Result<Option<Character>, GameError>)
        requires
            self.wf(),
        ensures
            parsed_pos(pos@) is None ==> r == Err::<Option<Character>, GameError>(
                GameError::InvalidPosition,
            ) && self.placed_back(*old(game), *final(game)),
            parsed_pos(pos@) matches Some(p) ==> self.placed_at(*old(game), *final(game), p, r),
    {
        match Pos::try_from(pos) {
            Ok(p) => self.place_at_pos(game, p),
            Err(_) => {
                self.place_back(game);
                Err(GameError::InvalidPosition)
            },
        }
    }

    /// `r` and `after` are what placing the piece on `target` makes of `before`.
    /// Its own square is always accepted and hands the board back; another
    /// square must be a legal move. Every refusal hands the board back too.
    pub open spec fn placed_at(
        self,
        before: Game,
        after: Game,
        target: Pos,
        r: Result<Option<Character>, GameError>,
    ) -> bool {
        if !target.wf() {
            r == Err::<Option<Character>, GameError>(GameError::InvalidPosition)
                && self.placed_back(before, after)
        } else if self.surrounding is None {
            r == Err::<Option<Character>, GameError>(GameError::AlonePiece) && after == before
        } else if target == self.position {
            r == Ok::<Option<Character>, GameError>(None) && self.placed_back(before, after)
        } else if is_move(self.character, self.position, self.surrounding.unwrap()@, target) {
            r == Ok::<Option<Character>, GameError>(self.surrounding.unwrap().at(target))
                && self.moved(before, after, target)
        } else {
            r == Err::<Option<Character>, GameError>(GameError::InvalidMove) && self.placed_back(
                before,
                after,
            )
        }
    }

    /// Places the piece on `pos` and hands the board back to the game.
    pub fn place_at_pos(self, game: &mut Game, pos: Pos) -> (r: Result<
        Option<Character>,
        GameError,
    >)
        requires
            self.wf(),
        ensures
            self.placed_at(*old(game), *final(game), pos, r),
    {
        if !Pos::is_valid(pos.0, pos.1) {
            self.place_back(game);
            return Err(GameError::InvalidPosition);
        }
        let mut board = match self.surrounding {
            Some(b) => b,
            None => {
                return Err(GameError::AlonePiece);
            },
        };
        if self.position == pos {
            self.place_back(game);
            return Ok(None);
        }
        if !self.can_move(pos) {
            self.place_back(game);
            return Err(GameError::InvalidMove);
        }
        let res = match board.pick_character(pos) {
            Ok(character) => {
                match game.whose_turn() {
                    Side::White => game.captured_white.push(character),
                    Side::Black => game.captured_black.push(character),
                }
                Some(character)
            },
            Err(_) => None,
        };
        let ghost b = self.surrounding.unwrap()@;
        assert(board@.len() == 64);
        let _ = board.place_character(self.character, pos);
        assert(board@ =~= b.update(pos.index_spec(), Some(self.character)));
        game.board = Some(board);
        game.state = GameState::PiecePlaced;
        let _ = game.change_side();
        Ok(res)
    }

    /// Puts the piece back on its own square and hands the board back.
    pub fn place_back(self, game: &mut Game)
        requires
            self.wf(),
        ensures
            self.placed_back(*old(game), *final(game)),
    {
        match self.surrounding {
            Some(b) => {
                let mut board = b;
                let _ = board.place_character(self.character, self.position);
                game.board = Some(board);
                game.state = GameState::Idle;
            },
            None => {},
        }
    }
}

/// Placing a held piece on its own square always succeeds: the turn stays
/// with the same side and neither capture list changes.
pub proof fn lemma_place_at_origin(
    piece: Piece,
    before: Game,
    after: Game,
    r: Result<Option<Character>, GameError>,
)
    requires
        piece.wf(),
        piece.surrounding is Some,
        piece.placed_at(before, after, piece.position, r),
    ensures
        r == Ok::<Option<Character>, GameError>(None),
        after.board is Some,
        after.side == before.side,
        after.captured_by(Side::White) == before.captured_by(Side::White),
        after.captured_by(Side::Black) == before.captured_by(Side::Black),
{
}

impl Moving for Piece {
    open spec fn kind_spec(&self) -> Character {
        self.character
    }

    open spec fn square_spec(&self) -> Pos {
        self.position
    }

    open spec fn board_spec(&self) -> Option<Seq<Option<Character>>> {
        match self.surrounding {
            Some(b) => Some(b@),
            None => None,
        }
    }

    fn character(&self) -> (r: Character) {
        self.character
    }

    fn current_position(&self) -> (r: Pos) {
        self.position
    }

    fn surrounding(&self) -> (r: &ChessBoard) {
        self.surrounding.as_ref().unwrap()
    }
}

} // verus!
