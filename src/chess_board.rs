use vstd::prelude::*;
use crate::characters::{back_rank_piece, home_piece, home_side};
use crate::errors::GameError;
use crate::pieces::{Character, Side, glyph};
use crate::position::{Pos, pos_at_index, lemma_index_bijective};

verus! {

/// An 8x8 grid of optional occupants, stored row-major with rank 8 first.
#[derive(Debug, Clone, Copy)]
pub struct ChessBoard {
    pub matrix: [Option<Character>; 64],
}

impl View for ChessBoard {
    type V = Seq<Option<Character>>;

    open spec fn view(&self) -> Seq<Option<Character>> {
        self.matrix@
    }
}

/// Sixty-four empty cells.
pub open spec fn empty_cells() -> Seq<Option<Character>> {
    Seq::new(64, |i: int| None)
}

/// The cells of the standard starting arrangement.
pub open spec fn home_cells() -> Seq<Option<Character>> {
    Seq::new(64, |i: int| home_piece(pos_at_index(i)))
}

/// A cell's row is a back rank or a pawn rank.
pub open spec fn home_row(i: int) -> bool {
    i / 8 == 0 || i / 8 == 1 || i / 8 == 6 || i / 8 == 7
}

/// The squares of the starting arrangement are all free.
pub open spec fn home_squares_free(cells: Seq<Option<Character>>) -> bool {
    forall|i: int| 0 <= i < 64 && home_row(i) ==> #[trigger] cells[i] is None
}

/// `cells` with the starting arrangement placed on its 32 squares and every
/// other square as it was.
pub open spec fn set_up(cells: Seq<Option<Character>>) -> Seq<Option<Character>> {
    Seq::new(
        64,
        |i: int|
            if home_row(i) {
                home_piece(pos_at_index(i))
            } else {
                cells[i]
            },
    )
}

/// The glyph of a cell: the piece's symbol, or a blank.
pub open spec fn cell_glyph(o: Option<Character>) -> char {
    match o {
        Some(c) => glyph(c),
        None => ' ',
    }
}

/// The first `n` cells of a row, each followed by a bar.
pub open spec fn row_cells(cells: Seq<Option<Character>>, row: int, n: int) -> Seq<char>
    decreases n,
{
    if n <= 0 {
        seq![]
    } else {
        row_cells(cells, row, n - 1) + seq![cell_glyph(cells[8 * row + n - 1]), '|']
    }
}

/// One line of the board: its rank digit, a bar, its cells, a line break.
pub open spec fn row_text(cells: Seq<Option<Character>>, row: int) -> Seq<char> {
    seq![('8' as int - row) as char, '|'] + row_cells(cells, row, 8) + seq!['\n']
}

/// The first `n` lines of the board, rank 8 first.
pub open spec fn rows_text(cells: Seq<Option<Character>>, n: int) -> Seq<char>
    decreases n,
{
    if n <= 0 {
        seq![]
    } else {
        rows_text(cells, n - 1) + row_text(cells, n - 1)
    }
}

/// The first `n` file letters, each followed by a space.
pub open spec fn file_labels(n: int) -> Seq<char>
    decreases n,
{
    if n <= 0 {
        seq![]
    } else {
        file_labels(n - 1) + seq![('a' as int + n - 1) as char, ' ']
    }
}

/// The board as text: eight lines, rank 8 first, then the file letters.
pub open spec fn board_text(cells: Seq<Option<Character>>) -> Seq<char> {
    rows_text(cells, 8) + seq![' ', ' '] + file_labels(8)
}

impl ChessBoard {
    /// The board as text: eight lines, rank 8 first, each a rank digit and
    /// the cells between bars, then the file letters.
    pub fn render(&self) -> (r: Vec<char>)
        ensures
            r@ == board_text(self@),
    {
        let mut out: Vec<char> = Vec::new();
        let mut row: usize = 0;
        while row < 8
            invariant
                row <= 8,
                self@.len() == 64,
                out@ == rows_text(self@, row as int),
            decreases 8 - row,
        {
            let ghost start = out@;
            out.push(((56 - row) as u8) as char);
            out.push('|');
            let mut col: usize = 0;
            while col < 8
                invariant
                    row < 8,
                    col <= 8,
                    self@.len() == 64,
                    out@ == start + seq![('8' as int - row) as char, '|'] + row_cells(
                        self@,
                        row as int,
                        col as int,
                    ),
                decreases 8 - col,
            {
                let symbol = match self.matrix[8 * row + col] {
                    Some(c) => c.symbol(),
                    None => ' ',
                };
                out.push(symbol);
                out.push('|');
                col += 1;
            }
            out.push('\n');
            assert(out@ =~= rows_text(self@, row + 1));
            row += 1;
        }
        let ghost body = out@;
        out.push(' ');
        out.push(' ');
        let mut f: u8 = 0;
        while f < 8
            invariant
                f <= 8,
                out@ == body + seq![' ', ' '] + file_labels(f as int),
            decreases 8 - f,
        {
            out.push((97 + f) as char);
            out.push(' ');
            f += 1;
        }
        out
    }

    /// The occupant of a square.
    pub open spec fn at(self, p: Pos) -> Option<Character> {
        self@[p.index_spec()]
    }

    pub fn new() -> (r: ChessBoard)
        ensures
            r@ == empty_cells(),
    {
        let vacant: Option<Character> = None;
        let r = ChessBoard { matrix: vstd::array::array_fill_for_copy_types(vacant) };
        proof {
            broadcast use vstd::array::group_array_axioms;
        }
        assert(r@ =~= empty_cells());
        r
    }

    pub fn get_matrix(&self) -> (r: [Option<Character>; 64])
        ensures
            r@ == self@,
    {
        self.matrix
    }

    /// Sets up the standard starting arrangement; its 32 squares must be free.
    pub fn place_character_init(&mut self)
        requires
            home_squares_free(old(self)@),
        ensures
            final(self)@ == set_up(old(self)@),
            old(self)@ == empty_cells() ==> final(self)@ == home_cells(),
    {
        let ghost before = self@;
        let mut col: usize = 0;
        while col < 8
            invariant
                col <= 8,
                self@.len() == 64,
                before.len() == 64,
                forall|i: int|
                    0 <= i < 64 ==> #[trigger] self@[i] == if i % 8 < col && home_row(i) {
                        home_piece(pos_at_index(i))
                    } else {
                        before[i]
                    },
            decreases 8 - col,
        {
            self.set_cell(col, back_rank_piece(col, Side::Black));
            self.set_cell(8 + col, Character::Pawn(Side::Black));
            self.set_cell(48 + col, Character::Pawn(Side::White));
            self.set_cell(56 + col, back_rank_piece(col, Side::White));
            col += 1;
        }
        assert(self@ =~= set_up(before));
        proof {
            if before == empty_cells() {
                assert(self@ =~= home_cells());
            }
        }
    }

    fn set_cell(&mut self, i: usize, c: Character)
        requires
            i < 64,
        ensures
            final(self)@ == old(self)@.update(i as int, Some(c)),
    {
        self.matrix[i] = Some(c);
    }

    pub fn character_at(&self, pos: Pos) -> (r: Option<Character>)
        requires
            pos.wf(),
        ensures
            r == self.at(pos),
    {
        let index = pos.index();
        self.matrix[index]
    }

    /// Removes and returns the occupant of a square.
    pub fn pick_character(&mut self, pos: Pos) -> (r: Result<Character, GameError>)
        requires
            pos.wf(),
        ensures
            old(self).at(pos) matches Some(c) ==> r == Ok::<Character, GameError>(c)
                && final(self)@ == old(self)@.update(pos.index_spec(), None),
            old(self).at(pos) is None ==> r == Err::<Character, GameError>(GameError::EmptyCell)
                && final(self)@ == old(self)@,
    {
        if let Some(chracter) = self.character_at(pos) {
            let index = pos.index();
            self.matrix[index] = None;
            Ok(chracter)
        } else {
            Err(GameError::EmptyCell)
        }
    }

    /// Puts a piece on an empty square; an occupied square is left as it is.
    pub fn place_character(&mut self, character: Character, pos: Pos) -> (r: Result<(), GameError>)
        requires
            pos.wf(),
        ensures
            old(self).at(pos) is None ==> r is Ok && final(self)@ == old(self)@.update(
                pos.index_spec(),
                Some(character),
            ),
            old(self).at(pos) is Some ==> r == Err::<(), GameError>(GameError::OccupiedCell)
                && final(self)@ == old(self)@,
    {
        let index = pos.index();
        if self.matrix[index].is_none() {
            self.matrix[index] = Some(character);
            Ok(())
        } else {
            Err(GameError::OccupiedCell)
        }
    }
}

/// On a board set up by `place_character_init`, every square holds the piece
/// of the standard arrangement: ranks 1, 2, 7 and 8 are full, ranks 3 to 6
/// are empty, and the lower half belongs to White.
pub proof fn lemma_home_arrangement(b: ChessBoard, p: Pos)
    requires
        b@ == home_cells(),
        p.wf(),
    ensures
        b.at(p) == home_piece(p),
        b.at(p) is Some <==> (p.1 == 1 || p.1 == 2 || p.1 == 7 || p.1 == 8),
        b.at(p) matches Some(c) ==> c.owner() == home_side(p.1 as int),
{
    lemma_index_bijective(p, p);
}

impl Default for ChessBoard {
    fn default() -> (r: ChessBoard)
        ensures
            r@ == empty_cells(),
    {
        Self::new()
    }
}

} // verus!
