use vstd::prelude::*;
use vstd::string::StrSliceExecFns;
use crate::errors::GameError;

verus! {

/// The lowest file letter.
pub const FIRST_FILE: u32 = 97;

/// The highest file letter.
pub const LAST_FILE: u32 = 104;

/// A file letter of the board: 'a' through 'h'.
pub open spec fn file_ok(c: char) -> bool {
    'a' <= c && c <= 'h'
}

/// A rank number of the board: 1 through 8.
pub open spec fn rank_ok(r: int) -> bool {
    1 <= r && r <= 8
}

/// A square of the board, as a file letter and a rank number.
///
/// The fields are public, so a `Pos` may hold any pair; `Pos::new` is the
/// validating factory and `wf` says when a pair names a square.
#[derive(Debug, Clone, Copy, PartialEq, Eq, Structural)]
pub struct Pos(pub char, pub u8);

/// Zero-based column of a file letter.
pub open spec fn column_of(c: char) -> int {
    c as int - 'a' as int
}

/// The square with the given flat index, rank 8 at row 0.
pub open spec fn pos_at_index(i: int) -> Pos {
    Pos(('a' as int + i % 8) as char, (8 - i / 8) as u8)
}

/// The square with the given integer coordinates (file letter code, rank).
pub open spec fn pos_at(t: (int, int)) -> Pos {
    Pos(t.0 as char, t.1 as u8)
}

/// Integer coordinates that name a square.
pub open spec fn coords_ok(t: (int, int)) -> bool {
    'a' as int <= t.0 <= 'h' as int && rank_ok(t.1)
}

impl Pos {
    /// The pair names a square of the board.
    pub open spec fn wf(self) -> bool {
        file_ok(self.0) && rank_ok(self.1 as int)
    }

    /// The square's coordinates as integers: file letter code and rank.
    pub open spec fn coords(self) -> (int, int) {
        (self.0 as int, self.1 as int)
    }

    /// Row-major index, rank 8 first.
    pub open spec fn index_spec(self) -> int {
        8 * (8 - self.1 as int) + column_of(self.0)
    }

    /// Builds a square, rejecting a file outside 'a'..'h' or a rank outside 1..8.
    pub fn new(file: char, rank: u8) -> (r: Result<Pos, GameError>)
        ensures
            r matches Ok(p) ==> p == Pos(file, rank),
            r is Ok <==> Pos(file, rank).wf(),
            r is Err ==> r == Err::<Pos, GameError>(GameError::InvalidPosition),
    {
        if Pos::is_valid(file, rank) {
            Ok(Pos(file, rank))
        } else {
            Err(GameError::InvalidPosition)
        }
    }

    pub fn is_valid(file: char, rank: u8) -> (r: bool)
        ensures
            r == Pos(file, rank).wf(),
    {
        let f = file as u32;
        FIRST_FILE <= f && f <= LAST_FILE && 1 <= rank && rank <= 8
    }

    /// The square reached by a signed shift, computed in a wide integer.
    pub fn d_pos(&self, d_file: i32, d_rank: i32) -> (r: Result<Pos, ()>)
        ensures
            r is Ok <==> coords_ok((self.0 as int + d_file, self.1 as int + d_rank)),
            r matches Ok(p) ==> p.wf() && p.coords() == (self.0 as int + d_file, self.1 as int
                + d_rank),
    {
        let new_file: i64 = self.0 as u32 as i64 + d_file as i64;
        let new_rank: i64 = self.1 as i64 + d_rank as i64;
        if FIRST_FILE as i64 <= new_file && new_file <= LAST_FILE as i64 && 1 <= new_rank
            && new_rank <= 8 {
            Ok(Pos((new_file as u8) as char, new_rank as u8))
        } else {
            Err(())
        }
    }

    pub fn rank(&self) -> (r: u8)
        ensures
            r == self.1,
    {
        self.1
    }

    pub fn file(&self) -> (r: char)
        ensures
            r == self.0,
    {
        self.0
    }

    /// Row (rank 8 is row 0) and column (file 'a' is column 0).
    pub fn at_matrix(&self) -> (r: (usize, usize))
        requires
            self.wf(),
        ensures
            r.0 == 8 - self.1 as int,
            r.1 == column_of(self.0),
    {
        ((8 - self.1) as usize, (self.0 as u32 - FIRST_FILE) as usize)
    }

    /// Row-major index of the square, rank 8 first.
    pub fn index(&self) -> (r: usize)
        requires
            self.wf(),
        ensures
            r == self.index_spec(),
            r < 64,
    {
        let (row, col) = self.at_matrix();
        row * 8 + col
    }

    /// The square with the given row-major index.
    pub fn from_index(i: usize) -> (r: Pos)
        requires
            i < 64,
        ensures
            r == pos_at_index(i as int),
            r.wf(),
    {
        let file = (FIRST_FILE as usize + i % 8) as u8;
        Pos(file as char, (8 - i / 8) as u8)
    }

    /// Reads a square from two characters, file then rank, the file in either case.
    pub fn try_from(s: &str) -> (r: Result<Pos, GameError>)
        ensures
            r matches Ok(p) ==> parsed_pos(s@) == Some(p),
            r is Err ==> parsed_pos(s@) is None && r == Err::<Pos, GameError>(
                GameError::InvalidPosition,
            ),
    {
        if s.unicode_len() != 2 {
            return Err(GameError::InvalidPosition);
        }
        let f = s.get_char(0);
        let d = s.get_char(1);
        let fc = f as u32;
        let dc = d as u32;
        let file: char = if 65 <= fc && fc <= 72 {
            ((fc + 32) as u8) as char
        } else {
            f
        };
        if 49 <= dc && dc <= 56 {
            Pos::new(file, (dc - 48) as u8)
        } else {
            Err(GameError::InvalidPosition)
        }
    }
}

/// A file letter with the upper-case letters 'A'..'H' folded to lower case.
pub open spec fn fold_file(c: char) -> char {
    if 'A' <= c && c <= 'H' {
        (c as int + 32) as char
    } else {
        c
    }
}

/// The square that a two-character text names, if any.
pub open spec fn parsed_pos(s: Seq<char>) -> Option<Pos> {
    if s.len() == 2 && file_ok(fold_file(s[0])) && '1' <= s[1] && s[1] <= '8' {
        Some(Pos(fold_file(s[0]), (s[1] as int - '0' as int) as u8))
    } else {
        None
    }
}

/// The flat index names every square once, and `from_index` undoes it.
pub proof fn lemma_index_bijective(p: Pos, q: Pos)
    requires
        p.wf(),
        q.wf(),
    ensures
        0 <= p.index_spec() < 64,
        pos_at_index(p.index_spec()) == p,
        p.index_spec() == q.index_spec() ==> p == q,
{
    assert(p.index_spec() % 8 == column_of(p.0));
    assert(p.index_spec() / 8 == 8 - p.1 as int);
    assert(pos_at_index(p.index_spec()).0 as int == p.0 as int);
}

/// Every flat index below 64 is the index of the square it names.
pub proof fn lemma_index_onto(i: int)
    requires
        0 <= i < 64,
    ensures
        pos_at_index(i).wf(),
        pos_at_index(i).index_spec() == i,
{
}

} // verus!
