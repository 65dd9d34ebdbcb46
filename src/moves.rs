use vstd::prelude::*;
use crate::chess_board::ChessBoard;
use crate::pieces::{Character, Side};
use crate::position::{Pos, coords_ok, pos_at};

verus! {

/// A step on the board: file shift, rank shift, both seen from White's side.
pub type Dir = (i32, i32);

/// A step from two small integers.
pub open spec fn dir(file: int, rank: int) -> Dir {
    (file as i32, rank as i32)
}

/// The step table of a piece kind. Tables are written for White; Black uses
/// the same table with every step negated.
pub open spec fn directions(c: Character) -> Seq<Dir> {
    match c {
        Character::Bishop(_) => seq![dir(-1, 1), dir(1, 1), dir(-1, -1), dir(1, -1)],
        Character::Rook(_) => seq![dir(0, 1), dir(-1, 0), dir(1, 0), dir(0, -1)],
        Character::Queen(_) | Character::King(_) => seq![
            dir(-1, 1),
            dir(0, 1),
            dir(1, 1),
            dir(-1, 0),
            dir(1, 0),
            dir(-1, -1),
            dir(0, -1),
            dir(1, -1),
        ],
        Character::Knight(_) => seq![
            dir(-1, 2),
            dir(1, 2),
            dir(-2, 1),
            dir(-2, -1),
            dir(2, 1),
            dir(2, -1),
            dir(-1, -2),
            dir(1, -2),
        ],
        Character::Pawn(_) => seq![dir(0, 1), dir(-1, 1), dir(1, 1)],
    }
}

/// How many steps a kind may take along one direction. The pawn walks like a
/// ranging piece and its stopping rule cuts it short.
pub open spec fn max_steps(c: Character) -> int {
    match c {
        Character::King(_) | Character::Knight(_) => 1,
        _ => 8,
    }
}

/// The rank from which a pawn of a side may advance two squares.
pub open spec fn home_rank(s: Side) -> int {
    match s {
        Side::White => 2,
        Side::Black => 7,
    }
}

/// The largest step component whose eightfold still fits in an `i32`.
pub const MAX_STEP: i32 = 268435455;

/// Steps whose components are small enough for the arithmetic of a walk.
pub open spec fn dirs_bounded(dirs: Seq<Dir>) -> bool {
    forall|j: int|
        0 <= j < dirs.len() ==> -MAX_STEP <= #[trigger] dirs[j].0 <= MAX_STEP && -MAX_STEP
            <= dirs[j].1 <= MAX_STEP
}

/// Coordinates reached from `o` after `k` steps along `d`, turned toward the opponent of `c`.
pub open spec fn step_coords(c: Character, o: Pos, d: Dir, k: int) -> (int, int) {
    (
        o.0 as int + d.0 as int * (k * c.owner().sign()),
        o.1 as int + d.1 as int * (k * c.owner().sign()),
    )
}

/// The occupant of the square with the given coordinates.
pub open spec fn cell(b: Seq<Option<Character>>, t: (int, int)) -> Option<Character> {
    b[8 * (8 - t.1) + (t.0 - 'a' as int)]
}

/// A piece standing on its home rank is a pawn's first move.
pub open spec fn on_home_rank(c: Character, o: Pos) -> bool {
    o.1 as int == home_rank(c.owner())
}

/// May `c` land on a square holding `occ`, reached at step `k` along `d`?
pub open spec fn admits(c: Character, o: Pos, occ: Option<Character>, d: Dir, k: int) -> bool {
    match c {
        Character::Pawn(_) => if d.0 != 0 {
            occ matches Some(x) && x.owner() != c.owner()
        } else {
            occ is None && (on_home_rank(c, o) || k == 1)
        },
        _ => occ matches Some(x) ==> x.owner() != c.owner(),
    }
}

/// Does the walk along `d` stop at a square holding `occ`, reached at step `k`?
pub open spec fn halts(c: Character, o: Pos, occ: Option<Character>, d: Dir, k: int) -> bool {
    match c {
        Character::Pawn(_) => d.0 != 0 || !on_home_rank(c, o) || k == 2 || occ is Some,
        _ => occ is Some,
    }
}

/// The walk along `d` is still going after `k` steps: each square on the way
/// is on the board and none of them stopped it.
pub open spec fn clear_through(
    c: Character,
    o: Pos,
    b: Seq<Option<Character>>,
    d: Dir,
    k: int,
) -> bool
    decreases k,
{
    if k <= 0 {
        true
    } else {
        clear_through(c, o, b, d, k - 1) && coords_ok(step_coords(c, o, d, k)) && !halts(
            c,
            o,
            cell(b, step_coords(c, o, d, k)),
            d,
            k,
        )
    }
}

/// Step `k` along `d` is a legal destination.
pub open spec fn reaches(
    c: Character,
    o: Pos,
    b: Seq<Option<Character>>,
    d: Dir,
    k: int,
    max: int,
) -> bool {
    1 <= k <= max && clear_through(c, o, b, d, k - 1) && coords_ok(step_coords(c, o, d, k))
        && admits(c, o, cell(b, step_coords(c, o, d, k)), d, k)
}

/// Some step along some direction of `dirs`, before step `i` or at step `i`
/// before direction `j`, is a legal destination with the coordinates of `p`.
pub open spec fn found_before(
    c: Character,
    o: Pos,
    b: Seq<Option<Character>>,
    dirs: Seq<Dir>,
    max: int,
    i: int,
    j: int,
    p: Pos,
) -> bool {
    exists|jj: int, k: int|
        0 <= jj < dirs.len() && 1 <= k && (k < i || (k == i && jj < j)) && #[trigger] reaches(
            c,
            o,
            b,
            dirs[jj],
            k,
            max,
        ) && p.coords() == step_coords(c, o, dirs[jj], k)
}

/// `p` is a destination of a walk over `dirs` of at most `max` steps: the
/// starting square itself, or a square that some direction reaches.
pub open spec fn in_reach(
    c: Character,
    o: Pos,
    b: Seq<Option<Character>>,
    dirs: Seq<Dir>,
    max: int,
    p: Pos,
) -> bool {
    p == o || found_before(c, o, b, dirs, max, max + 1, 0, p)
}

/// `p` is a legal destination of `c` standing on `o` on the board `b`,
/// placing the piece back where it stood included.
pub open spec fn is_move(c: Character, o: Pos, b: Seq<Option<Character>>, p: Pos) -> bool {
    in_reach(c, o, b, directions(c), max_steps(c), p)
}

/// The step table of a piece kind.
pub fn direction_table(c: Character) -> (r: Vec<Dir>)
    ensures
        r@ == directions(c),
{
    let r = match c {
        Character::Bishop(_) => vec![(-1, 1), (1, 1), (-1, -1), (1, -1)],
        Character::Rook(_) => vec![(0, 1), (-1, 0), (1, 0), (0, -1)],
        Character::Queen(_) | Character::King(_) => vec![
            (-1, 1),
            (0, 1),
            (1, 1),
            (-1, 0),
            (1, 0),
            (-1, -1),
            (0, -1),
            (1, -1),
        ],
        Character::Knight(_) => vec![
            (-1, 2),
            (1, 2),
            (-2, 1),
            (-2, -1),
            (2, 1),
            (2, -1),
            (-1, -2),
            (1, -2),
        ],
        Character::Pawn(_) => vec![(0, 1), (-1, 1), (1, 1)],
    };
    assert(r@ =~= directions(c));
    r
}

/// Landing rule of every kind but the pawn: an empty square is taken and the
/// walk goes on; an occupied one is taken only from the opponent, and the walk stops.
pub fn general_condition(current_character: Character, maybe_character: Option<Character>) -> (r: (
    bool,
    bool,
))
    ensures
        r.0 == (maybe_character matches Some(x) ==> x.owner() != current_character.owner()),
        r.1 == maybe_character is Some,
{
    if let Some(nei) = maybe_character {
        (!Character::same_side(current_character, nei), true)
    } else {
        (true, false)
    }
}

/// Landing rule of the pawn: diagonally it only captures, and only one step;
/// straight ahead it only moves onto empty squares, two of them from its home rank.
pub fn pawn_condition(
    current_character: Character,
    maybe_character: Option<Character>,
    d_file: i32,
    step: i32,
    first_move: bool,
) -> (r: (bool, bool))
    ensures
        r.0 == if d_file != 0 {
            maybe_character matches Some(x) && x.owner() != current_character.owner()
        } else {
            maybe_character is None && (first_move || step == 1)
        },
        r.1 == (d_file != 0 || !first_move || step == 2 || maybe_character is Some),
{
    if d_file != 0 {
        if let Some(other) = maybe_character {
            (!Character::same_side(current_character, other), true)
        } else {
            (false, true)
        }
    } else {
        (
            maybe_character.is_none() && (first_move || step == 1),
            !first_move || step == 2 || maybe_character.is_some(),
        )
    }
}

/// The destinations that the walk has listed before step `i`, direction `j`,
/// in the order it lists them: the starting square first, then step by step,
/// and within one step by direction.
pub open spec fn walk_before(
    c: Character,
    o: Pos,
    b: Seq<Option<Character>>,
    dirs: Seq<Dir>,
    max: int,
    i: int,
    j: int,
) -> Seq<Pos>
    decreases i, j,
{
    if i < 1 || (i == 1 && j <= 0) {
        seq![o]
    } else if j <= 0 {
        walk_before(c, o, b, dirs, max, i - 1, dirs.len() as int)
    } else if j > dirs.len() {
        walk_before(c, o, b, dirs, max, i, dirs.len() as int)
    } else {
        let prev = walk_before(c, o, b, dirs, max, i, j - 1);
        if reaches(c, o, b, dirs[j - 1], i, max) {
            prev.push(pos_at(step_coords(c, o, dirs[j - 1], i)))
        } else {
            prev
        }
    }
}

/// Every destination of a walk of at most `max` steps, in the order listed.
pub open spec fn walk(
    c: Character,
    o: Pos,
    b: Seq<Option<Character>>,
    dirs: Seq<Dir>,
    max: int,
) -> Seq<Pos> {
    walk_before(c, o, b, dirs, max, max + 1, 0)
}

/// A step that is taken at least once moves the piece.
proof fn lemma_step_moves(d: Dir, m: int)
    requires
        d != (0i32, 0i32),
        m != 0,
    ensures
        d.0 * m != 0 || d.1 * m != 0,
{
    assert(d.0 != 0 ==> d.0 * m != 0) by (nonlinear_arith)
        requires
            m != 0,
    ;
    assert(d.1 != 0 ==> d.1 * m != 0) by (nonlinear_arith)
        requires
            m != 0,
    ;
}

/// Turning two offsets by the same sign keeps them equal or apart.
proof fn lemma_same_sign(a: Dir, b: Dir, k1: int, k2: int, s: int)
    requires
        s == 1 || s == -1,
        a.0 * (k1 * s) == b.0 * (k2 * s),
        a.1 * (k1 * s) == b.1 * (k2 * s),
    ensures
        ray(a, k1) == ray(b, k2),
{
    lemma_cancel_sign(a.0 as int, k1, b.0 as int, k2, s);
    lemma_cancel_sign(a.1 as int, k1, b.1 as int, k2, s);
}

proof fn lemma_cancel_sign(x: int, k1: int, y: int, k2: int, s: int)
    requires
        s == 1 || s == -1,
        x * (k1 * s) == y * (k2 * s),
    ensures
        x * k1 == y * k2,
{
    assert(x * (k1 * s) == (x * k1) * s) by (nonlinear_arith);
    assert(y * (k2 * s) == (y * k2) * s) by (nonlinear_arith);
    if s == -1 {
        assert((x * k1) * s == -(x * k1)) by (nonlinear_arith)
            requires
                s == -1,
        ;
        assert((y * k2) * s == -(y * k2)) by (nonlinear_arith)
            requires
                s == -1,
        ;
    }
}

/// A direction that is no longer walked reaches nothing at the next step.
proof fn lemma_found_next_dir(
    c: Character,
    o: Pos,
    b: Seq<Option<Character>>,
    dirs: Seq<Dir>,
    max: int,
    i: int,
    j: int,
    p: Pos,
)
    requires
        1 <= i,
        0 <= j < dirs.len(),
    ensures
        found_before(c, o, b, dirs, max, i, j + 1, p) <==> (found_before(
            c,
            o,
            b,
            dirs,
            max,
            i,
            j,
            p,
        ) || (reaches(c, o, b, dirs[j], i, max) && p.coords() == step_coords(c, o, dirs[j], i))),
{
    if found_before(c, o, b, dirs, max, i, j + 1, p) {
        let (jj, k) = choose|jj: int, k: int|
            0 <= jj < dirs.len() && 1 <= k && (k < i || (k == i && jj < j + 1))
                && #[trigger] reaches(c, o, b, dirs[jj], k, max) && p.coords() == step_coords(
                c,
                o,
                dirs[jj],
                k,
            );
        if jj != j || k != i {
            assert(found_before(c, o, b, dirs, max, i, j, p));
        }
    }
    if found_before(c, o, b, dirs, max, i, j, p) {
        let (jj, k) = choose|jj: int, k: int|
            0 <= jj < dirs.len() && 1 <= k && (k < i || (k == i && jj < j)) && #[trigger] reaches(
                c,
                o,
                b,
                dirs[jj],
                k,
                max,
            ) && p.coords() == step_coords(c, o, dirs[jj], k);
        assert(found_before(c, o, b, dirs, max, i, j + 1, p));
    }
    if reaches(c, o, b, dirs[j], i, max) && p.coords() == step_coords(c, o, dirs[j], i) {
        assert(found_before(c, o, b, dirs, max, i, j + 1, p));
    }
}

/// With rays that stay apart, the square reached at step `i` along
/// direction `j` is neither the start nor found earlier in the walk.
proof fn lemma_not_listed_yet(
    c: Character,
    o: Pos,
    b: Seq<Option<Character>>,
    dirs: Seq<Dir>,
    max: int,
    i: int,
    j: int,
    target: Pos,
)
    requires
        distinct_rays(dirs),
        1 <= i,
        0 <= j < dirs.len(),
        target.coords() == step_coords(c, o, dirs[j], i),
    ensures
        target != o,
        !found_before(c, o, b, dirs, max, i, j, target),
{
    let s = c.owner().sign();
    assert(s == 1 || s == -1);
    assert(i * s != 0) by (nonlinear_arith)
        requires
            1 <= i,
            s == 1 || s == -1,
    ;
    lemma_step_moves(dirs[j], i * s);
    if found_before(c, o, b, dirs, max, i, j, target) {
        let (jj, k) = choose|jj: int, k: int|
            0 <= jj < dirs.len() && 1 <= k && (k < i || (k == i && jj < j)) && #[trigger] reaches(
                c,
                o,
                b,
                dirs[jj],
                k,
                max,
            ) && target.coords() == step_coords(c, o, dirs[jj], k);
        lemma_same_sign(dirs[jj], dirs[j], k, i, s);
    }
}

/// Having walked every direction at step `i` is having walked every step before `i + 1`.
proof fn lemma_found_next_step(
    c: Character,
    o: Pos,
    b: Seq<Option<Character>>,
    dirs: Seq<Dir>,
    max: int,
    i: int,
    p: Pos,
)
    ensures
        found_before(c, o, b, dirs, max, i, dirs.len() as int, p) == found_before(
            c,
            o,
            b,
            dirs,
            max,
            i + 1,
            0,
            p,
        ),
{
    if found_before(c, o, b, dirs, max, i, dirs.len() as int, p) {
        let (jj, k) = choose|jj: int, k: int|
            0 <= jj < dirs.len() && 1 <= k && (k < i || (k == i && jj < dirs.len()))
                && #[trigger] reaches(c, o, b, dirs[jj], k, max) && p.coords() == step_coords(
                c,
                o,
                dirs[jj],
                k,
            );
        assert(found_before(c, o, b, dirs, max, i + 1, 0, p));
    }
    if found_before(c, o, b, dirs, max, i + 1, 0, p) {
        let (jj, k) = choose|jj: int, k: int|
            0 <= jj < dirs.len() && 1 <= k && (k < i + 1 || (k == i + 1 && jj < 0))
                && #[trigger] reaches(c, o, b, dirs[jj], k, max) && p.coords() == step_coords(
                c,
                o,
                dirs[jj],
                k,
            );
        assert(found_before(c, o, b, dirs, max, i, dirs.len() as int, p));
    }
}

/// Walks every direction of `dirs` from the piece's square, step by step, and
/// collects the squares where the piece may land, its own square first.
/// `infinite` allows up to eight steps, otherwise one.
pub fn dirs_traverser(
    character: Character,
    pos: Pos,
    board: &ChessBoard,
    dirs: Vec<Dir>,
    infinite: bool,
) -> (r: Vec<Pos>)
    requires
        pos.wf(),
        dirs_bounded(dirs@),
    ensures
        r@.len() >= 1,
        r@[0] == pos,
        forall|i: int| 0 <= i < r@.len() ==> (#[trigger] r@[i]).wf(),
        forall|p: Pos|
            r@.contains(p) <==> in_reach(
                character,
                pos,
                board@,
                dirs@,
                if infinite {
                    8
                } else {
                    1
                },
                p,
            ),
        r@ == walk(
            character,
            pos,
            board@,
            dirs@,
            if infinite {
                8
            } else {
                1
            },
        ),
        distinct_rays(dirs@) ==> r@.no_duplicates(),
{
    let ghost b = board@;
    let ghost max_int: int = if infinite {
        8
    } else {
        1
    };
    let mut moves: Vec<Pos> = Vec::new();
    moves.push(pos);
    let max: i32 = if infinite {
        8
    } else {
        1
    };
    let di: i32 = match character.side() {
        Side::White => 1,
        Side::Black => -1,
    };
    let first_move: bool = match character.side() {
        Side::White => pos.1 == 2,
        Side::Black => pos.1 == 7,
    };
    let is_pawn: bool = matches!(character, Character::Pawn(_));
    let n: usize = dirs.len();
    let mut alive: Vec<bool> = Vec::new();
    while alive.len() < n
        invariant
            alive@.len() <= n,
            n == dirs@.len(),
            forall|jj: int| 0 <= jj < alive@.len() ==> #[trigger] alive@[jj],
        decreases n - alive@.len(),
    {
        alive.push(true);
    }
    assert forall|p: Pos|
        moves@.contains(p) <==> p == pos || found_before(character, pos, b, dirs@, max_int, 1, 0, p)
        by {
        if p == pos {
            assert(moves@[0] == p);
        }
    }
    assert(moves@ =~= seq![pos]);
    let mut i: i32 = 1;
    while i <= max
        invariant
            1 <= i <= max + 1,
            max <= 8,
            max == max_int,
            n == dirs@.len(),
            alive@.len() == n,
            b == board@,
            pos.wf(),
            dirs_bounded(dirs@),
            di == character.owner().sign(),
            first_move == on_home_rank(character, pos),
            is_pawn == character is Pawn,
            moves@.len() >= 1,
            moves@[0] == pos,
            forall|m: int| 0 <= m < moves@.len() ==> (#[trigger] moves@[m]).wf(),
            forall|jj: int|
                0 <= jj < n ==> #[trigger] alive@[jj] == clear_through(
                    character,
                    pos,
                    b,
                    dirs@[jj],
                    i - 1,
                ),
            forall|p: Pos|
                moves@.contains(p) <==> p == pos || found_before(
                    character,
                    pos,
                    b,
                    dirs@,
                    max_int,
                    i as int,
                    0,
                    p,
                ),
            moves@ == walk_before(character, pos, b, dirs@, max_int, i as int, 0),
            distinct_rays(dirs@) ==> moves@.no_duplicates(),
        decreases max + 1 - i,
    {
        assert(di == 1 || di == -1);
        let s: i32 = i * di;
        assert(-8 <= s <= 8);
        let mut j: usize = 0;
        while j < n
            invariant
                1 <= i <= max,
                max == max_int,
                s == i * di,
                -8 <= s <= 8,
                0 <= j <= n,
                n == dirs@.len(),
                alive@.len() == n,
                b == board@,
                pos.wf(),
                dirs_bounded(dirs@),
                di == character.owner().sign(),
                first_move == on_home_rank(character, pos),
                is_pawn == character is Pawn,
                moves@.len() >= 1,
                moves@[0] == pos,
                forall|m: int| 0 <= m < moves@.len() ==> (#[trigger] moves@[m]).wf(),
                forall|jj: int|
                    0 <= jj < n ==> #[trigger] alive@[jj] == clear_through(
                        character,
                        pos,
                        b,
                        dirs@[jj],
                        if jj < j {
                            i as int
                        } else {
                            i - 1
                        },
                    ),
                forall|p: Pos|
                    moves@.contains(p) <==> p == pos || found_before(
                        character,
                        pos,
                        b,
                        dirs@,
                        max_int,
                        i as int,
                        j as int,
                        p,
                    ),
                moves@ == walk_before(character, pos, b, dirs@, max_int, i as int, j as int),
                distinct_rays(dirs@) ==> moves@.no_duplicates(),
            decreases n - j,
        {
            let ghost old_moves = moves@;
            let ghost d = dirs@[j as int];
            let ghost reached = reaches(character, pos, b, d, i as int, max_int);
            let ghost mut landed: Pos = pos;
            proof {
                assert forall|p: Pos|
                    found_before(character, pos, b, dirs@, max_int, i as int, j + 1, p) <==> (
                    found_before(character, pos, b, dirs@, max_int, i as int, j as int, p) || (
                    reached && p.coords() == step_coords(character, pos, d, i as int))) by {
                    lemma_found_next_dir(character, pos, b, dirs@, max_int, i as int, j as int, p);
                }
            }
            if alive[j] {
                let (d_file, d_rank) = dirs[j];
                assert(-MAX_STEP <= d_file <= MAX_STEP && -MAX_STEP <= d_rank <= MAX_STEP);
                assert(-8 * MAX_STEP <= d_file * s <= 8 * MAX_STEP && -8 * MAX_STEP <= d_rank * s
                    <= 8 * MAX_STEP) by (nonlinear_arith)
                    requires
                        -MAX_STEP <= d_file <= MAX_STEP,
                        -MAX_STEP <= d_rank <= MAX_STEP,
                        -8 <= s <= 8,
                ;
                match pos.d_pos(d_file * s, d_rank * s) {
                    Ok(target) => {
                        assert(target.coords() == step_coords(character, pos, d, i as int));
                        let occ = board.character_at(target);
                        assert(occ == cell(b, step_coords(character, pos, d, i as int)));
                        let (valid, stop) = if is_pawn {
                            pawn_condition(character, occ, d_file, i, first_move)
                        } else {
                            general_condition(character, occ)
                        };
                        assert(valid == admits(character, pos, occ, d, i as int));
                        assert(stop == halts(character, pos, occ, d, i as int));
                        if valid {
                            assert(reached);
                            assert forall|p: Pos|
                                p.coords() == step_coords(character, pos, d, i as int) <==> p
                                    == target by {
                                if p.coords() == target.coords() {
                                    assert(p.0 as int == target.0 as int);
                                    assert(p.0 == target.0);
                                }
                            }
                            assert(target == pos_at(step_coords(character, pos, d, i as int)));
                            proof {
                                if distinct_rays(dirs@) {
                                    lemma_not_listed_yet(
                                        character,
                                        pos,
                                        b,
                                        dirs@,
                                        max_int,
                                        i as int,
                                        j as int,
                                        target,
                                    );
                                }
                            }
                            moves.push(target);
                            proof {
                                landed = target;
                                if distinct_rays(dirs@) {
                                    assert forall|x: int, y: int|
                                        0 <= x < moves@.len() && 0 <= y < moves@.len() && x
                                            != y implies moves@[x] != moves@[y] by {
                                        if x < old_moves.len() && y < old_moves.len() {
                                            assert(old_moves[x] != old_moves[y]);
                                        } else if x < old_moves.len() {
                                            assert(old_moves.contains(old_moves[x]));
                                        } else if y < old_moves.len() {
                                            assert(old_moves.contains(old_moves[y]));
                                        }
                                    }
                                }
                                assert forall|p: Pos|
                                    moves@.contains(p) <==> old_moves.contains(p) || p
                                        == target by {
                                    if p == target {
                                        assert(moves@[old_moves.len() as int] == target);
                                    }
                                    if moves@.contains(p) {
                                        let m = choose|m: int|
                                            0 <= m < moves@.len() && moves@[m] == p;
                                        if m < old_moves.len() {
                                            assert(old_moves[m] == p);
                                        }
                                    }
                                    if old_moves.contains(p) {
                                        let m = choose|m: int|
                                            0 <= m < old_moves.len() && old_moves[m] == p;
                                        assert(moves@[m] == p);
                                    }
                                }
                            }
                        }
                        if !valid {
                            assert(!reached);
                        }
                        if stop {
                            alive.set(j, false);
                        }
                    },
                    Err(()) => {
                        assert(!coords_ok(step_coords(character, pos, d, i as int)));
                        assert(!reached);
                        alive.set(j, false);
                    },
                }
            } else {
                assert(!reached);
            }
            assert forall|p: Pos|
                moves@.contains(p) <==> p == pos || found_before(
                    character,
                    pos,
                    b,
                    dirs@,
                    max_int,
                    i as int,
                    j + 1,
                    p,
                ) by {
                if !reached {
                    assert(moves@ == old_moves);
                } else {
                    assert(moves@.contains(p) <==> old_moves.contains(p) || p == landed);
                    assert(p == landed <==> p.coords() == step_coords(character, pos, d, i as int));
                }
            }
            j += 1;
        }
        proof {
            assert forall|p: Pos|
                found_before(character, pos, b, dirs@, max_int, i as int, n as int, p)
                    == found_before(character, pos, b, dirs@, max_int, i + 1, 0, p) by {
                lemma_found_next_step(character, pos, b, dirs@, max_int, i as int, p);
            }
        }
        i += 1;
    }
    moves
}

/// The legal destinations of `character` standing on `pos`, its own square first.
pub fn possible_moves_of(character: Character, pos: Pos, board: &ChessBoard) -> (r: Vec<Pos>)
    requires
        pos.wf(),
    ensures
        r@.len() >= 1,
        r@[0] == pos,
        forall|i: int| 0 <= i < r@.len() ==> (#[trigger] r@[i]).wf(),
        forall|p: Pos| r@.contains(p) <==> is_move(character, pos, board@, p),
        r@ == walk(character, pos, board@, directions(character), max_steps(character)),
        r@.no_duplicates(),
{
    let dirs = direction_table(character);
    proof {
        lemma_directions_bounded(character);
        lemma_directions_distinct(character);
    }
    match character {
        Character::King(_) | Character::Knight(_) => dirs_traverser(character, pos, board, dirs, false),
        _ => dirs_traverser(character, pos, board, dirs, true),
    }
}

/// Every step table is small.
pub proof fn lemma_directions_bounded(c: Character)
    ensures
        dirs_bounded(directions(c)),
{
    let d = directions(c);
    assert forall|j: int| 0 <= j < d.len() implies -2 <= #[trigger] d[j].0 <= 2 && -2 <= d[j].1
        <= 2 by {
        assert(0 <= j < 8);
        if j == 0 {
        } else if j == 1 {
        } else if j == 2 {
        } else if j == 3 {
        } else if j == 4 {
        } else if j == 5 {
        } else if j == 6 {
        } else {
        }
    }
}

/// The offset of `k` steps along `d`.
pub open spec fn ray(d: Dir, k: int) -> (int, int) {
    (d.0 * k, d.1 * k)
}

/// No step of a table stays in place, and no two steps of it, each taken one
/// or more times, land on the same offset.
pub open spec fn distinct_rays(dirs: Seq<Dir>) -> bool {
    &&& forall|j: int| 0 <= j < dirs.len() ==> #[trigger] dirs[j] != (0i32, 0i32)
    &&& forall|j1: int, j2: int, k1: int, k2: int|
        0 <= j1 < dirs.len() && 0 <= j2 < dirs.len() && 1 <= k1 && 1 <= k2 && #[trigger] ray(
            dirs[j1],
            k1,
        ) == #[trigger] ray(dirs[j2], k2) ==> j1 == j2 && k1 == k2
}

/// A product with a small factor, written as a sum.
proof fn lemma_small_times(x: int, k: int)
    ensures
        x == 0 ==> x * k == 0,
        x == 1 ==> x * k == k,
        x == -1 ==> x * k == -k,
        x == 2 ==> x * k == 2 * k,
        x == -2 ==> x * k == -2 * k,
{
    assert(x == 2 ==> x * k == 2 * k) by (nonlinear_arith);
    assert(x == -2 ==> x * k == -2 * k) by (nonlinear_arith);
}

/// The rays of every step table are apart.
pub proof fn lemma_directions_distinct(c: Character)
    ensures
        distinct_rays(directions(c)),
{
    let d = directions(c);
    match c {
        Character::Bishop(_) => {
            assert(d[0] == dir(-1, 1));
            assert(d[1] == dir(1, 1));
            assert(d[2] == dir(-1, -1));
            assert(d[3] == dir(1, -1));
        },
        Character::Rook(_) => {
            assert(d[0] == dir(0, 1));
            assert(d[1] == dir(-1, 0));
            assert(d[2] == dir(1, 0));
            assert(d[3] == dir(0, -1));
        },
        Character::Queen(_) | Character::King(_) => {
            assert(d[0] == dir(-1, 1));
            assert(d[1] == dir(0, 1));
            assert(d[2] == dir(1, 1));
            assert(d[3] == dir(-1, 0));
            assert(d[4] == dir(1, 0));
            assert(d[5] == dir(-1, -1));
            assert(d[6] == dir(0, -1));
            assert(d[7] == dir(1, -1));
        },
        Character::Knight(_) => {
            assert(d[0] == dir(-1, 2));
            assert(d[1] == dir(1, 2));
            assert(d[2] == dir(-2, 1));
            assert(d[3] == dir(-2, -1));
            assert(d[4] == dir(2, 1));
            assert(d[5] == dir(2, -1));
            assert(d[6] == dir(-1, -2));
            assert(d[7] == dir(1, -2));
        },
        Character::Pawn(_) => {
            assert(d[0] == dir(0, 1));
            assert(d[1] == dir(-1, 1));
            assert(d[2] == dir(1, 1));
        },
    }
    assert forall|j1: int, j2: int, k1: int, k2: int|
        0 <= j1 < d.len() && 0 <= j2 < d.len() && 1 <= k1 && 1 <= k2 && #[trigger] ray(d[j1], k1)
            == #[trigger] ray(d[j2], k2) implies j1 == j2 && k1 == k2 by {
        lemma_small_times(d[j1].0 as int, k1);
        lemma_small_times(d[j1].1 as int, k1);
        lemma_small_times(d[j2].0 as int, k2);
        lemma_small_times(d[j2].1 as int, k2);
        assert(j1 == 0 || j1 == 1 || j1 == 2 || j1 == 3 || j1 == 4 || j1 == 5 || j1 == 6 || j1
            == 7);
        assert(j2 == 0 || j2 == 1 || j2 == 2 || j2 == 3 || j2 == 4 || j2 == 5 || j2 == 6 || j2
            == 7);
    }
    assert forall|j: int| 0 <= j < d.len() implies #[trigger] d[j] != (0i32, 0i32) by {
        assert(j == 0 || j == 1 || j == 2 || j == 3 || j == 4 || j == 5 || j == 6 || j == 7);
    }
}

/// Is `p` among the squares of `moves`?
pub fn list_contains(moves: &Vec<Pos>, p: Pos) -> (r: bool)
    ensures
        r == moves@.contains(p),
{
    let mut i: usize = 0;
    while i < moves.len()
        invariant
            i <= moves@.len(),
            forall|m: int| 0 <= m < i ==> moves@[m] != p,
        decreases moves@.len() - i,
    {
        if moves[i] == p {
            return true;
        }
        i += 1;
    }
    false
}

/// A piece that knows its kind, its square and the board around it, and can
/// tell where it may go.
pub trait Moving {
    /// The piece's kind and side.
    spec fn kind_spec(&self) -> Character;

    /// The square the piece stands on.
    spec fn square_spec(&self) -> Pos;

    /// The board the piece sees, if it holds one.
    spec fn board_spec(&self) -> Option<Seq<Option<Character>>>;

    fn character(&self) -> (r: Character)
        ensures
            r == self.kind_spec(),
    ;

    fn current_position(&self) -> (r: Pos)
        ensures
            r == self.square_spec(),
    ;

    fn surrounding(&self) -> (r: &ChessBoard)
        requires
            self.board_spec() is Some,
        ensures
            self.board_spec() == Some(r@),
    ;

    /// Every legal destination, the piece's own square first.
    fn possible_moves(&self) -> (r: Vec<Pos>)
        requires
            self.square_spec().wf(),
            self.board_spec() is Some,
        ensures
            r@.len() >= 1,
            r@[0] == self.square_spec(),
            forall|i: int| 0 <= i < r@.len() ==> (#[trigger] r@[i]).wf(),
            forall|p: Pos|
                r@.contains(p) <==> is_move(
                    self.kind_spec(),
                    self.square_spec(),
                    self.board_spec().unwrap(),
                    p,
                ),
            r@ == walk(
                self.kind_spec(),
                self.square_spec(),
                self.board_spec().unwrap(),
                directions(self.kind_spec()),
                max_steps(self.kind_spec()),
            ),
            r@.no_duplicates(),
    {
        possible_moves_of(self.character(), self.current_position(), self.surrounding())
    }

    /// Is `new_pos` a legal destination?
    fn can_move(&self, new_pos: Pos) -> (r: bool)
        requires
            self.square_spec().wf(),
            self.board_spec() is Some,
        ensures
            r == is_move(self.kind_spec(), self.square_spec(), self.board_spec().unwrap(), new_pos),
    {
        let moves = self.possible_moves();
        list_contains(&moves, new_pos)
    }
}

} // verus!
