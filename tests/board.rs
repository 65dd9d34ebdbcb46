use chess_game_engine::chess_board::ChessBoard;
use chess_game_engine::errors::GameError;
use chess_game_engine::pieces::{Character, Side};
use chess_game_engine::position::Pos;

fn all_squares() -> Vec<Pos> {
    let mut v = Vec::new();
    for rank in 1..=8u8 {
        for file in ['a', 'b', 'c', 'd', 'e', 'f', 'g', 'h'] {
            v.push(Pos(file, rank));
        }
    }
    v
}

#[test]
fn index_is_one_to_one_and_from_index_undoes_it() {
    let squares = all_squares();
    let mut seen = [false; 64];
    for p in &squares {
        let i = p.index();
        assert!(i < 64);
        assert!(!seen[i]);
        seen[i] = true;
        assert_eq!(Pos::from_index(i), *p);
    }
    assert_eq!(Pos('a', 8).index(), 0);
    assert_eq!(Pos('h', 1).index(), 63);
    assert_eq!(Pos('e', 2).index(), 52);
}

#[test]
fn initial_setup_is_the_standard_arrangement() {
    let mut board = ChessBoard::new();
    board.place_character_init();
    let back = |s: Side| {
        [
            Character::Rook(s),
            Character::Knight(s),
            Character::Bishop(s),
            Character::Queen(s),
            Character::King(s),
            Character::Bishop(s),
            Character::Knight(s),
            Character::Rook(s),
        ]
    };
    let files = ['a', 'b', 'c', 'd', 'e', 'f', 'g', 'h'];
    for (col, f) in files.iter().enumerate() {
        assert_eq!(board.character_at(Pos(*f, 1)), Some(back(Side::White)[col]));
        assert_eq!(board.character_at(Pos(*f, 2)), Some(Character::Pawn(Side::White)));
        for rank in 3..=6u8 {
            assert_eq!(board.character_at(Pos(*f, rank)), None);
        }
        assert_eq!(board.character_at(Pos(*f, 7)), Some(Character::Pawn(Side::Black)));
        assert_eq!(board.character_at(Pos(*f, 8)), Some(back(Side::Black)[col]));
    }
    assert_eq!(board.character_at(Pos('d', 1)), Some(Character::Queen(Side::White)));
    assert_eq!(board.character_at(Pos('e', 8)), Some(Character::King(Side::Black)));
    let occupied = board.get_matrix().iter().filter(|c| c.is_some()).count();
    assert_eq!(occupied, 32);
}

#[test]
fn place_on_occupied_cell_fails_and_keeps_board() {
    let mut board = ChessBoard::new();
    assert_eq!(board.place_character(Character::Rook(Side::White), Pos('d', 4)), Ok(()));
    let before = board.get_matrix();
    assert_eq!(
        board.place_character(Character::Queen(Side::Black), Pos('d', 4)),
        Err(GameError::OccupiedCell)
    );
    assert_eq!(board.get_matrix(), before);
    assert_eq!(board.character_at(Pos('d', 4)), Some(Character::Rook(Side::White)));
}

#[test]
fn remove_from_empty_cell_fails_and_keeps_board() {
    let mut board = ChessBoard::new();
    board.place_character(Character::Pawn(Side::Black), Pos('a', 7)).unwrap();
    let before = board.get_matrix();
    assert_eq!(board.pick_character(Pos('a', 6)), Err(GameError::EmptyCell));
    assert_eq!(board.get_matrix(), before);
    assert_eq!(board.pick_character(Pos('a', 7)), Ok(Character::Pawn(Side::Black)));
    assert_eq!(board.character_at(Pos('a', 7)), None);
}

#[test]
fn position_validation_and_parsing() {
    assert_eq!(Pos::new('h', 8), Ok(Pos('h', 8)));
    assert_eq!(Pos::new('i', 1), Err(GameError::InvalidPosition));
    assert_eq!(Pos::new('a', 0), Err(GameError::InvalidPosition));
    assert!(Pos::is_valid('a', 1));
    assert!(!Pos::is_valid('a', 9));
    assert_eq!(Pos::try_from("E2"), Ok(Pos('e', 2)));
    assert_eq!(Pos::try_from("h8"), Ok(Pos('h', 8)));
    assert_eq!(Pos::try_from("e9"), Err(GameError::InvalidPosition));
    assert_eq!(Pos::try_from("e"), Err(GameError::InvalidPosition));
    assert_eq!(Pos::try_from("e22"), Err(GameError::InvalidPosition));
    assert_eq!(Pos::try_from(""), Err(GameError::InvalidPosition));
    assert_eq!(Pos::try_from("I1"), Err(GameError::InvalidPosition));
}

#[test]
fn shifting_a_position() {
    let p = Pos('b', 1);
    assert_eq!(p.d_pos(2, 1), Ok(Pos('d', 2)));
    assert_eq!(p.d_pos(-1, 2), Ok(Pos('a', 3)));
    assert_eq!(p.d_pos(-2, 1), Err(()));
    assert_eq!(p.d_pos(0, -1), Err(()));
    assert_eq!(p.d_pos(0, 256), Err(()));
    assert_eq!(p.d_pos(i32::MAX, i32::MIN), Err(()));
}

#[test]
fn names_and_symbols() {
    assert_eq!(Side::White.to_string(), "White");
    assert_eq!(Side::Black.to_string(), "Black");
    assert_eq!(Character::Queen(Side::White).to_string(), "Queen_White");
    assert_eq!(Character::Pawn(Side::Black).to_string(), "Pawn_Black");
    assert_eq!(Character::King(Side::White).symbol(), 'K');
    assert_eq!(Character::King(Side::Black).symbol(), 'k');
    assert_eq!(Character::Knight(Side::Black).symbol(), 'n');
    assert!(Character::Rook(Side::Black).is_black());
    assert!(Character::Rook(Side::White).is_white());
    assert!(Character::same_side(Character::Rook(Side::White), Character::Pawn(Side::White)));
    assert!(!Character::same_side(Character::Rook(Side::White), Character::Pawn(Side::Black)));
}

#[test]
fn rendering_the_starting_board() {
    let mut board = ChessBoard::new();
    board.place_character_init();
    let text: String = board.render().into_iter().collect();
    let lines: Vec<&str> = text.split('\n').collect();
    assert_eq!(lines.len(), 9);
    assert_eq!(lines[0], "8|r|n|b|q|k|b|n|r|");
    assert_eq!(lines[1], "7|p|p|p|p|p|p|p|p|");
    assert_eq!(lines[4], "4| | | | | | | | |");
    assert_eq!(lines[6], "2|P|P|P|P|P|P|P|P|");
    assert_eq!(lines[7], "1|R|N|B|Q|K|B|N|R|");
    assert_eq!(lines[8], "  a b c d e f g h ");
    let empty: String = ChessBoard::new().render().into_iter().collect();
    assert_eq!(empty.len(), 8 * 19 + 18);
}
