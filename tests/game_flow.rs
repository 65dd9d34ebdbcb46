use chess_game_engine::chess_board::ChessBoard;
use chess_game_engine::errors::{Feature, GameError};
use chess_game_engine::game::{Game, GameState};
use chess_game_engine::moves::Moving;
use chess_game_engine::pieces::{Character, Piece, Side};
use chess_game_engine::position::Pos;

fn started() -> Game {
    let mut game = Game::new();
    game.start();
    game
}

fn cells(game: &Game) -> [Option<Character>; 64] {
    game.board.as_ref().unwrap().get_matrix()
}

#[test]
fn picking_an_opponent_piece_restores_the_board() {
    let mut game = started();
    let before = cells(&game);
    let r = game.pick("e7");
    assert!(matches!(r, Err(GameError::OpponentPiece)));
    assert_eq!(cells(&game), before);
    assert_eq!(game.whose_turn(), Side::White);
    assert_eq!(game.state, GameState::Idle);
}

#[test]
fn picking_errors() {
    let mut game = started();
    assert!(matches!(game.pick("e4"), Err(GameError::EmptyCell)));
    assert!(matches!(game.pick("z9"), Err(GameError::InvalidPosition)));
    assert!(matches!(game.pick_at(Pos('z', 100)), Err(GameError::InvalidPosition)));
    let pawn = game.pick("e2").unwrap();
    assert!(game.board.is_none());
    assert!(matches!(game.pick("d2"), Err(GameError::SideNotChanged)));
    pawn.place_back(&mut game);
    assert!(game.board.is_some());
}

#[test]
fn placing_at_origin_keeps_turn_and_captures() {
    let mut game = started();
    let before = cells(&game);
    let knight = game.pick("g1").unwrap();
    assert_eq!(knight.place_at(&mut game, "g1"), Ok(None));
    assert_eq!(game.whose_turn(), Side::White);
    assert!(game.captured_pieces(Side::White).is_empty());
    assert!(game.captured_pieces(Side::Black).is_empty());
    assert_eq!(cells(&game), before);
}

#[test]
fn illegal_target_is_refused_and_board_returned() {
    let mut game = started();
    let before = cells(&game);
    let rook = game.pick("a1").unwrap();
    assert_eq!(rook.place_at(&mut game, "a3"), Err(GameError::InvalidMove));
    assert_eq!(cells(&game), before);
    assert_eq!(game.whose_turn(), Side::White);
    let rook = game.pick("a1").unwrap();
    assert_eq!(rook.place_at(&mut game, "q3"), Err(GameError::InvalidPosition));
    assert_eq!(cells(&game), before);
}

#[test]
fn alone_piece_cannot_be_placed() {
    let mut game = started();
    let piece = Piece::new_alone(Character::King(Side::White), Pos('e', 4));
    assert_eq!(piece.place_at(&mut game, "e5"), Err(GameError::AlonePiece));
}

#[test]
fn opening_scenario() {
    let mut game = Game::new();
    game.start();

    let pawn = game.pick("c2").unwrap();
    assert_eq!(pawn.place_at(&mut game, "c3"), Ok(None));
    assert_eq!(game.whose_turn(), Side::Black);

    let pawn = game.pick("g7").unwrap();
    assert_eq!(pawn.place_at(&mut game, "g5"), Ok(None));
    assert_eq!(game.whose_turn(), Side::White);

    let before = cells(&game);
    let bishop = game.pick("c1").unwrap();
    let moves = bishop.possible_moves();
    // b2 and d2 hold White's own pawns, which block both diagonals
    assert!(!moves.contains(&Pos('b', 2)));
    assert!(!moves.contains(&Pos('d', 2)));
    assert!(!moves.contains(&Pos('c', 3)));
    assert_eq!(moves, vec![Pos('c', 1)]);
    bishop.place_back(&mut game);
    assert_eq!(game.whose_turn(), Side::White);
    assert_eq!(cells(&game), before);
}

#[test]
fn capturing_scenario() {
    let mut game = started();
    for (from, to) in [("c2", "c3"), ("g7", "g5"), ("b1", "a3"), ("g5", "g4"), ("h2", "h3")] {
        let piece = game.pick(from).unwrap();
        assert_eq!(piece.place_at(&mut game, to), Ok(None));
    }
    assert_eq!(game.whose_turn(), Side::Black);

    // the black pawn on g4 cannot step diagonally onto the empty f3
    let pawn = game.pick("g4").unwrap();
    assert!(!pawn.can_move(Pos('f', 3)));
    assert_eq!(pawn.place_at(&mut game, "f3"), Err(GameError::InvalidMove));
    assert_eq!(game.whose_turn(), Side::Black);

    // h3 holds a white pawn: the diagonal step captures it
    let pawn = game.pick("g4").unwrap();
    assert_eq!(pawn.place_at(&mut game, "h3"), Ok(Some(Character::Pawn(Side::White))));
    assert_eq!(game.whose_turn(), Side::White);
    assert_eq!(game.captured_pieces(Side::Black), &vec![Character::Pawn(Side::White)]);
    assert!(game.captured_pieces(Side::White).is_empty());
    let board = game.board.as_ref().unwrap();
    assert_eq!(board.character_at(Pos('h', 3)), Some(Character::Pawn(Side::Black)));
    assert_eq!(board.character_at(Pos('g', 4)), None);

    // a white pawn may not take its own piece diagonally
    let pawn = game.pick("g2").unwrap();
    assert_eq!(pawn.place_at(&mut game, "f3"), Err(GameError::InvalidMove));
    let pawn = game.pick("b2").unwrap();
    assert_eq!(pawn.place_at(&mut game, "a3"), Err(GameError::InvalidMove));
    assert_eq!(game.whose_turn(), Side::White);
}

#[test]
fn change_side_only_after_a_placement() {
    let mut game = started();
    assert_eq!(game.change_side(), Err(GameError::SideAlreadyChanged));
    game.state = GameState::PiecePlaced;
    assert_eq!(game.change_side(), Ok(()));
    assert_eq!(game.whose_turn(), Side::Black);
    assert_eq!(game.state, GameState::Idle);
    assert_eq!(game.change_side(), Err(GameError::SideAlreadyChanged));
}

#[test]
fn start_with_black() {
    let mut game = Game::new();
    game.start_with(Side::Black);
    assert_eq!(game.whose_turn(), Side::Black);
    assert!(matches!(game.pick("e2"), Err(GameError::OpponentPiece)));
    let pawn = game.pick("e7").unwrap();
    assert_eq!(pawn.place_at(&mut game, "e5"), Ok(None));
    assert_eq!(game.whose_turn(), Side::White);
}

#[test]
fn unsupported_features_say_so() {
    let mut game = started();
    assert_eq!(game.castle(), Err(GameError::Unsupported(Feature::Castling)));
    assert_eq!(game.request_draw(), Err(GameError::Unsupported(Feature::Draw)));
    assert_eq!(game.resign(), Err(GameError::Unsupported(Feature::Resignation)));
    assert_eq!(game.is_game_over(), Err(GameError::Unsupported(Feature::GameOverDetection)));
    let before = cells(&game);
    let pawn = game.pick("d2").unwrap();
    assert_eq!(game.en_passant_capture(pawn), Err(GameError::Unsupported(Feature::EnPassant)));
    assert_eq!(cells(&game), before);
    assert_eq!(game.whose_turn(), Side::White);
}

#[test]
fn promotion_from_home_rank_to_the_far_rank() {
    let mut game = Game::new();
    let mut board = ChessBoard::new();
    board.place_character(Character::Pawn(Side::White), Pos('a', 2)).unwrap();
    board.place_character(Character::Rook(Side::Black), Pos('a', 8)).unwrap();
    board.place_character(Character::Pawn(Side::White), Pos('b', 3)).unwrap();
    game.board = Some(board);
    assert_eq!(game.promote_pawn("b3"), Err(GameError::InvalidMove));
    assert_eq!(game.whose_turn(), Side::White);
    assert_eq!(game.promote_pawn("a2"), Ok(Some(Character::Rook(Side::Black))));
    assert_eq!(game.whose_turn(), Side::Black);
    assert_eq!(game.captured_pieces(Side::White), &vec![Character::Rook(Side::Black)]);
    let board = game.board.as_ref().unwrap();
    assert_eq!(board.character_at(Pos('a', 8)), Some(Character::Queen(Side::White)));
    assert_eq!(board.character_at(Pos('a', 2)), None);
    assert_eq!(game.promote_pawn("a9"), Err(GameError::InvalidPosition));
}

#[test]
fn promotion_blocked_path_is_refused() {
    let mut game = started();
    let before = cells(&game);
    assert_eq!(game.promote_pawn("e2"), Err(GameError::InvalidMove));
    assert_eq!(cells(&game), before);
    assert_eq!(game.whose_turn(), Side::White);
    assert!(game.board.is_some());
}

#[test]
fn picking_while_a_piece_is_held_reports_the_turn_first() {
    let mut game = started();
    let pawn = game.pick("e2").unwrap();
    assert_eq!(game.state, GameState::PiecePicked);
    assert!(matches!(game.pick("z9"), Err(GameError::SideNotChanged)));
    assert!(matches!(game.pick_at(Pos('z', 100)), Err(GameError::SideNotChanged)));
    assert_eq!(game.promote_pawn("z9"), Err(GameError::InvalidPosition));
    assert_eq!(game.promote_pawn("e3"), Err(GameError::SideNotChanged));
    assert_eq!(game.promote_pawn_at(Pos('d', 2)), Err(GameError::SideNotChanged));
    pawn.place_back(&mut game);
    assert!(matches!(game.pick("z9"), Err(GameError::InvalidPosition)));
}

#[test]
fn setting_up_keeps_other_squares() {
    let mut game = Game::new();
    let mut board = ChessBoard::new();
    board.place_character(Character::Knight(Side::Black), Pos('e', 4)).unwrap();
    game.board = Some(board);
    game.start();
    let board = game.board.as_ref().unwrap();
    assert_eq!(board.character_at(Pos('e', 4)), Some(Character::Knight(Side::Black)));
    assert_eq!(board.character_at(Pos('e', 1)), Some(Character::King(Side::White)));
    assert_eq!(board.character_at(Pos('e', 3)), None);
}

#[test]
fn only_pawns_are_promoted() {
    let mut game = Game::new();
    let mut board = ChessBoard::new();
    board.place_character(Character::Knight(Side::White), Pos('b', 2)).unwrap();
    board.place_character(Character::Pawn(Side::Black), Pos('c', 7)).unwrap();
    game.board = Some(board);
    let before = cells(&game);
    assert_eq!(game.promote_pawn_at(Pos('b', 2)), Err(GameError::InvalidMove));
    assert_eq!(cells(&game), before);
    assert_eq!(game.whose_turn(), Side::White);
    assert_eq!(game.state, GameState::Idle);
    game.side = Side::Black;
    assert_eq!(game.promote_pawn_at(Pos('c', 7)), Ok(None));
    let board = game.board.as_ref().unwrap();
    assert_eq!(board.character_at(Pos('c', 8)), Some(Character::Queen(Side::Black)));
    assert_eq!(board.character_at(Pos('c', 7)), None);
    assert_eq!(game.whose_turn(), Side::White);
}
