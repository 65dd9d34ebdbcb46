pub mod characters;
pub mod chess_board;
pub mod errors;
pub mod game;
pub mod moves;
pub mod pieces;
pub mod position;
