pub mod bitboard;
pub mod strings;
pub mod board;
pub mod color;
pub mod color_set;
pub mod fen;
pub mod lookup_tables;
pub mod move_type;
pub mod movegen;
pub mod pawn;
pub mod piece;
pub mod player;
pub mod position;
pub mod role;
pub mod sliding;
pub mod square;

pub use bitboard::Bitboard;
pub use board::Board;
pub use color::Color;
pub use color_set::ColorSet;
pub use fen::Fen;
pub use lookup_tables::LookupTables;
pub use move_type::Move;
pub use piece::Piece;
pub use player::Player;
pub use position::{PlayError, Position};
pub use role::Role;
pub use square::{File, Quadrant, Rank, Square};
