//! Rule engines and match-session logic for a capture game (Go-like) and a
//! five-in-a-row game (Gomoku-like) played on a shared bitboard.
pub mod board;
pub mod group;
pub mod capture;
pub mod line;
pub mod clock;
pub mod registry;
pub mod session;
pub mod record;
