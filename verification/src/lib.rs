//! Verified core of a falling-block puzzle game: the board grid, the piece
//! geometry and collision rules, and the game state machine.

pub mod game;
pub mod grid;
pub mod piece;

pub use game::FrameEffects;
pub use game::GameState;
pub use game::InputState;
pub use game::LineDestroyAnimation;
pub use game::LineRange;
pub use grid::Block;
pub use grid::BlockColor;
pub use grid::Grid;
pub use piece::Piece;
pub use piece::PieceKind;
pub use piece::PieceRotation;
