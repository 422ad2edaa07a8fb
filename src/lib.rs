//! Grid-based naval combat: ship geometry, board placement and shooting,
//! the turn state machine of a match, and its wire protocol.

pub mod boat;
pub mod direction;
pub mod game;
pub mod game_type;
pub mod grid;
pub mod network;
pub mod player;

pub use boat::{Boat, Class};
pub use direction::Direction;
pub use game::{in_board, Game, PlacementError, NB};
pub use game_type::{GameType, NetworkError, TurnError};
pub use network::{Message, ATTACK, CONFIRM};
pub use player::Player;
