//! Tic-tac-toe session protocol: the 32-bit message codec, the game state
//! derived from a message with its transition rules, the session store, and
//! the decisions of a connection handler.

pub mod connection;
pub mod game_state;
pub mod player;
pub mod request;
pub mod session;

pub use game_state::{GameState, GameStateTrait};
pub use player::{Player, PlayerTrait};
pub use request::DataRequest;
pub use session::SessionStore;
