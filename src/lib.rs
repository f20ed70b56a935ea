//! Authoritative server logic for a two-side, room-based board game: the
//! board and its move rules, game sessions, the room registry and the
//! per-connection protocol decisions.

mod outside;

pub mod board;
pub mod board_config;
pub mod http;
pub mod map;
pub mod protocol;
pub mod room_id;
pub mod roster;
pub mod rules;
pub mod session;
pub mod types;
pub mod util;
pub mod wire;

pub use room_id::{RoomId, TryParseRoomIdError};
pub use types::{BoardPieces, Piece, Player, Position, Side, BOARD_SIZE};
