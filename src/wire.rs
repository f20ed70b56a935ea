use vstd::prelude::*;

use crate::room_id::RoomId;
use crate::types::{Piece, Position, Side, BOARD_SIZE};

verus! {

// Client to server.

/// Actions that need no seat.
#[derive(Clone, Copy, Debug, PartialEq, Eq, Structural)]
pub enum PlayerActionWithoutAuth {
    /// Claim a seat on a side.
    JoinTeam(Side),
    /// Take back a seat by its private id.
    Resume(u128),
}

/// Actions that need the connection to hold a seat.
#[derive(Clone, Copy, Debug, PartialEq, Eq)]
pub enum PlayerActionWithAuth {
    LeaveTeam,
    Move(Position, Position),
}

#[derive(Clone, Copy, Debug, PartialEq, Eq)]
pub enum PlayerAction {
    WithoutAuth(PlayerActionWithoutAuth),
    WithAuth(PlayerActionWithAuth),
}

// Server to client.

#[derive(Clone, Copy, Debug, PartialEq, Eq)]
pub enum CreateUser {
    /// The seat was granted.
    Created { private_id: u128, public_id: u128 },
    /// The seat was refused, for the reason given.
    Refused { message: &'static str },
}

/// Direct replies to one connection. The last two never reach the wire:
/// `AuthorizedInternal` carries a granted seat from the dispatcher to the
/// connection, and `GotInvalidData` asks the sending side to close.
#[derive(Clone, Copy, Debug, PartialEq, Eq)]
pub enum Responses {
    UserCreated(CreateUser),
    Authorized,
    ActionNotAccepted,
    SessionExpired,
    AuthorizedInternal(u128),
    GotInvalidData,
}

/// What happened in a room; every observer of the room receives it.
#[derive(Debug, PartialEq, Eq)]
pub enum RoomEvent {
    /// A piece moved: whether the turn passed, and the two squares.
    MovePiece(bool, (Position, Position)),
    PlayerJoin(Side, String),
    PlayerLeave,
}

/// A room event tagged with the public id of the player who caused it.
#[derive(Debug, PartialEq, Eq)]
pub struct RegisterRoomEvent {
    pub public_id: u128,
    pub event: RoomEvent,
}

impl Clone for RoomEvent {
    fn clone(&self) -> (r: Self)
        ensures
            match (*self, r) {
                (RoomEvent::PlayerJoin(s1, n1), RoomEvent::PlayerJoin(s2, n2)) => s1 == s2 && n1@ == n2@,
                (RoomEvent::PlayerJoin(_, _), _) => false,
                _ => r == *self,
            },
    {
        match self {
            RoomEvent::MovePiece(toggled, (from, to)) => RoomEvent::MovePiece(
                *toggled,
                ((from.0, from.1), (to.0, to.1)),
            ),
            RoomEvent::PlayerJoin(side, name) => RoomEvent::PlayerJoin(*side, name.clone()),
            RoomEvent::PlayerLeave => RoomEvent::PlayerLeave,
        }
    }
}

impl Clone for RegisterRoomEvent {
    fn clone(&self) -> (r: Self)
        ensures
            r.public_id == self.public_id,
            call_ensures(RoomEvent::clone, (&self.event,), r.event),
    {
        RegisterRoomEvent { public_id: self.public_id, event: self.event.clone() }
    }
}

// HTTP bodies.

/// Room settings as a client asks for them; absent fields take defaults.
#[derive(Clone, Copy, Debug, PartialEq, Eq, Structural)]
pub struct HttpBoardConfig {
    pub team_player_limit: Option<usize>,
    pub first_side: Option<Side>,
}

#[derive(Clone, Copy, Debug, PartialEq, Eq, Structural)]
pub struct ServerInfo {
    pub min_version: usize,
}

#[derive(Clone, Copy, Debug, PartialEq, Eq)]
pub enum CreateRoom {
    /// The room was made under this id.
    Created { room_id: RoomId },
    /// The settings were refused, for the reason given.
    Rejected { message: &'static str },
}

/// A full snapshot of one room.
#[derive(Debug)]
pub struct RoomData<'a> {
    pub room_id: RoomId,
    pub current_turn: Side,
    pub players: Vec<&'a crate::types::Player>,
    pub pieces: &'a [[Option<Piece>; BOARD_SIZE]; BOARD_SIZE],
}

/// One entry of the room list: the room and the names in its seats.
#[derive(Debug)]
pub struct RoomSummary {
    pub id: RoomId,
    pub players: Vec<String>,
}

#[derive(Debug)]
pub struct RoomList(pub Vec<RoomSummary>);

} // verus!
