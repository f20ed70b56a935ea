//! What the HTTP endpoints compute, on plain values.

use vstd::prelude::*;

use crate::board_config::{config_from_http, BoardConfig};
use crate::map::GameSessionMap;
use crate::protocol::MINIMUM_SERVER_VERSION;
use crate::room_id::RoomId;
use crate::rules::{grid_of, initial_grid};
use crate::types::Player;
use crate::wire::{CreateRoom, HttpBoardConfig, RegisterRoomEvent, RoomData, RoomList, ServerInfo};

verus! {

/// The protocol version clients must at least speak.
pub fn server_info() -> (r: ServerInfo)
    ensures
        r.min_version == MINIMUM_SERVER_VERSION,
{
    ServerInfo { min_version: MINIMUM_SERVER_VERSION }
}

/// Makes a room for the requested settings, or refuses settings whose seat
/// limit is out of range, leaving the registry as it was.
pub fn new_room(map: &mut GameSessionMap, config: HttpBoardConfig) -> (r: CreateRoom)
    requires
        old(map).wf(),
    ensures
        final(map).wf(),
        config_from_http(config) is Err ==> *final(map) == *old(map) && r == (CreateRoom::Rejected {
            message: "INVALID_PLAYER_LIMIT",
        }),
        config_from_http(config) is Ok ==> (match r {
            CreateRoom::Created { room_id } => {
                let c = config_from_http(config)->Ok_0;
                &&& final(map).contains(room_id)
                &&& final(map).session(room_id).board().grid() == initial_grid()
                &&& final(map).session(room_id).board().config() == c
                &&& final(map).session(room_id).board().turn() == c.first_side
                &&& final(map).session(room_id).board().roster() == Seq::<(u128, Player)>::empty()
                &&& final(map).session(room_id).board().events() == Seq::<RegisterRoomEvent>::empty()
                &&& forall|id: RoomId| #[trigger]
                    final(map).contains(id) <==> old(map).contains(id) || id@ == room_id@
                &&& forall|id: RoomId|
                    old(map).contains(id) && id@ != room_id@ ==> #[trigger] final(map).session(id)
                        == old(map).session(id)
            },
            _ => false,
        }),
{
    match BoardConfig::try_from(config) {
        Ok(config) => {
            let room_id = map.create(config);
            CreateRoom::Created { room_id }
        },
        Err(_) => CreateRoom::Rejected { message: "INVALID_PLAYER_LIMIT" },
    }
}

/// Every room with the names in its seats (see `GameSessionMap::room_list`).
pub fn room_list(map: &GameSessionMap) -> (r: RoomList)
    requires
        map.wf(),
    ensures
        r.0@.len() == map.rooms().len(),
        forall|i: int|
            0 <= i < r.0@.len() ==> {
                let roster = map.rooms()[i].1.board().roster();
                &&& (#[trigger] r.0@[i]).id == map.rooms()[i].0
                &&& r.0@[i].players@.len() == roster.len()
                &&& forall|j: int|
                    0 <= j < roster.len() ==> (#[trigger] r.0@[i].players@[j])@ == roster[j].1.name@
            },
{
    map.room_list()
}

/// Whether a request may go on to the room `room_id`: only if it exists.
pub fn room_existence_check(map: &GameSessionMap, room_id: RoomId) -> (r: bool)
    requires
        map.wf(),
    ensures
        r == map.contains(room_id),
{
    map.has(room_id)
}

/// A full snapshot of an existing room.
pub fn room_info(map: &GameSessionMap, room_id: RoomId) -> (r: RoomData<'_>)
    requires
        map.wf(),
        map.contains(room_id),
    ensures
        r.room_id == room_id,
        r.current_turn == map.session(room_id).board().turn(),
        grid_of(*r.pieces) == map.session(room_id).board().grid(),
        r.players@.len() == map.session(room_id).board().roster().len(),
        forall|i: int|
            0 <= i < r.players@.len() ==> *r.players@[i] == (#[trigger] map.session(
                room_id,
            ).board().roster()[i]).1,
{
    let board = map.get(room_id).get_board();
    RoomData {
        room_id,
        current_turn: board.get_current_turn(),
        players: board.get_players(),
        pieces: board.get_pieces(),
    }
}

} // verus!
