use vstd::prelude::*;

use tokio::sync::broadcast::Receiver;

use crate::board::Board;
use crate::board_config::BoardConfig;
use crate::outside::{event_channel, receiver_channel};
use crate::rules::initial_grid;
use crate::types::Player;
use crate::wire::RegisterRoomEvent;

verus! {

/// How many events a room's stream holds for a subscriber that lags.
pub const QUEUE_MESSAGE_LIMIT: usize = 16;

/// One room: its board and the stream its events go out on.
pub struct GameSession {
    board: Board,
    /// Keeps the stream open while no connection listens.
    _room_queue_recv: Receiver<RegisterRoomEvent>,
}

impl GameSession {
    pub closed spec fn board(&self) -> Board {
        self.board
    }

    pub open spec fn wf(&self) -> bool {
        self.board().wf()
    }

    /// A room in the starting position for `config`.
    pub fn new(config: BoardConfig) -> (r: Self)
        ensures
            r.wf(),
            r.board().grid() == initial_grid(),
            r.board().turn() == config.first_side,
            r.board().config() == config,
            r.board().roster() == Seq::<(u128, Player)>::empty(),
            r.board().events() == Seq::<RegisterRoomEvent>::empty(),
    {
        let (room_queue, _room_queue_recv) = event_channel(QUEUE_MESSAGE_LIMIT);
        GameSession { board: Board::new(config, room_queue), _room_queue_recv }
    }

    /// A receiver of this room's events from now on.
    pub fn subscribe_queue(&self) -> (r: Receiver<RegisterRoomEvent>)
        ensures
            receiver_channel(r) == self.board().channel(),
    {
        self.board.subscribe_queue()
    }

    pub fn get_board(&self) -> (r: &Board)
        ensures
            *r == self.board(),
    {
        &self.board
    }

    pub fn get_board_mut(&mut self) -> (r: &mut Board)
        ensures
            *r == old(self).board(),
            final(self).board() == *final(r),
    {
        &mut self.board
    }
}

} // verus!
