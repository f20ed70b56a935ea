//! What one connection decides: which action a message asks for, what the
//! room answers, what the sending side writes, and when it closes.

use vstd::prelude::*;

use crate::board::Board;
use crate::map::{room_slot, GameSessionMap};
use crate::room_id::RoomId;
use crate::roster::{has_id, left, player_of, seat_count};
use crate::rules::move_outcome;
use crate::util::{generate_name, is_generated_name};
use crate::wire::{
    CreateUser, PlayerAction, PlayerActionWithAuth, PlayerActionWithoutAuth, RegisterRoomEvent,
    Responses, RoomEvent,
};

verus! {

/// The oldest client protocol version this server speaks.
pub const MINIMUM_SERVER_VERSION: usize = 1;

/// The refusal sent when a side has no free seat.
pub open spec fn seat_refusal() -> Responses {
    Responses::UserCreated(CreateUser::Refused { message: "PLAYER_LIMIT_EXCEEDED" })
}

/// What `handle_action` does to `before`, giving `after` and the reply `r`,
/// for a connection holding the seat `seat`.
pub open spec fn action_post(
    before: Board,
    after: Board,
    action: PlayerAction,
    seat: Option<u128>,
    r: Option<Responses>,
) -> bool {
    let unchanged = after == before;
    match action {
        PlayerAction::WithoutAuth(PlayerActionWithoutAuth::JoinTeam(side)) => {
            if seat_count(before.roster(), side) >= before.config().team_player_limit {
                r == Some(seat_refusal()) && unchanged
            } else {
                match r {
                    Some(
                        Responses::UserCreated(CreateUser::Created { private_id, public_id }),
                    ) => {
                        let p = after.roster().last().1;
                        &&& private_id != public_id
                        &&& !has_id(before.roster(), private_id)
                        &&& p.public_id == public_id
                        &&& p.side == side
                        &&& is_generated_name(p.name@)
                        &&& after.roster() == before.roster().push((private_id, p))
                        &&& after.grid() == before.grid()
                        &&& after.turn() == before.turn()
                        &&& after.config() == before.config()
                        &&& after.events().len() == before.events().len() + 1
                        &&& after.events().drop_last() == before.events()
                        &&& after.events().last().public_id == public_id
                        &&& match after.events().last().event {
                            RoomEvent::PlayerJoin(s, n) => s == side && n@ == p.name@,
                            _ => false,
                        }
                    },
                    _ => false,
                }
            }
        },
        PlayerAction::WithoutAuth(PlayerActionWithoutAuth::Resume(id)) => {
            &&& unchanged
            &&& r == Some(
                if has_id(before.roster(), id) {
                    Responses::AuthorizedInternal(id)
                } else {
                    Responses::SessionExpired
                },
            )
        },
        PlayerAction::WithAuth(a) => match seat {
            None => r == Some(Responses::ActionNotAccepted) && unchanged,
            Some(id) => if !has_id(before.roster(), id) {
                r == Some(Responses::ActionNotAccepted) && unchanged
            } else {
                let player = player_of(before.roster(), id);
                match a {
                    PlayerActionWithAuth::LeaveTeam => {
                        &&& r is None
                        &&& after.roster() == left(before.roster(), id)
                        &&& after.grid() == before.grid()
                        &&& after.turn() == before.turn()
                        &&& after.config() == before.config()
                        &&& after.events() == before.events().push(
                            RegisterRoomEvent {
                                public_id: player.public_id,
                                event: RoomEvent::PlayerLeave,
                            },
                        )
                    },
                    PlayerActionWithAuth::Move(from, to) => match move_outcome(
                        before.grid(),
                        before.turn(),
                        player.side,
                        from,
                        to,
                    ) {
                        Err(_) => r == Some(Responses::ActionNotAccepted) && unchanged,
                        Ok((g, toggled)) => {
                            &&& r is None
                            &&& after.grid() == g
                            &&& after.turn() == if toggled {
                                before.turn().opposite()
                            } else {
                                before.turn()
                            }
                            &&& after.roster() == before.roster()
                            &&& after.config() == before.config()
                            &&& after.events() == before.events().push(
                                RegisterRoomEvent {
                                    public_id: player.public_id,
                                    event: RoomEvent::MovePiece(toggled, (from, to)),
                                },
                            )
                        },
                    },
                }
            },
        },
    }
}

/// Carries out one parsed action on a room's board for a connection that
/// holds the seat `private_id` (or none), and gives the direct reply, if
/// any. Joining draws a generated name. Leaving frees the seat and
/// announces it; an action by a seat that no longer exists is not accepted.
pub fn handle_action(board: &mut Board, action: PlayerAction, private_id: Option<u128>) -> (r:
    Option<Responses>)
    requires
        old(board).wf(),
    ensures
        final(board).wf(),
        action_post(*old(board), *final(board), action, private_id, r),
{
    match action {
        PlayerAction::WithoutAuth(action) => match action {
            PlayerActionWithoutAuth::JoinTeam(side) => {
                let ghost before = *board;
                match board.create_player(side, generate_name()) {
                    Some((private_id, public_id)) => {
                        assert(board.events().drop_last() =~= before.events());
                        Some(Responses::UserCreated(CreateUser::Created { private_id, public_id }))
                    },
                    None => Some(
                        Responses::UserCreated(
                            CreateUser::Refused { message: "PLAYER_LIMIT_EXCEEDED" },
                        ),
                    ),
                }
            },
            PlayerActionWithoutAuth::Resume(private_id) => {
                if !board.contains_player(private_id) {
                    return Some(Responses::SessionExpired);
                }
                Some(Responses::AuthorizedInternal(private_id))
            },
        },
        PlayerAction::WithAuth(action) => match private_id {
            None => Some(Responses::ActionNotAccepted),
            Some(private_id) => {
                if !board.contains_player(private_id) {
                    return Some(Responses::ActionNotAccepted);
                }
                match action {
                    PlayerActionWithAuth::LeaveTeam => {
                        board.remove_player(private_id);
                        None
                    },
                    PlayerActionWithAuth::Move(old_position, new_position) => {
                        if board.move_piece(private_id, old_position, new_position).is_err() {
                            return Some(Responses::ActionNotAccepted);
                        }
                        None
                    },
                }
            },
        },
    }
}

/// Carries out one parsed action on the room `room_id` of `map` (see
/// `handle_action`); every other room stays as it was.
pub fn handle_game(
    action: PlayerAction,
    map: &mut GameSessionMap,
    room_id: RoomId,
    private_id: Option<u128>,
) -> (r: Option<Responses>)
    requires
        old(map).wf(),
        old(map).contains(room_id),
    ensures
        final(map).wf(),
        ({
            let i = room_slot(old(map).rooms(), room_id);
            let s = final(map).rooms()[i].1;
            &&& final(map).rooms() == old(map).rooms().update(i, (old(map).rooms()[i].0, s))
            &&& action_post(old(map).rooms()[i].1.board(), s.board(), action, private_id, r)
        }),
{
    let session = map.get_mut(room_id);
    let board = session.get_board_mut();
    handle_action(board, action, private_id)
}

/// Frees the seat a closing connection held, if any (see
/// `Board::remove_player`): afterwards the id holds no seat, and a seat
/// that was held is announced as left.
pub fn release_seat(private_id: Option<u128>, map: &mut GameSessionMap, room_id: RoomId)
    requires
        old(map).wf(),
        old(map).contains(room_id),
    ensures
        final(map).wf(),
        private_id is None ==> *final(map) == *old(map),
        ({
            let i = room_slot(old(map).rooms(), room_id);
            let before = old(map).rooms()[i].1.board();
            let s = final(map).rooms()[i].1;
            let id = private_id->0;
            private_id is Some ==> {
                &&& final(map).rooms() == old(map).rooms().update(i, (old(map).rooms()[i].0, s))
                &&& s.board().roster() == left(before.roster(), id)
                &&& !has_id(s.board().roster(), id)
                &&& has_id(before.roster(), id) ==> {
                    &&& s.board().grid() == before.grid()
                    &&& s.board().turn() == before.turn()
                    &&& s.board().config() == before.config()
                    &&& s.board().events() == before.events().push(
                        RegisterRoomEvent {
                            public_id: player_of(before.roster(), id).public_id,
                            event: RoomEvent::PlayerLeave,
                        },
                    )
                }
                &&& !has_id(before.roster(), id) ==> s.board() == before
            }
        }),
{
    if let Some(private_id) = private_id {
        let session = map.get_mut(room_id);
        session.get_board_mut().remove_player(private_id);
    }
}

/// What the peer answered to the liveness probe.
#[derive(Clone, Copy, Debug, PartialEq, Eq, Structural)]
pub enum HandshakeReply {
    /// The expected acknowledgment.
    Pong,
    /// Any other message.
    Other,
    /// Nothing: the connection ended or failed.
    Nothing,
}

/// Whether the liveness handshake succeeded; anything but the
/// acknowledgment ends the connection.
pub fn handshake_accepts(reply: HandshakeReply) -> (r: bool)
    ensures
        r == (reply == HandshakeReply::Pong),
{
    match reply {
        HandshakeReply::Pong => true,
        _ => false,
    }
}

/// One message as the transport delivered it.
#[derive(Clone, Copy, Debug, PartialEq, Eq)]
pub enum InboundMessage {
    /// A text message, with the action it holds or `None` where it holds no
    /// valid action.
    Text(Option<PlayerAction>),
    /// The peer closes the connection.
    Close,
    /// Any other kind of message.
    Other,
}

/// What the receiving side does with a message.
#[derive(Clone, Copy, Debug, PartialEq, Eq)]
pub enum Inbound {
    /// Stop reading.
    Stop,
    /// Reply that the data was invalid; the sending side then closes.
    Invalid,
    /// Carry out the action.
    Act(PlayerAction),
}

pub open spec fn classify_spec(msg: InboundMessage) -> Inbound {
    match msg {
        InboundMessage::Text(Some(action)) => Inbound::Act(action),
        InboundMessage::Text(None) => Inbound::Invalid,
        InboundMessage::Close => Inbound::Stop,
        InboundMessage::Other => Inbound::Invalid,
    }
}

/// Sorts an incoming message: a close stops the reader, a message that is
/// not text or holds no valid action is invalid data, the rest is acted on.
pub fn classify_message(msg: InboundMessage) -> (r: Inbound)
    ensures
        r == classify_spec(msg),
{
    match msg {
        InboundMessage::Text(Some(action)) => Inbound::Act(action),
        InboundMessage::Text(None) => Inbound::Invalid,
        InboundMessage::Close => Inbound::Stop,
        InboundMessage::Other => Inbound::Invalid,
    }
}

/// The seat a connection holds after the room answered `response`, and the
/// reply for the sending side.
pub open spec fn reply_spec(seat: Option<u128>, response: Option<Responses>) -> (
    Option<u128>,
    Option<Responses>,
) {
    match response {
        Some(Responses::AuthorizedInternal(id)) => (Some(id), Some(Responses::Authorized)),
        _ => (seat, response),
    }
}

/// The receiving side of a connection, with the seat it has been granted.
pub struct InboundWorker {
    private_id: Option<u128>,
}

impl InboundWorker {
    pub closed spec fn seat(&self) -> Option<u128> {
        self.private_id
    }

    /// A connection that holds no seat.
    pub fn new() -> (r: Self)
        ensures
            r.seat() is None,
    {
        InboundWorker { private_id: None }
    }

    /// The seat this connection holds, if any.
    pub fn private_id(&self) -> (r: Option<u128>)
        ensures
            r == self.seat(),
    {
        self.private_id
    }

    /// Turns the room's answer to an action into the reply for the sending
    /// side. A granted seat is kept by the connection and answered with
    /// `Authorized`, never with the id itself.
    pub fn reply_for(&mut self, response: Option<Responses>) -> (r: Option<Responses>)
        ensures
            (final(self).seat(), r) == reply_spec(old(self).seat(), response),
    {
        match response {
            Some(Responses::AuthorizedInternal(id)) => {
                self.private_id = Some(id);
                Some(Responses::Authorized)
            },
            _ => response,
        }
    }

    /// Handles one message: sorts it, carries out its action on the room,
    /// and gives what the sending side gets, or `Err(())` where reading
    /// stops. A message with no valid action changes no room and yields
    /// the invalid-data reply.
    pub fn on_message(
        &mut self,
        msg: InboundMessage,
        map: &mut GameSessionMap,
        room_id: RoomId,
    ) -> (r: Result<Option<Responses>, ()>)
        requires
            old(map).wf(),
            old(map).contains(room_id),
        ensures
            final(map).wf(),
            match classify_spec(msg) {
                Inbound::Stop => r is Err && *final(map) == *old(map) && final(self).seat() == old(
                    self,
                ).seat(),
                Inbound::Invalid => r == Ok::<Option<Responses>, ()>(
                    Some(Responses::GotInvalidData),
                ) && *final(map) == *old(map) && final(self).seat() == old(self).seat(),
                Inbound::Act(action) => exists|response: Option<Responses>|
                    #![trigger reply_spec(old(self).seat(), response)]
                {
                    let i = room_slot(old(map).rooms(), room_id);
                    let s = final(map).rooms()[i].1;
                    &&& final(map).rooms() == old(map).rooms().update(
                        i,
                        (old(map).rooms()[i].0, s),
                    )
                    &&& action_post(
                        old(map).rooms()[i].1.board(),
                        s.board(),
                        action,
                        old(self).seat(),
                        response,
                    )
                    &&& r is Ok
                    &&& (final(self).seat(), r->Ok_0) == reply_spec(old(self).seat(), response)
                },
            },
    {
        match classify_message(msg) {
            Inbound::Stop => Err(()),
            Inbound::Invalid => Ok(Some(Responses::GotInvalidData)),
            Inbound::Act(action) => {
                let response = handle_game(action, map, room_id, self.private_id);
                Ok(self.reply_for(response))
            },
        }
    }
}

/// Why the sending side closes a connection.
#[derive(Clone, Copy, Debug, PartialEq, Eq, Structural)]
pub enum CloseReason {
    /// The connection fell behind the room's stream; the client should
    /// reconnect and fetch a fresh snapshot.
    TryAgain,
    /// The client sent data that is not a valid action.
    InvalidData,
}

/// What the sending side of a connection receives next.
#[derive(Debug, PartialEq, Eq)]
pub enum OutboundItem {
    /// An event of the room.
    Event(RegisterRoomEvent),
    /// The room's stream failed: events were dropped for this connection
    /// (or the stream ended).
    Lagged,
    /// A direct reply from the receiving side.
    Reply(Responses),
}

/// What the sending side writes.
#[derive(Debug, PartialEq, Eq)]
pub enum OutboundStep {
    SendEvent(RegisterRoomEvent),
    SendReply(Responses),
    /// Send a close frame for this reason and stop.
    Close(CloseReason),
    /// Write nothing.
    Skip,
}

/// The sending side's next state (whether it has closed) and step.
pub open spec fn outbound_spec(closed: bool, item: OutboundItem) -> (bool, OutboundStep) {
    if closed {
        (true, OutboundStep::Skip)
    } else {
        match item {
            OutboundItem::Event(e) => (false, OutboundStep::SendEvent(e)),
            OutboundItem::Lagged => (true, OutboundStep::Close(CloseReason::TryAgain)),
            OutboundItem::Reply(Responses::GotInvalidData) => (
                true,
                OutboundStep::Close(CloseReason::InvalidData),
            ),
            OutboundItem::Reply(Responses::AuthorizedInternal(_)) => (false, OutboundStep::Skip),
            OutboundItem::Reply(r) => (false, OutboundStep::SendReply(r)),
        }
    }
}

/// The sending side of a connection.
pub struct OutboundWorker {
    closed: bool,
}

impl OutboundWorker {
    pub closed spec fn is_closed(&self) -> bool {
        self.closed
    }

    pub fn new() -> (r: Self)
        ensures
            !r.is_closed(),
    {
        OutboundWorker { closed: false }
    }

    /// Decides what to write for the next item. Events and replies are
    /// written in the order they come; a failed stream closes with "try
    /// again", the invalid-data reply with "invalid data", and after a close
    /// nothing more is written. A seat grant is internal and never written.
    pub fn on_item(&mut self, item: OutboundItem) -> (r: OutboundStep)
        ensures
            (final(self).is_closed(), r) == outbound_spec(old(self).is_closed(), item),
    {
        if self.closed {
            return OutboundStep::Skip;
        }
        match item {
            OutboundItem::Event(e) => OutboundStep::SendEvent(e),
            OutboundItem::Lagged => {
                self.closed = true;
                OutboundStep::Close(CloseReason::TryAgain)
            },
            OutboundItem::Reply(response) => match response {
                Responses::GotInvalidData => {
                    self.closed = true;
                    OutboundStep::Close(CloseReason::InvalidData)
                },
                Responses::AuthorizedInternal(_) => OutboundStep::Skip,
                _ => OutboundStep::SendReply(response),
            },
        }
    }
}

/// A message that holds no valid action is answered once with invalid
/// data, and the sending side then closes with "invalid data" and writes
/// nothing after, whatever comes.
pub proof fn lemma_invalid_data_closes(later: OutboundItem)
    ensures
        classify_spec(InboundMessage::Text(None)) == Inbound::Invalid,
        outbound_spec(false, OutboundItem::Reply(Responses::GotInvalidData)) == (
            true,
            OutboundStep::Close(CloseReason::InvalidData),
        ),
        outbound_spec(true, later) == (true, OutboundStep::Skip),
{
}

/// A connection whose stream failed is closed with "try again" and is sent
/// no event after that, whatever comes.
pub proof fn lemma_lag_closes(later: OutboundItem)
    ensures
        outbound_spec(false, OutboundItem::Lagged) == (true, OutboundStep::Close(
            CloseReason::TryAgain,
        )),
        outbound_spec(true, later) == (true, OutboundStep::Skip),
{
}

} // verus!
