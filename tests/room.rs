use numbers_server::board_config::BoardConfig;
use numbers_server::http::{new_room, room_existence_check, room_info, room_list, server_info};
use numbers_server::map::{GameSessionLock, GameSessionMap};
use numbers_server::protocol::{
    classify_message, handle_game, handshake_accepts, release_seat, CloseReason, HandshakeReply,
    Inbound, InboundMessage, InboundWorker, OutboundItem, OutboundStep, OutboundWorker,
};
use numbers_server::util::{generate_name, spell_name, unwrap_infallible, DirectionArrow};
use numbers_server::wire::{
    CreateRoom, CreateUser, HttpBoardConfig, PlayerAction, PlayerActionWithAuth,
    PlayerActionWithoutAuth, RegisterRoomEvent, Responses, RoomEvent,
};
use numbers_server::{RoomId, Side, TryParseRoomIdError};

fn http_config(limit: Option<usize>, first: Option<Side>) -> HttpBoardConfig {
    HttpBoardConfig { team_player_limit: limit, first_side: first }
}

fn make_room(map: &mut GameSessionMap) -> RoomId {
    match new_room(map, http_config(None, None)) {
        CreateRoom::Created { room_id } => room_id,
        CreateRoom::Rejected { .. } => panic!("room refused"),
    }
}

fn join(map: &mut GameSessionMap, room: RoomId, side: Side) -> (u128, u128) {
    let action = PlayerAction::WithoutAuth(PlayerActionWithoutAuth::JoinTeam(side));
    match handle_game(action, map, room, None) {
        Some(Responses::UserCreated(CreateUser::Created { private_id, public_id })) => {
            (private_id, public_id)
        }
        _ => panic!("join refused"),
    }
}

#[test]
fn config_defaults_and_limits() {
    let c = BoardConfig::try_from(http_config(None, None)).unwrap();
    assert_eq!(c, BoardConfig { team_player_limit: 1, first_side: Side::A });
    let c = BoardConfig::try_from(http_config(Some(2), Some(Side::B))).unwrap();
    assert_eq!(c, BoardConfig { team_player_limit: 2, first_side: Side::B });
    assert_eq!(BoardConfig::try_from(http_config(Some(0), None)), Err("INVALID_PLAYER_LIMIT"));
    assert_eq!(BoardConfig::try_from(http_config(Some(3), None)), Err("INVALID_PLAYER_LIMIT"));
}

#[test]
fn new_room_rejects_bad_limit_and_keeps_registry() {
    let mut map = GameSessionMap::new();
    let r = new_room(&mut map, http_config(Some(5), None));
    assert_eq!(r, CreateRoom::Rejected { message: "INVALID_PLAYER_LIMIT" });
    assert!(room_list(&map).0.is_empty());
}

#[test]
fn rooms_are_listed_with_their_players() {
    let mut map = GameSessionMap::new();
    let first = make_room(&mut map);
    let second = match new_room(&mut map, http_config(Some(2), Some(Side::B))) {
        CreateRoom::Created { room_id } => room_id,
        _ => panic!("room refused"),
    };
    assert!(room_existence_check(&map, first));
    assert!(room_existence_check(&map, second));
    let unknown = RoomId::parse("zzzzzzzz").unwrap();
    assert_eq!(room_existence_check(&map, unknown), unknown == first || unknown == second);
    join(&mut map, second, Side::A);
    let list = room_list(&map).0;
    assert_eq!(list.len(), 2);
    assert_eq!(list[0].id, first);
    assert!(list[0].players.is_empty());
    assert_eq!(list[1].id, second);
    assert_eq!(list[1].players.len(), 1);
    assert_eq!(list[1].players[0].len(), 9);
    let info = room_info(&map, second);
    assert_eq!(info.room_id, second);
    assert_eq!(info.current_turn, Side::B);
    assert_eq!(info.players.len(), 1);
    assert_eq!(info.players[0].name, list[1].players[0]);
    assert_eq!(server_info().min_version, 1);
}

#[test]
fn scoped_access_reads_and_writes_one_room() {
    let mut map = GameSessionMap::new();
    let room = make_room(&mut map);
    let lock = GameSessionLock::new(room);
    let turn = lock.with_read(&map, |session| session.get_board().get_current_turn());
    assert_eq!(turn, Side::A);
    let joined = lock.with_write(&mut map, |session| {
        session.get_board_mut().create_player(Side::B, "W".to_string())
    });
    assert!(joined.is_some());
    let count = lock.with_read(&map, |session| session.get_board().get_players().len());
    assert_eq!(count, 1);
}

#[test]
fn join_resume_move_and_leave() {
    let mut map = GameSessionMap::new();
    let room = make_room(&mut map);
    let mut rx = map.get(room).subscribe_queue();
    let (a_private, a_public) = join(&mut map, room, Side::A);
    match rx.try_recv().unwrap() {
        RegisterRoomEvent { public_id, event: RoomEvent::PlayerJoin(Side::A, name) } => {
            assert_eq!(public_id, a_public);
            assert_eq!(name.len(), 9);
            assert!(name.bytes().all(|b| b.is_ascii_uppercase()));
        }
        other => panic!("unexpected event {:?}", other),
    }
    // The side is full.
    let again = PlayerAction::WithoutAuth(PlayerActionWithoutAuth::JoinTeam(Side::A));
    assert_eq!(
        handle_game(again, &mut map, room, None),
        Some(Responses::UserCreated(CreateUser::Refused { message: "PLAYER_LIMIT_EXCEEDED" }))
    );
    // A move before authorization is not accepted.
    let step = PlayerAction::WithAuth(PlayerActionWithAuth::Move((0, 5), (1, 4)));
    assert_eq!(handle_game(step, &mut map, room, None), Some(Responses::ActionNotAccepted));
    // Resuming with a known id and with an unknown one.
    let resume = PlayerAction::WithoutAuth(PlayerActionWithoutAuth::Resume(a_private));
    assert_eq!(
        handle_game(resume, &mut map, room, None),
        Some(Responses::AuthorizedInternal(a_private))
    );
    let stranger = PlayerAction::WithoutAuth(PlayerActionWithoutAuth::Resume(a_private ^ 1));
    assert_eq!(handle_game(stranger, &mut map, room, None), Some(Responses::SessionExpired));
    // A legal move gets no direct reply; an illegal one is not accepted.
    assert_eq!(handle_game(step, &mut map, room, Some(a_private)), None);
    let moved = rx.try_recv().unwrap();
    assert_eq!(moved.public_id, a_public);
    assert_eq!(moved.event, RoomEvent::MovePiece(true, ((0, 5), (1, 4))));
    assert_eq!(handle_game(step, &mut map, room, Some(a_private)), Some(Responses::ActionNotAccepted));
    // Leaving frees the seat; the seat then acts no more.
    let leave = PlayerAction::WithAuth(PlayerActionWithAuth::LeaveTeam);
    assert_eq!(handle_game(leave, &mut map, room, Some(a_private)), None);
    assert_eq!(rx.try_recv().unwrap().event, RoomEvent::PlayerLeave);
    assert!(!map.get(room).get_board().contains_player(a_private));
    assert_eq!(handle_game(leave, &mut map, room, Some(a_private)), Some(Responses::ActionNotAccepted));
}

#[test]
fn inbound_worker_keeps_the_granted_seat() {
    let mut map = GameSessionMap::new();
    let room = make_room(&mut map);
    let (private_id, _) = join(&mut map, room, Side::B);
    let mut worker = InboundWorker::new();
    assert_eq!(worker.private_id(), None);
    let resume = InboundMessage::Text(Some(PlayerAction::WithoutAuth(
        PlayerActionWithoutAuth::Resume(private_id),
    )));
    assert_eq!(worker.on_message(resume, &mut map, room), Ok(Some(Responses::Authorized)));
    assert_eq!(worker.private_id(), Some(private_id));
    assert_eq!(worker.on_message(InboundMessage::Close, &mut map, room), Err(()));
    release_seat(worker.private_id(), &mut map, room);
    assert!(!map.get(room).get_board().contains_player(private_id));
}

#[test]
fn malformed_message_gets_one_invalid_reply_then_close() {
    let mut map = GameSessionMap::new();
    let room = make_room(&mut map);
    join(&mut map, room, Side::A);
    let before = *map.get(room).get_board().get_pieces();
    let players_before = map.get(room).get_board().get_players().len();
    let mut inbound = InboundWorker::new();
    let reply = inbound.on_message(InboundMessage::Text(None), &mut map, room);
    assert_eq!(reply, Ok(Some(Responses::GotInvalidData)));
    assert_eq!(inbound.on_message(InboundMessage::Other, &mut map, room), Ok(Some(Responses::GotInvalidData)));
    assert_eq!(*map.get(room).get_board().get_pieces(), before);
    assert_eq!(map.get(room).get_board().get_players().len(), players_before);
    let mut outbound = OutboundWorker::new();
    assert_eq!(
        outbound.on_item(OutboundItem::Reply(Responses::GotInvalidData)),
        OutboundStep::Close(CloseReason::InvalidData)
    );
    assert_eq!(outbound.on_item(OutboundItem::Reply(Responses::Authorized)), OutboundStep::Skip);
}

#[test]
fn lagging_subscriber_is_told_to_try_again() {
    let event = RegisterRoomEvent { public_id: 7, event: RoomEvent::PlayerLeave };
    let mut outbound = OutboundWorker::new();
    assert_eq!(
        outbound.on_item(OutboundItem::Event(event.clone())),
        OutboundStep::SendEvent(event.clone())
    );
    assert_eq!(outbound.on_item(OutboundItem::Lagged), OutboundStep::Close(CloseReason::TryAgain));
    assert_eq!(outbound.on_item(OutboundItem::Event(event)), OutboundStep::Skip);
}

#[test]
fn lagging_receiver_reports_lag() {
    let mut map = GameSessionMap::new();
    let room = make_room(&mut map);
    let mut rx = map.get(room).subscribe_queue();
    let mut private_ids = Vec::new();
    for _ in 0..20 {
        let lock = GameSessionLock::new(room);
        let id = lock.with_write(&mut map, |s| s.get_board_mut().create_player(Side::A, "P".to_string()));
        if let Some((p, _)) = id {
            private_ids.push(p);
        }
        release_seat(private_ids.last().copied(), &mut map, room);
    }
    assert!(matches!(rx.try_recv(), Err(tokio::sync::broadcast::error::TryRecvError::Lagged(_))));
    let mut outbound = OutboundWorker::new();
    assert_eq!(outbound.on_item(OutboundItem::Lagged), OutboundStep::Close(CloseReason::TryAgain));
}

#[test]
fn replies_pass_through_in_order() {
    let mut outbound = OutboundWorker::new();
    for r in [Responses::Authorized, Responses::ActionNotAccepted, Responses::SessionExpired] {
        assert_eq!(outbound.on_item(OutboundItem::Reply(r)), OutboundStep::SendReply(r));
    }
    assert_eq!(outbound.on_item(OutboundItem::Reply(Responses::AuthorizedInternal(3))), OutboundStep::Skip);
}

#[test]
fn message_classification_and_handshake() {
    let act = PlayerAction::WithAuth(PlayerActionWithAuth::LeaveTeam);
    assert_eq!(classify_message(InboundMessage::Text(Some(act))), Inbound::Act(act));
    assert_eq!(classify_message(InboundMessage::Text(None)), Inbound::Invalid);
    assert_eq!(classify_message(InboundMessage::Other), Inbound::Invalid);
    assert_eq!(classify_message(InboundMessage::Close), Inbound::Stop);
    assert!(handshake_accepts(HandshakeReply::Pong));
    assert!(!handshake_accepts(HandshakeReply::Other));
    assert!(!handshake_accepts(HandshakeReply::Nothing));
}

#[test]
fn room_ids_parse_and_print() {
    let id = RoomId::parse("abcDEF_9").unwrap();
    assert_eq!(id.as_string(), "abcDEF_9");
    assert_eq!(RoomId::parse("short"), Err(TryParseRoomIdError::BadLength));
    assert_eq!(RoomId::parse("abcdefghi"), Err(TryParseRoomIdError::BadLength));
    assert_eq!(RoomId::parse("abc-efgh"), Err(TryParseRoomIdError::BadChar));
    assert_eq!(TryParseRoomIdError::BadChar.message(), "bad character(s)");
    assert_eq!(TryParseRoomIdError::BadLength.message(), "bad length");
    for _ in 0..50 {
        let fresh = RoomId::new();
        let text = fresh.as_string();
        assert_eq!(text.len(), 8);
        assert!(text.bytes().all(|b| b.is_ascii_alphanumeric() || b == b'_'));
        assert_eq!(RoomId::parse(&text), Ok(fresh));
    }
}

#[test]
fn generated_names_use_at_most_four_letters() {
    for _ in 0..50 {
        let name = generate_name();
        assert_eq!(name.len(), 9);
        assert!(name.bytes().all(|b| b.is_ascii_uppercase()));
        let mut letters: Vec<u8> = name.bytes().collect();
        letters.sort();
        letters.dedup();
        assert!(letters.len() <= 4);
    }
}

#[test]
fn direction_arrows() {
    assert_eq!(DirectionArrow::RTL.as_str(), "<-");
    assert_eq!(DirectionArrow::LTR.as_str(), "->");
    assert_eq!(DirectionArrow::ErrorLTR.as_str(), "-x");
    assert_eq!(DirectionArrow::ErrorRTL.as_str(), "x-");
    assert_eq!(DirectionArrow::NoConnection.as_str(), "--");
    assert_eq!(DirectionArrow::Redirect.as_str(), "-v");
    assert_eq!(DirectionArrow::from_status_code(503), DirectionArrow::ErrorRTL);
    assert_eq!(DirectionArrow::from_status_code(404), DirectionArrow::ErrorLTR);
    assert_eq!(DirectionArrow::from_status_code(301), DirectionArrow::Redirect);
    assert_eq!(DirectionArrow::from_status_code(200), DirectionArrow::LTR);
}

#[test]
fn infallible_results_unwrap() {
    let r: Result<u32, std::convert::Infallible> = Ok(5);
    assert_eq!(unwrap_infallible(r), 5);
}

#[test]
fn room_ids_from_bytes() {
    let id = RoomId::from_bytes(*b"Room_42x").unwrap();
    assert_eq!(id.as_string(), "Room_42x");
    assert!(RoomId::from_bytes(*b"room 42x").is_none());
    assert!(RoomId::from_bytes(*b"room-42x").is_none());
}

#[test]
fn rooms_can_be_placed_under_a_given_id() {
    let mut map = GameSessionMap::new();
    let id = RoomId::parse("testroom").unwrap();
    map.create_at(id, BoardConfig { team_player_limit: usize::MAX, first_side: Side::B });
    assert!(room_existence_check(&map, id));
    assert_eq!(room_info(&map, id).current_turn, Side::B);
    for _ in 0..5 {
        join(&mut map, id, Side::A);
    }
    assert_eq!(room_list(&map).0[0].players.len(), 5);
}

#[test]
fn names_are_spelled_from_their_picks() {
    let letters = vec![b'Q', b'R', b'S', b'T'];
    let picks = vec![b'Q', b'R', b'Q', b'S', b'T', b'T', b'Q', b'R', b'S'];
    assert_eq!(spell_name(&letters, &picks), Some("QRQSTTQRS".to_string()));
    assert_eq!(spell_name(&letters, &picks[..8].to_vec()), None);
    let stray = vec![b'Q', b'R', b'Q', b'S', b'T', b'T', b'Q', b'R', b'A'];
    assert_eq!(spell_name(&letters, &stray), None);
    let lower = vec![b'q', b'R', b'S', b'T'];
    assert_eq!(spell_name(&lower, &picks), None);
}
