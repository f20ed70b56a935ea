use numbers_server::board::{check_position, Board};
use numbers_server::board_config::BoardConfig;
use numbers_server::rules::BoardOperationError;
use numbers_server::session::GameSession;
use numbers_server::wire::{RegisterRoomEvent, RoomEvent};
use numbers_server::{BoardPieces, Piece, Side, BOARD_SIZE};
use tokio::sync::broadcast;

fn config(limit: usize, first: Side) -> BoardConfig {
    BoardConfig { team_player_limit: limit, first_side: first }
}

fn empty_layout() -> BoardPieces {
    [[None; BOARD_SIZE]; BOARD_SIZE]
}

fn put(layout: &mut BoardPieces, x: usize, y: usize, side: Side, number: u8) {
    layout[y][x] = Some(Piece { side, number });
}

fn board_with(layout: BoardPieces, turn: Side) -> (Board, broadcast::Receiver<RegisterRoomEvent>) {
    let (tx, rx) = broadcast::channel(16);
    let board = Board::from_layout(config(1, Side::A), tx, layout, turn).expect("layout fits");
    (board, rx)
}

fn seat(board: &mut Board, side: Side) -> u128 {
    board.create_player(side, format!("{:?}", side)).expect("free seat").0
}

#[test]
fn starting_board_layout() {
    for first in [Side::A, Side::B] {
        let session = GameSession::new(config(1, first));
        let board = session.get_board();
        assert_eq!(board.get_current_turn(), first);
        let pieces = board.get_pieces();
        let mut count_a = 0;
        let mut count_b = 0;
        for y in 0..BOARD_SIZE {
            let mut in_row = 0;
            for x in 0..BOARD_SIZE {
                if let Some(p) = pieces[y][x] {
                    assert_eq!(p.number, 3);
                    assert_eq!((x + y) % 2, 1);
                    in_row += 1;
                    match p.side {
                        Side::A => {
                            assert!(y >= 5);
                            count_a += 1;
                        }
                        Side::B => {
                            assert!(y < 3);
                            count_b += 1;
                        }
                    }
                }
            }
            assert_eq!(in_row, if y < 3 || y >= 5 { 4 } else { 0 });
        }
        assert_eq!(count_a, 12);
        assert_eq!(count_b, 12);
        assert!(board.get_players().is_empty());
    }
}

#[test]
fn wrong_side_gets_invalid_turn_everywhere() {
    let mut session = GameSession::new(config(1, Side::A));
    let board = session.get_board_mut();
    let _a = seat(board, Side::A);
    let b = seat(board, Side::B);
    let before = *board.get_pieces();
    for fx in 0..BOARD_SIZE {
        for fy in 0..BOARD_SIZE {
            for (tx, ty) in [(0, 0), (fx, fy), (7, 7), (3, 4)] {
                let r = board.move_piece(b, (fx, fy), (tx, ty));
                assert!(matches!(r, Err(BoardOperationError::InvalidTurn)));
            }
        }
    }
    assert_eq!(*board.get_pieces(), before);
    assert_eq!(board.get_current_turn(), Side::A);
}

#[test]
fn single_seat_refuses_second_join() {
    let mut session = GameSession::new(config(1, Side::A));
    let board = session.get_board_mut();
    let first = board.create_player(Side::A, "ONE".to_string());
    assert!(first.is_some());
    let (private_id, public_id) = first.unwrap();
    assert_ne!(private_id, public_id);
    let second = board.create_player(Side::A, "TWO".to_string());
    assert!(second.is_none());
    let players = board.get_players();
    assert_eq!(players.len(), 1);
    assert_eq!(players[0].name, "ONE");
    assert_eq!(players[0].public_id, first.unwrap().1);
    // The other side still has its seat.
    assert!(board.create_player(Side::B, "THREE".to_string()).is_some());
}

#[test]
fn two_seats_per_side() {
    let mut session = GameSession::new(config(2, Side::A));
    let board = session.get_board_mut();
    assert!(board.create_player(Side::B, "X".to_string()).is_some());
    assert!(board.create_player(Side::B, "Y".to_string()).is_some());
    assert!(board.create_player(Side::B, "Z".to_string()).is_none());
    assert_eq!(board.get_players().len(), 2);
}

#[test]
fn join_and_leave_are_announced() {
    let mut session = GameSession::new(config(1, Side::A));
    let mut rx = session.subscribe_queue();
    let board = session.get_board_mut();
    let (private_id, public_id) = board.create_player(Side::B, "NAME".to_string()).unwrap();
    assert!(board.contains_player(private_id));
    let joined = rx.try_recv().unwrap();
    assert_eq!(joined.public_id, public_id);
    assert_eq!(joined.event, RoomEvent::PlayerJoin(Side::B, "NAME".to_string()));
    assert_eq!(board.remove_player(private_id), Some(public_id));
    assert!(!board.contains_player(private_id));
    let left = rx.try_recv().unwrap();
    assert_eq!(left.public_id, public_id);
    assert_eq!(left.event, RoomEvent::PlayerLeave);
    assert_eq!(board.remove_player(private_id), None);
    assert!(rx.try_recv().is_err());
}

#[test]
fn capture_nine_over_three_passes_turn_when_no_capture_remains() {
    let mut layout = empty_layout();
    put(&mut layout, 2, 5, Side::A, 9);
    put(&mut layout, 3, 4, Side::B, 3);
    put(&mut layout, 7, 0, Side::B, 3);
    let (mut board, mut rx) = board_with(layout, Side::A);
    let a = seat(&mut board, Side::A);
    let _ = rx.try_recv();
    assert!(board.move_piece(a, (2, 5), (4, 3)).is_ok());
    let pieces = board.get_pieces();
    assert_eq!(pieces[3][4], Some(Piece { side: Side::A, number: 6 }));
    assert_eq!(pieces[4][3], None);
    assert_eq!(pieces[5][2], None);
    assert_eq!(board.get_current_turn(), Side::B);
    let moved = rx.try_recv().unwrap();
    assert_eq!(moved.event, RoomEvent::MovePiece(true, ((2, 5), (4, 3))));
}

#[test]
fn capture_keeps_turn_while_another_capture_exists() {
    let mut layout = empty_layout();
    put(&mut layout, 2, 5, Side::A, 9);
    put(&mut layout, 3, 4, Side::B, 3);
    put(&mut layout, 6, 7, Side::A, 4);
    put(&mut layout, 5, 6, Side::B, 2);
    let (mut board, mut rx) = board_with(layout, Side::A);
    let a = seat(&mut board, Side::A);
    let _ = rx.try_recv();
    assert!(board.move_piece(a, (2, 5), (4, 3)).is_ok());
    assert_eq!(board.get_pieces()[3][4], Some(Piece { side: Side::A, number: 6 }));
    assert_eq!(board.get_current_turn(), Side::A);
    let moved = rx.try_recv().unwrap();
    assert_eq!(moved.event, RoomEvent::MovePiece(false, ((2, 5), (4, 3))));
}

#[test]
fn capture_needs_a_weaker_enemy_and_an_empty_landing() {
    let mut layout = empty_layout();
    put(&mut layout, 2, 5, Side::A, 3);
    put(&mut layout, 3, 4, Side::B, 3);
    put(&mut layout, 2, 3, Side::A, 5);
    put(&mut layout, 1, 4, Side::A, 2);
    let (mut board, _rx) = board_with(layout, Side::A);
    let a = seat(&mut board, Side::A);
    let before = *board.get_pieces();
    // Equal strength: no capture.
    assert!(matches!(board.move_piece(a, (2, 5), (4, 3)), Err(BoardOperationError::InvalidMove)));
    // Jumping a friendly piece.
    assert!(matches!(board.move_piece(a, (2, 3), (0, 5)), Err(BoardOperationError::InvalidMove)));
    assert_eq!(*board.get_pieces(), before);
}

#[test]
fn stacking_four_onto_five() {
    let mut layout = empty_layout();
    put(&mut layout, 2, 5, Side::A, 4);
    put(&mut layout, 3, 4, Side::A, 5);
    put(&mut layout, 7, 0, Side::B, 3);
    let (mut board, _rx) = board_with(layout, Side::A);
    let a = seat(&mut board, Side::A);
    assert!(board.move_piece(a, (2, 5), (3, 4)).is_ok());
    let pieces = board.get_pieces();
    assert_eq!(pieces[4][3], Some(Piece { side: Side::A, number: 7 }));
    assert_eq!(pieces[5][2], Some(Piece { side: Side::A, number: 2 }));
    assert_eq!(board.get_current_turn(), Side::B);
}

#[test]
fn stacking_refused_while_a_capture_exists() {
    let mut layout = empty_layout();
    put(&mut layout, 2, 5, Side::A, 4);
    put(&mut layout, 3, 4, Side::A, 5);
    put(&mut layout, 6, 7, Side::A, 4);
    put(&mut layout, 5, 6, Side::B, 2);
    let (mut board, _rx) = board_with(layout, Side::A);
    let a = seat(&mut board, Side::A);
    let before = *board.get_pieces();
    assert!(matches!(board.move_piece(a, (2, 5), (3, 4)), Err(BoardOperationError::InvalidMove)));
    assert_eq!(*board.get_pieces(), before);
    assert_eq!(board.get_current_turn(), Side::A);
}

#[test]
fn stacking_needs_strength_two() {
    let mut layout = empty_layout();
    put(&mut layout, 2, 5, Side::A, 1);
    put(&mut layout, 3, 4, Side::A, 5);
    let (mut board, _rx) = board_with(layout, Side::A);
    let a = seat(&mut board, Side::A);
    assert!(matches!(board.move_piece(a, (2, 5), (3, 4)), Err(BoardOperationError::InvalidMove)));
}

#[test]
fn forced_capture_blocks_every_step() {
    let mut layout = empty_layout();
    put(&mut layout, 1, 6, Side::A, 3);
    put(&mut layout, 4, 5, Side::A, 3);
    put(&mut layout, 6, 3, Side::A, 4);
    put(&mut layout, 5, 2, Side::B, 2);
    let (mut board, _rx) = board_with(layout, Side::A);
    let a = seat(&mut board, Side::A);
    let before = *board.get_pieces();
    for (x, y) in [(1usize, 6usize), (4, 5), (6, 3)] {
        for (dx, dy) in [(-1i32, -1i32), (-1, 1), (1, -1), (1, 1)] {
            let tx = x as i32 + dx;
            let ty = y as i32 + dy;
            if tx < 0 || ty < 0 || tx >= 8 || ty >= 8 {
                continue;
            }
            let r = board.move_piece(a, (x, y), (tx as usize, ty as usize));
            assert!(matches!(r, Err(BoardOperationError::InvalidMove)));
        }
    }
    assert_eq!(*board.get_pieces(), before);
    // The capture itself is accepted.
    assert!(board.move_piece(a, (6, 3), (4, 1)).is_ok());
    assert_eq!(board.get_pieces()[1][4], Some(Piece { side: Side::A, number: 2 }));
}

#[test]
fn simple_step_moves_and_passes_turn() {
    let mut session = GameSession::new(config(1, Side::A));
    let board = session.get_board_mut();
    let a = seat(board, Side::A);
    assert!(board.move_piece(a, (0, 5), (1, 4)).is_ok());
    assert_eq!(board.get_pieces()[4][1], Some(Piece { side: Side::A, number: 3 }));
    assert_eq!(board.get_pieces()[5][0], None);
    assert_eq!(board.get_current_turn(), Side::B);
}

#[test]
fn move_errors_in_order() {
    let mut session = GameSession::new(config(1, Side::A));
    let board = session.get_board_mut();
    let a = seat(board, Side::A);
    assert!(matches!(board.move_piece(a, (8, 0), (1, 1)), Err(BoardOperationError::InvalidPosition)));
    assert!(matches!(board.move_piece(a, (0, 5), (0, 8)), Err(BoardOperationError::InvalidPosition)));
    // Empty square, then an enemy piece.
    assert!(matches!(board.move_piece(a, (0, 4), (1, 3)), Err(BoardOperationError::InvalidPiece)));
    assert!(matches!(board.move_piece(a, (1, 0), (0, 1)), Err(BoardOperationError::InvalidPiece)));
    // Straight and long moves.
    assert!(matches!(board.move_piece(a, (0, 5), (0, 4)), Err(BoardOperationError::InvalidMove)));
    assert!(matches!(board.move_piece(a, (0, 5), (3, 2)), Err(BoardOperationError::InvalidMove)));
    board.toggle_turn();
    assert_eq!(board.get_current_turn(), Side::B);
    assert!(matches!(board.move_piece(a, (0, 5), (1, 4)), Err(BoardOperationError::InvalidTurn)));
}

#[test]
fn position_boundary() {
    assert_eq!(check_position((7, 7)).ok(), Some((7, 7)));
    assert_eq!(check_position((0, 0)).ok(), Some((0, 0)));
    assert!(matches!(check_position((8, 0)), Err(BoardOperationError::InvalidPosition)));
    assert!(matches!(check_position((0, 8)), Err(BoardOperationError::InvalidPosition)));
}

#[test]
fn error_codes() {
    assert_eq!(BoardOperationError::InvalidPosition.as_str(), "INVALID_POSITION");
    assert_eq!(BoardOperationError::InvalidTurn.as_str(), "INVALID_TURN");
    assert_eq!(BoardOperationError::InvalidPiece.as_str(), "INVALID_PIECE");
    assert_eq!(BoardOperationError::InvalidMove.as_str(), "INVALID_MOVE");
}

#[test]
fn layout_over_the_strength_bound_is_refused() {
    let mut layout = empty_layout();
    put(&mut layout, 0, 1, Side::A, 200);
    put(&mut layout, 2, 1, Side::A, 56);
    let (tx, _rx) = broadcast::channel(4);
    assert!(Board::from_layout(config(1, Side::A), tx, layout, Side::A).is_none());
    let mut layout = empty_layout();
    put(&mut layout, 0, 1, Side::A, 200);
    put(&mut layout, 2, 1, Side::A, 55);
    put(&mut layout, 4, 1, Side::B, 255);
    let (tx, _rx) = broadcast::channel(4);
    assert!(Board::from_layout(config(1, Side::A), tx, layout, Side::B).is_some());
}

#[test]
fn side_reverse() {
    assert_eq!(Side::A.reverse(), Side::B);
    assert_eq!(Side::B.reverse(), Side::A);
    assert_eq!(Side::default(), Side::A);
}

#[test]
fn subscribers_hear_the_boards_channel() {
    let (tx, _rx) = broadcast::channel(16);
    let mut board = Board::new(config(1, Side::A), tx);
    let mut sub = board.subscribe_queue();
    assert!(sub.try_recv().is_err());
    let (_, public_id) = board.create_player(Side::A, "S".to_string()).unwrap();
    assert_eq!(sub.try_recv().unwrap().public_id, public_id);
    // A refused join sends nothing.
    assert!(board.create_player(Side::A, "T".to_string()).is_none());
    assert!(sub.try_recv().is_err());
}
