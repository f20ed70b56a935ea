//! One room's board: the grid, the roster of seats, the side to move, and
//! the room's event stream.

use vstd::prelude::*;

use tokio::sync::broadcast::{Receiver, Sender};

use crate::board_config::BoardConfig;
use crate::outside::{
    broadcast_event, random_uuid, receiver_channel, sender_channel, sent_events, subscribe_events,
};
use crate::roster::{
    has_id, ids_of, ids_unique, lemma_distinct_within, lemma_left, lemma_push_fresh,
    lemma_slot_of, left, player_of, seat_count, slot_of, Roster,
};
use crate::rules::{
    is_board_grid, row_major_before, lemma_initial_piece_counts, pieces_of, BoardOperationError, Grid, INITIAL_NUMBER, can_capture_from, capturable, capture_towards, cell, grid_of, grid_total, has_capture, in_range, initial_cell, initial_grid, lemma_cell_le_total, lemma_grid_total_bound, lemma_set_cell_total, move_outcome, row_total, set_cell,
};
use crate::types::{BoardPieces, Piece, Player, Position, Side, BOARD_SIZE};
use crate::wire::{RegisterRoomEvent, RoomEvent};

verus! {

broadcast use vstd::array::group_array_axioms;

/// Accepts a square on the board and refuses any other.
pub fn check_position(position: Position) -> (r: Result<Position, BoardOperationError>)
    ensures
        in_range(position) ==> r == Ok::<Position, BoardOperationError>(position),
        !in_range(position) ==> r == Err::<Position, BoardOperationError>(
            BoardOperationError::InvalidPosition,
        ),
{
    let (x, y) = position;
    if x >= BOARD_SIZE || y >= BOARD_SIZE {
        return Err(BoardOperationError::InvalidPosition);
    }
    Ok(position)
}

pub struct Board {
    config: BoardConfig,
    room_queue: Sender<RegisterRoomEvent>,
    players: Vec<(u128, Player)>,
    pieces: BoardPieces,
    current_turn: Side,
}

impl Board {
    /// The seats, in the order they were taken.
    pub closed spec fn roster(&self) -> Roster {
        self.players@
    }

    pub closed spec fn grid(&self) -> Grid {
        grid_of(self.pieces)
    }

    /// The side to move.
    pub closed spec fn turn(&self) -> Side {
        self.current_turn
    }

    pub closed spec fn config(&self) -> BoardConfig {
        self.config
    }

    /// Every event handed to the room's stream, oldest first.
    pub closed spec fn events(&self) -> Seq<RegisterRoomEvent> {
        sent_events(self.room_queue)
    }

    /// The channel this board's events go out on.
    pub closed spec fn channel(&self) -> int {
        sender_channel(self.room_queue)
    }

    /// The board's invariant: seats are unique and within the limit, and each
    /// side's strengths sum to at most what a piece can hold.
    pub closed spec fn wf(&self) -> bool {
        &&& ids_unique(self.players@)
        &&& seat_count(self.players@, Side::A) <= self.config.team_player_limit
        &&& seat_count(self.players@, Side::B) <= self.config.team_player_limit
        &&& grid_total(grid_of(self.pieces), Side::A) <= 255
        &&& grid_total(grid_of(self.pieces), Side::B) <= 255
    }

    /// A board in the starting layout, with no seats taken and the
    /// configured side to move; its events go to `room_queue`.
    pub fn new(config: BoardConfig, room_queue: Sender<RegisterRoomEvent>) -> (r: Self)
        ensures
            r.wf(),
            r.channel() == sender_channel(room_queue),
            r.grid() == initial_grid(),
            pieces_of(r.grid(), Side::A) == 12,
            pieces_of(r.grid(), Side::B) == 12,
            r.turn() == config.first_side,
            r.config() == config,
            r.roster() == Seq::<(u128, Player)>::empty(),
            r.events() == sent_events(room_queue),
    {
        proof {
            lemma_initial_piece_counts();
        }
        let mut pieces: BoardPieces = [[None;BOARD_SIZE];BOARD_SIZE];
        let mut y: usize = 0;
        while y < BOARD_SIZE
            invariant
                y <= BOARD_SIZE,
                forall|k: int|
                    0 <= k < y ==> #[trigger] pieces[k]@ == Seq::new(
                        BOARD_SIZE as nat,
                        |x: int| initial_cell(x, k),
                    ),
            decreases BOARD_SIZE - y,
        {
            let mut row: [Option<Piece>; BOARD_SIZE] = [None;BOARD_SIZE];
            let mut x: usize = 0;
            while x < BOARD_SIZE
                invariant
                    x <= BOARD_SIZE,
                    y < BOARD_SIZE,
                    forall|j: int| 0 <= j < x ==> #[trigger] row[j] == initial_cell(j, y as int),
                decreases BOARD_SIZE - x,
            {
                let cell: Option<Piece> = if (x + y) % 2 == 1 && y < 3 {
                    Some(Piece { side: Side::B, number: INITIAL_NUMBER })
                } else if (x + y) % 2 == 1 && y >= BOARD_SIZE - 3 {
                    Some(Piece { side: Side::A, number: INITIAL_NUMBER })
                } else {
                    None
                };
                row[x] = cell;
                x = x + 1;
            }
            assert(row@ =~= Seq::new(BOARD_SIZE as nat, |x: int| initial_cell(x, y as int)));
            pieces[y] = row;
            y = y + 1;
        }
        assert(grid_of(pieces) =~= initial_grid());
        proof {
            let g = initial_grid();
            lemma_grid_total_bound(g, Side::A, 3);
            lemma_grid_total_bound(g, Side::B, 3);
        }
        Board {
            current_turn: config.first_side,
            config,
            room_queue,
            players: Vec::new(),
            pieces,
        }
    }

    /// A board with the given layout and side to move and no seats taken, or
    /// `None` where a side's strengths sum to more than a piece can hold.
    pub fn from_layout(
        config: BoardConfig,
        room_queue: Sender<RegisterRoomEvent>,
        pieces: BoardPieces,
        current_turn: Side,
    ) -> (r: Option<Self>)
        ensures
            r is Some <==> grid_total(grid_of(pieces), Side::A) <= 255 && grid_total(
                grid_of(pieces),
                Side::B,
            ) <= 255,
            r is Some ==> {
                let b = r->0;
                &&& b.wf()
                &&& b.grid() == grid_of(pieces)
                &&& b.turn() == current_turn
                &&& b.config() == config
                &&& b.roster() == Seq::<(u128, Player)>::empty()
                &&& b.channel() == sender_channel(room_queue)
                &&& b.events() == sent_events(room_queue)
            },
    {
        if side_total(&pieces, Side::A) > 255 || side_total(&pieces, Side::B) > 255 {
            return None;
        }
        Some(
            Board {
                config,
                room_queue,
                players: Vec::new(),
                pieces,
                current_turn,
            },
        )
    }

    /// A receiver of the events this board emits from now on.
    pub fn subscribe_queue(&self) -> (r: Receiver<RegisterRoomEvent>)
        ensures
            receiver_channel(r) == self.channel(),
    {
        subscribe_events(&self.room_queue)
    }

    fn send_to_queue(&mut self, public_id: u128, event: RoomEvent)
        ensures
            final(self).events() == old(self).events().push(
                RegisterRoomEvent { public_id, event },
            ),
            final(self).players == old(self).players,
            final(self).pieces == old(self).pieces,
            final(self).current_turn == old(self).current_turn,
            final(self).config == old(self).config,
            final(self).channel() == old(self).channel(),
    {
        broadcast_event(&mut self.room_queue, RegisterRoomEvent { public_id, event });
    }

    /// Index of the seat of `private_id`.
    fn find_player(&self, private_id: u128) -> (r: Option<usize>)
        requires
            ids_unique(self.roster()),
        ensures
            r is None <==> !has_id(self.roster(), private_id),
            r is Some ==> r->0 == slot_of(self.roster(), private_id) && r->0 < self.roster().len(),
    {
        let mut i: usize = 0;
        while i < self.players.len()
            invariant
                i <= self.players@.len(),
                ids_unique(self.players@),
                forall|k: int| 0 <= k < i ==> (#[trigger] self.players@[k]).0 != private_id,
            decreases self.players@.len() - i,
        {
            if self.players[i].0 == private_id {
                proof {
                    lemma_slot_of(self.players@, i as int);
                }
                return Some(i);
            }
            i = i + 1;
        }
        None
    }

    /// Seats taken by `side`.
    fn count_seats(&self, side: Side) -> (r: usize)
        ensures
            r == seat_count(self.roster(), side),
    {
        let mut n: usize = 0;
        let mut i: usize = 0;
        while i < self.players.len()
            invariant
                i <= self.players@.len(),
                n == seat_count(self.players@.take(i as int), side),
                n <= i,
            decreases self.players@.len() - i,
        {
            proof {
                assert(self.players@.take(i + 1).drop_last() =~= self.players@.take(i as int));
            }
            if self.players[i].1.side == side {
                n = n + 1;
            }
            i = i + 1;
        }
        assert(self.players@.take(i as int) =~= self.players@);
        n
    }

    /// The id that is `k` steps after `start`, counting on from the largest
    /// id to zero.
    pub open spec fn id_after(start: u128, k: int) -> u128 {
        if start + k <= u128::MAX {
            (start + k) as u128
        } else {
            (start + k - u128::MAX - 1) as u128
        }
    }

    /// A private id that holds no seat and differs from `public_id`: the
    /// random `drawn` where it is free, else the first free id after it.
    fn fresh_private_id(&self, drawn: u128, public_id: u128) -> (r: u128)
        requires
            ids_unique(self.roster()),
        ensures
            !has_id(self.roster(), r),
            r != public_id,
    {
        let ghost ids = ids_of(self.players@).push(public_id);
        let seated = self.players.len();
        let ghost len = seated as nat;
        let mut candidate = drawn;
        let ghost mut k: int = 0;
        let ghost mut tried: Seq<u128> = Seq::empty();
        while candidate == public_id || self.find_player(candidate).is_some()
            invariant
                ids_unique(self.players@),
                ids == ids_of(self.players@).push(public_id),
                len == self.players@.len(),
                len <= usize::MAX,
                0 <= k <= len + 1,
                tried.len() == k,
                tried.no_duplicates(),
                candidate == Self::id_after(drawn, k),
                forall|j: int| 0 <= j < k ==> #[trigger] tried[j] == Self::id_after(drawn, j),
                forall|j: int| 0 <= j < k ==> ids.contains(#[trigger] tried[j]),
            decreases len + 1 - k,
        {
            proof {
                if candidate == public_id {
                    assert(ids[len as int] == candidate);
                } else {
                    let i = slot_of(self.players@, candidate);
                    assert(ids[i] == candidate);
                }
                assert(ids.contains(candidate));
                let next = tried.push(candidate);
                assert forall|a: int, b: int|
                    0 <= a < next.len() && 0 <= b < next.len() && a != b implies next[a]
                    != next[b] by {
                    assert(next[a] == Self::id_after(drawn, a));
                    assert(next[b] == Self::id_after(drawn, b));
                }
                assert forall|j: int| 0 <= j < next.len() implies ids.contains(#[trigger] next[j]) by {
                    if j < k {
                        assert(next[j] == tried[j]);
                    }
                }
                lemma_distinct_within(next, ids);
                tried = next;
            }
            candidate = if candidate == u128::MAX {
                0
            } else {
                candidate + 1
            };
            proof {
                k = k + 1;
            }
        }
        candidate
    }

    /// Gives `name` a seat on `side` unless that side is full, and
    /// announces it. Returns the new seat's private and public ids: the
    /// private id held no seat before and differs from the public one.
    pub fn create_player(&mut self, side: Side, name: String) -> (r: Option<(u128, u128)>)
        requires
            old(self).wf(),
        ensures
            final(self).wf(),
            final(self).grid() == old(self).grid(),
            final(self).turn() == old(self).turn(),
            final(self).config() == old(self).config(),
            final(self).channel() == old(self).channel(),
            seat_count(old(self).roster(), side) >= old(self).config().team_player_limit ==> r
                is None && *final(self) == *old(self),
            seat_count(old(self).roster(), side) < old(self).config().team_player_limit ==> r
                is Some && ({
                let (private_id, public_id) = r->0;
                let p = final(self).roster().last().1;
                &&& private_id != public_id
                &&& !has_id(old(self).roster(), private_id)
                &&& p.public_id == public_id
                &&& p.side == side
                &&& p.name@ == name@
                &&& final(self).roster() == old(self).roster().push((private_id, p))
                &&& final(self).events() == old(self).events().push(
                    RegisterRoomEvent { public_id, event: RoomEvent::PlayerJoin(side, name) },
                )
            }),
    {
        if self.count_seats(side) >= self.config.team_player_limit {
            return None;
        }
        let public_id = random_uuid();
        let private_id = self.fresh_private_id(random_uuid(), public_id);
        let ghost before = self.players@;
        let player = Player { public_id, name: name.clone(), side };
        let ghost p = player;
        self.players.push((private_id, player));
        proof {
            lemma_push_fresh(before, private_id, p, Side::A);
            lemma_push_fresh(before, private_id, p, Side::B);
        }
        self.send_to_queue(public_id, RoomEvent::PlayerJoin(side, name));
        Some((private_id, public_id))
    }

    /// Frees the seat of `private_id`, announcing it, and returns its public
    /// id; returns `None` and changes nothing if it holds no seat.
    pub fn remove_player(&mut self, private_id: u128) -> (r: Option<u128>)
        requires
            old(self).wf(),
        ensures
            final(self).wf(),
            final(self).grid() == old(self).grid(),
            final(self).turn() == old(self).turn(),
            final(self).config() == old(self).config(),
            final(self).channel() == old(self).channel(),
            final(self).roster() == left(old(self).roster(), private_id),
            !has_id(final(self).roster(), private_id),
            has_id(old(self).roster(), private_id) ==> ({
                let public_id = player_of(old(self).roster(), private_id).public_id;
                &&& r == Some(public_id)
                &&& final(self).events() == old(self).events().push(
                    RegisterRoomEvent { public_id, event: RoomEvent::PlayerLeave },
                )
            }),
            !has_id(old(self).roster(), private_id) ==> r is None && *final(self) == *old(self),
    {
        match self.find_player(private_id) {
            Some(i) => {
                let ghost before = self.players@;
                let removed = self.players.remove(i);
                let public_id = removed.1.public_id;
                proof {
                    lemma_left(before, private_id, Side::A);
                    lemma_left(before, private_id, Side::B);
                }
                self.send_to_queue(public_id, RoomEvent::PlayerLeave);
                Some(public_id)
            },
            None => None,
        }
    }

    /// Every board's grid has eight rows of eight squares.
    pub proof fn lemma_grid_shape(&self)
        ensures
            is_board_grid(self.grid()),
    {
    }

    /// What the invariant promises of the seats: private ids are unique and
    /// no side has more seats than the limit.
    pub proof fn lemma_wf_roster(&self)
        requires
            self.wf(),
        ensures
            ids_unique(self.roster()),
            seat_count(self.roster(), Side::A) <= self.config().team_player_limit,
            seat_count(self.roster(), Side::B) <= self.config().team_player_limit,
    {
    }

    /// Whether `private_id` holds a seat.
    pub fn contains_player(&self, private_id: u128) -> (r: bool)
        requires
            self.wf(),
        ensures
            r == has_id(self.roster(), private_id),
    {
        self.find_player(private_id).is_some()
    }

    /// The players in their seats, in the order the seats were taken.
    pub fn get_players(&self) -> (r: Vec<&Player>)
        ensures
            r@.len() == self.roster().len(),
            forall|i: int| 0 <= i < r@.len() ==> *r@[i] == (#[trigger] self.roster()[i]).1,
    {
        let mut v: Vec<&Player> = Vec::new();
        let mut i: usize = 0;
        while i < self.players.len()
            invariant
                i <= self.players@.len(),
                v@.len() == i,
                forall|k: int| 0 <= k < i ==> *v@[k] == (#[trigger] self.players@[k]).1,
            decreases self.players@.len() - i,
        {
            v.push(&self.players[i].1);
            i = i + 1;
        }
        v
    }

    pub fn get_pieces(&self) -> (r: &BoardPieces)
        ensures
            grid_of(*r) == self.grid(),
    {
        &self.pieces
    }

    pub fn get_current_turn(&self) -> (r: Side)
        ensures
            r == self.turn(),
    {
        self.current_turn
    }

    /// Hands the move to the other side.
    pub fn toggle_turn(&mut self)
        ensures
            final(self).turn() == old(self).turn().opposite(),
            final(self).wf() == old(self).wf(),
            final(self).grid() == old(self).grid(),
            final(self).roster() == old(self).roster(),
            final(self).config() == old(self).config(),
            final(self).channel() == old(self).channel(),
            final(self).events() == old(self).events(),
    {
        self.current_turn = self.current_turn.reverse();
    }

    fn set_piece(&mut self, x: usize, y: usize, v: Option<Piece>)
        requires
            x < BOARD_SIZE,
            y < BOARD_SIZE,
        ensures
            grid_of(final(self).pieces) == set_cell(grid_of(old(self).pieces), x as int, y as int, v),
            final(self).players == old(self).players,
            final(self).current_turn == old(self).current_turn,
            final(self).config == old(self).config,
            final(self).room_queue == old(self).room_queue,
    {
        let mut row = self.pieces[y];
        row[x] = v;
        self.pieces[y] = row;
        assert(grid_of(self.pieces) =~= set_cell(grid_of(old(self).pieces), x as int, y as int, v));
    }
}

/// The summed strength of `side`'s pieces on `pieces`.
fn side_total(pieces: &BoardPieces, side: Side) -> (r: u32)
    ensures
        r == grid_total(grid_of(*pieces), side),
{
    let ghost g = grid_of(*pieces);
    let mut sum: u32 = 0;
    let mut y: usize = 0;
    while y < BOARD_SIZE
        invariant
            y <= BOARD_SIZE,
            g == grid_of(*pieces),
            sum == grid_total(g.take(y as int), side),
            sum <= 2040 * y,
        decreases BOARD_SIZE - y,
    {
        let ghost row = g[y as int];
        let mut row_sum: u32 = 0;
        let mut x: usize = 0;
        while x < BOARD_SIZE
            invariant
                x <= BOARD_SIZE,
                y < BOARD_SIZE,
                g == grid_of(*pieces),
                row == g[y as int],
                row_sum == row_total(row.take(x as int), side),
                row_sum <= 255 * x,
            decreases BOARD_SIZE - x,
        {
            proof {
                assert(row.take(x + 1).drop_last() =~= row.take(x as int));
            }
            match pieces[y][x] {
                Some(p) => {
                    if p.side == side {
                        row_sum = row_sum + p.number as u32;
                    }
                },
                None => {},
            }
            x = x + 1;
        }
        assert(x == BOARD_SIZE);
        assert(row_sum <= 2040);
        assert(sum <= 2040 * y);
        proof {
            assert(row.take(BOARD_SIZE as int) =~= row);
            assert(g.take(y + 1).drop_last() =~= g.take(y as int));
            assert(g.take(y + 1).last() == row);
        }
        sum = sum + row_sum;
        y = y + 1;
    }
    assert(g.take(BOARD_SIZE as int) =~= g);
    sum
}

/// Whether `target` holds an enemy of `side` weaker than `number`.
fn beats(target: Option<Piece>, side: Side, number: u8) -> (r: bool)
    ensures
        r == capturable(target, side, number),
{
    match target {
        Some(p) => p.side != side && number > p.number,
        None => false,
    }
}

impl Board {
    /// Whether the piece of `side` at `(x, y)` has a capture.
    fn can_capture_at(&self, side: Side, x: usize, y: usize) -> (r: bool)
        requires
            x < BOARD_SIZE,
            y < BOARD_SIZE,
        ensures
            r == can_capture_from(self.grid(), side, x as int, y as int),
    {
        let g = Ghost(self.grid());
        let (xi, yi) = (Ghost(x as int), Ghost(y as int));
        let number = match self.pieces[y][x] {
            Some(p) => {
                if p.side != side {
                    return false;
                }
                p.number
            },
            None => {
                return false;
            },
        };
        let left_up = x >= 2 && y >= 2 && beats(self.pieces[y - 1][x - 1], side, number)
            && self.pieces[y - 2][x - 2].is_none();
        let left_down = x >= 2 && y <= BOARD_SIZE - 3 && beats(self.pieces[y + 1][x - 1], side, number)
            && self.pieces[y + 2][x - 2].is_none();
        let right_up = x <= BOARD_SIZE - 3 && y >= 2 && beats(self.pieces[y - 1][x + 1], side, number)
            && self.pieces[y - 2][x + 2].is_none();
        let right_down = x <= BOARD_SIZE - 3 && y <= BOARD_SIZE - 3 && beats(
            self.pieces[y + 1][x + 1],
            side,
            number,
        ) && self.pieces[y + 2][x + 2].is_none();
        assert(left_up == capture_towards(g@, side, xi@, yi@, -1, -1));
        assert(left_down == capture_towards(g@, side, xi@, yi@, -1, 1));
        assert(right_up == capture_towards(g@, side, xi@, yi@, 1, -1));
        assert(right_down == capture_towards(g@, side, xi@, yi@, 1, 1));
        left_up || left_down || right_up || right_down
    }

    /// The squares, row by row, whose piece of `side` has a capture.
    fn get_movable_pieces(&self, side: Side) -> (r: Vec<Position>)
        ensures
            forall|i: int, j: int|
                0 <= i < j < r@.len() ==> row_major_before(#[trigger] r@[i], #[trigger] r@[j]),
            r@.no_duplicates(),
            forall|p: Position|
                #[trigger] r@.contains(p) <==> in_range(p) && can_capture_from(
                    self.grid(),
                    side,
                    p.0 as int,
                    p.1 as int,
                ),
    {
        let mut movable_pieces: Vec<Position> = Vec::new();
        let mut y: usize = 0;
        while y < BOARD_SIZE
            invariant
                y <= BOARD_SIZE,
                forall|i: int, j: int|
                    0 <= i < j < movable_pieces@.len() ==> row_major_before(
                        #[trigger] movable_pieces@[i],
                        #[trigger] movable_pieces@[j],
                    ),
                forall|i: int| 0 <= i < movable_pieces@.len() ==> (#[trigger] movable_pieces@[i]).1 < y,
                forall|p: Position|
                    #[trigger] movable_pieces@.contains(p) <==> in_range(p) && p.1 < y
                        && can_capture_from(self.grid(), side, p.0 as int, p.1 as int),
            decreases BOARD_SIZE - y,
        {
            let mut x: usize = 0;
            while x < BOARD_SIZE
                invariant
                    x <= BOARD_SIZE,
                    y < BOARD_SIZE,
                    forall|i: int, j: int|
                        0 <= i < j < movable_pieces@.len() ==> row_major_before(
                            #[trigger] movable_pieces@[i],
                            #[trigger] movable_pieces@[j],
                        ),
                    forall|i: int|
                        0 <= i < movable_pieces@.len() ==> row_major_before(
                            #[trigger] movable_pieces@[i],
                            (x, y),
                        ),
                    forall|i: int| 0 <= i < movable_pieces@.len() ==> (#[trigger] movable_pieces@[i]).1 <= y,
                    forall|p: Position|
                        #[trigger] movable_pieces@.contains(p) <==> in_range(p) && (p.1 < y || (
                        p.1 == y && p.0 < x)) && can_capture_from(
                            self.grid(),
                            side,
                            p.0 as int,
                            p.1 as int,
                        ),
                decreases BOARD_SIZE - x,
            {
                if self.can_capture_at(side, x, y) {
                    let ghost before = movable_pieces@;
                    movable_pieces.push((x, y));
                    proof {
                        assert forall|p: Position|
                            #[trigger] movable_pieces@.contains(p) <==> before.contains(p) || p == (
                            x,
                            y,
                        ) by {
                            if p == (x, y) {
                                assert(movable_pieces@[before.len() as int] == p);
                            }
                            if before.contains(p) {
                                let k = choose|k: int| 0 <= k < before.len() && before[k] == p;
                                assert(movable_pieces@[k] == p);
                            }
                            if movable_pieces@.contains(p) && p != (x, y) {
                                let k = choose|k: int|
                                    0 <= k < movable_pieces@.len() && movable_pieces@[k] == p;
                                assert(before[k] == p);
                            }
                        }
                    }
                }
                x = x + 1;
            }
            y = y + 1;
        }
        assert forall|i: int, j: int|
            0 <= i < movable_pieces@.len() && 0 <= j < movable_pieces@.len() && i != j implies movable_pieces@[i]
            != movable_pieces@[j] by {
            if i < j {
                assert(row_major_before(movable_pieces@[i], movable_pieces@[j]));
            } else {
                assert(row_major_before(movable_pieces@[j], movable_pieces@[i]));
            }
        }
        movable_pieces
    }

    /// Whether `side` has a capture anywhere on the board.
    fn any_capture(&self, side: Side) -> (r: bool)
        ensures
            r == has_capture(self.grid(), side),
    {
        let movable = self.get_movable_pieces(side);
        proof {
            if movable@.len() > 0 {
                assert(movable@.contains(movable@[0]));
                let p = movable@[0];
                assert(can_capture_from(self.grid(), side, p.0 as int, p.1 as int));
            }
            if has_capture(self.grid(), side) {
                let (x, y) = choose|x: int, y: int| #[trigger]
                    can_capture_from(self.grid(), side, x, y);
                let p: Position = (x as usize, y as usize);
                assert(movable@.contains(p));
            }
        }
        movable.len() != 0
    }

    /// Moves a piece for the player holding `private_id`, as the movement
    /// rules say (see `move_outcome`), and announces the move with whether
    /// the turn passed. A refused move changes nothing and announces nothing.
    #[verifier::rlimit(40)]
    pub fn move_piece(&mut self, private_id: u128, old_position: Position, new_position: Position) -> (r:
        Result<(), BoardOperationError>)
        requires
            old(self).wf(),
            has_id(old(self).roster(), private_id),
        ensures
            final(self).wf(),
            final(self).roster() == old(self).roster(),
            final(self).config() == old(self).config(),
            final(self).channel() == old(self).channel(),
            ({
                let player = player_of(old(self).roster(), private_id);
                match move_outcome(
                    old(self).grid(),
                    old(self).turn(),
                    player.side,
                    old_position,
                    new_position,
                ) {
                    Err(e) => r == Err::<(), BoardOperationError>(e) && *final(self) == *old(self),
                    Ok((g, toggled)) => {
                        &&& r is Ok
                        &&& final(self).grid() == g
                        &&& final(self).turn() == if toggled {
                            old(self).turn().opposite()
                        } else {
                            old(self).turn()
                        }
                        &&& final(self).events() == old(self).events().push(
                            RegisterRoomEvent {
                                public_id: player.public_id,
                                event: RoomEvent::MovePiece(toggled, (old_position, new_position)),
                            },
                        )
                    },
                }
            }),
    {
        let ghost g0 = self.grid();
        let (old_x, old_y) = match check_position(old_position) {
            Ok(p) => p,
            Err(e) => {
                return Err(e);
            },
        };
        let (new_x, new_y) = match check_position(new_position) {
            Ok(p) => p,
            Err(e) => {
                return Err(e);
            },
        };
        let idx = match self.find_player(private_id) {
            Some(i) => i,
            None => {
                return Err(BoardOperationError::InvalidTurn);
            },
        };
        let player_side = self.players[idx].1.side;
        let public_id = self.players[idx].1.public_id;
        if player_side != self.current_turn {
            return Err(BoardOperationError::InvalidTurn);
        }
        let moving_piece_number = match self.pieces[old_y][old_x] {
            Some(piece) => {
                if piece.side != player_side {
                    return Err(BoardOperationError::InvalidPiece);
                }
                piece.number
            },
            None => {
                return Err(BoardOperationError::InvalidPiece);
            },
        };
        let destination_piece = self.pieces[new_y][new_x];
        let x_diff = if old_x < new_x {
            new_x - old_x
        } else {
            old_x - new_x
        };
        let y_diff = if old_y < new_y {
            new_y - old_y
        } else {
            old_y - new_y
        };
        let toggled: bool;
        if x_diff == 2 && y_diff == 2 {
            if destination_piece.is_some() {
                return Err(BoardOperationError::InvalidMove);
            }
            let between_x = if old_x < new_x {
                old_x + 1
            } else {
                old_x - 1
            };
            let between_y = if old_y < new_y {
                old_y + 1
            } else {
                old_y - 1
            };
            let between_piece = self.pieces[between_y][between_x];
            if !beats(between_piece, player_side, moving_piece_number) {
                return Err(BoardOperationError::InvalidMove);
            }
            let landed = Piece {
                side: player_side,
                number: ((moving_piece_number as u16) * 2 / 3) as u8,
            };
            self.set_piece(new_x, new_y, Some(landed));
            let ghost g1 = self.grid();
            self.set_piece(between_x, between_y, None);
            let ghost g2 = self.grid();
            self.set_piece(old_x, old_y, None);
            proof {
                let (fx, fy, tx, ty) = (old_x as int, old_y as int, new_x as int, new_y as int);
                let (mx, my) = (between_x as int, between_y as int);
                assert(g1 == set_cell(g0, tx, ty, Some(landed)));
                assert(cell(g1, mx, my) == cell(g0, mx, my));
                assert(cell(g2, fx, fy) == cell(g0, fx, fy));
                lemma_set_cell_total(g0, tx, ty, Some(landed), Side::A);
                lemma_set_cell_total(g1, mx, my, None, Side::A);
                lemma_set_cell_total(g2, fx, fy, None, Side::A);
                lemma_set_cell_total(g0, tx, ty, Some(landed), Side::B);
                lemma_set_cell_total(g1, mx, my, None, Side::B);
                lemma_set_cell_total(g2, fx, fy, None, Side::B);
            }
            toggled = !self.any_capture(player_side);
            if toggled {
                self.toggle_turn();
            }
        } else if x_diff == 1 && y_diff == 1 {
            if self.any_capture(player_side) {
                return Err(BoardOperationError::InvalidMove);
            }
            match destination_piece {
                Some(piece) => {
                    if !(piece.side == player_side && moving_piece_number >= 2) {
                        return Err(BoardOperationError::InvalidMove);
                    }
                    let share = moving_piece_number / 2 + moving_piece_number % 2;
                    proof {
                        let (fx, fy, tx, ty) = (old_x as int, old_y as int, new_x as int, new_y as int);
                        let h = set_cell(g0, fx, fy, None);
                        lemma_set_cell_total(g0, fx, fy, None, player_side);
                        assert(cell(h, tx, ty) == cell(g0, tx, ty));
                        lemma_cell_le_total(h, tx, ty, player_side);
                    }
                    let merged = Piece { side: player_side, number: piece.number + share };
                    let kept = Piece { side: player_side, number: moving_piece_number / 2 };
                    self.set_piece(new_x, new_y, Some(merged));
                    let ghost g1 = self.grid();
                    self.set_piece(old_x, old_y, Some(kept));
                    proof {
                        let (fx, fy, tx, ty) = (old_x as int, old_y as int, new_x as int, new_y as int);
                        assert(cell(g1, fx, fy) == cell(g0, fx, fy));
                        lemma_set_cell_total(g0, tx, ty, Some(merged), Side::A);
                        lemma_set_cell_total(g1, fx, fy, Some(kept), Side::A);
                        lemma_set_cell_total(g0, tx, ty, Some(merged), Side::B);
                        lemma_set_cell_total(g1, fx, fy, Some(kept), Side::B);
                    }
                },
                None => {
                    let moving = self.pieces[old_y][old_x];
                    self.set_piece(new_x, new_y, moving);
                    let ghost g1 = self.grid();
                    self.set_piece(old_x, old_y, None);
                    proof {
                        let (fx, fy, tx, ty) = (old_x as int, old_y as int, new_x as int, new_y as int);
                        assert(cell(g1, fx, fy) == cell(g0, fx, fy));
                        lemma_set_cell_total(g0, tx, ty, moving, Side::A);
                        lemma_set_cell_total(g1, fx, fy, None, Side::A);
                        lemma_set_cell_total(g0, tx, ty, moving, Side::B);
                        lemma_set_cell_total(g1, fx, fy, None, Side::B);
                    }
                },
            }
            self.toggle_turn();
            toggled = true;
        } else {
            return Err(BoardOperationError::InvalidMove);
        }
        self.send_to_queue(public_id, RoomEvent::MovePiece(toggled, (old_position, new_position)));
        Ok(())
    }
}

} // verus!
