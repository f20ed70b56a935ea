//! The room registry: every room of the process by id, and scoped access to
//! one of them.

use vstd::prelude::*;

use crate::board_config::BoardConfig;
use crate::room_id::RoomId;
use crate::rules::initial_grid;
use crate::session::GameSession;
use crate::types::Player;
use crate::wire::{RegisterRoomEvent, RoomList, RoomSummary};

verus! {

/// Whether `rooms` has a room under `id`.
pub open spec fn has_room(rooms: Seq<(RoomId, GameSession)>, id: RoomId) -> bool {
    exists|i: int| 0 <= i < rooms.len() && (#[trigger] rooms[i]).0@ == id@
}

pub open spec fn room_slot(rooms: Seq<(RoomId, GameSession)>, id: RoomId) -> int {
    choose|i: int| 0 <= i < rooms.len() && (#[trigger] rooms[i]).0@ == id@
}

/// All rooms, in the order they were made. No room is ever removed.
pub struct GameSessionMap {
    rooms: Vec<(RoomId, GameSession)>,
}

impl GameSessionMap {
    pub closed spec fn rooms(&self) -> Seq<(RoomId, GameSession)> {
        self.rooms@
    }

    pub open spec fn contains(&self, id: RoomId) -> bool {
        has_room(self.rooms(), id)
    }

    /// The room under `id`.
    pub open spec fn session(&self, id: RoomId) -> GameSession {
        self.rooms()[room_slot(self.rooms(), id)].1
    }

    /// Room ids are unique and every room is well formed.
    pub open spec fn wf(&self) -> bool {
        &&& forall|i: int, j: int|
            0 <= i < self.rooms().len() && 0 <= j < self.rooms().len() && (#[trigger] self.rooms()[i]).0@
                == (#[trigger] self.rooms()[j]).0@ ==> i == j
        &&& forall|i: int| 0 <= i < self.rooms().len() ==> (#[trigger] self.rooms()[i]).1.wf()
    }

    pub fn new() -> (r: Self)
        ensures
            r.wf(),
            r.rooms() == Seq::<(RoomId, GameSession)>::empty(),
    {
        GameSessionMap { rooms: Vec::new() }
    }

    fn find(&self, id: RoomId) -> (r: Option<usize>)
        requires
            self.wf(),
        ensures
            r is None <==> !self.contains(id),
            r is Some ==> r->0 == room_slot(self.rooms(), id) && r->0 < self.rooms().len(),
    {
        let mut i: usize = 0;
        while i < self.rooms.len()
            invariant
                i <= self.rooms@.len(),
                self.wf(),
                forall|k: int| 0 <= k < i ==> (#[trigger] self.rooms@[k]).0@ != id@,
            decreases self.rooms@.len() - i,
        {
            if self.rooms[i].0 == id {
                proof {
                    assert(has_room(self.rooms@, id));
                    let j = room_slot(self.rooms@, id);
                    assert(self.rooms@[j].0@ == self.rooms@[i as int].0@);
                }
                return Some(i);
            }
            i = i + 1;
        }
        None
    }

    /// Whether a room exists under `id`.
    pub fn has(&self, id: RoomId) -> (r: bool)
        requires
            self.wf(),
        ensures
            r == self.contains(id),
    {
        self.find(id).is_some()
    }

    /// Makes a room for `config` under `room_id`, replacing a room that
    /// already had that id.
    pub fn create_at(&mut self, room_id: RoomId, config: BoardConfig)
        requires
            old(self).wf(),
        ensures
            final(self).wf(),
            final(self).contains(room_id),
            final(self).session(room_id).board().grid() == initial_grid(),
            final(self).session(room_id).board().turn() == config.first_side,
            final(self).session(room_id).board().config() == config,
            final(self).session(room_id).board().roster() == Seq::<(u128, Player)>::empty(),
            final(self).session(room_id).board().events() == Seq::<RegisterRoomEvent>::empty(),
            forall|id: RoomId| #[trigger] final(self).contains(id) <==> old(self).contains(id) || id@ == room_id@,
            forall|id: RoomId|
                old(self).contains(id) && id@ != room_id@ ==> #[trigger] final(self).session(id) == old(
                    self,
                ).session(id),
    {
        let session = GameSession::new(config);
        let ghost s = session;
        let ghost before = self.rooms@;
        match self.find(room_id) {
            Some(i) => {
                self.rooms.remove(i);
            },
            None => {},
        }
        self.rooms.push((room_id, session));
        proof {
            let after = self.rooms@;
            let n = after.len() - 1;
            assert(after[n] == (room_id, s));
            // Entries other than the new one come from `before`, minus the old room of that id.
            assert forall|k: int| 0 <= k < n implies (#[trigger] after[k]).0@ != room_id@ && exists|
                j: int,
            | 0 <= j < before.len() && before[j] == after[k] by {
                if has_room(before, room_id) {
                    let i = room_slot(before, room_id);
                    let j = if k < i {
                        k
                    } else {
                        k + 1
                    };
                    assert(before[j] == after[k]);
                    if after[k].0@ == room_id@ {
                        assert(before[i].0@ == before[j].0@);
                    }
                } else {
                    assert(before[k] == after[k]);
                }
            }
            assert forall|i: int, j: int|
                0 <= i < after.len() && 0 <= j < after.len() && (#[trigger] after[i]).0@ == (
                #[trigger] after[j]).0@ implies i == j by {
                if i < n && j < n {
                    let a = choose|a: int| 0 <= a < before.len() && before[a] == after[i];
                    let b = choose|b: int| 0 <= b < before.len() && before[b] == after[j];
                    if has_room(before, room_id) {
                        let x = room_slot(before, room_id);
                        let a2 = if i < x { i } else { i + 1 };
                        let b2 = if j < x { j } else { j + 1 };
                        assert(before[a2] == after[i]);
                        assert(before[b2] == after[j]);
                    } else {
                        assert(before[i] == after[i]);
                        assert(before[j] == after[j]);
                    }
                }
            }
            assert forall|i: int| 0 <= i < after.len() implies (#[trigger] after[i]).1.wf() by {
                if i < n {
                    let a = choose|a: int| 0 <= a < before.len() && before[a] == after[i];
                    assert(before[a].1.wf());
                }
            }
            assert(has_room(after, room_id));
            assert(room_slot(after, room_id) == n) by {
                let j = room_slot(after, room_id);
                assert(after[j].0@ == after[n].0@);
            }
            assert forall|id: RoomId| #[trigger] has_room(after, id) <==> has_room(before, id) || id@
                == room_id@ by {
                if has_room(before, id) && id@ != room_id@ {
                    let j = room_slot(before, id);
                    if has_room(before, room_id) {
                        let x = room_slot(before, room_id);
                        let k = if j < x { j } else { j - 1 };
                        assert(after[k] == before[j]);
                    } else {
                        assert(after[j] == before[j]);
                    }
                }
                if has_room(after, id) && id@ != room_id@ {
                    let k = room_slot(after, id);
                    let a = choose|a: int| 0 <= a < before.len() && before[a] == after[k];
                    assert(before[a].0@ == id@);
                }
            }
            assert forall|id: RoomId|
                has_room(before, id) && id@ != room_id@ implies #[trigger] after[room_slot(
                after,
                id,
            )].1 == before[room_slot(before, id)].1 by {
                let j = room_slot(before, id);
                let k = if has_room(before, room_id) && j > room_slot(before, room_id) {
                    j - 1
                } else {
                    j
                };
                assert(after[k] == before[j]);
                assert(has_room(after, id));
                let k2 = room_slot(after, id);
                assert(after[k2].0@ == after[k].0@);
            }
        }
    }

    /// Makes a room for `config` under a fresh random id and returns the id.
    /// A room that already had that id is replaced.
    pub fn create(&mut self, config: BoardConfig) -> (r: RoomId)
        requires
            old(self).wf(),
        ensures
            final(self).wf(),
            final(self).contains(r),
            final(self).session(r).board().grid() == initial_grid(),
            final(self).session(r).board().turn() == config.first_side,
            final(self).session(r).board().config() == config,
            final(self).session(r).board().roster() == Seq::<(u128, Player)>::empty(),
            final(self).session(r).board().events() == Seq::<RegisterRoomEvent>::empty(),
            forall|id: RoomId| #[trigger] final(self).contains(id) <==> old(self).contains(id) || id@ == r@,
            forall|id: RoomId|
                old(self).contains(id) && id@ != r@ ==> #[trigger] final(self).session(id) == old(
                    self,
                ).session(id),
    {
        let room_id = RoomId::new();
        self.create_at(room_id, config);
        room_id
    }

    /// Every room with the names of the players in its seats.
    pub fn room_list(&self) -> (r: RoomList)
        requires
            self.wf(),
        ensures
            r.0@.len() == self.rooms().len(),
            forall|i: int|
                0 <= i < r.0@.len() ==> {
                    let roster = self.rooms()[i].1.board().roster();
                    &&& (#[trigger] r.0@[i]).id == self.rooms()[i].0
                    &&& r.0@[i].players@.len() == roster.len()
                    &&& forall|j: int|
                        0 <= j < roster.len() ==> (#[trigger] r.0@[i].players@[j])@ == roster[j].1.name@
                },
    {
        let mut out: Vec<RoomSummary> = Vec::new();
        let mut i: usize = 0;
        while i < self.rooms.len()
            invariant
                i <= self.rooms@.len(),
                out@.len() == i,
                forall|k: int|
                    0 <= k < i ==> {
                        let roster = self.rooms@[k].1.board().roster();
                        &&& (#[trigger] out@[k]).id == self.rooms@[k].0
                        &&& out@[k].players@.len() == roster.len()
                        &&& forall|j: int|
                            0 <= j < roster.len() ==> (#[trigger] out@[k].players@[j])@
                                == roster[j].1.name@
                    },
            decreases self.rooms@.len() - i,
        {
            let players = self.rooms[i].1.get_board().get_players();
            let mut names: Vec<String> = Vec::new();
            let mut j: usize = 0;
            while j < players.len()
                invariant
                    j <= players@.len(),
                    names@.len() == j,
                    forall|m: int| 0 <= m < j ==> (#[trigger] names@[m])@ == players@[m].name@,
                decreases players@.len() - j,
            {
                names.push(players[j].name.clone());
                j = j + 1;
            }
            out.push(RoomSummary { id: self.rooms[i].0, players: names });
            i = i + 1;
        }
        RoomList(out)
    }

    /// The room under `id`.
    pub fn get(&self, id: RoomId) -> (r: &GameSession)
        requires
            self.wf(),
            self.contains(id),
        ensures
            *r == self.session(id),
    {
        match self.find(id) {
            Some(i) => &self.rooms[i].1,
            None => {
                proof {
                    assert(false);
                }
                &self.rooms[0].1
            },
        }
    }

    /// The room under `id`, for changing it.
    pub fn get_mut(&mut self, id: RoomId) -> (r: &mut GameSession)
        requires
            old(self).wf(),
            old(self).contains(id),
        ensures
            *r == old(self).session(id),
            final(self).rooms() == old(self).rooms().update(
                room_slot(old(self).rooms(), id),
                (old(self).rooms()[room_slot(old(self).rooms(), id)].0, *final(r)),
            ),
    {
        let i = match self.find(id) {
            Some(i) => i,
            None => 0,
        };
        &mut self.rooms[i].1
    }
}

/// A room id that has passed the existence check; the room's session is
/// reached through it, one operation at a time.
pub struct GameSessionLock {
    room_id: RoomId,
}

impl GameSessionLock {
    pub closed spec fn id(&self) -> RoomId {
        self.room_id
    }

    pub fn new(room_id: RoomId) -> (r: Self)
        ensures
            r.id() == room_id,
    {
        GameSessionLock { room_id }
    }

    /// Runs `f` on the room, read-only.
    pub fn with_read<F, T>(&self, map: &GameSessionMap, f: F) -> (r: T) where
        F: FnOnce(&GameSession) -> T,

        requires
            map.wf(),
            map.contains(self.id()),
            f.requires((&map.session(self.id()),)),
        ensures
            f.ensures((&map.session(self.id()),), r),
    {
        f(map.get(self.room_id))
    }

    /// Runs `f` on the room with the right to change it.
    pub fn with_write<F, T>(&self, map: &mut GameSessionMap, f: F) -> (r: T) where
        F: FnOnce(&mut GameSession) -> T,

        requires
            old(map).wf(),
            old(map).contains(self.id()),
            forall|s: &mut GameSession| *s == old(map).session(self.id()) ==> f.requires((s,)),
        ensures
            exists|s: &mut GameSession|
                *s == old(map).session(self.id()) && f.ensures((s,), r) && final(map).rooms()
                    == old(map).rooms().update(
                    room_slot(old(map).rooms(), self.id()),
                    (old(map).rooms()[room_slot(old(map).rooms(), self.id())].0, *final(s)),
                ),
    {
        f(map.get_mut(self.room_id))
    }
}

} // verus!
