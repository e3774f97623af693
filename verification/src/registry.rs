//! The room registry: owns every active room, keyed by room id, and the
//! process-wide ICE server list fetched once at startup.
//!
//! Rooms are created on first demand and removed when their membership
//! drops to zero. The caller that drives sessions checks a room out of
//! the registry, works on it, and checks it back in; in the running
//! service that discipline is what the registry mutex provides.

use vstd::prelude::*;

use crate::ice::IceServerConfig;
use crate::room::Room;
use crate::strings::str_eq;

verus! {

pub open spec fn has_room_id(s: Seq<Room>, id: Seq<char>) -> bool {
    exists|i: int| 0 <= i < s.len() && s[i].id@ == id
}

pub open spec fn room_index(s: Seq<Room>, id: Seq<char>) -> int {
    choose|i: int| 0 <= i < s.len() && s[i].id@ == id
}

pub open spec fn distinct_room_ids(s: Seq<Room>) -> bool {
    forall|i: int, j: int|
        #![trigger s[i], s[j]]
        0 <= i < j < s.len() ==> s[i].id@ != s[j].id@
}

/// Removal by key: the room holding the id leaves, a missing id is a
/// no-op.
pub open spec fn remove_room_seq(s: Seq<Room>, id: Seq<char>) -> Seq<Room> {
    if has_room_id(s, id) {
        s.remove(room_index(s, id))
    } else {
        s
    }
}

/// Key-replacing insertion: a fresh room id is appended, a colliding one
/// replaces the room that holds it.
pub open spec fn upsert_room(s: Seq<Room>, r: Room) -> Seq<Room> {
    if has_room_id(s, r.id@) {
        s.update(room_index(s, r.id@), r)
    } else {
        s.push(r)
    }
}

/// The registry: all active rooms and the cached ICE server list.
pub struct RoomOwner {
    pub rooms: Vec<Room>,
    pub ice_servers: Vec<IceServerConfig>,
}

impl RoomOwner {
    pub open spec fn spec_rooms(self) -> Seq<Room> {
        self.rooms@
    }

    pub open spec fn has_room(self, id: Seq<char>) -> bool {
        has_room_id(self.spec_rooms(), id)
    }

    /// Well-formedness: at most one room per room id.
    pub open spec fn wf(self) -> bool {
        distinct_room_ids(self.spec_rooms())
    }

    pub fn new(ice_servers: Vec<IceServerConfig>) -> (r: RoomOwner)
        ensures
            r.spec_rooms() == Seq::<Room>::empty(),
            r.ice_servers == ice_servers,
            r.wf(),
    {
        RoomOwner { rooms: Vec::new(), ice_servers }
    }

    /// A copy of the cached ICE server list, for handing to a new
    /// session.
    pub fn get_ice_servers(&self) -> (r: Vec<IceServerConfig>)
        ensures
            r@.len() == self.ice_servers@.len(),
            forall|i: int|
                0 <= i < r@.len() ==> (#[trigger] r@[i]).urls@ == self.ice_servers@[i].urls@
                    && r@[i].username == self.ice_servers@[i].username && r@[i].credential
                    == self.ice_servers@[i].credential,
    {
        let n = self.ice_servers.len();
        let mut r: Vec<IceServerConfig> = Vec::new();
        let mut i: usize = 0;
        while i < n
            invariant
                n == self.ice_servers@.len(),
                i <= n,
                r@.len() == i,
                forall|j: int|
                    0 <= j < i ==> (#[trigger] r@[j]).urls@ == self.ice_servers@[j].urls@
                        && r@[j].username == self.ice_servers@[j].username && r@[j].credential
                        == self.ice_servers@[j].credential,
            decreases n - i,
        {
            r.push(self.ice_servers[i].clone());
            i = i + 1;
        }
        r
    }

    /// The position of the room with this id, if any.
    fn find_room_index(&self, room_id: &str) -> (r: Option<usize>)
        ensures
            match r {
                Some(i) => i < self.spec_rooms().len() && self.spec_rooms()[i as int].id@
                    == room_id@,
                None => !self.has_room(room_id@),
            },
    {
        let n = self.rooms.len();
        let mut i: usize = 0;
        while i < n
            invariant
                n == self.spec_rooms().len(),
                i <= n,
                forall|j: int| 0 <= j < i ==> self.spec_rooms()[j].id@ != room_id@,
            decreases n - i,
        {
            if str_eq(self.rooms[i].id.as_str(), room_id) {
                return Some(i);
            }
            i = i + 1;
        }
        None
    }

    /// A shared borrow of the room with this id, if present.
    pub fn find_by_id(&self, room_id: &str) -> (r: Option<&Room>)
        requires
            self.wf(),
        ensures
            match r {
                Some(room) => self.has_room(room_id@) && *room == self.spec_rooms()[room_index(
                    self.spec_rooms(),
                    room_id@,
                )],
                None => !self.has_room(room_id@),
            },
    {
        match self.find_room_index(room_id) {
            Some(i) => {
                proof {
                    let k = room_index(self.spec_rooms(), room_id@);
                    assert(0 <= k < self.spec_rooms().len() && self.spec_rooms()[k].id@
                        == room_id@);
                    assert(k == i) by {
                        if k != i {
                            assert(self.spec_rooms()[k].id@ != self.spec_rooms()[i as int].id@);
                        }
                    }
                }
                Some(&self.rooms[i])
            },
            None => None,
        }
    }

    /// Allocate a room under this id: a fresh, empty room built around
    /// the given router handle. An id already present is re-bound to the
    /// fresh room, as a key-value insertion does; the caller looks the id
    /// up first, so that happens only when it races itself.
    pub fn create_new_room(&mut self, room_id: String, theme: String, router: u64)
        requires
            old(self).wf(),
        ensures
            final(self).wf(),
            final(self).ice_servers == old(self).ice_servers,
            exists|nr: Room|
                {
                    &&& nr.id == room_id
                    &&& nr.theme == theme
                    &&& nr.router == router
                    &&& nr.spec_players().len() == 0
                    &&& nr.spec_publishers().len() == 0
                    &&& nr.wf()
                    &&& final(self).spec_rooms() == #[trigger] upsert_room(
                        old(self).spec_rooms(),
                        nr,
                    )
                },
            final(self).has_room(room_id@),
    {
        let ghost olds = self.spec_rooms();
        let room = Room::new(room_id, theme, router);
        let ghost nr = room;
        match self.find_room_index(room.id.as_str()) {
            Some(i) => {
                proof {
                    let k = room_index(olds, nr.id@);
                    assert(0 <= k < olds.len() && olds[k].id@ == nr.id@);
                    assert(k == i) by {
                        if k != i {
                            assert(olds[k].id@ != olds[i as int].id@);
                        }
                    }
                }
                self.rooms.remove(i);
                self.rooms.insert(i, room);
                proof {
                    assert(self.spec_rooms() =~= olds.update(i as int, nr));
                    assert(self.spec_rooms() == upsert_room(olds, nr));
                    let t = self.spec_rooms();
                    assert forall|a: int, b: int|
                        #![trigger t[a], t[b]]
                        0 <= a < b < t.len() implies t[a].id@ != t[b].id@ by {
                        assert(t[a].id@ == olds[a].id@);
                        assert(t[b].id@ == olds[b].id@);
                    }
                    assert(t[i as int].id@ == nr.id@);
                }
            },
            None => {
                self.rooms.push(room);
                proof {
                    assert(self.spec_rooms() == upsert_room(olds, nr));
                    let t = self.spec_rooms();
                    assert forall|a: int, b: int|
                        #![trigger t[a], t[b]]
                        0 <= a < b < t.len() implies t[a].id@ != t[b].id@ by {
                        if b < olds.len() {
                            assert(t[a] == olds[a] && t[b] == olds[b]);
                        } else {
                            assert(t[b] == nr);
                            assert(t[a] == olds[a]);
                            assert(!(olds[a].id@ == nr.id@));
                        }
                    }
                    assert(t[t.len() - 1].id@ == nr.id@);
                }
            },
        }
    }

    /// Find-or-create: if no room holds this id, allocate a fresh, empty
    /// one around the given router handle; an existing room is left
    /// exactly as it is. Idempotent on the room id.
    pub fn create_or_get(&mut self, room_id: String, theme: String, router: u64)
        requires
            old(self).wf(),
        ensures
            final(self).wf(),
            final(self).ice_servers == old(self).ice_servers,
            old(self).has_room(room_id@) ==> *final(self) == *old(self),
            !old(self).has_room(room_id@) ==> exists|nr: Room|
                {
                    &&& nr.id == room_id
                    &&& nr.theme == theme
                    &&& nr.router == router
                    &&& nr.spec_players().len() == 0
                    &&& nr.spec_publishers().len() == 0
                    &&& nr.wf()
                    &&& final(self).spec_rooms() == old(self).spec_rooms().push(nr)
                },
            final(self).has_room(room_id@),
    {
        let exists_already = match self.find_room_index(room_id.as_str()) {
            Some(_) => true,
            None => false,
        };
        if !exists_already {
            self.create_new_room(room_id, theme, router);
        }
    }

    /// Remove the room with this id; a missing id is a no-op. Removal is
    /// unconditional: the caller has established that the room is empty,
    /// and the worst a race can do is make the next join build a fresh
    /// room under the same id.
    pub fn remove_room(&mut self, room_id: String)
        requires
            old(self).wf(),
        ensures
            final(self).wf(),
            final(self).ice_servers == old(self).ice_servers,
            final(self).spec_rooms() == remove_room_seq(old(self).spec_rooms(), room_id@),
            !final(self).has_room(room_id@),
    {
        let ghost olds = self.spec_rooms();
        match self.find_room_index(room_id.as_str()) {
            Some(i) => {
                proof {
                    let k = room_index(olds, room_id@);
                    assert(0 <= k < olds.len() && olds[k].id@ == room_id@);
                    assert(k == i) by {
                        if k != i {
                            assert(olds[k].id@ != olds[i as int].id@);
                        }
                    }
                }
                self.rooms.remove(i);
                proof {
                    let t = self.spec_rooms();
                    let k = i as int;
                    assert forall|a: int, b: int|
                        #![trigger t[a], t[b]]
                        0 <= a < b < t.len() implies t[a].id@ != t[b].id@ by {
                        let a0 = if a < k { a } else { a + 1 };
                        let b0 = if b < k { b } else { b + 1 };
                        assert(t[a] == olds[a0]);
                        assert(t[b] == olds[b0]);
                    }
                    assert forall|a: int| 0 <= a < t.len() implies (#[trigger] t[a]).id@
                        != room_id@ by {
                        let a0 = if a < k { a } else { a + 1 };
                        assert(t[a] == olds[a0]);
                        if olds[a0].id@ == room_id@ {
                            if a0 < k {
                                assert(olds[a0].id@ != olds[k].id@);
                            } else {
                                assert(olds[k].id@ != olds[a0].id@);
                            }
                        }
                    }
                }
            },
            None => {},
        }
    }

    /// Check the room with this id out of the registry, leaving the
    /// registry without it; the caller works on the room and checks it
    /// back in with [`RoomOwner::put_room`].
    pub fn take_room(&mut self, room_id: &str) -> (r: Option<Room>)
        requires
            old(self).wf(),
        ensures
            final(self).wf(),
            final(self).ice_servers == old(self).ice_servers,
            match r {
                Some(room) => {
                    &&& old(self).has_room(room_id@)
                    &&& room == old(self).spec_rooms()[room_index(old(self).spec_rooms(), room_id@)]
                    &&& final(self).spec_rooms() == old(self).spec_rooms().remove(
                        room_index(old(self).spec_rooms(), room_id@),
                    )
                    &&& !final(self).has_room(room_id@)
                },
                None => {
                    &&& !old(self).has_room(room_id@)
                    &&& final(self).spec_rooms() == old(self).spec_rooms()
                },
            },
    {
        let ghost olds = self.spec_rooms();
        match self.find_room_index(room_id) {
            Some(i) => {
                proof {
                    let k = room_index(olds, room_id@);
                    assert(0 <= k < olds.len() && olds[k].id@ == room_id@);
                    assert(k == i) by {
                        if k != i {
                            assert(olds[k].id@ != olds[i as int].id@);
                        }
                    }
                }
                let room = self.rooms.remove(i);
                proof {
                    let t = self.spec_rooms();
                    let k = i as int;
                    assert forall|a: int, b: int|
                        #![trigger t[a], t[b]]
                        0 <= a < b < t.len() implies t[a].id@ != t[b].id@ by {
                        let a0 = if a < k { a } else { a + 1 };
                        let b0 = if b < k { b } else { b + 1 };
                        assert(t[a] == olds[a0]);
                        assert(t[b] == olds[b0]);
                    }
                    assert forall|a: int| 0 <= a < t.len() implies (#[trigger] t[a]).id@
                        != room_id@ by {
                        let a0 = if a < k { a } else { a + 1 };
                        assert(t[a] == olds[a0]);
                        if olds[a0].id@ == room_id@ {
                            if a0 < k {
                                assert(olds[a0].id@ != olds[k].id@);
                            } else {
                                assert(olds[k].id@ != olds[a0].id@);
                            }
                        }
                    }
                }
                Some(room)
            },
            None => None,
        }
    }

    /// Check a room back in. The room's id must not already be bound;
    /// with the check-out discipline it never is.
    pub fn put_room(&mut self, room: Room)
        requires
            old(self).wf(),
            !old(self).has_room(room.id@),
        ensures
            final(self).wf(),
            final(self).ice_servers == old(self).ice_servers,
            final(self).spec_rooms() == old(self).spec_rooms().push(room),
            final(self).has_room(room.id@),
    {
        let ghost olds = self.spec_rooms();
        let ghost nr = room;
        self.rooms.push(room);
        proof {
            let t = self.spec_rooms();
            assert forall|a: int, b: int|
                #![trigger t[a], t[b]]
                0 <= a < b < t.len() implies t[a].id@ != t[b].id@ by {
                if b < olds.len() {
                    assert(t[a] == olds[a] && t[b] == olds[b]);
                } else {
                    assert(t[b] == nr);
                    assert(t[a] == olds[a]);
                    assert(!(olds[a].id@ == nr.id@));
                }
            }
            assert(t[t.len() - 1].id@ == nr.id@);
        }
    }
}

/// After a room is removed from the registry, a room created again under
/// the same id starts fresh: the registry then holds, under that id,
/// exactly the newly built room, whose membership is empty — nothing of
/// the removed room survives.
pub proof fn lemma_remove_then_create_fresh(s: Seq<Room>, id: Seq<char>, nr: Room)
    requires
        distinct_room_ids(s),
        nr.id@ == id,
        nr.spec_players().len() == 0,
    ensures
        ({
            let after = upsert_room(remove_room_seq(s, id), nr);
            &&& has_room_id(after, id)
            &&& after[room_index(after, id)] == nr
            &&& after[room_index(after, id)].spec_players().len() == 0
        }),
{
    let removed = remove_room_seq(s, id);
    assert(!has_room_id(removed, id)) by {
        if has_room_id(s, id) {
            let k = room_index(s, id);
            assert(0 <= k < s.len() && s[k].id@ == id);
            if has_room_id(removed, id) {
                let a = room_index(removed, id);
                assert(0 <= a < removed.len() && removed[a].id@ == id);
                let a0 = if a < k { a } else { a + 1 };
                assert(removed[a] == s[a0]);
                if a0 < k {
                    assert(s[a0].id@ != s[k].id@);
                } else {
                    assert(s[k].id@ != s[a0].id@);
                }
            }
        }
    }
    let after = upsert_room(removed, nr);
    assert(after == removed.push(nr));
    assert(after[after.len() - 1] == nr);
    assert(has_room_id(after, id));
    let m = room_index(after, id);
    assert(0 <= m < after.len() && after[m].id@ == id);
    assert(m == after.len() - 1) by {
        if m < after.len() - 1 {
            assert(after[m] == removed[m]);
            assert(has_room_id(removed, id));
        }
    }
}

} // verus!
