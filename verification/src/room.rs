//! A room: a virtual meeting space whose members publish and subscribe to
//! each other's media.
//!
//! A room holds its membership (player id to session address and player
//! state) and the publisher index (publisher id to owning player id).
//! Member and publisher ids are unique within a room; the session address
//! of each member is unique too, one live session per member.

use vstd::prelude::*;

use crate::player::{PlayerData, Position};
use crate::strings::str_eq;

verus! {

/// One registered member: the session's inbox handle and the player data.
pub struct PlayerEntry {
    pub addr: u64,
    pub data: PlayerData,
}

/// One entry of the publisher index: which player owns which publisher.
/// Kept in the room, not in the session, so that late subscribers can
/// learn ownership without traversing sessions.
pub struct PublisherBinding {
    pub publisher_id: String,
    pub player_id: String,
}

pub open spec fn has_id(s: Seq<PlayerEntry>, id: Seq<char>) -> bool {
    exists|i: int| 0 <= i < s.len() && s[i].data.id@ == id
}

pub open spec fn id_index(s: Seq<PlayerEntry>, id: Seq<char>) -> int {
    choose|i: int| 0 <= i < s.len() && s[i].data.id@ == id
}

pub open spec fn has_addr(s: Seq<PlayerEntry>, addr: u64) -> bool {
    exists|i: int| 0 <= i < s.len() && s[i].addr == addr
}

pub open spec fn addr_index(s: Seq<PlayerEntry>, addr: u64) -> int {
    choose|i: int| 0 <= i < s.len() && s[i].addr == addr
}

pub open spec fn distinct_ids(s: Seq<PlayerEntry>) -> bool {
    forall|i: int, j: int|
        #![trigger s[i], s[j]]
        0 <= i < j < s.len() ==> s[i].data.id@ != s[j].data.id@
}

pub open spec fn distinct_addrs(s: Seq<PlayerEntry>) -> bool {
    forall|i: int, j: int|
        #![trigger s[i], s[j]]
        0 <= i < j < s.len() ==> s[i].addr != s[j].addr
}

pub open spec fn has_binding(p: Seq<PublisherBinding>, publisher_id: Seq<char>) -> bool {
    exists|i: int| 0 <= i < p.len() && p[i].publisher_id@ == publisher_id
}

pub open spec fn binding_index(p: Seq<PublisherBinding>, publisher_id: Seq<char>) -> int {
    choose|i: int| 0 <= i < p.len() && p[i].publisher_id@ == publisher_id
}

pub open spec fn distinct_bindings(p: Seq<PublisherBinding>) -> bool {
    forall|i: int, j: int|
        #![trigger p[i], p[j]]
        0 <= i < j < p.len() ==> p[i].publisher_id@ != p[j].publisher_id@
}

/// The session addresses of every member but the named player, in
/// membership order.
pub open spec fn peer_addrs(s: Seq<PlayerEntry>, id: Seq<char>) -> Seq<u64>
    decreases s.len(),
{
    if s.len() == 0 {
        Seq::empty()
    } else {
        let rest = peer_addrs(s.drop_last(), id);
        if s.last().data.id@ == id {
            rest
        } else {
            rest.push(s.last().addr)
        }
    }
}

/// The entry a join inserts: the joining session's address and the
/// prototype's attributes under the freshly minted id, with the presence
/// state zeroed whatever the prototype held.
pub open spec fn joined_entry(e: PlayerEntry, addr: u64, proto: PlayerData, pid: Seq<char>) -> bool {
    &&& e.addr == addr
    &&& e.data.id@ == pid
    &&& e.data.name == proto.name
    &&& e.data.color == proto.color
    &&& e.data.activity == proto.activity
    &&& e.data.facial_features == proto.facial_features
    &&& e.data.position == Position::spec_origin()
    &&& e.data.rotation == 0
    &&& !e.data.is_moving
}

/// Key-replacing insertion on the membership: a fresh id is appended, a
/// colliding id replaces the entry that holds it.
pub open spec fn upsert_entry(s: Seq<PlayerEntry>, e: PlayerEntry) -> Seq<PlayerEntry> {
    if has_id(s, e.data.id@) {
        s.update(id_index(s, e.data.id@), e)
    } else {
        s.push(e)
    }
}

/// Key-replacing insertion on the publisher index.
pub open spec fn upsert_binding(p: Seq<PublisherBinding>, b: PublisherBinding) -> Seq<
    PublisherBinding,
> {
    if has_binding(p, b.publisher_id@) {
        p.update(binding_index(p, b.publisher_id@), b)
    } else {
        p.push(b)
    }
}

/// Relies on `uuid::Uuid::new_v4` and its `Display` impl: a random
/// version-4 UUID rendered in the 36-character hyphenated form. The draw
/// is random, so nothing beyond the length is promised.
#[verifier::external_body]
fn new_player_id() -> (r: String)
    ensures
        r@.len() == 36,
{
    uuid::Uuid::new_v4().to_string()
}

/// A room: identity, theme, a handle to the externally owned media
/// router, the membership, and the publisher index.
pub struct Room {
    pub id: String,
    pub theme: String,
    /// Opaque handle naming the SFU router that the room's transports are
    /// created from; the router itself lives outside the core.
    pub router: u64,
    pub players: Vec<PlayerEntry>,
    pub publishers: Vec<PublisherBinding>,
}

impl Room {
    pub open spec fn spec_players(self) -> Seq<PlayerEntry> {
        self.players@
    }

    pub open spec fn spec_publishers(self) -> Seq<PublisherBinding> {
        self.publishers@
    }

    pub open spec fn player_count(self) -> nat {
        self.spec_players().len()
    }

    pub open spec fn has_player(self, id: Seq<char>) -> bool {
        has_id(self.spec_players(), id)
    }

    pub open spec fn has_member_addr(self, addr: u64) -> bool {
        has_addr(self.spec_players(), addr)
    }

    /// Well-formedness: member ids, member addresses and publisher ids
    /// are each unique within the room.
    pub open spec fn wf(self) -> bool {
        &&& distinct_ids(self.spec_players())
        &&& distinct_addrs(self.spec_players())
        &&& distinct_bindings(self.spec_publishers())
    }

    /// Every publisher in the index is owned by a player currently in the
    /// membership.
    pub open spec fn publishers_consistent(self) -> bool {
        forall|i: int|
            0 <= i < self.spec_publishers().len() ==> self.has_player(
                #[trigger] self.spec_publishers()[i].player_id@,
            )
    }

    pub fn new(id: String, theme: String, router: u64) -> (r: Room)
        ensures
            r.id == id,
            r.theme == theme,
            r.router == router,
            r.spec_players() == Seq::<PlayerEntry>::empty(),
            r.spec_publishers() == Seq::<PublisherBinding>::empty(),
            r.wf(),
            r.publishers_consistent(),
    {
        Room { id, theme, router, players: Vec::new(), publishers: Vec::new() }
    }

    /// The position of the member with this id, if any.
    fn find_player_index(&self, player_id: &str) -> (r: Option<usize>)
        ensures
            match r {
                Some(i) => i < self.spec_players().len() && self.spec_players()[i as int].data.id@
                    == player_id@,
                None => !self.has_player(player_id@),
            },
    {
        let n = self.players.len();
        let mut i: usize = 0;
        while i < n
            invariant
                n == self.spec_players().len(),
                i <= n,
                forall|j: int| 0 <= j < i ==> self.spec_players()[j].data.id@ != player_id@,
            decreases n - i,
        {
            if str_eq(self.players[i].data.id.as_str(), player_id) {
                return Some(i);
            }
            i = i + 1;
        }
        None
    }

    /// The position of the member with this session address, if any.
    fn find_addr_index(&self, addr: u64) -> (r: Option<usize>)
        ensures
            match r {
                Some(i) => i < self.spec_players().len() && self.spec_players()[i as int].addr
                    == addr,
                None => !self.has_member_addr(addr),
            },
    {
        let n = self.players.len();
        let mut i: usize = 0;
        while i < n
            invariant
                n == self.spec_players().len(),
                i <= n,
                forall|j: int| 0 <= j < i ==> self.spec_players()[j].addr != addr,
            decreases n - i,
        {
            if self.players[i].addr == addr {
                return Some(i);
            }
            i = i + 1;
        }
        None
    }

    /// The position of the publisher binding with this id, if any.
    fn find_binding_index(&self, publisher_id: &str) -> (r: Option<usize>)
        ensures
            match r {
                Some(i) => i < self.spec_publishers().len() && self.spec_publishers()[
                    i as int
                ].publisher_id@ == publisher_id@,
                None => !has_binding(self.spec_publishers(), publisher_id@),
            },
    {
        let n = self.publishers.len();
        let mut i: usize = 0;
        while i < n
            invariant
                n == self.spec_publishers().len(),
                i <= n,
                forall|j: int| 0 <= j < i ==> self.spec_publishers()[j].publisher_id@
                    != publisher_id@,
            decreases n - i,
        {
            if str_eq(self.publishers[i].publisher_id.as_str(), publisher_id) {
                return Some(i);
            }
            i = i + 1;
        }
        None
    }

    /// Add a player to the room under a freshly minted id and return that
    /// id. The entry starts from the prototype with the presence state
    /// zeroed. In the (vanishingly unlikely) event that the minted id is
    /// already taken, the entry holding it is replaced, as a key-value
    /// insertion does.
    pub fn add_player(&mut self, addr: u64, prototype: &PlayerData) -> (pid: String)
        requires
            old(self).wf(),
            !old(self).has_member_addr(addr),
        ensures
            final(self).wf(),
            final(self).id == old(self).id,
            final(self).theme == old(self).theme,
            final(self).router == old(self).router,
            final(self).spec_publishers() == old(self).spec_publishers(),
            pid@.len() == 36,
            exists|e: PlayerEntry|
                joined_entry(e, addr, *prototype, pid@) && final(self).spec_players()
                    == #[trigger] upsert_entry(old(self).spec_players(), e),
            !has_id(old(self).spec_players(), pid@) ==> final(self).player_count() == old(self).player_count() + 1,
            has_id(old(self).spec_players(), pid@) ==> final(self).player_count() == old(self).player_count(),
            final(self).has_player(pid@),
            final(self).has_member_addr(addr),
    {
        let pid = new_player_id();
        let mut data = prototype.clone();
        data.id = pid.clone();
        data.position = Position::origin();
        data.rotation = 0;
        data.is_moving = false;
        let entry = PlayerEntry { addr, data };
        let ghost e = entry;
        let ghost olds = self.spec_players();
        match self.find_player_index(pid.as_str()) {
            Some(i) => {
                proof {
                    assert(has_id(olds, e.data.id@));
                    let k = id_index(olds, e.data.id@);
                    assert(0 <= k < olds.len() && olds[k].data.id@ == pid@);
                    assert(k == i) by {
                        if k != i {
                            assert(olds[k].data.id@ != olds[i as int].data.id@);
                        }
                    }
                }
                self.players.remove(i);
                self.players.insert(i, entry);
                proof {
                    assert(self.spec_players() =~= olds.update(i as int, e));
                    assert(self.spec_players() == upsert_entry(olds, e));
                    assert_upsert_wf(olds, e, addr);
                }
            },
            None => {
                self.players.push(entry);
                proof {
                    assert(self.spec_players() == olds.push(e));
                    assert(self.spec_players() == upsert_entry(olds, e));
                    assert_upsert_wf(olds, e, addr);
                }
            },
        }
        proof {
            assert(joined_entry(e, addr, *prototype, pid@));
            if !has_id(olds, pid@) {
                assert(self.spec_players() == olds.push(e));
            } else {
                assert(self.spec_players().len() == olds.len());
            }
            let n = self.spec_players().len() as int;
            assert(self.spec_players()[n - 1].data.id@ == pid@ || has_id(olds, pid@));
            if has_id(olds, pid@) {
                let k = id_index(olds, pid@);
                assert(self.spec_players()[k].data.id@ == pid@);
                assert(self.spec_players()[k].addr == addr);
            } else {
                assert(self.spec_players()[n - 1].addr == addr);
            }
        }
        pid
    }

    /// Remove the member with this id, if present; return the remaining
    /// member count. Publisher bindings owned by the player are not
    /// touched: the departing session unregisters each of its publishers
    /// itself, so that `unpublished` broadcasts stay symmetric with
    /// `published` ones.
    pub fn remove_player(&mut self, player_id: &str) -> (remaining: usize)
        requires
            old(self).wf(),
        ensures
            final(self).wf(),
            final(self).id == old(self).id,
            final(self).theme == old(self).theme,
            final(self).router == old(self).router,
            final(self).spec_publishers() == old(self).spec_publishers(),
            old(self).has_player(player_id@) ==> final(self).spec_players() == old(self).spec_players().remove(id_index(old(self).spec_players(), player_id@)),
            !old(self).has_player(player_id@) ==> final(self).spec_players() == old(self).spec_players(),
            remaining == final(self).player_count(),
    {
        let ghost olds = self.spec_players();
        match self.find_player_index(player_id) {
            Some(i) => {
                proof {
                    let k = id_index(olds, player_id@);
                    assert(0 <= k < olds.len() && olds[k].data.id@ == player_id@);
                    assert(k == i) by {
                        if k != i {
                            assert(olds[k].data.id@ != olds[i as int].data.id@);
                        }
                    }
                }
                self.players.remove(i);
                proof {
                    lemma_remove_keeps_distinct(olds, i as int);
                }
            },
            None => {},
        }
        self.players.len()
    }

    /// Remove the member registered under this session address, if any;
    /// return its player id and the remaining member count.
    pub fn remove_player_by_addr(&mut self, addr: u64) -> (r: Option<(String, usize)>)
        requires
            old(self).wf(),
        ensures
            final(self).wf(),
            final(self).id == old(self).id,
            final(self).theme == old(self).theme,
            final(self).router == old(self).router,
            final(self).spec_publishers() == old(self).spec_publishers(),
            match r {
                Some(pr) => {
                    &&& old(self).has_member_addr(addr)
                    &&& pr.0@ == old(self).spec_players()[addr_index(
                        old(self).spec_players(),
                        addr,
                    )].data.id@
                    &&& final(self).spec_players() == old(self).spec_players().remove(
                        addr_index(old(self).spec_players(), addr),
                    )
                    &&& pr.1 == final(self).player_count()
                },
                None => {
                    &&& !old(self).has_member_addr(addr)
                    &&& final(self).spec_players() == old(self).spec_players()
                },
            },
    {
        let ghost olds = self.spec_players();
        match self.find_addr_index(addr) {
            Some(i) => {
                proof {
                    let k = addr_index(olds, addr);
                    assert(0 <= k < olds.len() && olds[k].addr == addr);
                    assert(k == i) by {
                        if k != i {
                            assert(olds[k].addr != olds[i as int].addr);
                        }
                    }
                }
                let pid = self.players[i].data.id.clone();
                self.players.remove(i);
                proof {
                    lemma_remove_keeps_distinct(olds, i as int);
                }
                let remaining = self.players.len();
                Some((pid, remaining))
            },
            None => None,
        }
    }

    /// Overwrite the presence state of the member with this id; a miss is
    /// a no-op.
    pub fn update_player_position(
        &mut self,
        player_id: &str,
        position: Position,
        rotation: u32,
        is_moving: bool,
    )
        requires
            old(self).wf(),
        ensures
            final(self).wf(),
            final(self).id == old(self).id,
            final(self).theme == old(self).theme,
            final(self).router == old(self).router,
            final(self).spec_publishers() == old(self).spec_publishers(),
            old(self).has_player(player_id@) ==> {
                let k = id_index(old(self).spec_players(), player_id@);
                let e0 = old(self).spec_players()[k];
                final(self).spec_players() == old(self).spec_players().update(
                    k,
                    PlayerEntry {
                        addr: e0.addr,
                        data: PlayerData {
                            position: position,
                            rotation: rotation,
                            is_moving: is_moving,
                            ..e0.data
                        },
                    },
                )
            },
            !old(self).has_player(player_id@) ==> final(self).spec_players() == old(self).spec_players(),
    {
        let ghost olds = self.spec_players();
        match self.find_player_index(player_id) {
            Some(i) => {
                proof {
                    let k = id_index(olds, player_id@);
                    assert(0 <= k < olds.len() && olds[k].data.id@ == player_id@);
                    assert(k == i) by {
                        if k != i {
                            assert(olds[k].data.id@ != olds[i as int].data.id@);
                        }
                    }
                }
                let entry = self.players.remove(i);
                let PlayerEntry { addr: eaddr, data: edata } = entry;
                let updated = PlayerEntry {
                    addr: eaddr,
                    data: PlayerData { position, rotation, is_moving, ..edata },
                };
                self.players.insert(i, updated);
                proof {
                    let k = i as int;
                    let e0 = olds[k];
                    let e1 = PlayerEntry {
                        addr: e0.addr,
                        data: PlayerData {
                            position: position,
                            rotation: rotation,
                            is_moving: is_moving,
                            ..e0.data
                        },
                    };
                    assert(self.spec_players() =~= olds.update(k, e1));
                    lemma_update_same_id_keeps_distinct(olds, k, e1);
                }
            },
            None => {},
        }
    }

    /// A copy of the player data of the member with this id, if present.
    pub fn get_player_data(&self, player_id: &str) -> (r: Option<PlayerData>)
        ensures
            match r {
                Some(d) => self.has_player(player_id@) && exists|i: int|
                    0 <= i < self.spec_players().len() && self.spec_players()[i].data.id@
                        == player_id@ && d == #[trigger] self.spec_players()[i].data,
                None => !self.has_player(player_id@),
            },
    {
        match self.find_player_index(player_id) {
            Some(i) => Some(self.players[i].data.clone()),
            None => None,
        }
    }

    /// A copy of every member's player data, in membership order.
    pub fn get_all_players(&self) -> (r: Vec<PlayerData>)
        ensures
            r@ == self.spec_players().map_values(|e: PlayerEntry| e.data),
    {
        let n = self.players.len();
        let mut r: Vec<PlayerData> = Vec::new();
        let mut i: usize = 0;
        while i < n
            invariant
                n == self.spec_players().len(),
                i <= n,
                r@ =~= self.spec_players().subrange(0, i as int).map_values(
                    |e: PlayerEntry| e.data,
                ),
            decreases n - i,
        {
            r.push(self.players[i].data.clone());
            proof {
                assert(r@ =~= self.spec_players().subrange(0, i + 1 as int).map_values(
                    |e: PlayerEntry| e.data,
                ));
            }
            i = i + 1;
        }
        proof {
            assert(self.spec_players().subrange(0, n as int) =~= self.spec_players());
        }
        r
    }

    /// The session addresses of every member but the named player.
    pub fn get_peers(&self, player_id: &str) -> (r: Vec<u64>)
        ensures
            r@ == peer_addrs(self.spec_players(), player_id@),
    {
        let n = self.players.len();
        let mut r: Vec<u64> = Vec::new();
        let mut i: usize = 0;
        while i < n
            invariant
                n == self.spec_players().len(),
                i <= n,
                r@ == peer_addrs(self.spec_players().subrange(0, i as int), player_id@),
            decreases n - i,
        {
            proof {
                let pre = self.spec_players().subrange(0, i as int);
                let ext = self.spec_players().subrange(0, i + 1 as int);
                assert(ext.drop_last() =~= pre);
                assert(ext.last() == self.spec_players()[i as int]);
            }
            if !str_eq(self.players[i].data.id.as_str(), player_id) {
                r.push(self.players[i].addr);
            }
            i = i + 1;
        }
        proof {
            assert(self.spec_players().subrange(0, n as int) =~= self.spec_players());
        }
        r
    }

    /// The session addresses of every member, in membership order.
    pub fn get_all_addrs(&self) -> (r: Vec<u64>)
        ensures
            r@ == self.spec_players().map_values(|e: PlayerEntry| e.addr),
    {
        let n = self.players.len();
        let mut r: Vec<u64> = Vec::new();
        let mut i: usize = 0;
        while i < n
            invariant
                n == self.spec_players().len(),
                i <= n,
                r@ =~= self.spec_players().subrange(0, i as int).map_values(
                    |e: PlayerEntry| e.addr,
                ),
            decreases n - i,
        {
            r.push(self.players[i].addr);
            proof {
                assert(r@ =~= self.spec_players().subrange(0, i + 1 as int).map_values(
                    |e: PlayerEntry| e.addr,
                ));
            }
            i = i + 1;
        }
        proof {
            assert(self.spec_players().subrange(0, n as int) =~= self.spec_players());
        }
        r
    }

    /// Record that the player owns this publisher. A publisher id already
    /// in the index is re-bound, as a key-value insertion does.
    pub fn register_publisher(&mut self, publisher_id: String, player_id: String)
        requires
            old(self).wf(),
            old(self).has_player(player_id@),
        ensures
            final(self).wf(),
            final(self).id == old(self).id,
            final(self).theme == old(self).theme,
            final(self).router == old(self).router,
            final(self).spec_players() == old(self).spec_players(),
            final(self).spec_publishers() == upsert_binding(
                old(self).spec_publishers(),
                PublisherBinding { publisher_id: publisher_id, player_id: player_id },
            ),
            has_binding(final(self).spec_publishers(), publisher_id@),
            old(self).publishers_consistent() ==> final(self).publishers_consistent(),
    {
        let ghost oldp = self.spec_publishers();
        let ghost b = PublisherBinding { publisher_id: publisher_id, player_id: player_id };
        let binding = PublisherBinding { publisher_id, player_id };
        match self.find_binding_index(binding.publisher_id.as_str()) {
            Some(i) => {
                proof {
                    let k = binding_index(oldp, b.publisher_id@);
                    assert(0 <= k < oldp.len() && oldp[k].publisher_id@ == b.publisher_id@);
                    assert(k == i) by {
                        if k != i {
                            assert(oldp[k].publisher_id@ != oldp[i as int].publisher_id@);
                        }
                    }
                }
                self.publishers.remove(i);
                self.publishers.insert(i, binding);
                proof {
                    assert(self.spec_publishers() =~= oldp.update(i as int, b));
                    assert(self.spec_publishers() == upsert_binding(oldp, b));
                    lemma_update_same_binding_keeps_distinct(oldp, i as int, b);
                }
            },
            None => {
                self.publishers.push(binding);
                proof {
                    assert(self.spec_publishers() == oldp.push(b));
                    assert(self.spec_publishers() == upsert_binding(oldp, b));
                    lemma_push_binding_keeps_distinct(oldp, b);
                }
            },
        }
        proof {
            if has_binding(oldp, b.publisher_id@) {
                let k = binding_index(oldp, b.publisher_id@);
                assert(self.spec_publishers()[k].publisher_id@ == b.publisher_id@);
            } else {
                assert(self.spec_publishers()[oldp.len() as int].publisher_id@
                    == b.publisher_id@);
            }
        }
    }

    /// Drop the binding for this publisher id, if present.
    pub fn unregister_publisher(&mut self, publisher_id: &str)
        requires
            old(self).wf(),
        ensures
            final(self).wf(),
            final(self).id == old(self).id,
            final(self).theme == old(self).theme,
            final(self).router == old(self).router,
            final(self).spec_players() == old(self).spec_players(),
            has_binding(old(self).spec_publishers(), publisher_id@) ==> final(self).spec_publishers() == old(self).spec_publishers().remove(
                binding_index(old(self).spec_publishers(), publisher_id@),
            ),
            !has_binding(old(self).spec_publishers(), publisher_id@) ==> final(self).spec_publishers() == old(self).spec_publishers(),
            old(self).publishers_consistent() ==> final(self).publishers_consistent(),
    {
        let ghost oldp = self.spec_publishers();
        match self.find_binding_index(publisher_id) {
            Some(i) => {
                proof {
                    let k = binding_index(oldp, publisher_id@);
                    assert(0 <= k < oldp.len() && oldp[k].publisher_id@ == publisher_id@);
                    assert(k == i) by {
                        if k != i {
                            assert(oldp[k].publisher_id@ != oldp[i as int].publisher_id@);
                        }
                    }
                }
                self.publishers.remove(i);
                proof {
                    lemma_remove_binding_keeps_distinct(oldp, i as int);
                    if old(self).publishers_consistent() {
                        assert forall|j: int|
                            0 <= j < self.spec_publishers().len() implies self.has_player(
                            (#[trigger] self.spec_publishers()[j]).player_id@,
                        ) by {
                            let k = i as int;
                            if j < k {
                                assert(self.spec_publishers()[j] == oldp[j]);
                            } else {
                                assert(self.spec_publishers()[j] == oldp[j + 1]);
                            }
                        }
                    }
                }
            },
            None => {},
        }
    }

    /// Every binding of the publisher index, as (publisher id, owning
    /// player id) pairs in index order.
    pub fn get_all_publishers(&self) -> (r: Vec<(String, String)>)
        ensures
            r@.len() == self.spec_publishers().len(),
            forall|i: int|
                0 <= i < r@.len() ==> #[trigger] r@[i].0 == self.spec_publishers()[i].publisher_id
                    && r@[i].1 == self.spec_publishers()[i].player_id,
    {
        let n = self.publishers.len();
        let mut r: Vec<(String, String)> = Vec::new();
        let mut i: usize = 0;
        while i < n
            invariant
                n == self.spec_publishers().len(),
                i <= n,
                r@.len() == i,
                forall|j: int|
                    0 <= j < i ==> #[trigger] r@[j].0 == self.spec_publishers()[j].publisher_id
                        && r@[j].1 == self.spec_publishers()[j].player_id,
            decreases n - i,
        {
            r.push(
                (self.publishers[i].publisher_id.clone(), self.publishers[i].player_id.clone()),
            );
            i = i + 1;
        }
        r
    }
}

proof fn lemma_remove_keeps_distinct(s: Seq<PlayerEntry>, k: int)
    requires
        0 <= k < s.len(),
        distinct_ids(s),
        distinct_addrs(s),
    ensures
        distinct_ids(s.remove(k)),
        distinct_addrs(s.remove(k)),
{
    let t = s.remove(k);
    assert forall|i: int, j: int|
        #![trigger t[i], t[j]]
        0 <= i < j < t.len() implies t[i].data.id@ != t[j].data.id@ && t[i].addr != t[j].addr by {
        let i0 = if i < k { i } else { i + 1 };
        let j0 = if j < k { j } else { j + 1 };
        assert(t[i] == s[i0]);
        assert(t[j] == s[j0]);
    }
}

proof fn lemma_update_same_id_keeps_distinct(s: Seq<PlayerEntry>, k: int, e: PlayerEntry)
    requires
        0 <= k < s.len(),
        distinct_ids(s),
        distinct_addrs(s),
        e.data.id@ == s[k].data.id@,
        e.addr == s[k].addr,
    ensures
        distinct_ids(s.update(k, e)),
        distinct_addrs(s.update(k, e)),
{
    let t = s.update(k, e);
    assert forall|i: int, j: int|
        #![trigger t[i], t[j]]
        0 <= i < j < t.len() implies t[i].data.id@ != t[j].data.id@ && t[i].addr != t[j].addr by {
        assert(s[i].data.id@ == t[i].data.id@ && s[i].addr == t[i].addr);
        assert(s[j].data.id@ == t[j].data.id@ && s[j].addr == t[j].addr);
    }
}

proof fn lemma_push_binding_keeps_distinct(p: Seq<PublisherBinding>, b: PublisherBinding)
    requires
        distinct_bindings(p),
        !has_binding(p, b.publisher_id@),
    ensures
        distinct_bindings(p.push(b)),
{
    let t = p.push(b);
    assert forall|i: int, j: int|
        #![trigger t[i], t[j]]
        0 <= i < j < t.len() implies t[i].publisher_id@ != t[j].publisher_id@ by {
        if j < p.len() {
            assert(t[i] == p[i] && t[j] == p[j]);
        } else {
            assert(t[j] == b);
            assert(t[i] == p[i]);
            assert(!(p[i].publisher_id@ == b.publisher_id@));
        }
    }
}

proof fn lemma_update_same_binding_keeps_distinct(
    p: Seq<PublisherBinding>,
    k: int,
    b: PublisherBinding,
)
    requires
        0 <= k < p.len(),
        distinct_bindings(p),
        b.publisher_id@ == p[k].publisher_id@,
    ensures
        distinct_bindings(p.update(k, b)),
{
    let t = p.update(k, b);
    assert forall|i: int, j: int|
        #![trigger t[i], t[j]]
        0 <= i < j < t.len() implies t[i].publisher_id@ != t[j].publisher_id@ by {
        assert(p[i].publisher_id@ == t[i].publisher_id@);
        assert(p[j].publisher_id@ == t[j].publisher_id@);
    }
}

proof fn lemma_remove_binding_keeps_distinct(p: Seq<PublisherBinding>, k: int)
    requires
        0 <= k < p.len(),
        distinct_bindings(p),
    ensures
        distinct_bindings(p.remove(k)),
{
    let t = p.remove(k);
    assert forall|i: int, j: int|
        #![trigger t[i], t[j]]
        0 <= i < j < t.len() implies t[i].publisher_id@ != t[j].publisher_id@ by {
        let i0 = if i < k { i } else { i + 1 };
        let j0 = if j < k { j } else { j + 1 };
        assert(t[i] == p[i0]);
        assert(t[j] == p[j0]);
    }
}

/// Helper for [`Room::add_player`]: the key-replacing insertion keeps the
/// room well-formed when the inserted entry's address is fresh.
proof fn assert_upsert_wf(s: Seq<PlayerEntry>, e: PlayerEntry, addr: u64)
    requires
        distinct_ids(s),
        distinct_addrs(s),
        e.addr == addr,
        !has_addr(s, addr),
    ensures
        distinct_ids(upsert_entry(s, e)),
        distinct_addrs(upsert_entry(s, e)),
{
    let t = upsert_entry(s, e);
    if has_id(s, e.data.id@) {
        let k = id_index(s, e.data.id@);
        assert(0 <= k < s.len() && s[k].data.id@ == e.data.id@);
        assert forall|i: int, j: int|
            #![trigger t[i], t[j]]
            0 <= i < j < t.len() implies t[i].data.id@ != t[j].data.id@ && t[i].addr
            != t[j].addr by {
            if i != k && j != k {
                assert(t[i] == s[i] && t[j] == s[j]);
            } else if i == k {
                assert(t[i].data.id@ == s[k].data.id@);
                assert(t[j] == s[j]);
                assert(s[j].addr != addr);
            } else {
                assert(t[j].data.id@ == s[k].data.id@);
                assert(t[i] == s[i]);
                assert(s[i].addr != addr);
            }
        }
    } else {
        assert forall|i: int, j: int|
            #![trigger t[i], t[j]]
            0 <= i < j < t.len() implies t[i].data.id@ != t[j].data.id@ && t[i].addr
            != t[j].addr by {
            if j < s.len() {
                assert(t[i] == s[i] && t[j] == s[j]);
            } else {
                assert(t[j] == e);
                assert(t[i] == s[i]);
                assert(!(s[i].data.id@ == e.data.id@));
                assert(s[i].addr != addr);
            }
        }
    }
}

/// Removal by key on the publisher index: the binding holding the id
/// leaves, a missing id is a no-op.
pub open spec fn remove_binding_seq(p: Seq<PublisherBinding>, pid: Seq<char>) -> Seq<
    PublisherBinding,
> {
    if has_binding(p, pid) {
        p.remove(binding_index(p, pid))
    } else {
        p
    }
}

/// The publisher index after unregistering each id of `ids` in turn.
pub open spec fn unregister_all(p: Seq<PublisherBinding>, ids: Seq<String>) -> Seq<
    PublisherBinding,
>
    decreases ids.len(),
{
    if ids.len() == 0 {
        p
    } else {
        remove_binding_seq(unregister_all(p, ids.drop_last()), ids.last()@)
    }
}

/// What unregistering a set of ids leaves behind: only bindings that were
/// already there, none of them carrying an unregistered id, still without
/// duplicates.
pub proof fn lemma_unregister_all_props(p: Seq<PublisherBinding>, ids: Seq<String>)
    requires
        distinct_bindings(p),
    ensures
        distinct_bindings(unregister_all(p, ids)),
        forall|i: int|
            0 <= i < unregister_all(p, ids).len() ==> p.contains(
                #[trigger] unregister_all(p, ids)[i],
            ),
        forall|i: int, k: int|
            0 <= i < unregister_all(p, ids).len() && 0 <= k < ids.len() ==> (
            #[trigger] unregister_all(p, ids)[i]).publisher_id@ != (#[trigger] ids[k])@,
    decreases ids.len(),
{
    if ids.len() > 0 {
        let front = ids.drop_last();
        lemma_unregister_all_props(p, front);
        let u = unregister_all(p, front);
        let last = ids.last()@;
        let t = unregister_all(p, ids);
        assert(t == remove_binding_seq(u, last));
        if has_binding(u, last) {
            let k = binding_index(u, last);
            assert(0 <= k < u.len() && u[k].publisher_id@ == last);
            lemma_remove_binding_keeps_distinct(u, k);
            assert forall|i: int| 0 <= i < t.len() implies p.contains(#[trigger] t[i]) by {
                let i0 = if i < k { i } else { i + 1 };
                assert(t[i] == u[i0]);
                assert(p.contains(u[i0]));
            }
            assert forall|i: int, m: int|
                0 <= i < t.len() && 0 <= m < ids.len() implies (#[trigger] t[i]).publisher_id@
                != (#[trigger] ids[m])@ by {
                let i0 = if i < k { i } else { i + 1 };
                assert(t[i] == u[i0]);
                if m < ids.len() - 1 {
                    assert(front[m] == ids[m]);
                    assert(u[i0].publisher_id@ != front[m]@);
                } else {
                    assert(ids[m] == ids.last());
                    if u[i0].publisher_id@ == last {
                        if i0 < k {
                            assert(u[i0].publisher_id@ != u[k].publisher_id@);
                        } else {
                            assert(u[k].publisher_id@ != u[i0].publisher_id@);
                        }
                    }
                }
            }
        } else {
            assert(t == u);
            assert forall|i: int| 0 <= i < t.len() implies p.contains(#[trigger] t[i]) by {
                assert(t[i] == u[i]);
                assert(p.contains(u[i]));
            }
            assert forall|i: int, m: int|
                0 <= i < t.len() && 0 <= m < ids.len() implies (#[trigger] t[i]).publisher_id@
                != (#[trigger] ids[m])@ by {
                assert(t[i] == u[i]);
                if m < ids.len() - 1 {
                    assert(front[m] == ids[m]);
                    assert(u[i].publisher_id@ != front[m]@);
                } else {
                    assert(ids[m] == ids.last());
                    if u[i].publisher_id@ == last {
                        assert(has_binding(u, last));
                    }
                }
            }
        }
    }
}

/// Removing one member leaves every other player id in the membership.
pub proof fn lemma_remove_entry_keeps_other_players(s: Seq<PlayerEntry>, k: int)
    requires
        0 <= k < s.len(),
    ensures
        forall|id: Seq<char>|
            has_id(s, id) && id != s[k].data.id@ ==> #[trigger] has_id(s.remove(k), id),
{
    let t = s.remove(k);
    assert forall|id: Seq<char>| has_id(s, id) && id != s[k].data.id@ implies #[trigger] has_id(
        t,
        id,
    ) by {
        let w = choose|w: int| 0 <= w < s.len() && s[w].data.id@ == id;
        assert(0 <= w < s.len() && s[w].data.id@ == id);
        assert(w != k);
        if w < k {
            assert(t[w] == s[w]);
        } else {
            assert(t[w - 1] == s[w]);
        }
    }
}

/// The key-replacing insertion leaves the inserted entry as the one and
/// only holder of its id and of its address.
pub proof fn lemma_upsert_entry_found(s: Seq<PlayerEntry>, e: PlayerEntry)
    requires
        distinct_ids(s),
        distinct_addrs(s),
        !has_addr(s, e.addr),
    ensures
        has_id(upsert_entry(s, e), e.data.id@),
        upsert_entry(s, e)[id_index(upsert_entry(s, e), e.data.id@)] == e,
        has_addr(upsert_entry(s, e), e.addr),
        upsert_entry(s, e)[addr_index(upsert_entry(s, e), e.addr)] == e,
{
    let t = upsert_entry(s, e);
    if has_id(s, e.data.id@) {
        let k = id_index(s, e.data.id@);
        assert(0 <= k < s.len() && s[k].data.id@ == e.data.id@);
        assert(t == s.update(k, e));
        assert(t[k] == e);
        let m = id_index(t, e.data.id@);
        assert(0 <= m < t.len() && t[m].data.id@ == e.data.id@);
        if m != k {
            assert(t[m] == s[m]);
            if m < k {
                assert(s[m].data.id@ != s[k].data.id@);
            } else {
                assert(s[k].data.id@ != s[m].data.id@);
            }
        }
        let a = addr_index(t, e.addr);
        assert(0 <= a < t.len() && t[a].addr == e.addr);
        if a != k {
            assert(t[a] == s[a]);
            assert(!(s[a].addr == e.addr));
        }
    } else {
        let k = s.len() as int;
        assert(t == s.push(e));
        assert(t[k] == e);
        let m = id_index(t, e.data.id@);
        assert(0 <= m < t.len() && t[m].data.id@ == e.data.id@);
        if m != k {
            assert(t[m] == s[m]);
            assert(has_id(s, e.data.id@));
        }
        let a = addr_index(t, e.addr);
        assert(0 <= a < t.len() && t[a].addr == e.addr);
        if a != k {
            assert(t[a] == s[a]);
            assert(!(s[a].addr == e.addr));
        }
    }
}

/// Every address in the peer list belongs to a member whose id is not the
/// excluded one.
pub proof fn lemma_peer_addrs_sound(s: Seq<PlayerEntry>, id: Seq<char>)
    ensures
        forall|k: int|
            0 <= k < peer_addrs(s, id).len() ==> exists|i: int|
                0 <= i < s.len() && s[i].data.id@ != id && s[i].addr == #[trigger] peer_addrs(
                    s,
                    id,
                )[k],
    decreases s.len(),
{
    if s.len() > 0 {
        lemma_peer_addrs_sound(s.drop_last(), id);
        let front = s.drop_last();
        assert forall|k: int|
            0 <= k < peer_addrs(s, id).len() implies exists|i: int|
            0 <= i < s.len() && s[i].data.id@ != id && s[i].addr == #[trigger] peer_addrs(
                s,
                id,
            )[k] by {
            if k < peer_addrs(front, id).len() {
                assert(peer_addrs(s, id)[k] == peer_addrs(front, id)[k]);
                let i = choose|i: int|
                    0 <= i < front.len() && front[i].data.id@ != id && front[i].addr == peer_addrs(
                        front,
                        id,
                    )[k];
                assert(s[i] == front[i]);
            } else {
                assert(s.last().data.id@ != id);
                assert(peer_addrs(s, id)[k] == s.last().addr);
                assert(s[s.len() - 1] == s.last());
            }
        }
    }
}

/// Every other member's address is in the peer list.
pub proof fn lemma_peer_addrs_complete(s: Seq<PlayerEntry>, id: Seq<char>)
    ensures
        forall|i: int|
            0 <= i < s.len() && (#[trigger] s[i]).data.id@ != id ==> peer_addrs(s, id).contains(
                s[i].addr,
            ),
    decreases s.len(),
{
    if s.len() > 0 {
        lemma_peer_addrs_complete(s.drop_last(), id);
        let front = s.drop_last();
        assert forall|i: int|
            0 <= i < s.len() && (#[trigger] s[i]).data.id@ != id implies peer_addrs(
            s,
            id,
        ).contains(s[i].addr) by {
            if i < s.len() - 1 {
                assert(s[i] == front[i]);
                assert(peer_addrs(front, id).contains(front[i].addr));
                let k = choose|k: int|
                    0 <= k < peer_addrs(front, id).len() && peer_addrs(front, id)[k] == front[
                        i
                    ].addr;
                if s.last().data.id@ == id {
                    assert(peer_addrs(s, id)[k] == front[i].addr);
                } else {
                    assert(peer_addrs(s, id)[k] == front[i].addr);
                }
            } else {
                assert(s[i] == s.last());
                let pa = peer_addrs(s, id);
                assert(pa[pa.len() - 1] == s.last().addr);
            }
        }
    }
}

} // verus!
