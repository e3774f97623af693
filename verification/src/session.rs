//! The per-connection session state machine.
//!
//! A session is the server-side state attached to one client connection.
//! It is driven from outside by plain events: the lifecycle hooks
//! (`on_started`, `on_stopped`), the client's decoded frames
//! (`handle_frame`), and the completion reports of SFU work that the
//! driver performed on its behalf. Every entry point returns the frames
//! to enqueue — each addressed to a session inbox — and the SFU commands
//! to perform; the session itself never touches a socket or a transport.

use vstd::prelude::*;

use crate::ice::{clone_ice_configs, ice_lists_equiv, IceServerConfig};
use crate::player::{PlayerData, Position};
use crate::protocol::{broadcast_to, Outbound, ReceivedMessage, SendingMessage, SfuCommand};
use crate::room::{
    addr_index, has_id, joined_entry, lemma_peer_addrs_sound, lemma_remove_entry_keeps_other_players,
    lemma_unregister_all_props, lemma_upsert_entry_found, peer_addrs, remove_binding_seq,
    unregister_all, upsert_binding, upsert_entry, PlayerEntry, PublisherBinding, Room,
};
use crate::strings::{
    distinct_strs, seq_contains_str, str_eq, str_index, vec_contains_str, vec_remove_str,
};

verus! {

/// Lifecycle of a session: the connection is upgraded (`Connecting`),
/// the player is registered with its room (`Registered`), teardown has
/// begun and close commands are outstanding (`Closing`), teardown is
/// finished (`Closed`).
#[derive(PartialEq, Eq, Structural, Clone, Copy, Debug)]
pub enum SessionPhase {
    Connecting,
    Registered,
    Closing,
    Closed,
}

/// What one step of the state machine asks of the outside: frames to
/// enqueue and SFU commands to perform.
pub struct Step {
    pub out: Vec<Outbound>,
    pub commands: Vec<SfuCommand>,
}

/// What teardown asks of the outside, and whether the room was left
/// empty (in which case the caller asks the registry to remove it).
pub struct CloseActions {
    pub out: Vec<Outbound>,
    pub commands: Vec<SfuCommand>,
    pub room_now_empty: bool,
}

/// How many subscription attempts are made before giving up.
pub const SUBSCRIBE_MAX_ATTEMPTS: u8 = 5;

/// How long the driver waits for the SFU to confirm a publication before
/// giving the attempt up, in seconds.
pub const PUBLISH_TIMEOUT_SECS: u64 = 30;

/// The pause before subscription attempt `a` (counting from zero): no
/// pause before the first attempt, then an exponential backoff with base
/// 100 ms — 100, 200, 400, 800.
pub open spec fn spec_backoff_ms(a: int) -> int {
    if a == 1 {
        100
    } else if a == 2 {
        200
    } else if a == 3 {
        400
    } else if a == 4 {
        800
    } else {
        0
    }
}

/// What to do after a failed subscription attempt: pause and retry, or
/// give up and report the failure to the client.
#[derive(PartialEq, Eq, Structural, Clone, Copy, Debug)]
pub enum RetryDecision {
    RetryAfterMs(u64),
    GiveUp,
}

/// Bookkeeping for one client-requested subscription with bounded retry:
/// up to [`SUBSCRIBE_MAX_ATTEMPTS`] attempts, exponential backoff between
/// them, and the last error kept for the failure report.
pub struct SubscribeRetry {
    pub publisher_id: String,
    pub attempts_made: u8,
    pub last_error: String,
}

impl SubscribeRetry {
    pub fn start(publisher_id: String) -> (r: SubscribeRetry)
        ensures
            r.publisher_id == publisher_id,
            r.attempts_made == 0,
            r.last_error@ == Seq::<char>::empty(),
    {
        SubscribeRetry { publisher_id, attempts_made: 0, last_error: String::new() }
    }

    /// Record that one attempt failed with this error; decide whether to
    /// pause and retry, and for how long, or to give up.
    pub fn record_failure(&mut self, error: String) -> (r: RetryDecision)
        requires
            old(self).attempts_made < SUBSCRIBE_MAX_ATTEMPTS,
        ensures
            final(self).publisher_id == old(self).publisher_id,
            final(self).attempts_made == old(self).attempts_made + 1,
            final(self).last_error == error,
            final(self).attempts_made < SUBSCRIBE_MAX_ATTEMPTS ==> r == RetryDecision::RetryAfterMs(
                spec_backoff_ms(old(self).attempts_made + 1) as u64,
            ),
            final(self).attempts_made == SUBSCRIBE_MAX_ATTEMPTS ==> r == RetryDecision::GiveUp,
    {
        self.attempts_made = self.attempts_made + 1;
        self.last_error = error;
        if self.attempts_made < SUBSCRIBE_MAX_ATTEMPTS {
            let delay: u64 = if self.attempts_made == 1 {
                100
            } else if self.attempts_made == 2 {
                200
            } else if self.attempts_made == 3 {
                400
            } else {
                800
            };
            RetryDecision::RetryAfterMs(delay)
        } else {
            RetryDecision::GiveUp
        }
    }

    /// The failure report sent once every attempt is exhausted: a
    /// `subscribeFailed` frame to the subscribing client itself, carrying
    /// the requested publisher id and the last error seen.
    pub fn give_up_frames(&self, session_addr: u64) -> (out: Vec<Outbound>)
        requires
            self.attempts_made == SUBSCRIBE_MAX_ATTEMPTS,
        ensures
            out@ == seq![
                (Outbound {
                    to: session_addr,
                    frame: SendingMessage::SubscribeFailed {
                        publisher_id: self.publisher_id,
                        error: self.last_error,
                    },
                }),
            ],
    {
        let mut out: Vec<Outbound> = Vec::new();
        out.push(
            Outbound {
                to: session_addr,
                frame: SendingMessage::SubscribeFailed {
                    publisher_id: self.publisher_id.clone(),
                    error: self.last_error.clone(),
                },
            },
        );
        out
    }
}

/// The `unpublished` fan-out of teardown: for each owned publisher in
/// turn, one `Unpublished` frame to every peer.
pub open spec fn unpublished_frames(owned: Seq<String>, peers: Seq<u64>) -> Seq<Outbound>
    decreases owned.len(),
{
    if owned.len() == 0 {
        Seq::empty()
    } else {
        unpublished_frames(owned.drop_last(), peers) + broadcast_to(
            peers,
            SendingMessage::Unpublished { publisher_id: owned.last() },
        )
    }
}

/// The close commands of teardown: one per owned publisher, in order.
pub open spec fn close_publisher_commands(ids: Seq<String>) -> Seq<SfuCommand> {
    ids.map_values(|s: String| SfuCommand::ClosePublisher { publisher_id: s })
}

/// The distinct owning player ids of the publisher index, in order of
/// first appearance.
pub open spec fn player_ids_in_order(p: Seq<PublisherBinding>) -> Seq<Seq<char>>
    decreases p.len(),
{
    if p.len() == 0 {
        Seq::empty()
    } else {
        let rest = player_ids_in_order(p.drop_last());
        if rest.contains(p.last().player_id@) {
            rest
        } else {
            rest.push(p.last().player_id@)
        }
    }
}

/// The publisher ids the index binds to one player, in index order.
pub open spec fn publishers_of(p: Seq<PublisherBinding>, pid: Seq<char>) -> Seq<Seq<char>>
    decreases p.len(),
{
    if p.len() == 0 {
        Seq::empty()
    } else {
        let rest = publishers_of(p.drop_last(), pid);
        if p.last().player_id@ == pid {
            rest.push(p.last().publisher_id@)
        } else {
            rest
        }
    }
}

/// The `published` summary a fresh subscriber receives: the room's
/// publisher index grouped by owning player, one frame per player, each
/// addressed to `to`.
#[verifier::loop_isolation(false)]
fn grouped_published_frames(room: &Room, to: u64) -> (out: Vec<Outbound>)
    ensures
        out@.len() == player_ids_in_order(room.spec_publishers()).len(),
        forall|g: int|
            0 <= g < out@.len() ==> (#[trigger] out@[g]).to == to && (out@[g].frame
                matches SendingMessage::Published { publisher_ids, player_id } && player_id@
                == player_ids_in_order(room.spec_publishers())[g] && publisher_ids@.map_values(
                |s: String| s@,
            ) == publishers_of(room.spec_publishers(), player_id@)),
{
    let ghost pubs = room.spec_publishers();
    let bindings = room.get_all_publishers();
    let n = bindings.len();

    let mut players_u: Vec<String> = Vec::new();
    let mut b: usize = 0;
    while b < n
        invariant
            b <= n,
            players_u@.map_values(|s: String| s@) == player_ids_in_order(
                pubs.subrange(0, b as int),
            ),
        decreases n - b,
    {
        let ghost prefix = pubs.subrange(0, b as int);
        let ghost m = players_u@.map_values(|s: String| s@);
        let ghost x = pubs[b as int].player_id@;
        proof {
            assert(bindings@[b as int].0 == pubs[b as int].publisher_id);
            assert(bindings@[b as int].1 == pubs[b as int].player_id);
            if seq_contains_str(players_u@, x) {
                let i = str_index(players_u@, x);
                assert(0 <= i < players_u@.len() && players_u@[i]@ == x);
                assert(m[i] == x);
                assert(m.contains(x));
            }
            if m.contains(x) {
                let i = choose|i: int| 0 <= i < m.len() && m[i] == x;
                assert(players_u@[i]@ == x);
                assert(seq_contains_str(players_u@, x));
            }
        }
        if !vec_contains_str(&players_u, bindings[b].1.as_str()) {
            players_u.push(bindings[b].1.clone());
            proof {
                assert(players_u@.map_values(|s: String| s@) =~= m.push(x));
            }
        }
        proof {
            let ext = pubs.subrange(0, b + 1 as int);
            assert(ext.drop_last() =~= prefix);
            assert(ext.last() == pubs[b as int]);
        }
        b = b + 1;
    }
    proof {
        assert(pubs.subrange(0, n as int) =~= pubs);
    }

    let groups = players_u.len();
    let mut out: Vec<Outbound> = Vec::new();
    let mut g: usize = 0;
    while g < groups
        invariant
            g <= groups,
            out@.len() == g,
            forall|h: int|
                0 <= h < g ==> (#[trigger] out@[h]).to == to && (out@[h].frame
                    matches SendingMessage::Published { publisher_ids, player_id } && player_id@
                    == player_ids_in_order(pubs)[h] && publisher_ids@.map_values(|s: String| s@)
                    == publishers_of(pubs, player_id@)),
        decreases groups - g,
    {
        let ghost pid = players_u@[g as int]@;
        proof {
            assert(players_u@.map_values(|s: String| s@)[g as int] == pid);
            assert(player_ids_in_order(pubs)[g as int] == pid);
        }
        let mut ids: Vec<String> = Vec::new();
        let mut b2: usize = 0;
        while b2 < n
            invariant
                b2 <= n,
                ids@.map_values(|s: String| s@) == publishers_of(pubs.subrange(0, b2 as int), pid),
            decreases n - b2,
        {
            let ghost prefix = pubs.subrange(0, b2 as int);
            let ghost m2 = ids@.map_values(|s: String| s@);
            proof {
                assert(bindings@[b2 as int].0 == pubs[b2 as int].publisher_id);
                assert(bindings@[b2 as int].1 == pubs[b2 as int].player_id);
            }
            if str_eq(bindings[b2].1.as_str(), players_u[g].as_str()) {
                ids.push(bindings[b2].0.clone());
                proof {
                    assert(ids@.map_values(|s: String| s@) =~= m2.push(
                        pubs[b2 as int].publisher_id@,
                    ));
                }
            }
            proof {
                let ext = pubs.subrange(0, b2 + 1 as int);
                assert(ext.drop_last() =~= prefix);
                assert(ext.last() == pubs[b2 as int]);
            }
            b2 = b2 + 1;
        }
        proof {
            assert(pubs.subrange(0, n as int) =~= pubs);
        }
        out.push(
            Outbound {
                to,
                frame: SendingMessage::Published {
                    publisher_ids: ids,
                    player_id: players_u[g].clone(),
                },
            },
        );
        g = g + 1;
    }
    out
}

/// Per-connection session state.
pub struct Session {
    /// The session's own inbox handle; frames addressed to it are
    /// forwarded to this session's client.
    pub addr: u64,
    /// The player id the room assigned, empty until registration.
    pub player_id: String,
    /// The prototype provided at construction; its `id` stays empty, the
    /// room's copy carries the assigned id.
    pub player_data: PlayerData,
    /// The serializable ICE server list forwarded to the client at join.
    pub ice_servers: Vec<IceServerConfig>,
    /// Ids of the publishers this session created and must close.
    pub owned_publishers: Vec<String>,
    /// Ids of the subscribers this session created and must close.
    pub owned_subscribers: Vec<String>,
    pub phase: SessionPhase,
}

impl Session {
    /// The session's bookkeeping is well-formed: each owned id listed
    /// once.
    pub open spec fn wf(self) -> bool {
        &&& distinct_strs(self.owned_publishers@)
        &&& distinct_strs(self.owned_subscribers@)
    }

    /// The session's player is a member of the room: its address is
    /// registered and carries the session's player id.
    pub open spec fn registered_in(self, room: Room) -> bool {
        &&& room.has_member_addr(self.addr)
        &&& room.spec_players()[addr_index(room.spec_players(), self.addr)].data.id@
            == self.player_id@
    }

    /// A new session, not yet registered with its room.
    pub fn new(addr: u64, player_data: PlayerData, ice_servers: Vec<IceServerConfig>) -> (r:
        Session)
        ensures
            r.addr == addr,
            r.player_id@ == Seq::<char>::empty(),
            r.player_data == player_data,
            r.ice_servers == ice_servers,
            r.owned_publishers@ == Seq::<String>::empty(),
            r.owned_subscribers@ == Seq::<String>::empty(),
            r.phase == SessionPhase::Connecting,
            r.wf(),
    {
        Session {
            addr,
            player_id: String::new(),
            player_data,
            ice_servers,
            owned_publishers: Vec::new(),
            owned_subscribers: Vec::new(),
            phase: SessionPhase::Connecting,
        }
    }

    /// Registration: the session enters the room and the join is fanned
    /// out.
    ///
    /// The room assigns the player id; the joining client is sent exactly
    /// one `RoomState` frame — its own id, the full member list (itself
    /// included), the room theme and the ICE server list — and it is the
    /// first and only frame addressed to the joiner. Every peer is sent
    /// exactly one `PlayerJoined` frame carrying the new player's data;
    /// the joiner is never among its recipients.
    pub fn on_started(&mut self, room: &mut Room) -> (out: Vec<Outbound>)
        requires
            old(self).phase == SessionPhase::Connecting,
            old(room).wf(),
            !old(room).has_member_addr(old(self).addr),
        ensures
            final(self).phase == SessionPhase::Registered,
            final(self).addr == old(self).addr,
            final(self).player_data == old(self).player_data,
            final(self).ice_servers == old(self).ice_servers,
            final(self).owned_publishers == old(self).owned_publishers,
            final(self).owned_subscribers == old(self).owned_subscribers,
            final(self).wf() == old(self).wf(),
            final(self).player_id@.len() == 36,
            final(room).wf(),
            final(room).id == old(room).id,
            final(room).theme == old(room).theme,
            final(room).router == old(room).router,
            final(room).spec_publishers() == old(room).spec_publishers(),
            exists|e: PlayerEntry|
                joined_entry(e, old(self).addr, old(self).player_data, final(self).player_id@)
                    && final(room).spec_players() == #[trigger] upsert_entry(
                    old(room).spec_players(),
                    e,
                ),
            !has_id(old(room).spec_players(), final(self).player_id@) ==> final(room).player_count() == old(room).player_count() + 1,
            final(self).registered_in(*final(room)),
            ({
                let peers = peer_addrs(final(room).spec_players(), final(self).player_id@);
                &&& out@.len() == 1 + peers.len()
                &&& out@[0].to == old(self).addr
                &&& (out@[0].frame matches SendingMessage::RoomState {
                    your_player_id,
                    players,
                    room_theme,
                    ice_servers,
                } && your_player_id@ == final(self).player_id@ && players@ == final(room).spec_players().map_values(|e: PlayerEntry| e.data) && room_theme == final(room).theme && ice_lists_equiv(ice_servers@, old(self).ice_servers@))
                &&& forall|k: int|
                    1 <= k < out@.len() ==> (#[trigger] out@[k]).to == peers[k - 1]
                &&& forall|k: int|
                    1 <= k < out@.len() ==> ((#[trigger] out@[k]).frame
                        matches SendingMessage::PlayerJoined { player } && player.id@ == final(self).player_id@ && player.name == old(self).player_data.name && player.color
                        == old(self).player_data.color && player.activity == old(self).player_data.activity && player.facial_features == old(self).player_data.facial_features && player.position == Position::spec_origin()
                        && player.rotation == 0 && !player.is_moving)
                &&& forall|k: int| 1 <= k < out@.len() ==> (#[trigger] out@[k]).to != old(self).addr
            }),
    {
        let ghost olds = room.spec_players();
        let pid = room.add_player(self.addr, &self.player_data);
        self.player_id = pid;
        self.phase = SessionPhase::Registered;
        proof {
            let e = choose|e: PlayerEntry|
                joined_entry(e, self.addr, self.player_data, self.player_id@)
                    && room.spec_players() == #[trigger] upsert_entry(olds, e);
            lemma_upsert_entry_found(olds, e);
            assert(room.spec_players()[addr_index(room.spec_players(), self.addr)] == e);
            assert(self.registered_in(*room));
        }
        let players = room.get_all_players();
        let theme = room.theme.clone();
        let ice_servers = clone_ice_configs(&self.ice_servers);
        let mut out: Vec<Outbound> = Vec::new();
        out.push(
            Outbound {
                to: self.addr,
                frame: SendingMessage::RoomState {
                    your_player_id: self.player_id.clone(),
                    players,
                    room_theme: theme,
                    ice_servers,
                },
            },
        );
        let ghost e = choose|e: PlayerEntry|
            joined_entry(e, self.addr, self.player_data, self.player_id@) && room.spec_players()
                == #[trigger] upsert_entry(olds, e);
        proof {
            lemma_upsert_entry_found(olds, e);
        }
        match room.get_player_data(self.player_id.as_str()) {
            Some(d) => {
                proof {
                    let i = choose|i: int|
                        0 <= i < room.spec_players().len() && room.spec_players()[i].data.id@
                            == self.player_id@ && d == room.spec_players()[i].data;
                    let k = crate::room::id_index(room.spec_players(), self.player_id@);
                    assert(room.spec_players()[k] == e);
                    assert(i == k) by {
                        if i != k {
                            assert(room.spec_players()[i].data.id@
                                != room.spec_players()[k].data.id@);
                        }
                    }
                    assert(d == e.data);
                }
                let peers = room.get_peers(self.player_id.as_str());
                proof {
                    lemma_peer_addrs_sound(room.spec_players(), self.player_id@);
                }
                let n = peers.len();
                let mut k: usize = 0;
                while k < n
                    invariant
                        n == peers@.len(),
                        k <= n,
                        out@.len() == 1 + k,
                        out@[0].to == self.addr,
                        (out@[0].frame matches SendingMessage::RoomState {
                            your_player_id,
                            players,
                            room_theme,
                            ice_servers,
                        } && your_player_id@ == self.player_id@ && players@ == room.spec_players(
                        ).map_values(|e: PlayerEntry| e.data) && room_theme == room.theme
                            && ice_lists_equiv(ice_servers@, self.ice_servers@)),
                        forall|m: int| 1 <= m < out@.len() ==> (#[trigger] out@[m]).to == peers@[m
                            - 1],
                        forall|m: int|
                            1 <= m < out@.len() ==> (#[trigger] out@[m]).frame
                                == (SendingMessage::PlayerJoined { player: d }),
                    decreases n - k,
                {
                    out.push(
                        Outbound {
                            to: peers[k],
                            frame: SendingMessage::PlayerJoined { player: d.clone() },
                        },
                    );
                    k = k + 1;
                }
                proof {
                    let peers_s = peer_addrs(room.spec_players(), self.player_id@);
                    assert forall|m: int| 1 <= m < out@.len() implies (#[trigger] out@[m]).to
                        != self.addr by {
                        let pk = choose|i: int|
                            0 <= i < room.spec_players().len() && room.spec_players()[i].data.id@
                                != self.player_id@ && room.spec_players()[i].addr == peers_s[m - 1];
                        let sk = addr_index(room.spec_players(), self.addr);
                        if room.spec_players()[pk].addr == self.addr {
                            assert(room.spec_players()[sk].data.id@ == self.player_id@);
                            if pk != sk {
                                assert(room.spec_players()[pk].addr
                                    != room.spec_players()[sk].addr);
                            }
                        }
                    }
                }
                out
            },
            None => {
                proof {
                    assert(room.has_player(self.player_id@));
                    assert(false);
                }
                out
            },
        }
    }

    /// One inbound signaling frame, translated into frames to enqueue and
    /// SFU commands to perform.
    ///
    /// Pure routing frames (`ping`, chat, movement, animation, the
    /// subscriber's `published` summary) are answered directly; frames
    /// that need the SFU (offers, answers, candidates, publish and
    /// subscribe requests, closes) become commands, whose outcomes come
    /// back through the completion entry points.
    #[verifier::loop_isolation(false)]
    pub fn handle_frame(&mut self, room: &mut Room, msg: ReceivedMessage) -> (r: Step)
        requires
            old(self).phase == SessionPhase::Registered,
            old(self).wf(),
            old(room).wf(),
            old(self).registered_in(*old(room)),
        ensures
            final(self).addr == old(self).addr,
            final(self).player_id == old(self).player_id,
            final(self).player_data == old(self).player_data,
            final(self).ice_servers == old(self).ice_servers,
            final(self).phase == old(self).phase,
            final(self).wf(),
            final(self).owned_publishers == old(self).owned_publishers || (
            msg matches ReceivedMessage::StopPublish { .. }),
            final(self).owned_subscribers == old(self).owned_subscribers || (
            msg matches ReceivedMessage::StopSubscribe { .. }),
            final(room).wf(),
            final(room).id == old(room).id,
            final(room).theme == old(room).theme,
            final(room).router == old(room).router,
            final(self).registered_in(*final(room)),
            old(room).publishers_consistent() ==> final(room).publishers_consistent(),
            match msg {
                ReceivedMessage::Ping => {
                    &&& *final(room) == *old(room)
                    &&& r.out@ == seq![
                        (Outbound { to: old(self).addr, frame: SendingMessage::Pong }),
                    ]
                    &&& r.commands@ == Seq::<SfuCommand>::empty()
                },
                ReceivedMessage::PublisherInit => {
                    &&& *final(room) == *old(room)
                    &&& r.out@ == Seq::<Outbound>::empty()
                    &&& r.commands@ == seq![SfuCommand::InstallPublisherIceHandler]
                },
                ReceivedMessage::SubscriberInit => {
                    &&& *final(room) == *old(room)
                    &&& r.commands@ == seq![SfuCommand::InstallSubscriberHandlers]
                    &&& r.out@.len() == player_ids_in_order(old(room).spec_publishers()).len()
                    &&& forall|g: int|
                        0 <= g < r.out@.len() ==> (#[trigger] r.out@[g]).to == old(self).addr && (
                        r.out@[g].frame matches SendingMessage::Published {
                            publisher_ids,
                            player_id,
                        } && player_id@ == player_ids_in_order(old(room).spec_publishers())[g]
                            && publisher_ids@.map_values(|s: String| s@) == publishers_of(
                            old(room).spec_publishers(),
                            player_id@,
                        ))
                },
                ReceivedMessage::PublisherIce { candidate } => {
                    &&& *final(room) == *old(room)
                    &&& r.out@ == Seq::<Outbound>::empty()
                    &&& r.commands@ == seq![
                        (SfuCommand::AddPublisherIce { candidate: candidate }),
                    ]
                },
                ReceivedMessage::SubscriberIce { candidate } => {
                    &&& *final(room) == *old(room)
                    &&& r.out@ == Seq::<Outbound>::empty()
                    &&& r.commands@ == seq![
                        (SfuCommand::AddSubscriberIce { candidate: candidate }),
                    ]
                },
                ReceivedMessage::Offer { sdp } => {
                    &&& *final(room) == *old(room)
                    &&& r.out@ == Seq::<Outbound>::empty()
                    &&& r.commands@ == seq![(SfuCommand::RequestAnswer { offer_sdp: sdp })]
                },
                ReceivedMessage::Subscribe { publisher_id } => {
                    &&& *final(room) == *old(room)
                    &&& r.out@ == Seq::<Outbound>::empty()
                    &&& r.commands@ == seq![
                        (SfuCommand::StartSubscribe { publisher_id: publisher_id }),
                    ]
                },
                ReceivedMessage::Answer { sdp } => {
                    &&& *final(room) == *old(room)
                    &&& r.out@ == Seq::<Outbound>::empty()
                    &&& r.commands@ == seq![(SfuCommand::SetAnswer { answer_sdp: sdp })]
                },
                ReceivedMessage::Publish { publisher_id } => {
                    &&& *final(room) == *old(room)
                    &&& r.out@ == Seq::<Outbound>::empty()
                    &&& r.commands@ == seq![
                        (SfuCommand::StartPublish { publisher_id: publisher_id }),
                    ]
                },
                ReceivedMessage::StopPublish { publisher_id } => {
                    &&& final(self).owned_subscribers == old(self).owned_subscribers
                    &&& final(room).spec_players() == old(room).spec_players()
                    &&& if seq_contains_str(old(self).owned_publishers@, publisher_id@) {
                        &&& exists|i: int|
                            0 <= i < old(self).owned_publishers@.len() && (#[trigger] old(self).owned_publishers@[i])@ == publisher_id@ && final(self).owned_publishers@ == old(self).owned_publishers@.remove(i)
                        &&& final(room).spec_publishers() == remove_binding_seq(
                            old(room).spec_publishers(),
                            publisher_id@,
                        )
                        &&& r.out@ == broadcast_to(
                            peer_addrs(old(room).spec_players(), old(self).player_id@),
                            SendingMessage::Unpublished { publisher_id: publisher_id },
                        )
                        &&& r.commands@ == seq![
                            (SfuCommand::ClosePublisher { publisher_id: publisher_id }),
                        ]
                    } else {
                        &&& final(self).owned_publishers == old(self).owned_publishers
                        &&& *final(room) == *old(room)
                        &&& r.out@ == Seq::<Outbound>::empty()
                        &&& r.commands@ == Seq::<SfuCommand>::empty()
                    }
                },
                ReceivedMessage::StopSubscribe { subscriber_id } => {
                    &&& final(self).owned_publishers == old(self).owned_publishers
                    &&& *final(room) == *old(room)
                    &&& r.out@ == Seq::<Outbound>::empty()
                    &&& if seq_contains_str(old(self).owned_subscribers@, subscriber_id@) {
                        &&& exists|i: int|
                            0 <= i < old(self).owned_subscribers@.len() && (#[trigger] old(self).owned_subscribers@[i])@ == subscriber_id@ && final(self).owned_subscribers@ == old(self).owned_subscribers@.remove(i)
                        &&& r.commands@ == seq![
                            (SfuCommand::CloseSubscriber { subscriber_id: subscriber_id }),
                        ]
                    } else {
                        &&& final(self).owned_subscribers == old(self).owned_subscribers
                        &&& r.commands@ == Seq::<SfuCommand>::empty()
                    }
                },
                ReceivedMessage::ChatMessage { message } => {
                    &&& *final(room) == *old(room)
                    &&& r.out@ == broadcast_to(
                        old(room).spec_players().map_values(|e: PlayerEntry| e.addr),
                        SendingMessage::ChatMessage {
                            sender: old(self).player_data.name,
                            message: message,
                        },
                    )
                    &&& r.commands@ == Seq::<SfuCommand>::empty()
                },
                ReceivedMessage::PlayerMove { position, rotation, is_moving } => {
                    &&& final(room).spec_publishers() == old(room).spec_publishers()
                    &&& ({
                        let k = crate::room::id_index(
                            old(room).spec_players(),
                            old(self).player_id@,
                        );
                        let e0 = old(room).spec_players()[k];
                        final(room).spec_players() == old(room).spec_players().update(
                            k,
                            PlayerEntry {
                                addr: e0.addr,
                                data: PlayerData {
                                    position: position,
                                    rotation: rotation,
                                    is_moving: is_moving,
                                    ..e0.data
                                },
                            },
                        )
                    })
                    &&& r.out@ == broadcast_to(
                        peer_addrs(old(room).spec_players(), old(self).player_id@),
                        SendingMessage::PlayerMoved {
                            player_id: old(self).player_id,
                            position: position,
                            rotation: rotation,
                            is_moving: is_moving,
                        },
                    )
                    &&& r.commands@ == Seq::<SfuCommand>::empty()
                },
                ReceivedMessage::PlayAnimation { animation } => {
                    &&& *final(room) == *old(room)
                    &&& r.out@ == broadcast_to(
                        peer_addrs(old(room).spec_players(), old(self).player_id@),
                        SendingMessage::PlayerAnimation {
                            player_id: old(self).player_id,
                            animation: animation,
                        },
                    )
                    &&& r.commands@ == Seq::<SfuCommand>::empty()
                },
            },
    {
        match msg {
            ReceivedMessage::Ping => {
                let mut out: Vec<Outbound> = Vec::new();
                out.push(Outbound { to: self.addr, frame: SendingMessage::Pong });
                Step { out, commands: Vec::new() }
            },
            ReceivedMessage::PublisherInit => {
                let mut commands: Vec<SfuCommand> = Vec::new();
                commands.push(SfuCommand::InstallPublisherIceHandler);
                Step { out: Vec::new(), commands }
            },
            ReceivedMessage::SubscriberInit => {
                let mut commands: Vec<SfuCommand> = Vec::new();
                commands.push(SfuCommand::InstallSubscriberHandlers);
                let out = grouped_published_frames(room, self.addr);
                Step { out, commands }
            },
            ReceivedMessage::PublisherIce { candidate } => {
                let mut commands: Vec<SfuCommand> = Vec::new();
                commands.push(SfuCommand::AddPublisherIce { candidate });
                Step { out: Vec::new(), commands }
            },
            ReceivedMessage::SubscriberIce { candidate } => {
                let mut commands: Vec<SfuCommand> = Vec::new();
                commands.push(SfuCommand::AddSubscriberIce { candidate });
                Step { out: Vec::new(), commands }
            },
            ReceivedMessage::Offer { sdp } => {
                let mut commands: Vec<SfuCommand> = Vec::new();
                commands.push(SfuCommand::RequestAnswer { offer_sdp: sdp });
                Step { out: Vec::new(), commands }
            },
            ReceivedMessage::Subscribe { publisher_id } => {
                let mut commands: Vec<SfuCommand> = Vec::new();
                commands.push(SfuCommand::StartSubscribe { publisher_id });
                Step { out: Vec::new(), commands }
            },
            ReceivedMessage::Answer { sdp } => {
                let mut commands: Vec<SfuCommand> = Vec::new();
                commands.push(SfuCommand::SetAnswer { answer_sdp: sdp });
                Step { out: Vec::new(), commands }
            },
            ReceivedMessage::Publish { publisher_id } => {
                let mut commands: Vec<SfuCommand> = Vec::new();
                commands.push(SfuCommand::StartPublish { publisher_id });
                Step { out: Vec::new(), commands }
            },
            ReceivedMessage::StopPublish { publisher_id } => {
                if vec_contains_str(&self.owned_publishers, publisher_id.as_str()) {
                    let ghost oldowned = self.owned_publishers@;
                    vec_remove_str(&mut self.owned_publishers, publisher_id.as_str());
                    proof {
                        let i = choose|i: int|
                            0 <= i < oldowned.len() && oldowned[i]@ == publisher_id@
                                && self.owned_publishers@ == oldowned.remove(i);
                        crate::strings::lemma_remove_keeps_distinct_strs(oldowned, i);
                    }
                    room.unregister_publisher(publisher_id.as_str());
                    let peers = room.get_peers(self.player_id.as_str());
                    let mut out: Vec<Outbound> = Vec::new();
                    let mut k: usize = 0;
                    while k < peers.len()
                        invariant
                            k <= peers@.len(),
                            out@ == broadcast_to(
                                peers@.subrange(0, k as int),
                                SendingMessage::Unpublished { publisher_id: publisher_id },
                            ),
                        decreases peers@.len() - k,
                    {
                        out.push(
                            Outbound {
                                to: peers[k],
                                frame: SendingMessage::Unpublished {
                                    publisher_id: publisher_id.clone(),
                                },
                            },
                        );
                        proof {
                            assert(out@ =~= broadcast_to(
                                peers@.subrange(0, k + 1 as int),
                                SendingMessage::Unpublished { publisher_id: publisher_id },
                            ));
                        }
                        k = k + 1;
                    }
                    proof {
                        assert(peers@.subrange(0, peers@.len() as int) =~= peers@);
                    }
                    let mut commands: Vec<SfuCommand> = Vec::new();
                    commands.push(SfuCommand::ClosePublisher { publisher_id });
                    Step { out, commands }
                } else {
                    Step { out: Vec::new(), commands: Vec::new() }
                }
            },
            ReceivedMessage::StopSubscribe { subscriber_id } => {
                if vec_contains_str(&self.owned_subscribers, subscriber_id.as_str()) {
                    let ghost oldowned = self.owned_subscribers@;
                    vec_remove_str(&mut self.owned_subscribers, subscriber_id.as_str());
                    proof {
                        let i = choose|i: int|
                            0 <= i < oldowned.len() && oldowned[i]@ == subscriber_id@
                                && self.owned_subscribers@ == oldowned.remove(i);
                        crate::strings::lemma_remove_keeps_distinct_strs(oldowned, i);
                    }
                    let mut commands: Vec<SfuCommand> = Vec::new();
                    commands.push(SfuCommand::CloseSubscriber { subscriber_id });
                    Step { out: Vec::new(), commands }
                } else {
                    Step { out: Vec::new(), commands: Vec::new() }
                }
            },
            ReceivedMessage::ChatMessage { message } => {
                let addrs = room.get_all_addrs();
                let mut out: Vec<Outbound> = Vec::new();
                let mut k: usize = 0;
                while k < addrs.len()
                    invariant
                        k <= addrs@.len(),
                        out@ == broadcast_to(
                            addrs@.subrange(0, k as int),
                            SendingMessage::ChatMessage {
                                sender: self.player_data.name,
                                message: message,
                            },
                        ),
                    decreases addrs@.len() - k,
                {
                    out.push(
                        Outbound {
                            to: addrs[k],
                            frame: SendingMessage::ChatMessage {
                                sender: self.player_data.name.clone(),
                                message: message.clone(),
                            },
                        },
                    );
                    proof {
                        assert(out@ =~= broadcast_to(
                            addrs@.subrange(0, k + 1 as int),
                            SendingMessage::ChatMessage {
                                sender: self.player_data.name,
                                message: message,
                            },
                        ));
                    }
                    k = k + 1;
                }
                proof {
                    assert(addrs@.subrange(0, addrs@.len() as int) =~= addrs@);
                }
                Step { out, commands: Vec::new() }
            },
            ReceivedMessage::PlayerMove { position, rotation, is_moving } => {
                let peers = room.get_peers(self.player_id.as_str());
                proof {
                    let s = room.spec_players();
                    let a = addr_index(s, self.addr);
                    assert(0 <= a < s.len() && s[a].data.id@ == self.player_id@);
                    let k = crate::room::id_index(s, self.player_id@);
                    assert(0 <= k < s.len() && s[k].data.id@ == self.player_id@);
                    assert(a == k) by {
                        if a != k {
                            assert(s[a].data.id@ != s[k].data.id@);
                        }
                    }
                }
                room.update_player_position(self.player_id.as_str(), position, rotation, is_moving);
                proof {
                    let olds = old(room).spec_players();
                    let k = crate::room::id_index(olds, self.player_id@);
                    assert(room.spec_players()[k].addr == self.addr);
                    assert(room.spec_players()[k].data.id@ == self.player_id@);
                    let a2 = addr_index(room.spec_players(), self.addr);
                    assert(0 <= a2 < room.spec_players().len() && room.spec_players()[a2].addr
                        == self.addr);
                    assert(a2 == k) by {
                        if a2 != k {
                            assert(room.spec_players()[a2].addr != room.spec_players()[k].addr);
                        }
                    }
                    if old(room).publishers_consistent() {
                        assert forall|i: int|
                            0 <= i < room.spec_publishers().len() implies room.has_player(
                            (#[trigger] room.spec_publishers()[i]).player_id@,
                        ) by {
                            let pid2 = room.spec_publishers()[i].player_id@;
                            assert(old(room).has_player(pid2));
                            let w = choose|w: int|
                                0 <= w < olds.len() && olds[w].data.id@ == pid2;
                            assert(0 <= w < olds.len() && olds[w].data.id@ == pid2);
                            assert(room.spec_players()[w].data.id@ == pid2);
                        }
                    }
                }
                let mut out: Vec<Outbound> = Vec::new();
                let mut k: usize = 0;
                while k < peers.len()
                    invariant
                        k <= peers@.len(),
                        out@ == broadcast_to(
                            peers@.subrange(0, k as int),
                            SendingMessage::PlayerMoved {
                                player_id: self.player_id,
                                position: position,
                                rotation: rotation,
                                is_moving: is_moving,
                            },
                        ),
                    decreases peers@.len() - k,
                {
                    out.push(
                        Outbound {
                            to: peers[k],
                            frame: SendingMessage::PlayerMoved {
                                player_id: self.player_id.clone(),
                                position,
                                rotation,
                                is_moving,
                            },
                        },
                    );
                    proof {
                        assert(out@ =~= broadcast_to(
                            peers@.subrange(0, k + 1 as int),
                            SendingMessage::PlayerMoved {
                                player_id: self.player_id,
                                position: position,
                                rotation: rotation,
                                is_moving: is_moving,
                            },
                        ));
                    }
                    k = k + 1;
                }
                proof {
                    assert(peers@.subrange(0, peers@.len() as int) =~= peers@);
                }
                Step { out, commands: Vec::new() }
            },
            ReceivedMessage::PlayAnimation { animation } => {
                let peers = room.get_peers(self.player_id.as_str());
                let mut out: Vec<Outbound> = Vec::new();
                let mut k: usize = 0;
                while k < peers.len()
                    invariant
                        k <= peers@.len(),
                        out@ == broadcast_to(
                            peers@.subrange(0, k as int),
                            SendingMessage::PlayerAnimation {
                                player_id: self.player_id,
                                animation: animation,
                            },
                        ),
                    decreases peers@.len() - k,
                {
                    out.push(
                        Outbound {
                            to: peers[k],
                            frame: SendingMessage::PlayerAnimation {
                                player_id: self.player_id.clone(),
                                animation: animation.clone(),
                            },
                        },
                    );
                    proof {
                        assert(out@ =~= broadcast_to(
                            peers@.subrange(0, k + 1 as int),
                            SendingMessage::PlayerAnimation {
                                player_id: self.player_id,
                                animation: animation,
                            },
                        ));
                    }
                    k = k + 1;
                }
                proof {
                    assert(peers@.subrange(0, peers@.len() as int) =~= peers@);
                }
                Step { out, commands: Vec::new() }
            },
        }
    }

    /// A candidate the publish transport generated, forwarded to the
    /// client as a `publisherIce` frame.
    pub fn on_publisher_ice_candidate(&self, candidate: String) -> (out: Vec<Outbound>)
        ensures
            out@ == seq![
                (Outbound {
                    to: self.addr,
                    frame: SendingMessage::PublisherIce { candidate: candidate },
                }),
            ],
    {
        let mut out: Vec<Outbound> = Vec::new();
        out.push(Outbound { to: self.addr, frame: SendingMessage::PublisherIce { candidate } });
        out
    }

    /// A candidate the subscribe transport generated, forwarded to the
    /// client as a `subscriberIce` frame.
    pub fn on_subscriber_ice_candidate(&self, candidate: String) -> (out: Vec<Outbound>)
        ensures
            out@ == seq![
                (Outbound {
                    to: self.addr,
                    frame: SendingMessage::SubscriberIce { candidate: candidate },
                }),
            ],
    {
        let mut out: Vec<Outbound> = Vec::new();
        out.push(Outbound { to: self.addr, frame: SendingMessage::SubscriberIce { candidate } });
        out
    }

    /// The subscribe transport needs renegotiation: its offer goes to the
    /// client.
    pub fn on_negotiation_needed(&self, offer_sdp: String) -> (out: Vec<Outbound>)
        ensures
            out@ == seq![
                (Outbound { to: self.addr, frame: SendingMessage::Offer { sdp: offer_sdp } }),
            ],
    {
        let mut out: Vec<Outbound> = Vec::new();
        out.push(Outbound { to: self.addr, frame: SendingMessage::Offer { sdp: offer_sdp } });
        out
    }

    /// The publish transport answered the client's offer; the answer goes
    /// back to the client. A failed exchange sends nothing, so there is
    /// no entry point for it.
    pub fn on_answer_ready(&self, answer_sdp: String) -> (out: Vec<Outbound>)
        ensures
            out@ == seq![
                (Outbound { to: self.addr, frame: SendingMessage::Answer { sdp: answer_sdp } }),
            ],
    {
        let mut out: Vec<Outbound> = Vec::new();
        out.push(Outbound { to: self.addr, frame: SendingMessage::Answer { sdp: answer_sdp } });
        out
    }

    /// A subscription attempt succeeded: remember the subscriber, send
    /// the transport's offer and then the `subscribed` confirmation to
    /// the client, in that order.
    pub fn on_subscribe_success(&mut self, subscriber_id: String, offer_sdp: String) -> (out: Vec<
        Outbound,
    >)
        requires
            old(self).wf(),
        ensures
            final(self).addr == old(self).addr,
            final(self).player_id == old(self).player_id,
            final(self).player_data == old(self).player_data,
            final(self).ice_servers == old(self).ice_servers,
            final(self).owned_publishers == old(self).owned_publishers,
            final(self).phase == old(self).phase,
            final(self).wf(),
            seq_contains_str(old(self).owned_subscribers@, subscriber_id@) ==> final(self).owned_subscribers == old(self).owned_subscribers,
            !seq_contains_str(old(self).owned_subscribers@, subscriber_id@) ==> final(self).owned_subscribers@ == old(self).owned_subscribers@.push(subscriber_id),
            out@ == seq![
                (Outbound { to: old(self).addr, frame: SendingMessage::Offer { sdp: offer_sdp } }),
                (Outbound {
                    to: old(self).addr,
                    frame: SendingMessage::Subscribed { subscriber_id: subscriber_id },
                }),
            ],
    {
        let ghost olds = self.owned_subscribers@;
        if !vec_contains_str(&self.owned_subscribers, subscriber_id.as_str()) {
            self.owned_subscribers.push(subscriber_id.clone());
            proof {
                let t = self.owned_subscribers@;
                assert forall|i: int, j: int|
                    #![trigger t[i], t[j]]
                    0 <= i < j < t.len() implies t[i]@ != t[j]@ by {
                    if j < olds.len() {
                        assert(t[i] == olds[i] && t[j] == olds[j]);
                    } else {
                        assert(t[i] == olds[i]);
                        assert(t[j]@ == subscriber_id@);
                    }
                }
            }
        }
        let mut out: Vec<Outbound> = Vec::new();
        out.push(Outbound { to: self.addr, frame: SendingMessage::Offer { sdp: offer_sdp } });
        out.push(
            Outbound { to: self.addr, frame: SendingMessage::Subscribed { subscriber_id } },
        );
        out
    }

    /// The SFU confirmed a publication: remember the publisher under its
    /// track id, record the ownership in the room, and announce the new
    /// track to every peer with a `published` frame.
    pub fn on_publish_success(&mut self, room: &mut Room, track_id: String) -> (out: Vec<Outbound>)
        requires
            old(self).phase == SessionPhase::Registered,
            old(self).wf(),
            old(room).wf(),
            old(self).registered_in(*old(room)),
        ensures
            final(self).addr == old(self).addr,
            final(self).player_id == old(self).player_id,
            final(self).player_data == old(self).player_data,
            final(self).ice_servers == old(self).ice_servers,
            final(self).owned_subscribers == old(self).owned_subscribers,
            final(self).phase == old(self).phase,
            final(self).wf(),
            seq_contains_str(old(self).owned_publishers@, track_id@) ==> final(self).owned_publishers == old(self).owned_publishers,
            !seq_contains_str(old(self).owned_publishers@, track_id@) ==> final(self).owned_publishers@ == old(self).owned_publishers@.push(track_id),
            final(room).wf(),
            final(room).id == old(room).id,
            final(room).theme == old(room).theme,
            final(room).router == old(room).router,
            final(room).spec_players() == old(room).spec_players(),
            final(room).spec_publishers() == upsert_binding(
                old(room).spec_publishers(),
                PublisherBinding { publisher_id: track_id, player_id: old(self).player_id },
            ),
            old(room).publishers_consistent() ==> final(room).publishers_consistent(),
            final(self).registered_in(*final(room)),
            ({
                let peers = peer_addrs(old(room).spec_players(), old(self).player_id@);
                &&& out@.len() == peers.len()
                &&& forall|k: int| 0 <= k < out@.len() ==> (#[trigger] out@[k]).to == peers[k]
                &&& forall|k: int|
                    0 <= k < out@.len() ==> ((#[trigger] out@[k]).frame
                        matches SendingMessage::Published { publisher_ids, player_id }
                        && publisher_ids@.len() == 1 && publisher_ids@[0]@ == track_id@
                        && player_id@ == old(self).player_id@)
            }),
    {
        let ghost olds = self.owned_publishers@;
        if !vec_contains_str(&self.owned_publishers, track_id.as_str()) {
            self.owned_publishers.push(track_id.clone());
            proof {
                let t = self.owned_publishers@;
                assert forall|i: int, j: int|
                    #![trigger t[i], t[j]]
                    0 <= i < j < t.len() implies t[i]@ != t[j]@ by {
                    if j < olds.len() {
                        assert(t[i] == olds[i] && t[j] == olds[j]);
                    } else {
                        assert(t[i] == olds[i]);
                        assert(t[j]@ == track_id@);
                    }
                }
            }
        }
        proof {
            let s = room.spec_players();
            let k = addr_index(s, self.addr);
            assert(0 <= k < s.len() && s[k].data.id@ == self.player_id@);
            assert(room.has_player(self.player_id@));
        }
        room.register_publisher(track_id.clone(), self.player_id.clone());
        let peers = room.get_peers(self.player_id.as_str());
        let n = peers.len();
        let mut out: Vec<Outbound> = Vec::new();
        let mut k: usize = 0;
        while k < n
            invariant
                n == peers@.len(),
                k <= n,
                out@.len() == k,
                forall|m: int| 0 <= m < k ==> (#[trigger] out@[m]).to == peers@[m],
                forall|m: int|
                    0 <= m < k ==> ((#[trigger] out@[m]).frame
                        matches SendingMessage::Published { publisher_ids, player_id }
                        && publisher_ids@.len() == 1 && publisher_ids@[0]@ == track_id@
                        && player_id@ == self.player_id@),
            decreases n - k,
        {
            let mut ids: Vec<String> = Vec::new();
            ids.push(track_id.clone());
            out.push(
                Outbound {
                    to: peers[k],
                    frame: SendingMessage::Published {
                        publisher_ids: ids,
                        player_id: self.player_id.clone(),
                    },
                },
            );
            k = k + 1;
        }
        out
    }

    /// Every binding the room holds for this session's player is among
    /// the publishers the session owns — the discipline that only the
    /// owning session registers its publishers.
    pub open spec fn owns_all_room_bindings(self, room: Room) -> bool {
        forall|i: int|
            0 <= i < room.spec_publishers().len() && (
            #[trigger] room.spec_publishers()[i]).player_id@ == self.player_id@
                ==> seq_contains_str(self.owned_publishers@, room.spec_publishers()[i].publisher_id@)
    }

    /// Teardown. In order: every owned publisher is closed, its binding
    /// unregistered and its departure announced to the peers; both
    /// transports are closed; the peers are told the player left; the
    /// player leaves the room. The caller asks the registry to remove the
    /// room when the membership dropped to zero.
    #[verifier::loop_isolation(false)]
    pub fn on_stopped(&mut self, room: &mut Room) -> (r: CloseActions)
        requires
            old(self).phase == SessionPhase::Registered,
            old(self).wf(),
            old(room).wf(),
            old(self).registered_in(*old(room)),
        ensures
            final(self).phase == SessionPhase::Closing,
            final(self).addr == old(self).addr,
            final(self).player_id == old(self).player_id,
            final(self).player_data == old(self).player_data,
            final(self).ice_servers == old(self).ice_servers,
            final(self).owned_publishers == old(self).owned_publishers,
            final(self).owned_subscribers == old(self).owned_subscribers,
            final(room).wf(),
            final(room).id == old(room).id,
            final(room).theme == old(room).theme,
            final(room).router == old(room).router,
            final(room).spec_players() == old(room).spec_players().remove(
                addr_index(old(room).spec_players(), old(self).addr),
            ),
            final(room).player_count() + 1 == old(room).player_count(),
            final(room).spec_publishers() == unregister_all(
                old(room).spec_publishers(),
                old(self).owned_publishers@,
            ),
            old(room).publishers_consistent() && old(self).owns_all_room_bindings(*old(room))
                ==> final(room).publishers_consistent(),
            r.room_now_empty == (final(room).player_count() == 0),
            ({
                let peers = peer_addrs(old(room).spec_players(), old(self).player_id@);
                &&& r.out@ == unpublished_frames(old(self).owned_publishers@, peers)
                    + broadcast_to(
                    peers,
                    SendingMessage::PlayerLeft { player_id: old(self).player_id },
                )
                &&& forall|k: int| 0 <= k < r.out@.len() ==> (#[trigger] r.out@[k]).to != old(self).addr
            }),
            r.commands@ == close_publisher_commands(old(self).owned_publishers@) + seq![
                SfuCommand::CloseSubscribeTransport,
                SfuCommand::ClosePublishTransport,
            ],
    {
        let ghost oldpubs = room.spec_publishers();
        let ghost oldplayers = room.spec_players();
        let peers = room.get_peers(self.player_id.as_str());
        let n = self.owned_publishers.len();
        let mut out: Vec<Outbound> = Vec::new();
        let mut commands: Vec<SfuCommand> = Vec::new();
        let mut p: usize = 0;
        while p < n
            invariant
                p <= n,
                room.wf(),
                room.id == old(room).id,
                room.theme == old(room).theme,
                room.router == old(room).router,
                room.spec_players() == oldplayers,
                room.spec_publishers() == unregister_all(
                    oldpubs,
                    self.owned_publishers@.subrange(0, p as int),
                ),
                commands@ == close_publisher_commands(
                    self.owned_publishers@.subrange(0, p as int),
                ),
                out@ == unpublished_frames(self.owned_publishers@.subrange(0, p as int), peers@),
            decreases n - p,
        {
            let ghost prefix = self.owned_publishers@.subrange(0, p as int);
            let ghost prevpubs = room.spec_publishers();
            let pub_id = self.owned_publishers[p].clone();
            commands.push(SfuCommand::ClosePublisher { publisher_id: pub_id.clone() });
            proof {
                let ext = self.owned_publishers@.subrange(0, p + 1 as int);
                assert(ext.drop_last() =~= prefix);
                assert(ext.last() == self.owned_publishers@[p as int]);
                assert(commands@ =~= close_publisher_commands(ext));
            }
            room.unregister_publisher(pub_id.as_str());
            proof {
                let ext = self.owned_publishers@.subrange(0, p + 1 as int);
                assert(room.spec_publishers() == remove_binding_seq(prevpubs, pub_id@));
                assert(room.spec_publishers() == unregister_all(oldpubs, ext));
            }
            let mut k: usize = 0;
            while k < peers.len()
                invariant
                    k <= peers@.len(),
                    out@ == unpublished_frames(prefix, peers@) + broadcast_to(
                        peers@.subrange(0, k as int),
                        SendingMessage::Unpublished {
                            publisher_id: self.owned_publishers@[p as int],
                        },
                    ),
                decreases peers@.len() - k,
            {
                out.push(
                    Outbound {
                        to: peers[k],
                        frame: SendingMessage::Unpublished { publisher_id: pub_id.clone() },
                    },
                );
                proof {
                    assert(peers@.subrange(0, k + 1 as int).drop_last() =~= peers@.subrange(
                        0,
                        k as int,
                    ));
                    assert(out@ =~= unpublished_frames(prefix, peers@) + broadcast_to(
                        peers@.subrange(0, k + 1 as int),
                        SendingMessage::Unpublished {
                            publisher_id: self.owned_publishers@[p as int],
                        },
                    ));
                }
                k = k + 1;
            }
            proof {
                let ext = self.owned_publishers@.subrange(0, p + 1 as int);
                assert(peers@.subrange(0, peers@.len() as int) =~= peers@);
                assert(ext.drop_last() =~= prefix);
                assert(out@ =~= unpublished_frames(ext, peers@));
            }
            p = p + 1;
        }
        proof {
            assert(self.owned_publishers@.subrange(0, n as int) =~= self.owned_publishers@);
        }
        commands.push(SfuCommand::CloseSubscribeTransport);
        commands.push(SfuCommand::ClosePublishTransport);
        proof {
            assert(commands@ =~= close_publisher_commands(self.owned_publishers@) + seq![
                SfuCommand::CloseSubscribeTransport,
                SfuCommand::ClosePublishTransport,
            ]);
        }
        let ghost out_before = out@;
        let mut k: usize = 0;
        while k < peers.len()
            invariant
                k <= peers@.len(),
                out@ == out_before + broadcast_to(
                    peers@.subrange(0, k as int),
                    SendingMessage::PlayerLeft { player_id: self.player_id },
                ),
            decreases peers@.len() - k,
        {
            out.push(
                Outbound {
                    to: peers[k],
                    frame: SendingMessage::PlayerLeft { player_id: self.player_id.clone() },
                },
            );
            proof {
                assert(peers@.subrange(0, k + 1 as int).drop_last() =~= peers@.subrange(
                    0,
                    k as int,
                ));
                assert(out@ =~= out_before + broadcast_to(
                    peers@.subrange(0, k + 1 as int),
                    SendingMessage::PlayerLeft { player_id: self.player_id },
                ));
            }
            k = k + 1;
        }
        proof {
            assert(peers@.subrange(0, peers@.len() as int) =~= peers@);
        }
        let room_now_empty: bool;
        match room.remove_player_by_addr(self.addr) {
            Some(pr) => {
                room_now_empty = pr.1 == 0;
            },
            None => {
                proof {
                    assert(false);
                }
                room_now_empty = false;
            },
        }
        self.phase = SessionPhase::Closing;
        proof {
            lemma_peer_addrs_sound(oldplayers, self.player_id@);
            assert forall|m: int| 0 <= m < out@.len() implies (#[trigger] out@[m]).to
                != self.addr by {
                lemma_unpublished_frames_to(self.owned_publishers@, peers@);
                if m < out_before.len() {
                    assert(peers@.contains(out_before[m].to));
                    let w = choose|w: int|
                        0 <= w < peers@.len() && peers@[w] == out_before[m].to;
                    assert(0 <= w < peers@.len() && out_before[m].to == peers@[w]);
                    peer_not_self(oldplayers, self.player_id@, self.addr, w);
                } else {
                    let w = m - out_before.len();
                    assert(out@[m].to == peers@[w]);
                    peer_not_self(oldplayers, self.player_id@, self.addr, w);
                }
            }
            if old(room).publishers_consistent() && old(self).owns_all_room_bindings(*old(room)) {
                lemma_unregister_all_props(oldpubs, self.owned_publishers@);
                let rm = addr_index(oldplayers, self.addr);
                lemma_remove_entry_keeps_other_players(oldplayers, rm);
                assert forall|i: int|
                    0 <= i < room.spec_publishers().len() implies room.has_player(
                    (#[trigger] room.spec_publishers()[i]).player_id@,
                ) by {
                    let b = room.spec_publishers()[i];
                    assert(oldpubs.contains(b));
                    let j = choose|j: int| 0 <= j < oldpubs.len() && oldpubs[j] == b;
                    assert(0 <= j < oldpubs.len() && oldpubs[j] == b);
                    if b.player_id@ == self.player_id@ {
                        assert(seq_contains_str(self.owned_publishers@, b.publisher_id@));
                        let w = str_index(self.owned_publishers@, b.publisher_id@);
                        assert(0 <= w < self.owned_publishers@.len()
                            && self.owned_publishers@[w]@ == b.publisher_id@);
                        assert(room.spec_publishers()[i].publisher_id@
                            != self.owned_publishers@[w]@);
                        assert(false);
                    }
                    assert(old(room).has_player(b.player_id@));
                    assert(oldplayers[rm].data.id@ == self.player_id@);
                    assert(has_id(oldplayers.remove(rm), b.player_id@));
                }
            }
        }
        CloseActions { out, commands, room_now_empty }
    }

    /// Teardown is finished: the close commands were performed.
    pub fn finish_close(&mut self)
        requires
            old(self).phase == SessionPhase::Closing,
        ensures
            *final(self) == (Session { phase: SessionPhase::Closed, ..*old(self) }),
    {
        self.phase = SessionPhase::Closed;
    }
}

/// Every frame of the `unpublished` fan-out is addressed to one of the
/// peer addresses.
proof fn lemma_unpublished_frames_to(owned: Seq<String>, peers: Seq<u64>)
    ensures
        forall|k: int|
            0 <= k < unpublished_frames(owned, peers).len() ==> peers.contains(
                (#[trigger] unpublished_frames(owned, peers)[k]).to,
            ),
    decreases owned.len(),
{
    if owned.len() > 0 {
        lemma_unpublished_frames_to(owned.drop_last(), peers);
        let front = unpublished_frames(owned.drop_last(), peers);
        let tail = broadcast_to(peers, SendingMessage::Unpublished { publisher_id: owned.last() });
        let whole = unpublished_frames(owned, peers);
        assert(whole == front + tail);
        assert forall|k: int| 0 <= k < whole.len() implies peers.contains(
            (#[trigger] whole[k]).to,
        ) by {
            if k < front.len() {
                assert(whole[k] == front[k]);
                assert(peers.contains(unpublished_frames(owned.drop_last(), peers)[k].to));
            } else {
                let m = k - front.len();
                assert(whole[k] == tail[m]);
                assert(tail[m].to == peers[m]);
            }
        }
    }
}

/// A peer address is never the excluded player's own address, in a
/// well-formed membership where that player holds it.
proof fn peer_not_self(s: Seq<PlayerEntry>, id: Seq<char>, addr: u64, w: int)
    requires
        crate::room::distinct_addrs(s),
        crate::room::has_addr(s, addr),
        s[addr_index(s, addr)].data.id@ == id,
        0 <= w < peer_addrs(s, id).len(),
    ensures
        peer_addrs(s, id)[w] != addr,
{
    lemma_peer_addrs_sound(s, id);
    let i = choose|i: int|
        0 <= i < s.len() && s[i].data.id@ != id && s[i].addr == peer_addrs(s, id)[w];
    assert(0 <= i < s.len() && s[i].data.id@ != id && s[i].addr == peer_addrs(s, id)[w]);
    let sk = addr_index(s, addr);
    assert(0 <= sk < s.len() && s[sk].addr == addr);
    if s[i].addr == addr {
        if i != sk {
            if i < sk {
                assert(s[i].addr != s[sk].addr);
            } else {
                assert(s[sk].addr != s[i].addr);
            }
        }
    }
}

} // verus!
