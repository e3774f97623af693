//! The wire protocol: tagged frames exchanged with clients, and the
//! commands a session asks its SFU driver to perform.
//!
//! Frames travel as JSON objects tagged by an `action` field; the edge
//! that owns the socket decodes inbound text into [`ReceivedMessage`] and
//! encodes [`SendingMessage`] back out. SDP payloads and ICE candidate
//! payloads are carried verbatim as strings — the core never inspects
//! them. Unknown inbound actions are dropped at the edge and never reach
//! the core.

use vstd::prelude::*;

use crate::ice::IceServerConfig;
use crate::player::{PlayerData, Position};

verus! {

/// Messages received from the client.
#[derive(Debug, PartialEq, Eq)]
pub enum ReceivedMessage {
    Ping,
    PublisherInit,
    SubscriberInit,
    PublisherIce { candidate: String },
    SubscriberIce { candidate: String },
    Offer { sdp: String },
    Subscribe { publisher_id: String },
    Answer { sdp: String },
    Publish { publisher_id: String },
    StopPublish { publisher_id: String },
    StopSubscribe { subscriber_id: String },
    ChatMessage { message: String },
    PlayerMove { position: Position, rotation: u32, is_moving: bool },
    PlayAnimation { animation: String },
}

/// Messages sent to a client.
#[derive(Debug, PartialEq, Eq)]
pub enum SendingMessage {
    Pong,
    Answer { sdp: String },
    Offer { sdp: String },
    PublisherIce { candidate: String },
    SubscriberIce { candidate: String },
    Published { publisher_ids: Vec<String>, player_id: String },
    Subscribed { subscriber_id: String },
    SubscribeFailed { publisher_id: String, error: String },
    Unpublished { publisher_id: String },
    ChatMessage { sender: String, message: String },
    RoomState {
        your_player_id: String,
        players: Vec<PlayerData>,
        room_theme: String,
        ice_servers: Vec<IceServerConfig>,
    },
    PlayerJoined { player: PlayerData },
    PlayerLeft { player_id: String },
    PlayerMoved { player_id: String, position: Position, rotation: u32, is_moving: bool },
    PlayerAnimation { player_id: String, animation: String },
}

/// One outbound frame, addressed to the inbox of the session that must
/// forward it to its client.
#[derive(Debug, PartialEq, Eq)]
pub struct Outbound {
    pub to: u64,
    pub frame: SendingMessage,
}

/// An operation the session asks the SFU driver to perform on its
/// transports. The driver performs it outside the core and reports any
/// outcome the session must react to back through the session's
/// completion entry points.
#[derive(Debug, PartialEq, Eq)]
pub enum SfuCommand {
    /// Install the callback that forwards the publish transport's ICE
    /// candidates to the client.
    InstallPublisherIceHandler,
    /// Install the callbacks that forward the subscribe transport's ICE
    /// candidates and renegotiation offers to the client.
    InstallSubscriberHandlers,
    AddPublisherIce { candidate: String },
    AddSubscriberIce { candidate: String },
    /// Hand the client's offer to the publish transport and report the
    /// answer back.
    RequestAnswer { offer_sdp: String },
    /// Hand the client's answer to the subscribe transport.
    SetAnswer { answer_sdp: String },
    /// Complete a publication on the publish transport.
    StartPublish { publisher_id: String },
    /// Attempt a subscription on the subscribe transport.
    StartSubscribe { publisher_id: String },
    ClosePublisher { publisher_id: String },
    CloseSubscriber { subscriber_id: String },
    ClosePublishTransport,
    CloseSubscribeTransport,
}

/// The outbound frames addressed to each of `addrs` in turn, all carrying
/// the same payload.
pub open spec fn broadcast_to(addrs: Seq<u64>, frame: SendingMessage) -> Seq<Outbound> {
    addrs.map_values(|a: u64| Outbound { to: a, frame: frame })
}

} // verus!
