use webhangin::activity::activity_to_room;
use webhangin::player::{FacialFeatures, PlayerData, Position};
use webhangin::protocol::{ReceivedMessage, SendingMessage, SfuCommand};
use webhangin::registry::RoomOwner;
use webhangin::session::{RetryDecision, Session, SessionPhase, SubscribeRetry};
use webhangin::turn::default_ice_servers;

fn proto(name: &str, activity: &str) -> PlayerData {
    PlayerData::prototype(
        name.to_string(),
        "blue".to_string(),
        activity.to_string(),
        FacialFeatures {
            eye_style: "round".to_string(),
            nose_style: "small".to_string(),
            mouth_style: "smile".to_string(),
            character_type: "cat".to_string(),
        },
    )
}

#[test]
fn join_then_leave_alone() {
    let (room_id, theme) = activity_to_room("coding");
    assert_eq!(room_id, "focus-den");
    let mut reg = RoomOwner::new(default_ice_servers());
    reg.create_new_room(room_id.clone(), theme, 1);
    let mut room = reg.take_room(&room_id).expect("room created");

    let mut c1 = Session::new(1, proto("C1", "coding"), reg.get_ice_servers());
    let out = c1.on_started(&mut room);
    assert_eq!(c1.phase, SessionPhase::Registered);
    // Exactly one frame: RoomState to the joiner, and nothing else.
    assert_eq!(out.len(), 1);
    assert_eq!(out[0].to, 1);
    match &out[0].frame {
        SendingMessage::RoomState { your_player_id, players, room_theme, ice_servers } => {
            assert_eq!(your_player_id, &c1.player_id);
            assert_eq!(players.len(), 1);
            assert_eq!(players[0].id, c1.player_id);
            assert_eq!(room_theme.as_str(), "Focus Den");
            assert_eq!(*ice_servers, default_ice_servers());
        },
        other => panic!("expected RoomState first, got {other:?}"),
    }

    let close = c1.on_stopped(&mut room);
    assert!(close.room_now_empty);
    assert!(close.out.is_empty());
    assert_eq!(
        close.commands,
        vec![SfuCommand::CloseSubscribeTransport, SfuCommand::ClosePublishTransport],
    );
    reg.put_room(room);
    reg.remove_room(room_id);
    assert!(reg.find_by_id("focus-den").is_none());
}

#[test]
fn two_clients_chat_and_leave() {
    let (room_id, theme) = activity_to_room("gaming");
    assert_eq!(room_id, "gaming-corner");
    let mut reg = RoomOwner::new(default_ice_servers());
    reg.create_new_room(room_id.clone(), theme, 1);
    let mut room = reg.take_room(&room_id).expect("room created");

    let mut c1 = Session::new(1, proto("C1", "gaming"), reg.get_ice_servers());
    let out1 = c1.on_started(&mut room);
    assert_eq!(out1.len(), 1);

    let mut c2 = Session::new(2, proto("C2", "gaming"), reg.get_ice_servers());
    let out2 = c2.on_started(&mut room);
    // C2 gets RoomState listing both players; C1 gets PlayerJoined for C2.
    assert_eq!(out2.len(), 2);
    assert_eq!(out2[0].to, 2);
    match &out2[0].frame {
        SendingMessage::RoomState { your_player_id, players, .. } => {
            assert_eq!(your_player_id, &c2.player_id);
            let ids: Vec<&str> = players.iter().map(|p| p.id.as_str()).collect();
            assert_eq!(ids, vec![c1.player_id.as_str(), c2.player_id.as_str()]);
        },
        other => panic!("expected RoomState, got {other:?}"),
    }
    assert_eq!(out2[1].to, 1);
    match &out2[1].frame {
        SendingMessage::PlayerJoined { player } => {
            assert_eq!(player.id, c2.player_id);
            assert_eq!(player.name, "C2");
        },
        other => panic!("expected PlayerJoined to the peer, got {other:?}"),
    }
    // C2 never receives a PlayerJoined for itself.
    assert!(out2.iter().skip(1).all(|o| o.to != 2));

    // C1 chats; both members receive the echo, sender name attached.
    let step = c1.handle_frame(&mut room, ReceivedMessage::ChatMessage { message: "hi".to_string() });
    assert!(step.commands.is_empty());
    assert_eq!(step.out.len(), 2);
    let mut tos: Vec<u64> = step.out.iter().map(|o| o.to).collect();
    tos.sort();
    assert_eq!(tos, vec![1, 2]);
    for o in &step.out {
        match &o.frame {
            SendingMessage::ChatMessage { sender, message } => {
                assert_eq!(sender.as_str(), "C1");
                assert_eq!(message.as_str(), "hi");
            },
            other => panic!("expected ChatMessage, got {other:?}"),
        }
    }

    // C2 disconnects; C1 is told, and the room is not empty yet.
    let close = c2.on_stopped(&mut room);
    assert!(!close.room_now_empty);
    assert_eq!(close.out.len(), 1);
    assert_eq!(close.out[0].to, 1);
    match &close.out[0].frame {
        SendingMessage::PlayerLeft { player_id } => assert_eq!(player_id, &c2.player_id),
        other => panic!("expected PlayerLeft, got {other:?}"),
    }
    assert_eq!(room.get_all_players().len(), 1);
}

#[test]
fn publish_then_leave() {
    let mut reg = RoomOwner::new(default_ice_servers());
    reg.create_new_room("city".to_string(), "City".to_string(), 1);
    let mut room = reg.take_room("city").expect("room created");

    let mut c1 = Session::new(1, proto("C1", "city walking"), reg.get_ice_servers());
    c1.on_started(&mut room);

    // C1 asks to publish; the SFU is told, then confirms with a track id.
    let step = c1.handle_frame(
        &mut room,
        ReceivedMessage::Publish { publisher_id: "X".to_string() },
    );
    assert_eq!(step.commands, vec![SfuCommand::StartPublish { publisher_id: "X".to_string() }]);
    let announced = c1.on_publish_success(&mut room, "T".to_string());
    // No peers yet, so nothing is announced.
    assert!(announced.is_empty());
    assert_eq!(c1.owned_publishers, vec!["T".to_string()]);

    // C2 joins and asks for the publisher summary.
    let mut c2 = Session::new(2, proto("C2", "city walking"), reg.get_ice_servers());
    c2.on_started(&mut room);
    let step = c2.handle_frame(&mut room, ReceivedMessage::SubscriberInit);
    assert_eq!(step.commands, vec![SfuCommand::InstallSubscriberHandlers]);
    assert_eq!(step.out.len(), 1);
    assert_eq!(step.out[0].to, 2);
    match &step.out[0].frame {
        SendingMessage::Published { publisher_ids, player_id } => {
            assert_eq!(*publisher_ids, vec!["T".to_string()]);
            assert_eq!(player_id, &c1.player_id);
        },
        other => panic!("expected Published summary, got {other:?}"),
    }

    // C1 disconnects: C2 hears about the track and the player going away.
    let close = c1.on_stopped(&mut room);
    assert!(!close.room_now_empty);
    assert_eq!(close.out.len(), 2);
    assert!(close.out.iter().all(|o| o.to == 2));
    assert!(close.out.iter().any(|o| matches!(
        &o.frame,
        SendingMessage::Unpublished { publisher_id } if publisher_id.as_str() == "T"
    )));
    assert!(close.out.iter().any(|o| matches!(
        &o.frame,
        SendingMessage::PlayerLeft { player_id } if *player_id == c1.player_id
    )));
    assert_eq!(
        close.commands,
        vec![
            SfuCommand::ClosePublisher { publisher_id: "T".to_string() },
            SfuCommand::CloseSubscribeTransport,
            SfuCommand::ClosePublishTransport,
        ],
    );
    // The binding went with the session; what remains is consistent.
    assert!(room.get_all_publishers().is_empty());
}

#[test]
fn subscribe_retry_exhaustion() {
    let mut retry = SubscribeRetry::start("Z".to_string());
    let mut decisions = Vec::new();
    for _ in 0..5 {
        decisions.push(retry.record_failure("sfu: no such publisher".to_string()));
    }
    assert_eq!(
        decisions,
        vec![
            RetryDecision::RetryAfterMs(100),
            RetryDecision::RetryAfterMs(200),
            RetryDecision::RetryAfterMs(400),
            RetryDecision::RetryAfterMs(800),
            RetryDecision::GiveUp,
        ],
    );
    let out = retry.give_up_frames(2);
    assert_eq!(out.len(), 1);
    assert_eq!(out[0].to, 2);
    match &out[0].frame {
        SendingMessage::SubscribeFailed { publisher_id, error } => {
            assert_eq!(publisher_id.as_str(), "Z");
            assert!(!error.is_empty());
            assert_eq!(error.as_str(), "sfu: no such publisher");
        },
        other => panic!("expected SubscribeFailed, got {other:?}"),
    }
    // No Subscribed frame is ever produced on the failure path.
    assert!(out.iter().all(|o| !matches!(o.frame, SendingMessage::Subscribed { .. })));
}

#[test]
fn movement_broadcast_excludes_the_mover() {
    let mut reg = RoomOwner::new(default_ice_servers());
    reg.create_new_room("city".to_string(), "City".to_string(), 1);
    let mut room = reg.take_room("city").expect("room created");
    let mut c1 = Session::new(1, proto("C1", "city"), reg.get_ice_servers());
    c1.on_started(&mut room);
    let mut c2 = Session::new(2, proto("C2", "city"), reg.get_ice_servers());
    c2.on_started(&mut room);

    let position = Position {
        x: 1.0f32.to_bits(),
        y: 2.0f32.to_bits(),
        z: 3.0f32.to_bits(),
    };
    let rotation = 0.5f32.to_bits();
    let step = c1.handle_frame(
        &mut room,
        ReceivedMessage::PlayerMove { position, rotation, is_moving: true },
    );
    assert!(step.commands.is_empty());
    assert_eq!(step.out.len(), 1);
    assert_eq!(step.out[0].to, 2);
    match &step.out[0].frame {
        SendingMessage::PlayerMoved { player_id, position: p, rotation: r, is_moving } => {
            assert_eq!(player_id, &c1.player_id);
            assert_eq!(f32::from_bits(p.x), 1.0);
            assert_eq!(f32::from_bits(p.y), 2.0);
            assert_eq!(f32::from_bits(p.z), 3.0);
            assert_eq!(f32::from_bits(*r), 0.5);
            assert!(*is_moving);
        },
        other => panic!("expected PlayerMoved, got {other:?}"),
    }
    // The room remembers the new presence state.
    let data = room.get_player_data(&c1.player_id).expect("mover present");
    assert_eq!(data.position, position);
    assert_eq!(data.rotation, rotation);
    assert!(data.is_moving);
}

#[test]
fn ping_is_answered_with_pong() {
    let mut reg = RoomOwner::new(default_ice_servers());
    reg.create_new_room("city".to_string(), "City".to_string(), 1);
    let mut room = reg.take_room("city").expect("room created");
    let mut c1 = Session::new(1, proto("C1", "city"), reg.get_ice_servers());
    c1.on_started(&mut room);
    let step = c1.handle_frame(&mut room, ReceivedMessage::Ping);
    assert_eq!(step.out.len(), 1);
    assert_eq!(step.out[0].to, 1);
    assert!(matches!(step.out[0].frame, SendingMessage::Pong));
    assert!(step.commands.is_empty());
}

#[test]
fn animation_broadcast_excludes_the_actor() {
    let mut reg = RoomOwner::new(default_ice_servers());
    reg.create_new_room("city".to_string(), "City".to_string(), 1);
    let mut room = reg.take_room("city").expect("room created");
    let mut c1 = Session::new(1, proto("C1", "city"), reg.get_ice_servers());
    c1.on_started(&mut room);
    let mut c2 = Session::new(2, proto("C2", "city"), reg.get_ice_servers());
    c2.on_started(&mut room);
    let step = c1.handle_frame(
        &mut room,
        ReceivedMessage::PlayAnimation { animation: "wave".to_string() },
    );
    assert_eq!(step.out.len(), 1);
    assert_eq!(step.out[0].to, 2);
    assert!(matches!(
        &step.out[0].frame,
        SendingMessage::PlayerAnimation { player_id, animation }
            if *player_id == c1.player_id && animation.as_str() == "wave"
    ));
}

#[test]
fn stop_publish_for_unknown_id_is_a_no_op() {
    let mut reg = RoomOwner::new(default_ice_servers());
    reg.create_new_room("city".to_string(), "City".to_string(), 1);
    let mut room = reg.take_room("city").expect("room created");
    let mut c1 = Session::new(1, proto("C1", "city"), reg.get_ice_servers());
    c1.on_started(&mut room);
    let step = c1.handle_frame(
        &mut room,
        ReceivedMessage::StopPublish { publisher_id: "nope".to_string() },
    );
    assert!(step.out.is_empty());
    assert!(step.commands.is_empty());
}

#[test]
fn stop_publish_unregisters_and_announces() {
    let mut reg = RoomOwner::new(default_ice_servers());
    reg.create_new_room("city".to_string(), "City".to_string(), 1);
    let mut room = reg.take_room("city").expect("room created");
    let mut c1 = Session::new(1, proto("C1", "city"), reg.get_ice_servers());
    c1.on_started(&mut room);
    let mut c2 = Session::new(2, proto("C2", "city"), reg.get_ice_servers());
    c2.on_started(&mut room);
    c1.on_publish_success(&mut room, "T".to_string());
    let step = c1.handle_frame(
        &mut room,
        ReceivedMessage::StopPublish { publisher_id: "T".to_string() },
    );
    assert_eq!(step.commands, vec![SfuCommand::ClosePublisher { publisher_id: "T".to_string() }]);
    assert_eq!(step.out.len(), 1);
    assert_eq!(step.out[0].to, 2);
    assert!(matches!(
        &step.out[0].frame,
        SendingMessage::Unpublished { publisher_id } if publisher_id.as_str() == "T"
    ));
    assert!(c1.owned_publishers.is_empty());
    assert!(room.get_all_publishers().is_empty());
}

#[test]
fn subscribe_success_sends_offer_then_confirmation() {
    let mut c2 = Session::new(2, proto("C2", "city"), default_ice_servers());
    let out = c2.on_subscribe_success("sub-1".to_string(), "v=0 offer".to_string());
    assert_eq!(out.len(), 2);
    assert_eq!(out[0].to, 2);
    assert!(matches!(&out[0].frame, SendingMessage::Offer { sdp } if sdp.as_str() == "v=0 offer"));
    assert_eq!(out[1].to, 2);
    assert!(matches!(
        &out[1].frame,
        SendingMessage::Subscribed { subscriber_id } if subscriber_id.as_str() == "sub-1"
    ));
    assert_eq!(c2.owned_subscribers, vec!["sub-1".to_string()]);
}

#[test]
fn signaling_frames_become_sfu_commands() {
    let mut reg = RoomOwner::new(default_ice_servers());
    reg.create_new_room("city".to_string(), "City".to_string(), 1);
    let mut room = reg.take_room("city").expect("room created");
    let mut c1 = Session::new(1, proto("C1", "city"), reg.get_ice_servers());
    c1.on_started(&mut room);

    let step = c1.handle_frame(&mut room, ReceivedMessage::PublisherInit);
    assert_eq!(step.commands, vec![SfuCommand::InstallPublisherIceHandler]);
    let step = c1.handle_frame(
        &mut room,
        ReceivedMessage::Offer { sdp: "v=0 o".to_string() },
    );
    assert_eq!(step.commands, vec![SfuCommand::RequestAnswer { offer_sdp: "v=0 o".to_string() }]);
    let step = c1.handle_frame(
        &mut room,
        ReceivedMessage::Answer { sdp: "v=0 a".to_string() },
    );
    assert_eq!(step.commands, vec![SfuCommand::SetAnswer { answer_sdp: "v=0 a".to_string() }]);
    let step = c1.handle_frame(
        &mut room,
        ReceivedMessage::PublisherIce { candidate: "cand-p".to_string() },
    );
    assert_eq!(step.commands, vec![SfuCommand::AddPublisherIce { candidate: "cand-p".to_string() }]);
    let step = c1.handle_frame(
        &mut room,
        ReceivedMessage::SubscriberIce { candidate: "cand-s".to_string() },
    );
    assert_eq!(
        step.commands,
        vec![SfuCommand::AddSubscriberIce { candidate: "cand-s".to_string() }],
    );
    let step = c1.handle_frame(
        &mut room,
        ReceivedMessage::Subscribe { publisher_id: "T".to_string() },
    );
    assert_eq!(step.commands, vec![SfuCommand::StartSubscribe { publisher_id: "T".to_string() }]);
}

#[test]
fn completion_callbacks_address_the_session_itself() {
    let c1 = Session::new(9, proto("C1", "city"), default_ice_servers());
    let out = c1.on_publisher_ice_candidate("cand".to_string());
    assert_eq!(out.len(), 1);
    assert_eq!(out[0].to, 9);
    assert!(matches!(&out[0].frame, SendingMessage::PublisherIce { candidate } if candidate.as_str() == "cand"));
    let out = c1.on_subscriber_ice_candidate("cand2".to_string());
    assert!(matches!(&out[0].frame, SendingMessage::SubscriberIce { candidate } if candidate.as_str() == "cand2"));
    let out = c1.on_negotiation_needed("v=0".to_string());
    assert!(matches!(&out[0].frame, SendingMessage::Offer { sdp } if sdp.as_str() == "v=0"));
    let out = c1.on_answer_ready("v=0 a".to_string());
    assert!(matches!(&out[0].frame, SendingMessage::Answer { sdp } if sdp.as_str() == "v=0 a"));
}

#[test]
fn session_lifecycle_runs_to_closed() {
    let mut reg = RoomOwner::new(default_ice_servers());
    reg.create_new_room("city".to_string(), "City".to_string(), 1);
    let mut room = reg.take_room("city").expect("room created");
    let mut c1 = Session::new(1, proto("C1", "city"), reg.get_ice_servers());
    assert_eq!(c1.phase, SessionPhase::Connecting);
    c1.on_started(&mut room);
    assert_eq!(c1.phase, SessionPhase::Registered);
    let close = c1.on_stopped(&mut room);
    assert_eq!(c1.phase, SessionPhase::Closing);
    assert!(close.room_now_empty);
    c1.finish_close();
    assert_eq!(c1.phase, SessionPhase::Closed);
}
