use webhangin::player::{FacialFeatures, PlayerData, Position};
use webhangin::registry::RoomOwner;
use webhangin::room::Room;
use webhangin::turn::default_ice_servers;

fn proto(name: &str, activity: &str) -> PlayerData {
    PlayerData::prototype(
        name.to_string(),
        "blue".to_string(),
        activity.to_string(),
        FacialFeatures {
            eye_style: "round".to_string(),
            nose_style: "small".to_string(),
            mouth_style: "smile".to_string(),
            character_type: "cat".to_string(),
        },
    )
}

#[test]
fn add_player_assigns_fresh_zeroed_entry() {
    let mut room = Room::new("hangout-hub".to_string(), "Hangout Hub".to_string(), 7);
    let mut p = proto("A", "napping");
    // Whatever the client claimed, the entry starts zeroed.
    p.position = Position { x: 42, y: 42, z: 42 };
    p.rotation = 9;
    p.is_moving = true;
    let pid = room.add_player(10, &p);
    assert_eq!(pid.len(), 36);
    let players = room.get_all_players();
    assert_eq!(players.len(), 1);
    assert_eq!(players[0].id, pid);
    assert_eq!(players[0].name, "A");
    assert_eq!(players[0].position, Position { x: 0, y: 0, z: 0 });
    assert_eq!(players[0].rotation, 0);
    assert!(!players[0].is_moving);
}

#[test]
fn player_ids_are_distinct_across_joins() {
    let mut room = Room::new("hangout-hub".to_string(), "Hangout Hub".to_string(), 7);
    let a = room.add_player(1, &proto("A", "napping"));
    let b = room.add_player(2, &proto("B", "napping"));
    assert_ne!(a, b);
    assert_eq!(room.get_all_players().len(), 2);
}

#[test]
fn membership_count_tracks_joins_and_leaves() {
    let mut room = Room::new("gaming-corner".to_string(), "Gaming Corner".to_string(), 7);
    assert_eq!(room.get_all_players().len(), 0);
    let _a = room.add_player(1, &proto("A", "gaming"));
    assert_eq!(room.get_all_players().len(), 1);
    let _b = room.add_player(2, &proto("B", "gaming"));
    assert_eq!(room.get_all_players().len(), 2);
    let (_, remaining) = room.remove_player_by_addr(1).expect("member under addr 1");
    assert_eq!(remaining, 1);
    let (_, remaining) = room.remove_player_by_addr(2).expect("member under addr 2");
    assert_eq!(remaining, 0);
    assert!(room.remove_player_by_addr(2).is_none());
}

#[test]
fn peers_exclude_the_named_player() {
    let mut room = Room::new("city".to_string(), "City".to_string(), 7);
    let a = room.add_player(1, &proto("A", "city"));
    let b = room.add_player(2, &proto("B", "city"));
    assert_eq!(room.get_peers(&a), vec![2]);
    assert_eq!(room.get_peers(&b), vec![1]);
    assert_eq!(room.get_all_addrs(), vec![1, 2]);
}

#[test]
fn publisher_index_maps_to_present_players() {
    let mut room = Room::new("city".to_string(), "City".to_string(), 7);
    let a = room.add_player(1, &proto("A", "city"));
    let b = room.add_player(2, &proto("B", "city"));
    room.register_publisher("track-1".to_string(), a.clone());
    room.register_publisher("track-2".to_string(), b.clone());
    let player_ids: Vec<String> = room.get_all_players().iter().map(|p| p.id.clone()).collect();
    for (publisher_id, player_id) in room.get_all_publishers() {
        assert!(player_ids.contains(&player_id), "publisher {publisher_id} has no player");
    }
    room.unregister_publisher("track-1");
    assert_eq!(room.get_all_publishers().len(), 1);
    assert_eq!(room.get_all_publishers()[0].0, "track-2");
    // Unregistering an unknown id is a no-op.
    room.unregister_publisher("track-1");
    assert_eq!(room.get_all_publishers().len(), 1);
}

#[test]
fn update_player_position_overwrites_presence_fields() {
    let mut room = Room::new("city".to_string(), "City".to_string(), 7);
    let a = room.add_player(1, &proto("A", "city"));
    room.update_player_position(&a, Position { x: 5, y: 6, z: 7 }, 8, true);
    let data = room.get_player_data(&a).expect("player present");
    assert_eq!(data.position, Position { x: 5, y: 6, z: 7 });
    assert_eq!(data.rotation, 8);
    assert!(data.is_moving);
    assert_eq!(data.name, "A");
    // A miss changes nothing.
    room.update_player_position("no-such-id", Position { x: 1, y: 1, z: 1 }, 1, false);
    assert_eq!(room.get_all_players().len(), 1);
}

#[test]
fn registry_finds_and_removes_rooms() {
    let mut reg = RoomOwner::new(default_ice_servers());
    assert!(reg.find_by_id("focus-den").is_none());
    reg.create_new_room("focus-den".to_string(), "Focus Den".to_string(), 1);
    let room = reg.find_by_id("focus-den").expect("room created");
    assert_eq!(room.theme, "Focus Den");
    reg.remove_room("focus-den".to_string());
    assert!(reg.find_by_id("focus-den").is_none());
}

#[test]
fn remove_then_create_yields_fresh_room() {
    let mut reg = RoomOwner::new(default_ice_servers());
    reg.create_new_room("focus-den".to_string(), "Focus Den".to_string(), 1);
    let mut room = reg.take_room("focus-den").expect("room created");
    let pid = room.add_player(1, &proto("A", "coding"));
    assert_eq!(room.get_all_players().len(), 1);
    let (gone, remaining) = room.remove_player_by_addr(1).expect("member present");
    assert_eq!(gone, pid);
    assert_eq!(remaining, 0);
    reg.put_room(room);
    reg.remove_room("focus-den".to_string());
    reg.create_or_get("focus-den".to_string(), "Focus Den".to_string(), 2);
    let fresh = reg.find_by_id("focus-den").expect("fresh room");
    assert_eq!(fresh.get_all_players().len(), 0);
    assert_eq!(fresh.get_all_publishers().len(), 0);
    assert_eq!(fresh.router, 2);
}

#[test]
fn create_or_get_keeps_an_existing_room() {
    let mut reg = RoomOwner::new(default_ice_servers());
    reg.create_or_get("city".to_string(), "City".to_string(), 1);
    let mut room = reg.take_room("city").expect("room created");
    room.add_player(1, &proto("A", "city"));
    reg.put_room(room);
    // Asking again for the same id changes nothing.
    reg.create_or_get("city".to_string(), "City".to_string(), 9);
    let kept = reg.find_by_id("city").expect("room kept");
    assert_eq!(kept.router, 1);
    assert_eq!(kept.get_all_players().len(), 1);
}

#[test]
fn registry_hands_out_ice_server_copies() {
    let reg = RoomOwner::new(default_ice_servers());
    let ice = reg.get_ice_servers();
    assert_eq!(ice, default_ice_servers());
}
