use webhangin::activity::activity_to_room;

#[test]
fn routes_playing_guitar_to_music_lounge() {
    let (id, theme) = activity_to_room("Playing guitar");
    assert_eq!(id, "music-lounge");
    assert_eq!(theme, "Music Lounge");
}

#[test]
fn routes_judging_to_cinema() {
    let (id, theme) = activity_to_room("Judging");
    assert_eq!(id, "cinema");
    assert_eq!(theme, "Cinema");
}

#[test]
fn routes_napping_to_hangout_hub() {
    let (id, theme) = activity_to_room("napping");
    assert_eq!(id, "hangout-hub");
    assert_eq!(theme, "Hangout Hub");
}

#[test]
fn routes_every_themed_room() {
    assert_eq!(activity_to_room("music").0, "music-lounge");
    assert_eq!(activity_to_room("piano recital").0, "music-lounge");
    assert_eq!(activity_to_room("drawing").0, "art-studio");
    assert_eq!(activity_to_room("PAINTING").0, "art-studio");
    assert_eq!(activity_to_room("coding").0, "focus-den");
    assert_eq!(activity_to_room("study group").0, "focus-den");
    assert_eq!(activity_to_room("gaming").0, "gaming-corner");
    assert_eq!(activity_to_room("board game night").0, "gaming-corner");
    assert_eq!(activity_to_room("watching a movie").0, "cinema");
    assert_eq!(activity_to_room("city walking").0, "city");
    assert_eq!(activity_to_room("walking around").0, "city");
    assert_eq!(activity_to_room("").0, "hangout-hub");
}

#[test]
fn routing_is_case_insensitive() {
    assert_eq!(activity_to_room("GUITAR"), activity_to_room("guitar"));
    assert_eq!(activity_to_room("GuItAr hero"), activity_to_room("guitar hero"));
}

#[test]
fn routing_is_deterministic_and_total() {
    let known = [
        "music-lounge",
        "art-studio",
        "focus-den",
        "gaming-corner",
        "cinema",
        "city",
        "hangout-hub",
    ];
    for activity in [
        "Playing guitar",
        "Judging",
        "napping",
        "",
        "ART and crafts",
        "program in peace",
        "x",
        "stadtbummel",
    ] {
        let first = activity_to_room(activity);
        let second = activity_to_room(activity);
        assert_eq!(first, second);
        assert!(known.contains(&first.0.as_str()));
    }
}

#[test]
fn music_wins_ties_by_priority() {
    // Mentions both music and art: the earlier row of the table wins.
    let (id, _) = activity_to_room("music art");
    assert_eq!(id, "music-lounge");
}

#[test]
fn party_lands_in_the_art_studio() {
    // "party" carries "art" as a substring, and the art row outranks the
    // city row, so a plain party never reaches the city.
    let (id, theme) = activity_to_room("party");
    assert_eq!(id, "art-studio");
    assert_eq!(theme, "Art Studio");
}
