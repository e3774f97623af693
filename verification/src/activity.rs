//! The activity router: a pure, total classifier from a client's declared
//! activity string to the `(room_id, theme)` pair of the themed room that
//! will host it.
//!
//! Matching is by case-insensitive substring over a closed keyword table,
//! tried in a fixed priority order; anything that matches no keyword lands
//! in the hangout hub.

use vstd::prelude::*;

verus! {

/// ASCII lowering of one character; every character outside `'A'..='Z'`
/// is left as it is. The keyword table is ASCII, so this is all the case
/// folding the router needs.
pub open spec fn lower_char(c: char) -> char {
    if c == 'A' { 'a' } else if c == 'B' { 'b' } else if c == 'C' { 'c' }
    else if c == 'D' { 'd' } else if c == 'E' { 'e' } else if c == 'F' { 'f' }
    else if c == 'G' { 'g' } else if c == 'H' { 'h' } else if c == 'I' { 'i' }
    else if c == 'J' { 'j' } else if c == 'K' { 'k' } else if c == 'L' { 'l' }
    else if c == 'M' { 'm' } else if c == 'N' { 'n' } else if c == 'O' { 'o' }
    else if c == 'P' { 'p' } else if c == 'Q' { 'q' } else if c == 'R' { 'r' }
    else if c == 'S' { 's' } else if c == 'T' { 't' } else if c == 'U' { 'u' }
    else if c == 'V' { 'v' } else if c == 'W' { 'w' } else if c == 'X' { 'x' }
    else if c == 'Y' { 'y' } else if c == 'Z' { 'z' } else { c }
}

/// ASCII lowering of a whole character sequence.
pub open spec fn lower_seq(s: Seq<char>) -> Seq<char> {
    s.map_values(|c: char| lower_char(c))
}

/// The needle `n` occurs in `h` starting at position `i`.
pub open spec fn matches_at(h: Seq<char>, n: Seq<char>, i: int) -> bool {
    &&& 0 <= i
    &&& i + n.len() <= h.len()
    &&& forall|j: int| 0 <= j < n.len() ==> h[i + j] == n[j]
}

/// The needle `n` occurs somewhere in `h`.
pub open spec fn contains_seq(h: Seq<char>, n: Seq<char>) -> bool {
    exists|i: int| matches_at(h, n, i)
}

/// The activity string mentions the (lowercase) keyword `kw`,
/// case-insensitively.
pub open spec fn mentions(activity: Seq<char>, kw: Seq<char>) -> bool {
    contains_seq(lower_seq(activity), kw)
}

pub open spec fn is_music_activity(a: Seq<char>) -> bool {
    mentions(a, "music"@) || mentions(a, "guitar"@) || mentions(a, "piano"@)
}

pub open spec fn is_art_activity(a: Seq<char>) -> bool {
    mentions(a, "art"@) || mentions(a, "draw"@) || mentions(a, "paint"@)
}

pub open spec fn is_focus_activity(a: Seq<char>) -> bool {
    mentions(a, "code"@) || mentions(a, "coding"@) || mentions(a, "program"@) || mentions(
        a,
        "study"@,
    )
}

pub open spec fn is_gaming_activity(a: Seq<char>) -> bool {
    mentions(a, "game"@) || mentions(a, "gaming"@)
}

pub open spec fn is_cinema_activity(a: Seq<char>) -> bool {
    mentions(a, "watching"@) || mentions(a, "movie"@) || mentions(a, "judge"@) || mentions(
        a,
        "judging"@,
    )
}

pub open spec fn is_city_activity(a: Seq<char>) -> bool {
    mentions(a, "party"@) || mentions(a, "city"@) || mentions(a, "walking"@)
}

/// The room id the router assigns to an activity string, with ties
/// resolved by the fixed priority order below.
pub open spec fn spec_room_id(a: Seq<char>) -> Seq<char> {
    if is_music_activity(a) { "music-lounge"@ }
    else if is_art_activity(a) { "art-studio"@ }
    else if is_focus_activity(a) { "focus-den"@ }
    else if is_gaming_activity(a) { "gaming-corner"@ }
    else if is_cinema_activity(a) { "cinema"@ }
    else if is_city_activity(a) { "city"@ }
    else { "hangout-hub"@ }
}

/// The human-readable theme that goes with [`spec_room_id`].
pub open spec fn spec_room_theme(a: Seq<char>) -> Seq<char> {
    if is_music_activity(a) { "Music Lounge"@ }
    else if is_art_activity(a) { "Art Studio"@ }
    else if is_focus_activity(a) { "Focus Den"@ }
    else if is_gaming_activity(a) { "Gaming Corner"@ }
    else if is_cinema_activity(a) { "Cinema"@ }
    else if is_city_activity(a) { "City"@ }
    else { "Hangout Hub"@ }
}

/// The id is one of the seven rooms the router knows.
pub open spec fn known_room_id(id: Seq<char>) -> bool {
    ||| id == "music-lounge"@
    ||| id == "art-studio"@
    ||| id == "focus-den"@
    ||| id == "gaming-corner"@
    ||| id == "cinema"@
    ||| id == "city"@
    ||| id == "hangout-hub"@
}

/// The router is total: every activity string, without exception, is
/// assigned one of the seven known room ids.
pub proof fn lemma_activity_router_total(a: Seq<char>)
    ensures
        known_room_id(spec_room_id(a)),
{
}

/// The router is deterministic: equal activity strings are assigned the
/// same room and theme.
pub proof fn lemma_activity_router_deterministic(a: Seq<char>, b: Seq<char>)
    requires
        a == b,
    ensures
        spec_room_id(a) == spec_room_id(b),
        spec_room_theme(a) == spec_room_theme(b),
{
}

/// ASCII lowering of one character.
fn to_lower(c: char) -> (r: char)
    ensures
        r == lower_char(c),
{
    match c {
        'A' => 'a', 'B' => 'b', 'C' => 'c', 'D' => 'd', 'E' => 'e',
        'F' => 'f', 'G' => 'g', 'H' => 'h', 'I' => 'i', 'J' => 'j',
        'K' => 'k', 'L' => 'l', 'M' => 'm', 'N' => 'n', 'O' => 'o',
        'P' => 'p', 'Q' => 'q', 'R' => 'r', 'S' => 's', 'T' => 't',
        'U' => 'u', 'V' => 'v', 'W' => 'w', 'X' => 'x', 'Y' => 'y',
        'Z' => 'z',
        _ => c,
    }
}

/// ASCII lowering of a whole string, as a character vector.
fn lower_str(s: &str) -> (r: Vec<char>)
    ensures
        r@ == lower_seq(s@),
{
    let n = s.unicode_len();
    let mut r: Vec<char> = Vec::new();
    let mut i: usize = 0;
    while i < n
        invariant
            n == s@.len(),
            i <= n,
            r@ == lower_seq(s@.subrange(0, i as int)),
        decreases n - i,
    {
        let c = to_lower(s.get_char(i));
        r.push(c);
        proof {
            assert(s@.subrange(0, i + 1 as int).drop_last() =~= s@.subrange(0, i as int));
            assert(r@ =~= lower_seq(s@.subrange(0, i + 1 as int)));
        }
        i = i + 1;
    }
    proof {
        assert(s@.subrange(0, n as int) =~= s@);
    }
    r
}

/// Whether the needle occurs in the haystack starting at position `i`.
fn match_at(h: &Vec<char>, kw: &str, i: usize) -> (r: bool)
    requires
        i + kw@.len() <= h@.len(),
    ensures
        r == matches_at(h@, kw@, i as int),
{
    let n = kw.unicode_len();
    let hlen = h.len();
    let mut j: usize = 0;
    while j < n
        invariant
            n == kw@.len(),
            hlen == h@.len(),
            i + n <= h@.len(),
            j <= n,
            forall|k: int| 0 <= k < j ==> h@[i + k] == kw@[k],
        decreases n - j,
    {
        if h[i + j] != kw.get_char(j) {
            return false;
        }
        j = j + 1;
    }
    true
}

/// Whether the (already lowered) haystack contains the keyword.
fn contains_kw(h: &Vec<char>, kw: &str) -> (r: bool)
    ensures
        r == contains_seq(h@, kw@),
{
    let n = kw.unicode_len();
    let hl = h.len();
    if n > hl {
        proof {
            assert(forall|i: int| !matches_at(h@, kw@, i));
        }
        return false;
    }
    let mut i: usize = 0;
    while i <= hl - n
        invariant
            n == kw@.len(),
            hl == h@.len(),
            n <= hl,
            i <= hl - n + 1,
            forall|p: int| 0 <= p < i ==> !matches_at(h@, kw@, p),
        decreases hl + 1 - i,
    {
        if match_at(h, kw, i) {
            return true;
        }
        i = i + 1;
    }
    proof {
        assert(forall|p: int| matches_at(h@, kw@, p) ==> 0 <= p <= hl - n);
    }
    false
}

/// Route an activity string to the `(room_id, theme)` of its themed room.
///
/// Total and deterministic: the result is pinned, for every input, by
/// [`spec_room_id`] and [`spec_room_theme`].
pub fn activity_to_room(activity: &str) -> (r: (String, String))
    ensures
        r.0@ == spec_room_id(activity@),
        r.1@ == spec_room_theme(activity@),
{
    let lowered = lower_str(activity);
    if contains_kw(&lowered, "music") || contains_kw(&lowered, "guitar")
        || contains_kw(&lowered, "piano") {
        (String::from_str("music-lounge"), String::from_str("Music Lounge"))
    } else if contains_kw(&lowered, "art") || contains_kw(&lowered, "draw")
        || contains_kw(&lowered, "paint") {
        (String::from_str("art-studio"), String::from_str("Art Studio"))
    } else if contains_kw(&lowered, "code") || contains_kw(&lowered, "coding")
        || contains_kw(&lowered, "program") || contains_kw(&lowered, "study") {
        (String::from_str("focus-den"), String::from_str("Focus Den"))
    } else if contains_kw(&lowered, "game") || contains_kw(&lowered, "gaming") {
        (String::from_str("gaming-corner"), String::from_str("Gaming Corner"))
    } else if contains_kw(&lowered, "watching") || contains_kw(&lowered, "movie")
        || contains_kw(&lowered, "judge") || contains_kw(&lowered, "judging") {
        (String::from_str("cinema"), String::from_str("Cinema"))
    } else if contains_kw(&lowered, "party") || contains_kw(&lowered, "city")
        || contains_kw(&lowered, "walking") {
        (String::from_str("city"), String::from_str("City"))
    } else {
        (String::from_str("hangout-hub"), String::from_str("Hangout Hub"))
    }
}

} // verus!
