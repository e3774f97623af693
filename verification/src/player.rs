//! Player identity and presence state.
//!
//! A player is a client's identity inside a room: a server-assigned id,
//! display attributes chosen by the client, and a live presence state
//! (position, rotation, movement flag).

use vstd::prelude::*;

verus! {

/// 3D position in the game world.
///
/// Clients exchange single-precision float coordinates; the core stores
/// and forwards them without ever interpreting them, so each coordinate is
/// held as the IEEE-754 bit pattern of the client's float. The origin is
/// all-zero bits, which is also the bit pattern of floating-point zero.
#[derive(PartialEq, Eq, Structural, Clone, Copy, Debug)]
pub struct Position {
    pub x: u32,
    pub y: u32,
    pub z: u32,
}

impl Position {
    /// The origin, where every player starts.
    pub open spec fn spec_origin() -> Position {
        Position { x: 0, y: 0, z: 0 }
    }

    pub fn origin() -> (r: Position)
        ensures
            r == Position::spec_origin(),
    {
        Position { x: 0, y: 0, z: 0 }
    }
}

/// Facial feature customization options, passed through unchanged from
/// the join request to every peer.
#[derive(Debug, PartialEq, Eq)]
pub struct FacialFeatures {
    pub eye_style: String,
    pub nose_style: String,
    pub mouth_style: String,
    pub character_type: String,
}

/// The character type a join request gets when it names none.
pub fn default_character_type() -> (r: String)
    ensures
        r@ == "cat"@,
{
    String::from_str("cat")
}

impl Clone for FacialFeatures {
    fn clone(&self) -> (r: Self)
        ensures
            r == *self,
    {
        FacialFeatures {
            eye_style: self.eye_style.clone(),
            nose_style: self.nose_style.clone(),
            mouth_style: self.mouth_style.clone(),
            character_type: self.character_type.clone(),
        }
    }
}

/// Player data for game state.
///
/// `rotation` is, like the coordinates of [`Position`], the IEEE-754 bit
/// pattern of the client's single-precision float, never interpreted by
/// the core.
#[derive(Debug, PartialEq, Eq)]
pub struct PlayerData {
    pub id: String,
    pub name: String,
    pub color: String,
    pub activity: String,
    pub facial_features: FacialFeatures,
    pub position: Position,
    pub rotation: u32,
    pub is_moving: bool,
}

impl Clone for PlayerData {
    fn clone(&self) -> (r: Self)
        ensures
            r == *self,
    {
        PlayerData {
            id: self.id.clone(),
            name: self.name.clone(),
            color: self.color.clone(),
            activity: self.activity.clone(),
            facial_features: self.facial_features.clone(),
            position: self.position,
            rotation: self.rotation,
            is_moving: self.is_moving,
        }
    }
}

impl PlayerData {
    /// The prototype handed to a session at construction: the client's
    /// chosen attributes, with no id yet and the presence state zeroed.
    /// Whatever the client claimed, a player starts at the origin, with
    /// rotation zero, not moving.
    pub fn prototype(
        name: String,
        color: String,
        activity: String,
        facial_features: FacialFeatures,
    ) -> (r: PlayerData)
        ensures
            r.id@ == Seq::<char>::empty(),
            r.name == name,
            r.color == color,
            r.activity == activity,
            r.facial_features == facial_features,
            r.position == Position::spec_origin(),
            r.rotation == 0,
            !r.is_moving,
    {
        PlayerData {
            id: String::new(),
            name,
            color,
            activity,
            facial_features,
            position: Position::origin(),
            rotation: 0,
            is_moving: false,
        }
    }
}

} // verus!
