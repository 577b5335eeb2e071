//! The messages and records exchanged with clients.
use vstd::prelude::*;

verus! {

/// Number of entity slots in every world.
pub const MAX_NUM_SOLDIERS: i32 = 64;

/// Stable identity of an entity; valid ids are `0..MAX_NUM_SOLDIERS`.
#[derive(PartialEq, Eq, Structural, Copy, Clone, Debug, Hash)]
pub struct SoldierID(pub i32);

/// Opaque identity of a live connection (a session).
#[derive(PartialEq, Eq, Structural, Copy, Clone, Debug, Hash)]
pub struct SessionId(pub u64);

/// A point of the plane, each coordinate held as the bit pattern of an
/// IEEE-754 double. The world logic only stores and copies coordinates;
/// arithmetic on them happens where floating point is available.
#[derive(PartialEq, Eq, Structural, Copy, Clone, Debug, Hash)]
pub struct Position {
    pub x: u64,
    pub y: u64,
}

/// Facing, as the bit pattern of an IEEE-754 double angle in radians.
#[derive(PartialEq, Eq, Structural, Copy, Clone, Debug, Hash)]
pub struct Direction(pub u64);

#[derive(PartialEq, Eq, Structural, Copy, Clone, Debug)]
pub enum Side {
    Red,
    Blue,
}

#[derive(PartialEq, Eq, Structural, Copy, Clone, Debug)]
pub struct InternalSoldierInfo {
    pub health: i32,
}

/// What an observer learns about an entity it detects.
#[derive(PartialEq, Eq, Structural, Copy, Clone, Debug)]
pub struct SeenSoldierInfo {
    pub alive: bool,
    pub position: Position,
    pub direction: Direction,
    pub side: Side,
}

/// Everything the controller of an entity learns about it.
#[derive(PartialEq, Eq, Structural, Copy, Clone, Debug)]
pub struct FullSoldierInfo {
    pub internal: InternalSoldierInfo,
    pub external: SeenSoldierInfo,
}

/// One observer's changes of view in one tick.
#[derive(Clone, Debug)]
pub struct SensorUpdate {
    /// Entities newly in view, with their state.
    pub insense: Vec<(SoldierID, SeenSoldierInfo)>,
    /// Entities no longer in view.
    pub outsense: Vec<SoldierID>,
}

impl SensorUpdate {
    pub fn new() -> (r: SensorUpdate)
        ensures
            r.insense@ == Seq::<(SoldierID, SeenSoldierInfo)>::empty(),
            r.outsense@ == Seq::<SoldierID>::empty(),
    {
        SensorUpdate { insense: Vec::new(), outsense: Vec::new() }
    }

    pub fn add(&mut self, sid: SoldierID, info: SeenSoldierInfo)
        ensures
            final(self).insense@ == old(self).insense@.push((sid, info)),
            final(self).outsense@ == old(self).outsense@,
    {
        self.insense.push((sid, info));
    }
}

/// A command from a client.
#[derive(PartialEq, Eq, Structural, Copy, Clone, Debug)]
pub enum GameMsg {
    /// Start a new game (the population argument is carried but unused).
    Init(i32),
    TakeControl(SoldierID),
    QueryStatus,
    MoveTo(SoldierID, Position),
}

/// A message to a client.
#[derive(Clone, Debug)]
pub enum ServerMsg {
    /// The fresh world's available entities.
    NewGame(Vec<SoldierID>),
    AvailableSoldiers(Vec<SoldierID>),
    YouNowHaveControl(SoldierID, FullSoldierInfo),
    /// One update per observing entity of the recipient, keyed by that entity.
    SensorInfo(Vec<(SoldierID, SensorUpdate)>),
}

} // verus!
