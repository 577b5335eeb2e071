//! One entity of the store, and how a movement step changes it.
use vstd::prelude::*;
use crate::types::{Direction, FullSoldierInfo, InternalSoldierInfo, Position, SeenSoldierInfo, Side, SoldierID};

verus! {

/// Health reported for every entity.
pub const FULL_HEALTH: i32 = 100;

/// One slot of the entity store.
#[derive(PartialEq, Eq, Structural, Copy, Clone, Debug)]
pub struct Soldier {
    pub id: SoldierID,
    pub pos: Position,
    pub dir: Direction,
    pub alive: bool,
    /// The commanded destination, if any.
    pub moving: Option<Position>,
}

/// The outcome of one movement step toward a destination, computed by the
/// integrator from position, destination, speed and elapsed time.
#[derive(PartialEq, Eq, Structural, Copy, Clone, Debug)]
pub enum Step {
    /// Within the arrival threshold: the destination is dropped and the
    /// position kept.
    Arrived,
    /// Moved to the given position, now facing the given direction.
    Advanced(Position, Direction),
}

/// The origin, and a zero angle: every coordinate bit pattern of `0.0`.
pub open spec fn origin() -> Position {
    Position { x: 0, y: 0 }
}

pub open spec fn seen_info(s: Soldier) -> SeenSoldierInfo {
    SeenSoldierInfo { alive: s.alive, position: s.pos, direction: s.dir, side: Side::Blue }
}

pub open spec fn full_info(s: Soldier) -> FullSoldierInfo {
    FullSoldierInfo {
        internal: InternalSoldierInfo { health: FULL_HEALTH },
        external: seen_info(s),
    }
}

/// The soldier after one step; a soldier without a destination stays put.
pub open spec fn stepped(s: Soldier, step: Step) -> Soldier {
    match s.moving {
        None => s,
        Some(_) => match step {
            Step::Arrived => Soldier { moving: None, ..s },
            Step::Advanced(p, d) => Soldier { pos: p, dir: d, ..s },
        },
    }
}

impl Soldier {
    /// A dead soldier at the origin, without a destination.
    pub fn new() -> (r: Soldier)
        ensures
            r == (Soldier { id: SoldierID(0), pos: origin(), dir: Direction(0), alive: false, moving: None }),
    {
        Soldier {
            id: SoldierID(0),
            pos: Position { x: 0, y: 0 },
            dir: Direction(0),
            alive: false,
            moving: None,
        }
    }

    /// Applies one step if a destination is pending; tells whether one was.
    pub fn try_move(&mut self, step: Step) -> (r: bool)
        ensures
            r == old(self).moving is Some,
            *final(self) == stepped(*old(self), step),
    {
        match self.moving {
            Some(_) => {
                self.move_soldier(step);
                true
            },
            None => false,
        }
    }

    /// Applies one step toward the pending destination and reports the new state.
    pub fn move_soldier(&mut self, step: Step) -> (r: SeenSoldierInfo)
        requires
            old(self).moving is Some,
        ensures
            *final(self) == stepped(*old(self), step),
            r == seen_info(*final(self)),
    {
        match step {
            Step::Arrived => {
                self.moving = None;
            },
            Step::Advanced(p, d) => {
                self.pos = p;
                self.dir = d;
            },
        }
        self.construct_sensor_info()
    }

    pub fn construct_sensor_info(&self) -> (r: SeenSoldierInfo)
        ensures
            r == seen_info(*self),
    {
        SeenSoldierInfo { alive: self.alive, position: self.pos, direction: self.dir, side: Side::Blue }
    }

    pub fn get_full_info(&self) -> (r: FullSoldierInfo)
        ensures
            r == full_info(*self),
    {
        FullSoldierInfo {
            internal: InternalSoldierInfo { health: FULL_HEALTH },
            external: self.construct_sensor_info(),
        }
    }
}

} // verus!
