//! The world: entity store and controller registry, with its abstract
//! model and the handling of client commands.
use vstd::prelude::*;
use crate::soldier::{full_info, origin, stepped, Soldier, Step};
use crate::types::{
    Direction, GameMsg, Position, SeenSoldierInfo, SensorUpdate, ServerMsg, SessionId, SoldierID,
    MAX_NUM_SOLDIERS,
};

verus! {

/// Number of entities alive in a fresh world.
pub const START_POPULATION: i32 = 4;

pub open spec fn valid_id(sid: SoldierID) -> bool {
    0 <= sid.0 < MAX_NUM_SOLDIERS
}

/// Starting coordinate of entity `i` of the fresh population, as the bit
/// pattern of the double `10 * i + 30` (30.0, 40.0, 50.0, 60.0).
pub open spec fn start_coord(i: int) -> u64 {
    if i == 0 {
        0x403E_0000_0000_0000
    } else if i == 1 {
        0x4044_0000_0000_0000
    } else if i == 2 {
        0x4049_0000_0000_0000
    } else {
        0x404E_0000_0000_0000
    }
}

pub open spec fn initial_soldier(i: int) -> Soldier {
    Soldier {
        id: SoldierID(i as i32),
        pos: if i < START_POPULATION {
            Position { x: start_coord(i), y: start_coord(i) }
        } else {
            origin()
        },
        dir: Direction(0),
        alive: i < START_POPULATION,
        moving: None,
    }
}

/// The abstract world: one entity per slot and, per slot, the connection
/// controlling that entity, if any.
pub struct WorldView {
    pub soldiers: Seq<Soldier>,
    pub controllers: Seq<Option<SessionId>>,
}

impl WorldView {
    /// A freshly created world.
    pub open spec fn initial() -> WorldView {
        WorldView {
            soldiers: Seq::new(MAX_NUM_SOLDIERS as nat, |i: int| initial_soldier(i)),
            controllers: Seq::new(MAX_NUM_SOLDIERS as nat, |i: int| None),
        }
    }

    /// Dense slots, each holding the entity of its index, and only living
    /// entities under control.
    pub open spec fn wf(self) -> bool {
        &&& self.soldiers.len() == MAX_NUM_SOLDIERS
        &&& self.controllers.len() == MAX_NUM_SOLDIERS
        &&& forall|i: int| 0 <= i < MAX_NUM_SOLDIERS ==> #[trigger] self.soldiers[i].id == SoldierID(i as i32)
        &&& forall|i: int|
            0 <= i < MAX_NUM_SOLDIERS && (#[trigger] self.controllers[i]) is Some ==> self.soldiers[i].alive
    }

    pub open spec fn controller(self, sid: SoldierID) -> Option<SessionId> {
        if valid_id(sid) {
            self.controllers[sid.0 as int]
        } else {
            None
        }
    }

    /// Alive and without a controller.
    pub open spec fn is_available(self, sid: SoldierID) -> bool {
        valid_id(sid) && self.soldiers[sid.0 as int].alive && self.controllers[sid.0 as int] is None
    }

    /// The available ids below `n`, in increasing order.
    pub open spec fn available_upto(self, n: int) -> Seq<SoldierID>
        decreases n,
    {
        if n <= 0 {
            Seq::empty()
        } else {
            let prev = self.available_upto(n - 1);
            if self.is_available(SoldierID((n - 1) as i32)) {
                prev.push(SoldierID((n - 1) as i32))
            } else {
                prev
            }
        }
    }

    pub open spec fn available(self) -> Seq<SoldierID> {
        self.available_upto(MAX_NUM_SOLDIERS as int)
    }

    /// `from` becomes the controller of `sid` if it is available.
    pub open spec fn take_control(self, sid: SoldierID, from: SessionId) -> WorldView {
        if self.is_available(sid) {
            WorldView { controllers: self.controllers.update(sid.0 as int, Some(from)), ..self }
        } else {
            self
        }
    }

    /// The destination of `sid` becomes `d` if `from` controls it.
    pub open spec fn move_to(self, sid: SoldierID, from: SessionId, d: Position) -> WorldView {
        if self.controller(sid) == Some(from) {
            let i = sid.0 as int;
            WorldView { soldiers: self.soldiers.update(i, Soldier { moving: Some(d), ..self.soldiers[i] }), ..self }
        } else {
            self
        }
    }

    /// Every entity controlled by `from` loses its controller.
    pub open spec fn release(self, from: SessionId) -> WorldView {
        WorldView {
            controllers: Seq::new(
                self.controllers.len(),
                |i: int|
                    if self.controllers[i] == Some(from) {
                        None
                    } else {
                        self.controllers[i]
                    },
            ),
            ..self
        }
    }

    /// The world after command `msg` from `from`.
    pub open spec fn handle(self, from: SessionId, msg: GameMsg) -> WorldView {
        match msg {
            GameMsg::Init(_) => WorldView::initial(),
            GameMsg::TakeControl(sid) => self.take_control(sid, from),
            GameMsg::QueryStatus => self,
            GameMsg::MoveTo(sid, d) => self.move_to(sid, from, d),
        }
    }

    /// Whether `r` is the answer owed to the issuer of `msg` in this world.
    pub open spec fn is_reply(self, msg: GameMsg, r: Option<ServerMsg>) -> bool {
        match msg {
            GameMsg::Init(_) => match r {
                Some(ServerMsg::NewGame(v)) => v@ == WorldView::initial().available(),
                _ => false,
            },
            GameMsg::TakeControl(sid) => if self.is_available(sid) {
                match r {
                    Some(ServerMsg::YouNowHaveControl(s, info)) => s == sid && info == full_info(
                        self.soldiers[sid.0 as int],
                    ),
                    _ => false,
                }
            } else {
                r is None
            },
            GameMsg::QueryStatus => match r {
                Some(ServerMsg::AvailableSoldiers(v)) => v@ == self.available(),
                _ => false,
            },
            GameMsg::MoveTo(_, _) => r is None,
        }
    }

    /// One movement step applied to entity `sid`.
    pub open spec fn apply_step(self, sid: SoldierID, step: Step) -> WorldView {
        if valid_id(sid) {
            let i = sid.0 as int;
            WorldView { soldiers: self.soldiers.update(i, stepped(self.soldiers[i], step)), ..self }
        } else {
            self
        }
    }

    /// The steps applied in order.
    pub open spec fn steps_applied(self, steps: Seq<(SoldierID, Step)>) -> WorldView
        decreases steps.len(),
    {
        if steps.len() == 0 {
            self
        } else {
            self.steps_applied(steps.drop_last()).apply_step(steps.last().0, steps.last().1)
        }
    }

    /// The pending movements below `n` (entity, position, destination), by id.
    pub open spec fn orders_upto(self, n: int) -> Seq<(SoldierID, Position, Position)>
        decreases n,
    {
        if n <= 0 {
            Seq::empty()
        } else {
            let prev = self.orders_upto(n - 1);
            let s = self.soldiers[n - 1];
            match s.moving {
                Some(d) => prev.push((s.id, s.pos, d)),
                None => prev,
            }
        }
    }
}

fn start_coord_of(i: i32) -> (r: u64)
    requires
        0 <= i < START_POPULATION,
    ensures
        r == start_coord(i as int),
{
    if i == 0 {
        0x403E_0000_0000_0000
    } else if i == 1 {
        0x4044_0000_0000_0000
    } else if i == 2 {
        0x4049_0000_0000_0000
    } else {
        0x404E_0000_0000_0000
    }
}

/// The entity store and the controller registry of one world.
pub struct GameState {
    soldiers: Vec<Soldier>,
    soldier_controllers: Vec<Option<SessionId>>,
}

impl View for GameState {
    type V = WorldView;

    closed spec fn view(&self) -> WorldView {
        WorldView { soldiers: self.soldiers@, controllers: self.soldier_controllers@ }
    }
}

impl GameState {
    pub open spec fn wf(&self) -> bool {
        self@.wf()
    }

    /// A fresh world: `START_POPULATION` living entities, nobody in control.
    pub fn new() -> (r: GameState)
        ensures
            r@ == WorldView::initial(),
            r.wf(),
    {
        let mut s: Vec<Soldier> = Vec::new();
        let mut controllers: Vec<Option<SessionId>> = Vec::new();
        let mut i: i32 = 0;
        while i < MAX_NUM_SOLDIERS
            invariant
                0 <= i <= MAX_NUM_SOLDIERS,
                s@.len() == i,
                controllers@.len() == i,
                forall|k: int| 0 <= k < i ==> s@[k] == initial_soldier(k),
                forall|k: int| 0 <= k < i ==> controllers@[k] is None,
            decreases MAX_NUM_SOLDIERS - i,
        {
            let mut sol = Soldier::new();
            sol.id = SoldierID(i);
            if i < START_POPULATION {
                let c = start_coord_of(i);
                sol.alive = true;
                sol.pos = Position { x: c, y: c };
            }
            s.push(sol);
            controllers.push(None);
            i += 1;
        }
        let r = GameState { soldiers: s, soldier_controllers: controllers };
        assert(r@.soldiers =~= WorldView::initial().soldiers);
        assert(r@.controllers =~= WorldView::initial().controllers);
        r
    }

    pub fn is_available(&self, sid: SoldierID) -> (r: bool)
        requires
            self.wf(),
        ensures
            r == self@.is_available(sid),
    {
        if 0 <= sid.0 && sid.0 < MAX_NUM_SOLDIERS {
            let i = sid.0 as usize;
            self.soldiers[i].alive && self.soldier_controllers[i].is_none()
        } else {
            false
        }
    }

    /// The connection controlling `sid`, if any.
    pub fn find_owner(&self, sid: SoldierID) -> (r: Option<SessionId>)
        requires
            self.wf(),
        ensures
            r == self@.controller(sid),
    {
        if 0 <= sid.0 && sid.0 < MAX_NUM_SOLDIERS {
            self.soldier_controllers[sid.0 as usize]
        } else {
            None
        }
    }

    /// The ids of the available entities, in increasing order.
    pub fn available_soldiers(&self) -> (r: Vec<SoldierID>)
        requires
            self.wf(),
        ensures
            r@ == self@.available(),
    {
        let mut r: Vec<SoldierID> = Vec::new();
        let mut i: i32 = 0;
        while i < MAX_NUM_SOLDIERS
            invariant
                self.wf(),
                0 <= i <= MAX_NUM_SOLDIERS,
                r@ == self@.available_upto(i as int),
            decreases MAX_NUM_SOLDIERS - i,
        {
            if self.is_available(SoldierID(i)) {
                r.push(SoldierID(i));
            }
            i += 1;
        }
        r
    }

    /// Assigns `sid` to `from` if it is available; tells whether it was.
    pub fn try_take_control(&mut self, sid: SoldierID, from: SessionId) -> (r: bool)
        requires
            old(self).wf(),
        ensures
            final(self).wf(),
            r == old(self)@.is_available(sid),
            final(self)@ == old(self)@.take_control(sid, from),
    {
        if self.is_available(sid) {
            self.soldier_controllers.set(sid.0 as usize, Some(from));
            true
        } else {
            false
        }
    }

    /// Handles a request for control: on success, the full state of the
    /// entity for its new controller.
    pub fn handle_take_control(&mut self, sid: SoldierID, from: SessionId) -> (r: Option<ServerMsg>)
        requires
            old(self).wf(),
        ensures
            final(self).wf(),
            final(self)@ == old(self)@.take_control(sid, from),
            old(self)@.is_reply(GameMsg::TakeControl(sid), r),
    {
        if self.try_take_control(sid, from) {
            let info = self.soldiers[sid.0 as usize].get_full_info();
            Some(ServerMsg::YouNowHaveControl(sid, info))
        } else {
            None
        }
    }

    /// Releases every entity controlled by `from`; nothing else changes.
    pub fn client_disconnected(&mut self, from: SessionId)
        requires
            old(self).wf(),
        ensures
            final(self).wf(),
            final(self)@ == old(self)@.release(from),
    {
        let ghost start = self@;
        let mut i: usize = 0;
        while i < self.soldier_controllers.len()
            invariant
                start.wf(),
                self@.soldiers == start.soldiers,
                self@.controllers.len() == start.controllers.len(),
                0 <= i <= self@.controllers.len(),
                forall|k: int| 0 <= k < i ==> #[trigger] self@.controllers[k] == start.release(from).controllers[k],
                forall|k: int| i <= k < self@.controllers.len() ==> #[trigger] self@.controllers[k] == start.controllers[k],
            decreases self@.controllers.len() - i,
        {
            if self.soldier_controllers[i] == Some(from) {
                self.soldier_controllers.set(i, None);
            }
            i += 1;
        }
        assert(self@.controllers =~= start.release(from).controllers);
    }

    /// Handles one command of connection `from` and returns the answer owed
    /// to it, if any. Unknown or foreign entities make a command a no-op.
    pub fn game_msg(&mut self, from: SessionId, msg: GameMsg) -> (r: Option<ServerMsg>)
        requires
            old(self).wf(),
        ensures
            final(self).wf(),
            final(self)@ == old(self)@.handle(from, msg),
            old(self)@.is_reply(msg, r),
    {
        match msg {
            GameMsg::Init(_) => {
                *self = GameState::new();
                Some(ServerMsg::NewGame(self.available_soldiers()))
            },
            GameMsg::TakeControl(sid) => self.handle_take_control(sid, from),
            GameMsg::QueryStatus => Some(ServerMsg::AvailableSoldiers(self.available_soldiers())),
            GameMsg::MoveTo(sid, pos) => {
                if 0 <= sid.0 && sid.0 < MAX_NUM_SOLDIERS {
                    let i = sid.0 as usize;
                    if self.soldier_controllers[i] == Some(from) {
                        let mut s = self.soldiers[i];
                        s.moving = Some(pos);
                        self.soldiers.set(i, s);
                    }
                }
                None
            },
        }
    }

    /// The pending movements (entity, position, destination), by id.
    pub fn movement_orders(&self) -> (r: Vec<(SoldierID, Position, Position)>)
        requires
            self.wf(),
        ensures
            r@ == self@.orders_upto(MAX_NUM_SOLDIERS as int),
    {
        let mut r: Vec<(SoldierID, Position, Position)> = Vec::new();
        let mut i: usize = 0;
        while i < self.soldiers.len()
            invariant
                self.wf(),
                0 <= i <= MAX_NUM_SOLDIERS,
                r@ == self@.orders_upto(i as int),
            decreases MAX_NUM_SOLDIERS - i,
        {
            let s = self.soldiers[i];
            match s.moving {
                Some(d) => r.push((s.id, s.pos, d)),
                None => {},
            }
            i += 1;
        }
        r
    }

    /// Advances every entity named in `steps` by its step, in order.
    /// Entities without a destination, and unknown ids, are left alone.
    pub fn move_all(&mut self, steps: &Vec<(SoldierID, Step)>)
        requires
            old(self).wf(),
        ensures
            final(self).wf(),
            final(self)@ == old(self)@.steps_applied(steps@),
    {
        let ghost start = self@;
        let mut k: usize = 0;
        while k < steps.len()
            invariant
                start.wf(),
                self.wf(),
                0 <= k <= steps@.len(),
                self@ == start.steps_applied(steps@.take(k as int)),
            decreases steps@.len() - k,
        {
            let (sid, step) = steps[k];
            if 0 <= sid.0 && sid.0 < MAX_NUM_SOLDIERS {
                let i = sid.0 as usize;
                let mut s = self.soldiers[i];
                s.try_move(step);
                self.soldiers.set(i, s);
            }
            assert(steps@.take(k + 1).drop_last() =~= steps@.take(k as int));
            k += 1;
        }
        assert(steps@.take(steps@.len() as int) =~= steps@);
    }
    /// The detection predicate, isolated so that another policy (range,
    /// line of sight) can replace it.
    pub fn detects(&self, observer: SoldierID, observed: SoldierID) -> (r: bool)
        requires
            self.wf(),
            valid_id(observer),
            valid_id(observed),
        ensures
            r == self@.detects(observer.0 as int, observed.0 as int),
    {
        self.soldiers[observer.0 as usize].alive && self.soldiers[observed.0 as usize].alive
            && observer.0 != observed.0
    }

    /// Every entity that `observer` perceives, with its state, by id.
    pub fn current_percepts(&self, observer: SoldierID) -> (r: Vec<(SoldierID, SeenSoldierInfo)>)
        requires
            self.wf(),
            valid_id(observer),
        ensures
            r@ == self@.percepts(observer),
    {
        let mut r: Vec<(SoldierID, SeenSoldierInfo)> = Vec::new();
        let mut i: i32 = 0;
        while i < MAX_NUM_SOLDIERS
            invariant
                self.wf(),
                valid_id(observer),
                0 <= i <= MAX_NUM_SOLDIERS,
                r@ == self@.percepts_upto(observer.0 as int, i as int),
            decreases MAX_NUM_SOLDIERS - i,
        {
            if self.detects(observer, SoldierID(i)) {
                r.push((SoldierID(i), self.soldiers[i as usize].construct_sensor_info()));
            }
            i += 1;
        }
        r
    }

    /// The connections in control of some entity, each once.
    pub fn recipients(&self) -> (r: Vec<SessionId>)
        requires
            self.wf(),
        ensures
            r@ == self@.recipients(),
    {
        let mut r: Vec<SessionId> = Vec::new();
        let mut i: usize = 0;
        while i < self.soldier_controllers.len()
            invariant
                self.wf(),
                0 <= i <= MAX_NUM_SOLDIERS,
                r@ == self@.recipients_upto(i as int),
            decreases MAX_NUM_SOLDIERS - i,
        {
            match self.soldier_controllers[i] {
                Some(c) => {
                    if !contains_session(&r, c) {
                        r.push(c);
                    }
                },
                None => {},
            }
            i += 1;
        }
        r
    }

    /// The one aggregated update for connection `c`.
    pub fn report_for(&self, c: SessionId) -> (r: ServerMsg)
        requires
            self.wf(),
        ensures
            self@.is_report(c, r),
    {
        let mut u: Vec<(SoldierID, SensorUpdate)> = Vec::new();
        let mut i: i32 = 0;
        while i < MAX_NUM_SOLDIERS
            invariant
                self.wf(),
                0 <= i <= MAX_NUM_SOLDIERS,
                u@.len() == self@.controlled_upto(c, i as int).len(),
                forall|t: int|
                    0 <= t < u@.len() ==> {
                        &&& (#[trigger] u@[t]).0 == self@.controlled_upto(c, i as int)[t]
                        &&& u@[t].1.insense@ == self@.percepts(u@[t].0)
                        &&& u@[t].1.outsense@.len() == 0
                    },
            decreases MAX_NUM_SOLDIERS - i,
        {
            if self.soldier_controllers[i as usize] == Some(c) {
                let upd = SensorUpdate { insense: self.current_percepts(SoldierID(i)), outsense: Vec::new() };
                u.push((SoldierID(i), upd));
            }
            i += 1;
        }
        ServerMsg::SensorInfo(u)
    }

    /// This tick's outbound batch: exactly one report per connection in
    /// control of some entity.
    pub fn construct_messages(&self) -> (r: Vec<(SessionId, ServerMsg)>)
        requires
            self.wf(),
        ensures
            self@.are_reports(r@),
    {
        let rs = self.recipients();
        let mut r: Vec<(SessionId, ServerMsg)> = Vec::new();
        let mut k: usize = 0;
        while k < rs.len()
            invariant
                self.wf(),
                rs@ == self@.recipients(),
                0 <= k <= rs@.len(),
                r@.len() == k,
                forall|j: int|
                    0 <= j < k ==> (#[trigger] r@[j]).0 == rs@[j] && self@.is_report(r@[j].0, r@[j].1),
            decreases rs@.len() - k,
        {
            let c = rs[k];
            let m = self.report_for(c);
            r.push((c, m));
            k += 1;
        }
        r
    }

    /// One tick: the movement steps, then the visibility reports.
    pub fn tick(&mut self, steps: &Vec<(SoldierID, Step)>) -> (r: Vec<(SessionId, ServerMsg)>)
        requires
            old(self).wf(),
        ensures
            final(self).wf(),
            final(self)@ == old(self)@.steps_applied(steps@),
            final(self)@.are_reports(r@),
    {
        self.move_all(steps);
        self.construct_messages()
    }
}

fn contains_session(v: &Vec<SessionId>, c: SessionId) -> (r: bool)
    ensures
        r == v@.contains(c),
{
    let mut i: usize = 0;
    while i < v.len()
        invariant
            0 <= i <= v@.len(),
            forall|k: int| 0 <= k < i ==> v@[k] != c,
        decreases v@.len() - i,
    {
        if v[i] == c {
            return true;
        }
        i += 1;
    }
    false
}

} // verus!
