//! Properties of the world that hold across commands, ticks and
//! connections.
use vstd::prelude::*;
use crate::soldier::{stepped, Step};
use crate::types::{GameMsg, Position, ServerMsg, SessionId, SoldierID, MAX_NUM_SOLDIERS};
use crate::world::{valid_id, WorldView, START_POPULATION};

verus! {

/// Requests for control of `sid` from each connection of `from`, in order:
/// the world afterwards and the number of requests granted.
pub open spec fn contend(w: WorldView, sid: SoldierID, from: Seq<SessionId>) -> (WorldView, nat)
    decreases from.len(),
{
    if from.len() == 0 {
        (w, 0)
    } else {
        let (w1, n) = contend(w, sid, from.drop_last());
        (w1.take_control(sid, from.last()), n + if w1.is_available(sid) { 1nat } else { 0nat })
    }
}

/// Every command keeps the world well formed: slots stay dense and only
/// living entities are ever under control.
pub proof fn lemma_handle_preserves_wf(w: WorldView, from: SessionId, msg: GameMsg)
    requires
        w.wf(),
    ensures
        w.handle(from, msg).wf(),
{
    let r = w.handle(from, msg);
    match msg {
        GameMsg::Init(_) => {
            assert forall|i: int| 0 <= i < MAX_NUM_SOLDIERS implies #[trigger] r.soldiers[i].id == SoldierID(
                i as i32,
            ) by {}
        },
        GameMsg::TakeControl(sid) => {
            assert forall|i: int|
                0 <= i < MAX_NUM_SOLDIERS && (#[trigger] r.controllers[i]) is Some implies r.soldiers[i].alive by {
                if w.is_available(sid) && i != sid.0 {
                    assert(r.controllers[i] == w.controllers[i]);
                }
            }
        },
        GameMsg::QueryStatus => {},
        GameMsg::MoveTo(sid, d) => {
            assert forall|i: int| 0 <= i < MAX_NUM_SOLDIERS implies #[trigger] r.soldiers[i].id == SoldierID(
                i as i32,
            ) by {
                if w.controller(sid) == Some(from) && i != sid.0 {
                    assert(r.soldiers[i] == w.soldiers[i]);
                }
            }
            assert forall|i: int|
                0 <= i < MAX_NUM_SOLDIERS && (#[trigger] r.controllers[i]) is Some implies r.soldiers[i].alive by {
                if w.controller(sid) == Some(from) && i != sid.0 {
                    assert(r.soldiers[i] == w.soldiers[i]);
                }
            }
        },
    }
}

/// A disconnect keeps the world well formed.
pub proof fn lemma_release_preserves_wf(w: WorldView, from: SessionId)
    requires
        w.wf(),
    ensures
        w.release(from).wf(),
{
    let r = w.release(from);
    assert forall|i: int|
        0 <= i < MAX_NUM_SOLDIERS && (#[trigger] r.controllers[i]) is Some implies r.soldiers[i].alive by {
        assert(r.controllers[i] == w.controllers[i]);
    }
}

/// Exclusivity: when several connections ask for the same entity, exactly
/// one request is granted if the entity was available (none otherwise),
/// and the first asker ends up as its one controller.
pub proof fn lemma_exclusive_control(w: WorldView, sid: SoldierID, from: Seq<SessionId>)
    requires
        w.wf(),
    ensures
        contend(w, sid, from).1 == (if w.is_available(sid) && from.len() > 0 { 1nat } else { 0nat }),
        w.is_available(sid) && from.len() > 0 ==> contend(w, sid, from).0.controller(sid) == Some(from[0]),
        contend(w, sid, from).0.wf(),
        from.len() > 0 ==> !contend(w, sid, from).0.is_available(sid),
        !w.is_available(sid) ==> contend(w, sid, from).0 == w,
    decreases from.len(),
{
    if from.len() > 0 {
        let prefix = from.drop_last();
        lemma_exclusive_control(w, sid, prefix);
        let w1 = contend(w, sid, prefix).0;
        lemma_handle_preserves_wf(w1, from.last(), GameMsg::TakeControl(sid));
        if prefix.len() > 0 {
            assert(prefix[0] == from[0]);
        }
    }
}

/// A movement command from a connection that does not control the entity
/// changes nothing.
pub proof fn lemma_foreign_move_is_noop(w: WorldView, from: SessionId, sid: SoldierID, d: Position)
    requires
        w.controller(sid) != Some(from),
    ensures
        w.handle(from, GameMsg::MoveTo(sid, d)) == w,
{
}

/// Once an entity has arrived (it has no destination), no movement step
/// changes it: its position is stable.
pub proof fn lemma_arrived_is_stable(w: WorldView, i: int, steps: Seq<(SoldierID, Step)>)
    requires
        w.wf(),
        0 <= i < MAX_NUM_SOLDIERS,
        w.soldiers[i].moving is None,
    ensures
        w.steps_applied(steps).soldiers[i] == w.soldiers[i],
        w.steps_applied(steps).soldiers.len() == w.soldiers.len(),
    decreases steps.len(),
{
    if steps.len() > 0 {
        lemma_arrived_is_stable(w, i, steps.drop_last());
    }
}

/// A step that finds the destination reached clears it.
pub proof fn lemma_arrival_clears_destination(w: WorldView, sid: SoldierID)
    requires
        w.wf(),
        valid_id(sid),
    ensures
        w.apply_step(sid, Step::Arrived).soldiers[sid.0 as int].moving is None,
        w.apply_step(sid, Step::Arrived).soldiers[sid.0 as int].pos == w.soldiers[sid.0 as int].pos,
{
}

/// Movement steps keep the world well formed.
pub proof fn lemma_steps_preserve_wf(w: WorldView, steps: Seq<(SoldierID, Step)>)
    requires
        w.wf(),
    ensures
        w.steps_applied(steps).wf(),
        w.steps_applied(steps).controllers == w.controllers,
    decreases steps.len(),
{
    if steps.len() > 0 {
        lemma_steps_preserve_wf(w, steps.drop_last());
        let w1 = w.steps_applied(steps.drop_last());
        let r = w.steps_applied(steps);
        let (sid, step) = steps.last();
        assert forall|i: int| 0 <= i < MAX_NUM_SOLDIERS implies #[trigger] r.soldiers[i].id == SoldierID(
            i as i32,
        ) by {
            if valid_id(sid) && i == sid.0 {
                assert(r.soldiers[i] == stepped(w1.soldiers[i], step));
            } else {
                assert(r.soldiers[i] == w1.soldiers[i]);
            }
        }
        assert forall|i: int|
            0 <= i < MAX_NUM_SOLDIERS && (#[trigger] r.controllers[i]) is Some implies r.soldiers[i].alive by {
            if valid_id(sid) && i == sid.0 {
                assert(r.soldiers[i] == stepped(w1.soldiers[i], step));
            } else {
                assert(r.soldiers[i] == w1.soldiers[i]);
            }
        }
    }
}

proof fn lemma_recipients_facts(w: WorldView, n: int)
    requires
        w.wf(),
        0 <= n <= MAX_NUM_SOLDIERS,
    ensures
        w.recipients_upto(n).no_duplicates(),
        forall|i: int|
            0 <= i < n && (#[trigger] w.controllers[i]) is Some ==> w.recipients_upto(n).contains(
                w.controllers[i]->Some_0,
            ),
    decreases n,
{
    if n > 0 {
        lemma_recipients_facts(w, n - 1);
        let prev = w.recipients_upto(n - 1);
        assert forall|i: int|
            0 <= i < n && (#[trigger] w.controllers[i]) is Some implies w.recipients_upto(n).contains(
                w.controllers[i]->Some_0,
            ) by {
            if i < n - 1 {
                let c = w.controllers[i]->Some_0;
                let k = choose|k: int| 0 <= k < prev.len() && prev[k] == c;
                if w.controllers[n - 1] is Some && !prev.contains(w.controllers[n - 1]->Some_0) {
                    assert(w.recipients_upto(n)[k] == c);
                }
            } else {
                if !prev.contains(w.controllers[i]->Some_0) {
                    assert(w.recipients_upto(n)[prev.len() as int] == w.controllers[i]->Some_0);
                }
            }
        }
    }
}

proof fn lemma_controlled_contains(w: WorldView, c: SessionId, n: int, i: int)
    requires
        0 <= i < n,
        w.controllers[i] == Some(c),
    ensures
        w.controlled_upto(c, n).contains(SoldierID(i as i32)),
    decreases n,
{
    if i < n - 1 {
        lemma_controlled_contains(w, c, n - 1, i);
        let prev = w.controlled_upto(c, n - 1);
        let k = choose|k: int| 0 <= k < prev.len() && prev[k] == SoldierID(i as i32);
        assert(w.controlled_upto(c, n)[k] == SoldierID(i as i32));
    } else {
        let prev = w.controlled_upto(c, n - 1);
        assert(w.controlled_upto(c, n)[prev.len() as int] == SoldierID(i as i32));
    }
}

/// Aggregation: in a tick's outbound batch, a connection controlling an
/// entity gets exactly one message, and that message holds, under that
/// entity, everything the entity perceives.
pub proof fn lemma_one_report_per_connection(
    w: WorldView,
    msgs: Seq<(SessionId, ServerMsg)>,
    sid: SoldierID,
    c: SessionId,
)
    requires
        w.wf(),
        w.are_reports(msgs),
        w.controller(sid) == Some(c),
    ensures
        exists|k: int| 0 <= k < msgs.len() && #[trigger] msgs[k].0 == c,
        forall|j: int, k: int|
            0 <= j < msgs.len() && 0 <= k < msgs.len() && #[trigger] msgs[j].0 == c && #[trigger] msgs[k].0 == c
                ==> j == k,
        forall|k: int|
            0 <= k < msgs.len() && #[trigger] msgs[k].0 == c ==> match msgs[k].1 {
                ServerMsg::SensorInfo(u) => exists|t: int|
                    0 <= t < u@.len() && (#[trigger] u@[t]).0 == sid && u@[t].1.insense@ == w.percepts(sid),
                _ => false,
            },
{
    let n = MAX_NUM_SOLDIERS as int;
    let i = sid.0 as int;
    lemma_recipients_facts(w, n);
    assert(w.controllers[i] is Some);
    let rs = w.recipients();
    let k0 = choose|k: int| 0 <= k < rs.len() && rs[k] == c;
    assert(msgs[k0].0 == c);
    assert forall|j: int, k: int|
        0 <= j < msgs.len() && 0 <= k < msgs.len() && #[trigger] msgs[j].0 == c && #[trigger] msgs[k].0 == c
            implies j == k by {
        assert(rs[j] == rs[k]);
    }
    lemma_controlled_contains(w, c, n, i);
    assert forall|k: int| 0 <= k < msgs.len() && #[trigger] msgs[k].0 == c implies match msgs[k].1 {
        ServerMsg::SensorInfo(u) => exists|t: int|
            0 <= t < u@.len() && (#[trigger] u@[t]).0 == sid && u@[t].1.insense@ == w.percepts(sid),
        _ => false,
    } by {
        assert(w.is_report(c, msgs[k].1));
        let obs = w.controlled(c);
        let t = choose|t: int| 0 <= t < obs.len() && obs[t] == sid;
        match msgs[k].1 {
            ServerMsg::SensorInfo(u) => {
                assert(u@[t].0 == sid);
            },
            _ => {},
        }
    }
}

/// A disconnect releases exactly the entities of that connection: every
/// other assignment stays as it was.
pub proof fn lemma_disconnect_releases_exactly(w: WorldView, from: SessionId, sid: SoldierID)
    requires
        w.wf(),
    ensures
        w.release(from).controller(sid) == (if w.controller(sid) == Some(from) {
            None
        } else {
            w.controller(sid)
        }),
        w.release(from).soldiers == w.soldiers,
{
}

proof fn lemma_initial_available_upto(n: int)
    requires
        0 <= n <= MAX_NUM_SOLDIERS,
    ensures
        WorldView::initial().available_upto(n) == Seq::new(
            (if n < START_POPULATION { n } else { START_POPULATION as int }) as nat,
            |i: int| SoldierID(i as i32),
        ),
    decreases n,
{
    if n > 0 {
        lemma_initial_available_upto(n - 1);
        let w = WorldView::initial();
        assert(w.available_upto(n) =~= Seq::new(
            (if n < START_POPULATION { n } else { START_POPULATION as int }) as nat,
            |i: int| SoldierID(i as i32),
        ));
    }
}

/// A new game voids every assignment: the whole starting population is
/// available again, and a movement command from a former controller is a
/// no-op.
pub proof fn lemma_new_game_resets_control(
    w: WorldView,
    issuer: SessionId,
    population: i32,
    former: SessionId,
    sid: SoldierID,
    d: Position,
)
    ensures
        w.handle(issuer, GameMsg::Init(population)).available() == Seq::new(
            START_POPULATION as nat,
            |i: int| SoldierID(i as i32),
        ),
        w.handle(issuer, GameMsg::Init(population)).controller(sid) is None,
        w.handle(issuer, GameMsg::Init(population)).handle(former, GameMsg::MoveTo(sid, d)) == w.handle(
            issuer,
            GameMsg::Init(population),
        ),
{
    lemma_initial_available_upto(MAX_NUM_SOLDIERS as int);
}

} // verus!
