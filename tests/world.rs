use soldiers::soldier::Step;
use soldiers::types::{Direction, GameMsg, Position, SensorUpdate, ServerMsg, SessionId, SoldierID};
use soldiers::world::GameState;

fn pos(x: f64, y: f64) -> Position {
    Position { x: x.to_bits(), y: y.to_bits() }
}

fn available(g: &mut GameState) -> Vec<SoldierID> {
    match g.game_msg(SessionId(999), GameMsg::QueryStatus) {
        Some(ServerMsg::AvailableSoldiers(v)) => v,
        _ => panic!("no status answer"),
    }
}

fn ids(v: &[i32]) -> Vec<SoldierID> {
    v.iter().map(|&i| SoldierID(i)).collect()
}

#[test]
fn fresh_world_has_four_available() {
    let g = GameState::new();
    assert_eq!(g.available_soldiers(), ids(&[0, 1, 2, 3]));
    assert!(g.is_available(SoldierID(3)));
    assert!(!g.is_available(SoldierID(4)));
    assert!(!g.is_available(SoldierID(-1)));
    assert!(!g.is_available(SoldierID(64)));
    assert!(g.movement_orders().is_empty());
}

#[test]
fn take_control_answers_with_full_state() {
    let mut g = GameState::new();
    match g.game_msg(SessionId(1), GameMsg::TakeControl(SoldierID(2))) {
        Some(ServerMsg::YouNowHaveControl(sid, info)) => {
            assert_eq!(sid, SoldierID(2));
            assert_eq!(info.internal.health, 100);
            assert!(info.external.alive);
            assert_eq!(info.external.position, pos(50.0, 50.0));
            assert_eq!(info.external.direction, Direction(0));
        }
        other => panic!("unexpected answer {:?}", other),
    }
    assert_eq!(g.available_soldiers(), ids(&[0, 1, 3]));
}

#[test]
fn only_one_of_many_contenders_gets_control() {
    let mut g = GameState::new();
    let mut granted = 0;
    for c in 0..10u64 {
        if g.try_take_control(SoldierID(1), SessionId(c)) {
            granted += 1;
        }
    }
    assert_eq!(granted, 1);
    // The first contender holds it: its move is accepted, the others' are not.
    g.game_msg(SessionId(5), GameMsg::MoveTo(SoldierID(1), pos(0.0, 0.0)));
    assert!(g.movement_orders().is_empty());
    g.game_msg(SessionId(0), GameMsg::MoveTo(SoldierID(1), pos(1.0, 2.0)));
    assert_eq!(g.movement_orders(), vec![(SoldierID(1), pos(40.0, 40.0), pos(1.0, 2.0))]);
}

#[test]
fn dead_or_unknown_entities_cannot_be_taken() {
    let mut g = GameState::new();
    assert!(g.game_msg(SessionId(1), GameMsg::TakeControl(SoldierID(10))).is_none());
    assert!(g.game_msg(SessionId(1), GameMsg::TakeControl(SoldierID(-5))).is_none());
    assert!(g.game_msg(SessionId(1), GameMsg::TakeControl(SoldierID(64))).is_none());
    assert!(g.game_msg(SessionId(1), GameMsg::TakeControl(SoldierID(i32::MAX))).is_none());
    assert_eq!(g.available_soldiers(), ids(&[0, 1, 2, 3]));
}

#[test]
fn move_from_non_controller_is_noop() {
    let mut g = GameState::new();
    assert!(g.try_take_control(SoldierID(0), SessionId(1)));
    assert!(g.game_msg(SessionId(2), GameMsg::MoveTo(SoldierID(0), pos(5.0, 5.0))).is_none());
    assert!(g.game_msg(SessionId(2), GameMsg::MoveTo(SoldierID(3), pos(5.0, 5.0))).is_none());
    assert!(g.game_msg(SessionId(2), GameMsg::MoveTo(SoldierID(-1), pos(5.0, 5.0))).is_none());
    assert!(g.game_msg(SessionId(2), GameMsg::MoveTo(SoldierID(70), pos(5.0, 5.0))).is_none());
    assert!(g.movement_orders().is_empty());
    let before = g.tick(&vec![]);
    let after = g.tick(&vec![(SoldierID(0), Step::Advanced(pos(1.0, 1.0), Direction(7)))]);
    // Entity 0 had no destination, so the step did not move it.
    assert_eq!(format!("{:?}", before), format!("{:?}", after));
}

#[test]
fn disconnect_releases_only_that_connection() {
    let mut g = GameState::new();
    assert!(g.try_take_control(SoldierID(0), SessionId(1)));
    assert!(g.try_take_control(SoldierID(2), SessionId(1)));
    assert!(g.try_take_control(SoldierID(1), SessionId(2)));
    assert_eq!(g.available_soldiers(), ids(&[3]));
    g.client_disconnected(SessionId(1));
    assert_eq!(g.available_soldiers(), ids(&[0, 2, 3]));
    assert!(!g.is_available(SoldierID(1)));
    assert_eq!(g.find_owner(SoldierID(1)), Some(SessionId(2)));
    assert_eq!(g.find_owner(SoldierID(0)), None);
    assert_eq!(g.find_owner(SoldierID(2)), None);
    assert_eq!(g.find_owner(SoldierID(-3)), None);
    // Idempotent, and harmless for a connection holding nothing.
    g.client_disconnected(SessionId(1));
    g.client_disconnected(SessionId(77));
    assert_eq!(g.available_soldiers(), ids(&[0, 2, 3]));
}

#[test]
fn new_game_resets_availability() {
    let mut g = GameState::new();
    assert!(g.try_take_control(SoldierID(0), SessionId(1)));
    assert_eq!(available(&mut g), ids(&[1, 2, 3]));
    match g.game_msg(SessionId(2), GameMsg::Init(7)) {
        Some(ServerMsg::NewGame(v)) => assert_eq!(v, ids(&[0, 1, 2, 3])),
        other => panic!("unexpected answer {:?}", other),
    }
    assert_eq!(available(&mut g), ids(&[0, 1, 2, 3]));
    g.game_msg(SessionId(1), GameMsg::MoveTo(SoldierID(0), pos(9.0, 9.0)));
    assert!(g.movement_orders().is_empty());
}

#[test]
fn steps_move_and_arrival_clears_destination() {
    let mut g = GameState::new();
    assert!(g.try_take_control(SoldierID(0), SessionId(1)));
    g.game_msg(SessionId(1), GameMsg::MoveTo(SoldierID(0), pos(30.0, 40.0)));
    assert_eq!(g.movement_orders(), vec![(SoldierID(0), pos(30.0, 30.0), pos(30.0, 40.0))]);
    let dir = Direction(std::f64::consts::FRAC_PI_2.to_bits());
    g.move_all(&vec![(SoldierID(0), Step::Advanced(pos(30.0, 30.1), dir))]);
    assert_eq!(g.movement_orders(), vec![(SoldierID(0), pos(30.0, 30.1), pos(30.0, 40.0))]);
    g.move_all(&vec![(SoldierID(0), Step::Arrived)]);
    assert!(g.movement_orders().is_empty());
    // Once arrived, later steps change nothing.
    g.move_all(&vec![(SoldierID(0), Step::Advanced(pos(0.0, 0.0), Direction(0)))]);
    match g.game_msg(SessionId(2), GameMsg::TakeControl(SoldierID(1))) {
        Some(ServerMsg::YouNowHaveControl(_, _)) => {}
        other => panic!("unexpected answer {:?}", other),
    }
    let msgs = g.tick(&vec![]);
    let for_two = msgs.iter().find(|(c, _)| *c == SessionId(2)).unwrap();
    match &for_two.1 {
        ServerMsg::SensorInfo(u) => {
            let seen0 = u[0].1.insense.iter().find(|(s, _)| *s == SoldierID(0)).unwrap();
            assert_eq!(seen0.1.position, pos(30.0, 30.1));
            assert_eq!(seen0.1.direction, dir);
        }
        other => panic!("unexpected message {:?}", other),
    }
}

fn updates(m: &ServerMsg) -> &Vec<(SoldierID, SensorUpdate)> {
    match m {
        ServerMsg::SensorInfo(u) => u,
        other => panic!("unexpected message {:?}", other),
    }
}

#[test]
fn one_report_per_connection_with_everything_seen() {
    let mut g = GameState::new();
    assert!(g.tick(&vec![]).is_empty());
    assert!(g.try_take_control(SoldierID(2), SessionId(10)));
    assert!(g.try_take_control(SoldierID(0), SessionId(10)));
    assert!(g.try_take_control(SoldierID(3), SessionId(20)));
    let msgs = g.tick(&vec![]);
    assert_eq!(msgs.len(), 2);
    assert_eq!(msgs[0].0, SessionId(10));
    assert_eq!(msgs[1].0, SessionId(20));
    let u = updates(&msgs[0].1);
    assert_eq!(u.len(), 2);
    assert_eq!(u[0].0, SoldierID(0));
    assert_eq!(u[1].0, SoldierID(2));
    let seen: Vec<SoldierID> = u[0].1.insense.iter().map(|p| p.0).collect();
    assert_eq!(seen, ids(&[1, 2, 3]));
    assert!(u[0].1.outsense.is_empty());
    let seen: Vec<SoldierID> = u[1].1.insense.iter().map(|p| p.0).collect();
    assert_eq!(seen, ids(&[0, 1, 3]));
    let u = updates(&msgs[1].1);
    assert_eq!(u.len(), 1);
    assert_eq!(u[0].1.insense.len(), 3);
    let third = u[0].1.insense[2].1;
    assert_eq!(third.position, pos(50.0, 50.0));
    assert!(third.alive);
}

#[test]
fn sensor_update_collects_entries() {
    let mut u = SensorUpdate::new();
    assert!(u.insense.is_empty() && u.outsense.is_empty());
    let g = GameState::new();
    let seen = g.current_percepts(SoldierID(0));
    assert_eq!(seen.len(), 3);
    u.add(seen[0].0, seen[0].1);
    assert_eq!(u.insense, vec![seen[0]]);
    assert!(g.detects(SoldierID(0), SoldierID(1)));
    assert!(!g.detects(SoldierID(0), SoldierID(0)));
    assert!(!g.detects(SoldierID(0), SoldierID(5)));
    assert!(g.current_percepts(SoldierID(9)).is_empty());
}
