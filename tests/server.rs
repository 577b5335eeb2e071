use soldiers::connection::{Beat, Frame, MyWebSocket, Reaction, CLIENT_TIMEOUT_MS};
use soldiers::codec::encode_command;
use soldiers::server::{ChatServer, WebSocketMsg};
use soldiers::types::{GameMsg, Position, ServerMsg, SessionId, SoldierID};

#[test]
fn server_answers_the_issuer_only() {
    let mut s = ChatServer::default();
    assert!(s.handle(WebSocketMsg::Connected(SessionId(1))).is_empty());
    assert!(s.handle(WebSocketMsg::Connected(SessionId(2))).is_empty());
    let out = s.handle(WebSocketMsg::IncomingData(SessionId(1), GameMsg::TakeControl(SoldierID(0))));
    assert_eq!(out.len(), 1);
    assert_eq!(out[0].0, SessionId(1));
    assert!(matches!(out[0].1, ServerMsg::YouNowHaveControl(SoldierID(0), _)));
    let out = s.handle(WebSocketMsg::IncomingData(SessionId(2), GameMsg::TakeControl(SoldierID(0))));
    assert!(out.is_empty());
    let out = s.handle(WebSocketMsg::IncomingData(SessionId(2), GameMsg::TakeControl(SoldierID(1))));
    assert_eq!(out.len(), 1);
    let out = s.handle(WebSocketMsg::IncomingData(SessionId(2), GameMsg::MoveTo(SoldierID(1), Position { x: 0, y: 0 })));
    assert!(out.is_empty());
    let batch = s.update(&vec![]);
    assert_eq!(batch.iter().map(|m| m.0).collect::<Vec<_>>(), vec![SessionId(1), SessionId(2)]);
    assert!(s.handle(WebSocketMsg::Disconnected(SessionId(1))).is_empty());
    assert_eq!(s.game().available_soldiers(), vec![SoldierID(0), SoldierID(2), SoldierID(3)]);
    let out = s.handle(WebSocketMsg::IncomingData(SessionId(2), GameMsg::Init(0)));
    assert_eq!(out.len(), 1);
    match &out[0].1 {
        ServerMsg::NewGame(v) => assert_eq!(v.len(), 4),
        other => panic!("unexpected answer {:?}", other),
    }
    assert!(s.update(&vec![]).is_empty());
}

#[test]
fn connection_reacts_to_frames() {
    let mut c = MyWebSocket::new(100);
    match c.handle(Frame::Ping(vec![1, 2]), 200) {
        Reaction::Pong(p) => assert_eq!(p, vec![1, 2]),
        other => panic!("unexpected reaction {:?}", other),
    }
    assert_eq!(c.hb, 200);
    assert!(matches!(c.handle(Frame::Pong, 300), Reaction::Ignore));
    assert_eq!(c.hb, 300);
    assert!(matches!(c.handle(Frame::Text, 400), Reaction::Ignore));
    assert_eq!(c.hb, 300);
    let cmd = encode_command(GameMsg::TakeControl(SoldierID(2)));
    assert!(matches!(c.handle(Frame::Binary(cmd), 500), Reaction::Forward(GameMsg::TakeControl(SoldierID(2)))));
    assert!(matches!(c.handle(Frame::Binary(vec![0xc1]), 500), Reaction::Rejected));
    assert!(matches!(c.handle(Frame::Close, 600), Reaction::Disconnect));
    assert_eq!(c.hb, 300);
}

#[test]
fn heartbeat_times_out_after_silence() {
    let c = MyWebSocket::new(1000);
    assert_eq!(c.hb(1000), Beat::Ping);
    assert_eq!(c.hb(1000 + CLIENT_TIMEOUT_MS), Beat::Ping);
    assert_eq!(c.hb(1001 + CLIENT_TIMEOUT_MS), Beat::TimedOut);
    assert_eq!(c.hb(0), Beat::Ping);
}
