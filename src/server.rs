//! The simulation owner: one ordered stream of session events and ticks.
use vstd::prelude::*;
use crate::soldier::Step;
use crate::types::{GameMsg, ServerMsg, SessionId, SoldierID};
use crate::world::{GameState, WorldView};

verus! {

/// What a connection tells the simulation owner.
#[derive(PartialEq, Eq, Structural, Copy, Clone, Debug)]
pub enum WebSocketMsg {
    Connected(SessionId),
    Disconnected(SessionId),
    IncomingData(SessionId, GameMsg),
}

/// The simulation owner: the live sessions and the world, changed only by
/// one event at a time.
pub struct ChatServer {
    clients: Vec<SessionId>,
    game: GameState,
}

impl ChatServer {
    /// The live sessions.
    pub closed spec fn clients(&self) -> Set<SessionId> {
        self.clients@.to_set()
    }

    pub closed spec fn world(&self) -> WorldView {
        self.game@
    }

    pub closed spec fn wf(&self) -> bool {
        self.game.wf()
    }

    /// No session, and a fresh world.
    pub fn new() -> (r: ChatServer)
        ensures
            r.wf(),
            r.clients() == Set::<SessionId>::empty(),
            r.world() == WorldView::initial(),
    {
        let r = ChatServer { clients: Vec::new(), game: GameState::new() };
        assert(r.clients() =~= Set::<SessionId>::empty());
        r
    }

    pub fn game(&self) -> (r: &GameState)
        requires
            self.wf(),
        ensures
            r@ == self.world(),
            r.wf(),
    {
        &self.game
    }

    /// Handles one event and returns the messages it makes the owner send:
    /// the answer owed to the issuer of a command, if any.
    pub fn handle(&mut self, msg: WebSocketMsg) -> (r: Vec<(SessionId, ServerMsg)>)
        requires
            old(self).wf(),
        ensures
            final(self).wf(),
            match msg {
                WebSocketMsg::Connected(c) => {
                    &&& final(self).clients() == old(self).clients().insert(c)
                    &&& final(self).world() == old(self).world()
                    &&& r@.len() == 0
                },
                WebSocketMsg::Disconnected(c) => {
                    &&& final(self).clients() == old(self).clients().remove(c)
                    &&& final(self).world() == old(self).world().release(c)
                    &&& r@.len() == 0
                },
                WebSocketMsg::IncomingData(c, g) => {
                    &&& final(self).clients() == old(self).clients()
                    &&& final(self).world() == old(self).world().handle(c, g)
                    &&& r@.len() <= 1
                    &&& r@.len() == 1 ==> r@[0].0 == c
                    &&& old(self).world().is_reply(
                        g,
                        if r@.len() == 1 {
                            Some(r@[0].1)
                        } else {
                            None
                        },
                    )
                },
            },
    {
        let mut out: Vec<(SessionId, ServerMsg)> = Vec::new();
        match msg {
            WebSocketMsg::Connected(c) => {
                let ghost before = self.clients@;
                if !self.has_client(c) {
                    self.clients.push(c);
                }
                assert(self.clients@.to_set() =~= before.to_set().insert(c)) by {
                    assert forall|x: SessionId| self.clients@.contains(x) <==> before.contains(x) || x == c by {
                        if before.contains(x) {
                            let k = choose|k: int| 0 <= k < before.len() && before[k] == x;
                            assert(self.clients@[k] == x);
                        }
                        if self.clients@.contains(x) && !before.contains(x) {
                            let k = choose|k: int| 0 <= k < self.clients@.len() && self.clients@[k] == x;
                            if k < before.len() {
                                assert(before[k] == x);
                            }
                        }
                        if x == c && !before.contains(c) {
                            assert(self.clients@[before.len() as int] == c);
                        }
                    }
                }
            },
            WebSocketMsg::Disconnected(c) => {
                self.remove_client(c);
                self.game.client_disconnected(c);
            },
            WebSocketMsg::IncomingData(c, g) => {
                match self.game.game_msg(c, g) {
                    Some(m) => out.push((c, m)),
                    None => {},
                }
            },
        }
        out
    }

    /// One tick of the world; the outbound batch of visibility reports.
    pub fn update(&mut self, steps: &Vec<(SoldierID, Step)>) -> (r: Vec<(SessionId, ServerMsg)>)
        requires
            old(self).wf(),
        ensures
            final(self).wf(),
            final(self).clients() == old(self).clients(),
            final(self).world() == old(self).world().steps_applied(steps@),
            final(self).world().are_reports(r@),
    {
        self.game.tick(steps)
    }

    fn has_client(&self, c: SessionId) -> (r: bool)
        ensures
            r == self.clients@.contains(c),
    {
        let mut i: usize = 0;
        while i < self.clients.len()
            invariant
                0 <= i <= self.clients@.len(),
                forall|k: int| 0 <= k < i ==> self.clients@[k] != c,
            decreases self.clients@.len() - i,
        {
            if self.clients[i] == c {
                return true;
            }
            i += 1;
        }
        false
    }

    fn remove_client(&mut self, c: SessionId)
        ensures
            final(self).clients() == old(self).clients().remove(c),
            final(self).game == old(self).game,
    {
        let mut kept: Vec<SessionId> = Vec::new();
        let mut i: usize = 0;
        while i < self.clients.len()
            invariant
                0 <= i <= self.clients@.len(),
                forall|x: SessionId|
                    #![trigger kept@.contains(x)]
                    kept@.contains(x) <==> (x != c && self.clients@.take(i as int).contains(x)),
            decreases self.clients@.len() - i,
        {
            let x = self.clients[i];
            let ghost before = kept@;
            if x != c {
                kept.push(x);
            }
            assert forall|y: SessionId|
                #![trigger kept@.contains(y)]
                kept@.contains(y) <==> (y != c && self.clients@.take(i + 1).contains(y)) by {
                let t0 = self.clients@.take(i as int);
                let t1 = self.clients@.take(i + 1);
                assert(t1 =~= t0.push(x));
                assert(before.contains(y) == (y != c && t0.contains(y)));
                assert(t1.contains(y) == (t0.contains(y) || y == x)) by {
                    if t0.contains(y) {
                        let k = choose|k: int| 0 <= k < t0.len() && t0[k] == y;
                        assert(t1[k] == y);
                    }
                    if t1.contains(y) && y != x {
                        let k = choose|k: int| 0 <= k < t1.len() && t1[k] == y;
                        assert(t0[k] == y);
                    }
                    if y == x {
                        assert(t1[i as int] == y);
                    }
                }
                if x != c {
                    assert(kept@ =~= before.push(x));
                    assert(kept@.contains(y) == (before.contains(y) || y == x)) by {
                        if before.contains(y) {
                            let k = choose|k: int| 0 <= k < before.len() && before[k] == y;
                            assert(kept@[k] == y);
                        }
                        if kept@.contains(y) && y != x {
                            let k = choose|k: int| 0 <= k < kept@.len() && kept@[k] == y;
                            assert(before[k] == y);
                        }
                        if y == x {
                            assert(kept@[before.len() as int] == y);
                        }
                    }
                } else {
                    assert(kept@ == before);
                }
            }
            i += 1;
        }
        let ghost old_clients = self.clients@;
        self.clients = kept;
        assert(self.clients@.to_set() =~= old_clients.to_set().remove(c)) by {
            assert(old_clients.take(old_clients.len() as int) =~= old_clients);
        }
    }
}

impl Default for ChatServer {
    fn default() -> (r: ChatServer)
        ensures
            r.wf(),
            r.clients() == Set::<SessionId>::empty(),
            r.world() == WorldView::initial(),
    {
        ChatServer::new()
    }
}

} // verus!
