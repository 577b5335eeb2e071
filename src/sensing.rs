//! The visibility model: who perceives whom in a tick, and the one
//! aggregated report each controlling connection receives.
use vstd::prelude::*;
use crate::soldier::seen_info;
use crate::types::{SeenSoldierInfo, ServerMsg, SessionId, SoldierID, MAX_NUM_SOLDIERS};
use crate::world::WorldView;

verus! {

impl WorldView {
    /// The detection predicate: global mutual visibility, under which every
    /// living entity detects every other living entity.
    pub open spec fn detects(self, observer: int, observed: int) -> bool {
        self.soldiers[observer].alive && self.soldiers[observed].alive && observer != observed
    }

    /// What `observer` perceives among the entities below `n`, by id.
    pub open spec fn percepts_upto(self, observer: int, n: int) -> Seq<(SoldierID, SeenSoldierInfo)>
        decreases n,
    {
        if n <= 0 {
            Seq::empty()
        } else {
            let prev = self.percepts_upto(observer, n - 1);
            if self.detects(observer, n - 1) {
                prev.push((SoldierID((n - 1) as i32), seen_info(self.soldiers[n - 1])))
            } else {
                prev
            }
        }
    }

    /// Every entity that `observer` perceives this tick, with its state.
    pub open spec fn percepts(self, observer: SoldierID) -> Seq<(SoldierID, SeenSoldierInfo)> {
        self.percepts_upto(observer.0 as int, MAX_NUM_SOLDIERS as int)
    }

    /// The entities below `n` that `c` controls, by id.
    pub open spec fn controlled_upto(self, c: SessionId, n: int) -> Seq<SoldierID>
        decreases n,
    {
        if n <= 0 {
            Seq::empty()
        } else {
            let prev = self.controlled_upto(c, n - 1);
            if self.controllers[n - 1] == Some(c) {
                prev.push(SoldierID((n - 1) as i32))
            } else {
                prev
            }
        }
    }

    pub open spec fn controlled(self, c: SessionId) -> Seq<SoldierID> {
        self.controlled_upto(c, MAX_NUM_SOLDIERS as int)
    }

    /// The connections controlling some entity below `n`, each once, in the
    /// order of their first entity.
    pub open spec fn recipients_upto(self, n: int) -> Seq<SessionId>
        decreases n,
    {
        if n <= 0 {
            Seq::empty()
        } else {
            let prev = self.recipients_upto(n - 1);
            match self.controllers[n - 1] {
                Some(c) => if prev.contains(c) {
                    prev
                } else {
                    prev.push(c)
                },
                None => prev,
            }
        }
    }

    pub open spec fn recipients(self) -> Seq<SessionId> {
        self.recipients_upto(MAX_NUM_SOLDIERS as int)
    }

    /// `m` is the one aggregated update for connection `c`: one entry per
    /// entity that `c` controls, listing all that the entity perceives.
    pub open spec fn is_report(self, c: SessionId, m: ServerMsg) -> bool {
        match m {
            ServerMsg::SensorInfo(u) => {
                let obs = self.controlled(c);
                &&& u@.len() == obs.len()
                &&& forall|t: int|
                    0 <= t < obs.len() ==> {
                        &&& (#[trigger] u@[t]).0 == obs[t]
                        &&& u@[t].1.insense@ == self.percepts(obs[t])
                        &&& u@[t].1.outsense@.len() == 0
                    }
            },
            _ => false,
        }
    }

    /// `msgs` is this tick's outbound batch: one report per recipient.
    pub open spec fn are_reports(self, msgs: Seq<(SessionId, ServerMsg)>) -> bool {
        &&& msgs.len() == self.recipients().len()
        &&& forall|k: int|
            0 <= k < msgs.len() ==> (#[trigger] msgs[k]).0 == self.recipients()[k] && self.is_report(
                msgs[k].0,
                msgs[k].1,
            )
    }
}

} // verus!
