//! One client connection: its reaction to inbound frames, and its liveness
//! check.
use vstd::prelude::*;
use crate::codec::{decode_command, decoded};
use crate::types::GameMsg;

verus! {

/// How often a connection pings its peer, in milliseconds.
pub const HEARTBEAT_INTERVAL_MS: u64 = 5000;

/// How long a connection waits for a liveness signal before it gives up on
/// its peer, in milliseconds: twice the ping interval.
pub const CLIENT_TIMEOUT_MS: u64 = 2 * HEARTBEAT_INTERVAL_MS;

/// An inbound frame of the transport.
#[derive(Clone, Debug)]
pub enum Frame {
    Ping(Vec<u8>),
    Pong,
    Text,
    Binary(Vec<u8>),
    Close,
}

/// What a connection does about an inbound frame.
#[derive(Clone, Debug)]
pub enum Reaction {
    Ignore,
    /// Answer a ping with this payload.
    Pong(Vec<u8>),
    /// Hand the command to the simulation owner.
    Forward(GameMsg),
    /// The frame held no command; the connection stays open.
    Rejected,
    /// Report the disconnect and close the socket.
    Disconnect,
}

/// What a connection does when its heartbeat timer fires.
#[derive(PartialEq, Eq, Structural, Copy, Clone, Debug)]
pub enum Beat {
    Ping,
    /// Report the disconnect and close the socket.
    TimedOut,
}

/// Whether a peer last heard from at `last` has been silent too long at `now`.
pub open spec fn timed_out(last: u64, now: u64) -> bool {
    now as int - last as int > CLIENT_TIMEOUT_MS as int
}

/// One client connection; times are milliseconds of a monotonic clock.
#[derive(Copy, Clone, Debug)]
pub struct MyWebSocket {
    /// When the peer last gave a liveness signal.
    pub hb: u64,
}

impl MyWebSocket {
    pub fn new(now: u64) -> (r: MyWebSocket)
        ensures
            r.hb == now,
    {
        MyWebSocket { hb: now }
    }

    /// Reacts to an inbound frame received at `now`.
    pub fn handle(&mut self, frame: Frame, now: u64) -> (r: Reaction)
        ensures
            match frame {
                Frame::Ping(p) => final(self).hb == now && match r {
                    Reaction::Pong(q) => q@ == p@,
                    _ => false,
                },
                Frame::Pong => final(self).hb == now && r is Ignore,
                Frame::Text => final(self).hb == old(self).hb && r is Ignore,
                Frame::Binary(b) => final(self).hb == old(self).hb && match decoded(b@) {
                    Some(m) => r == Reaction::Forward(m),
                    None => r is Rejected,
                },
                Frame::Close => final(self).hb == old(self).hb && r is Disconnect,
            },
    {
        match frame {
            Frame::Ping(p) => {
                self.hb = now;
                Reaction::Pong(p)
            },
            Frame::Pong => {
                self.hb = now;
                Reaction::Ignore
            },
            Frame::Text => Reaction::Ignore,
            Frame::Binary(b) => match decode_command(b.as_slice()) {
                Some(m) => Reaction::Forward(m),
                None => Reaction::Rejected,
            },
            Frame::Close => Reaction::Disconnect,
        }
    }

    /// The heartbeat check at `now`: ping the peer, or give up on it.
    pub fn hb(&self, now: u64) -> (r: Beat)
        ensures
            r == (if timed_out(self.hb, now) {
                Beat::TimedOut
            } else {
                Beat::Ping
            }),
    {
        if now > self.hb && now - self.hb > CLIENT_TIMEOUT_MS {
            Beat::TimedOut
        } else {
            Beat::Ping
        }
    }
}

} // verus!
