//! A minimal echo endpoint for a directly attached sensor: it answers
//! pings, echoes text and binary frames back, and drops the connection
//! when the peer falls silent. Its liveness window is much tighter than
//! the relay sessions'.
use vstd::prelude::*;
use crate::ws_session::WsFrame;

verus! {

/// How often this endpoint pings its peer, in seconds.
pub const HEARTBEAT_INTERVAL: u64 = 5;

/// How long without inbound activity before this endpoint drops the
/// connection, in seconds.
pub const CLIENT_TIMEOUT: u64 = 10;

/// What the transport layer must do after handing the endpoint a frame.
pub enum EchoEffect {
    /// Answer a ping with its payload.
    Pong(Vec<u8>),
    /// Echo a text frame.
    Text(String),
    /// Echo a binary frame.
    Binary(Vec<u8>),
    /// Echo the close handshake.
    Close,
}

/// The outcome of one inbound frame.
pub struct EchoOutcome {
    pub effects: Vec<EchoEffect>,
    pub stop: bool,
}

/// One directly attached sensor connection: the time it was last heard
/// from.
pub struct SensorWebsocket {
    pub hb: u64,
}

impl SensorWebsocket {
    pub fn new(now: u64) -> (s: SensorWebsocket)
        ensures
            s.hb == now,
    {
        SensorWebsocket { hb: now }
    }

    /// Heartbeat tick: drop the connection if the peer has been silent
    /// past this endpoint's timeout, otherwise probe it.
    pub fn on_hb_tick(&self, now: u64) -> (stop: bool)
        ensures
            stop <==> self.hb + CLIENT_TIMEOUT < now,
    {
        now > CLIENT_TIMEOUT && self.hb < now - CLIENT_TIMEOUT
    }

    /// Handle one inbound frame: pings are answered, pongs only refresh
    /// the clock, text and binary frames are echoed, anything else ends
    /// the connection.
    pub fn on_frame(&mut self, now: u64, frame: WsFrame) -> (out: EchoOutcome)
        ensures
            match frame {
                WsFrame::Ping(p) => !out.stop && final(self).hb == now && out.effects@.len() == 1
                    && (out.effects@[0] matches EchoEffect::Pong(q) && q@ == p@),
                WsFrame::Pong => !out.stop && final(self).hb == now && out.effects@.len() == 0,
                WsFrame::Text(t) => !out.stop && final(self).hb == old(self).hb
                    && out.effects@.len() == 1 && (out.effects@[0] matches EchoEffect::Text(u)
                    && u@ == t@),
                WsFrame::Binary(b) => !out.stop && final(self).hb == old(self).hb
                    && out.effects@.len() == 1 && (out.effects@[0] matches EchoEffect::Binary(c)
                    && c@ == b@),
                WsFrame::Close => out.stop && final(self).hb == old(self).hb && out.effects@.len()
                    == 1 && out.effects@[0] is Close,
                _ => out.stop && final(self).hb == old(self).hb && out.effects@.len() == 0,
            },
    {
        let mut effects: Vec<EchoEffect> = Vec::new();
        match frame {
            WsFrame::Ping(p) => {
                self.hb = now;
                effects.push(EchoEffect::Pong(p));
                EchoOutcome { effects, stop: false }
            },
            WsFrame::Pong => {
                self.hb = now;
                EchoOutcome { effects, stop: false }
            },
            WsFrame::Text(t) => {
                effects.push(EchoEffect::Text(t));
                EchoOutcome { effects, stop: false }
            },
            WsFrame::Binary(b) => {
                effects.push(EchoEffect::Binary(b));
                EchoOutcome { effects, stop: false }
            },
            WsFrame::Close => {
                effects.push(EchoEffect::Close);
                EchoOutcome { effects, stop: true }
            },
            _ => EchoOutcome { effects, stop: true },
        }
    }
}

} // verus!
