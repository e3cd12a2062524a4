//! Shared protocol values: session roles, readings, and the requests a
//! connection session can direct at the relay server, together with the
//! side effects the relay server asks its caller to perform.
use vstd::prelude::*;

pub mod server;
pub mod subs;

verus! {

/// The role a session negotiates at connect time. The wrapped identity may
/// be replaced after the relay server confirms the connection; the tag never
/// changes for the lifetime of the session.
#[derive(Copy, Clone, Debug)]
pub enum Role {
    Publisher(u64),
    Subscriber(u64),
}

impl Role {
    /// The identity wrapped by either tag.
    pub open spec fn spec_id(self) -> u64 {
        match self {
            Role::Publisher(id) => id,
            Role::Subscriber(id) => id,
        }
    }

    /// Extract the wrapped identity value.
    pub fn id(self) -> (r: u64)
        ensures
            r == self.spec_id(),
    {
        match self {
            Role::Publisher(id) => id,
            Role::Subscriber(id) => id,
        }
    }

    /// Replace the identity while keeping the Publisher/Subscriber tag.
    pub fn replace(self, id: u64) -> (r: Role)
        ensures
            r == self.spec_replace(id),
            r.spec_id() == id,
            r is Publisher <==> self is Publisher,
    {
        match self {
            Role::Subscriber(_) => Role::Subscriber(id),
            Role::Publisher(_) => Role::Publisher(id),
        }
    }

    pub open spec fn spec_replace(self, id: u64) -> Role {
        match self {
            Role::Subscriber(_) => Role::Subscriber(id),
            Role::Publisher(_) => Role::Publisher(id),
        }
    }
}

/// Text notification relayed from the server to a session's peer.
pub struct Message(pub String);

/// One immutable telemetry sample, produced by a publisher, persisted once
/// and then broadcast by value to subscribers.
pub struct Reading {
    pub pub_id: u64,
    pub eco2: u16,
    pub evtoc: u16,
    pub read_time: u64,
    pub start_time: u64,
    pub increment: String,
}

/// A new client session registers with the relay server. The handle is an
/// opaque token the caller uses to address this session's connection.
pub struct Connect {
    pub ses_role: Role,
    pub addr: u64,
}

/// A session has disconnected.
pub struct Disconnect {
    pub ses_id: u64,
}

/// A publisher submits a reading for persistence and fan-out.
pub struct PublisherMessage {
    /// Peer message
    pub msg: Reading,
    /// publisher id
    pub pub_id: u64,
}

/// Request for the list of publisher identities that can be subscribed to.
pub struct ListSubs;

/// Join a publisher's subscription set.
pub struct Join {
    /// session id of sender
    pub ses_id: u64,
    /// publisher id
    pub pub_id: u64,
}

} // verus!
