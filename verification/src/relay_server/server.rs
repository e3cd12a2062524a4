//! The relay server: the single authority over the session registry and the
//! subscription table. Every state-mutating operation runs to completion
//! against `&mut self`, which is exactly the one-request-at-a-time
//! serialization the design relies on; the caller performs the returned
//! side effects (deliveries to connection handles, persistence requests).
use vstd::prelude::*;
use std::collections::HashMap;
use crate::relay_server::{Connect, Disconnect, Join, PublisherMessage, Role};
use crate::relay_server::subs::SubTable;
use crate::render::{
    disconnected_text, failed_join_text, joined_text, render_reading, spec_dec,
    spec_render_reading,
};

verus! {

broadcast use vstd::std_specs::hash::group_hash_axioms;

/// A side effect the relay server asks its caller to perform. The server
/// itself never blocks on either: deliveries are best-effort pushes through
/// connection handles, persistence is fire-and-forget.
pub enum Effect {
    /// Push `text` to the connection addressed by the opaque handle token.
    Deliver { handle: u64, text: String },
    /// Ask the reading store to insert `reading`.
    Persist { reading: crate::relay_server::Reading },
}

/// Relies on rand::random of the rand crate: draws a value from the
/// thread-local generator. Nothing is promised of the result; every caller
/// must cope with any value, including collisions with identities in use.
#[verifier::external_body]
fn random_u64() -> u64 {
    rand::random::<u64>()
}

/// Manages subscriptions: relays each publisher reading to the sessions
/// subscribed to that publisher, and assigns a registry entry to every
/// connected session.
pub struct RelayServer {
    sessions: HashMap<u64, u64>,
    subs: SubTable,
    visitor_count: u64,
}

impl RelayServer {
    /// identity -> connection-handle token, one entry per connected session.
    pub closed spec fn spec_sessions(self) -> Map<u64, u64> {
        self.sessions@
    }

    /// The subscription table.
    pub closed spec fn spec_subs(self) -> SubTable {
        self.subs
    }

    /// Count of connects handled since start (observability only).
    pub closed spec fn spec_visitors(self) -> u64 {
        self.visitor_count
    }

    pub open spec fn wf(self) -> bool {
        self.spec_subs().wf()
    }

    /// The registry invariant of the design: a subscriber identity stands
    /// in a subscription set only while it is registered in the session
    /// registry. Connects only add registrations, disconnect removes the
    /// departing identity from every set along with its registration, and a
    /// join from a registered session adds only that session; so every
    /// operation keeps it.
    pub open spec fn members_registered(self) -> bool {
        forall|p: u64, s: u64|
            #[trigger] self.spec_subs().spec_member(p, s) ==> self.spec_sessions().contains_key(s)
    }

    /// The member identities a publish to `p` would address, in set order:
    /// the members of `p`'s subscription set that are currently registered.
    pub open spec fn spec_publish_targets(self, p: u64) -> Seq<u64> {
        if self.spec_subs().spec_has_key(p) {
            self.spec_subs().spec_members(p).filter(
                |m: u64| self.spec_sessions().contains_key(m),
            )
        } else {
            Seq::<u64>::empty()
        }
    }

    pub fn new() -> (r: RelayServer)
        ensures
            r.wf(),
            r.spec_sessions() == Map::<u64, u64>::empty(),
            forall|p: u64| !r.spec_subs().spec_has_key(p),
            r.spec_subs().spec_keys() == Seq::<u64>::empty(),
            r.spec_visitors() == 0,
            r.members_registered(),
    {
        RelayServer { sessions: HashMap::new(), subs: SubTable::new(), visitor_count: 0 }
    }

    /// Register a new session and return the identity assigned to it.
    ///
    /// A publisher keeps the identity it supplied: any handle already
    /// registered there is evicted, receiving exactly one eviction notice,
    /// and a subscription set for the identity is created if none exists. A
    /// subscriber gets a freshly drawn random identity; a collision with a
    /// registered identity silently displaces that entry, accepted here as
    /// negligible-probability and left unchecked.
    pub fn handle_connect(&mut self, msg: Connect) -> (r: (u64, Vec<Effect>))
        requires
            old(self).wf(),
        ensures
            final(self).wf(),
            final(self).spec_visitors() == if old(self).spec_visitors() == u64::MAX {
                0u64
            } else {
                (old(self).spec_visitors() + 1) as u64
            },
            final(self).spec_sessions() == old(self).spec_sessions().insert(r.0, msg.addr),
            msg.ses_role matches Role::Publisher(p) ==> {
                &&& r.0 == p
                &&& forall|q: u64| #[trigger]
                    final(self).spec_subs().spec_has_key(q) <==> (old(self).spec_subs().spec_has_key(
                        q,
                    ) || q == p)
                &&& forall|q: u64|
                    old(self).spec_subs().spec_has_key(q) ==> #[trigger] final(self).spec_subs().spec_members(q) == old(self).spec_subs().spec_members(q)
                &&& !old(self).spec_subs().spec_has_key(p) ==> final(self).spec_subs().spec_members(p) == Seq::<u64>::empty()
                &&& final(self).spec_subs().spec_keys() == if old(self).spec_subs().spec_has_key(p) {
                    old(self).spec_subs().spec_keys()
                } else {
                    old(self).spec_subs().spec_keys().push(p)
                }
                &&& if old(self).spec_sessions().contains_key(p) {
                    r.1@.len() == 1 && (r.1@[0] matches Effect::Deliver { handle, text }
                        && handle == old(self).spec_sessions()[p] && text@ == "disconnected"@)
                } else {
                    r.1@.len() == 0
                }
            },
            msg.ses_role is Subscriber ==> {
                &&& final(self).spec_subs() == old(self).spec_subs()
                &&& r.1@.len() == 0
            },
            old(self).members_registered() ==> final(self).members_registered(),
    {
        self.bump_visitors();
        let out = match msg.ses_role {
            Role::Publisher(_) => {
                let effs = self.connect_publisher(msg.ses_role);
                let id = msg.ses_role.id();
                self.sessions.insert(id, msg.addr);
                (id, effs)
            },
            Role::Subscriber(_) => {
                let id = random_u64();
                self.sessions.insert(id, msg.addr);
                (id, Vec::new())
            },
        };
        proof {
            let prev = *old(self);
            if prev.members_registered() {
                assert forall|p: u64, s: u64| #[trigger] self.spec_subs().spec_member(p, s)
                    implies self.spec_sessions().contains_key(s) by {
                    if prev.spec_subs().spec_has_key(p) {
                        assert(self.spec_subs().spec_members(p) == prev.spec_subs().spec_members(
                            p,
                        ));
                        assert(prev.spec_subs().spec_member(p, s));
                    } else {
                        assert(self.spec_subs().spec_members(p) =~= Seq::<u64>::empty());
                    }
                };
            }
        }
        out
    }

    fn bump_visitors(&mut self)
        ensures
            final(self).spec_visitors() == if old(self).spec_visitors() == u64::MAX {
                0u64
            } else {
                (old(self).spec_visitors() + 1) as u64
            },
            final(self).spec_sessions() == old(self).spec_sessions(),
            final(self).spec_subs() == old(self).spec_subs(),
    {
        if self.visitor_count == u64::MAX {
            self.visitor_count = 0;
        } else {
            self.visitor_count = self.visitor_count + 1;
        }
    }

    /// Assign a subscription entry to an incoming publisher identity:
    /// notify and remove any handle already registered at it, and create its
    /// subscription set if none exists.
    fn connect_publisher(&mut self, ses_role: Role) -> (effs: Vec<Effect>)
        requires
            old(self).wf(),
        ensures
            final(self).wf(),
            final(self).spec_visitors() == old(self).spec_visitors(),
            final(self).spec_sessions() == old(self).spec_sessions().remove(ses_role.spec_id()),
            forall|q: u64| #[trigger]
                final(self).spec_subs().spec_has_key(q) <==> (old(self).spec_subs().spec_has_key(q)
                    || q == ses_role.spec_id()),
            forall|q: u64|
                old(self).spec_subs().spec_has_key(q) ==> #[trigger] final(self).spec_subs().spec_members(q) == old(self).spec_subs().spec_members(q),
            !old(self).spec_subs().spec_has_key(ses_role.spec_id()) ==> final(self).spec_subs().spec_members(ses_role.spec_id()) == Seq::<u64>::empty(),
            final(self).spec_subs().spec_keys() == if old(self).spec_subs().spec_has_key(
                ses_role.spec_id(),
            ) {
                old(self).spec_subs().spec_keys()
            } else {
                old(self).spec_subs().spec_keys().push(ses_role.spec_id())
            },
            if old(self).spec_sessions().contains_key(ses_role.spec_id()) {
                effs@.len() == 1 && (effs@[0] matches Effect::Deliver { handle, text }
                    && handle == old(self).spec_sessions()[ses_role.spec_id()]
                    && text@ == "disconnected"@)
            } else {
                effs@.len() == 0
            },
    {
        let id = ses_role.id();
        let mut effs: Vec<Effect> = Vec::new();
        // remove existing address if some exists
        match self.sessions.get(&id) {
            Some(addr) => {
                effs.push(Effect::Deliver { handle: *addr, text: disconnected_text() });
                self.sessions.remove(&id);
            },
            None => {
                proof {
                    assert(self.sessions@ =~= self.sessions@.remove(id));
                }
            },
        }
        // create subscription entry if none
        self.subs.ensure_key(id);
        effs
    }

    /// Remove a session: if the identity is registered, drop its handle and
    /// remove the identity from every subscription set. Unknown identities
    /// are a no-op, which makes disconnect idempotent.
    pub fn handle_disconnect(&mut self, msg: Disconnect)
        requires
            old(self).wf(),
        ensures
            final(self).wf(),
            final(self).spec_visitors() == old(self).spec_visitors(),
            final(self).spec_sessions() == old(self).spec_sessions().remove(msg.ses_id),
            forall|q: u64| #[trigger]
                final(self).spec_subs().spec_has_key(q) == old(self).spec_subs().spec_has_key(q),
            final(self).spec_subs().spec_keys() == old(self).spec_subs().spec_keys(),
            old(self).spec_sessions().contains_key(msg.ses_id) ==> forall|q: u64, x: u64|
                old(self).spec_subs().spec_has_key(q) ==> (#[trigger] final(self).spec_subs().spec_members(q).contains(x) <==> (old(self).spec_subs().spec_members(
                    q,
                ).contains(x) && x != msg.ses_id)),
            !old(self).spec_sessions().contains_key(msg.ses_id) ==> final(self).spec_subs() == old(
                self,
            ).spec_subs(),
            old(self).members_registered() ==> final(self).members_registered(),
    {
        if self.sessions.contains_key(&msg.ses_id) {
            self.sessions.remove(&msg.ses_id);
            // remove session from all subscriptions
            self.subs.remove_everywhere(msg.ses_id);
        } else {
            proof {
                assert(self.sessions@ =~= self.sessions@.remove(msg.ses_id));
            }
        }
        proof {
            let prev = *old(self);
            if prev.members_registered() {
                assert forall|p: u64, s: u64| #[trigger] self.spec_subs().spec_member(p, s)
                    implies self.spec_sessions().contains_key(s) by {
                    assert(prev.spec_subs().spec_has_key(p));
                    assert(prev.spec_subs().spec_member(p, s));
                    assert(s != msg.ses_id || !prev.spec_sessions().contains_key(msg.ses_id));
                };
            }
        }
    }

    /// Persist and fan out a publisher's reading. An unknown publisher
    /// identity drops the event: no persistence attempt, no deliveries.
    /// Otherwise exactly one persistence request is issued, followed by one
    /// delivery per registered member of the publisher's subscription set; a
    /// member no longer registered is skipped.
    pub fn handle_publish(&self, msg: PublisherMessage) -> (effs: Vec<Effect>)
        requires
            self.wf(),
        ensures
            !self.spec_subs().spec_has_key(msg.pub_id) ==> effs@.len() == 0,
            self.spec_subs().spec_has_key(msg.pub_id) ==> {
                let targets = self.spec_publish_targets(msg.pub_id);
                &&& effs@.len() == 1 + targets.len()
                &&& (effs@[0] matches Effect::Persist { reading } && reading == msg.msg)
                &&& forall|i: int|
                    0 <= i < targets.len() ==> (#[trigger] effs@[i + 1] matches Effect::Deliver {
                        handle,
                        text,
                    } && handle == self.spec_sessions()[targets[i]] && text@
                        == spec_render_reading(
                        msg.msg.pub_id,
                        msg.msg.eco2,
                        msg.msg.evtoc,
                        msg.msg.read_time,
                        msg.msg.start_time,
                        msg.msg.increment@,
                    ))
            },
    {
        let mut effs: Vec<Effect> = Vec::new();
        match self.subs.members_of(msg.pub_id) {
            None => effs,
            Some(members) => {
                let text = render_reading(&msg.msg);
                let ghost pred = |m: u64| self.spec_sessions().contains_key(m);
                effs.push(Effect::Persist { reading: msg.msg });
                let mut j: usize = 0;
                while j < members.len()
                    invariant
                        j <= members.len(),
                        members@ == self.spec_subs().spec_members(msg.pub_id),
                        self.spec_subs().spec_has_key(msg.pub_id),
                        pred == (|m: u64| self.spec_sessions().contains_key(m)),
                        text@ == spec_render_reading(
                            msg.msg.pub_id,
                            msg.msg.eco2,
                            msg.msg.evtoc,
                            msg.msg.read_time,
                            msg.msg.start_time,
                            msg.msg.increment@,
                        ),
                        effs@.len() == 1 + members@.subrange(0, j as int).filter(pred).len(),
                        effs@[0] matches Effect::Persist { reading } && reading == msg.msg,
                        forall|i: int|
                            0 <= i < members@.subrange(0, j as int).filter(pred).len() ==> (
                            #[trigger] effs@[i + 1] matches Effect::Deliver { handle, text: t }
                                && handle == self.spec_sessions()[members@.subrange(
                                0,
                                j as int,
                            ).filter(pred)[i]] && t@ == text@),
                    decreases members.len() - j,
                {
                    let ghost prefix = members@.subrange(0, j as int);
                    let ghost prefix1 = members@.subrange(0, j + 1 as int);
                    proof {
                        assert(prefix1.drop_last() =~= prefix);
                        assert(prefix1.last() == members@[j as int]);
                        reveal_with_fuel(Seq::filter, 2);
                        assert(prefix1.filter(pred) == if pred(members@[j as int]) {
                            prefix.filter(pred).push(members@[j as int])
                        } else {
                            prefix.filter(pred)
                        });
                    }
                    let m = members[j];
                    match self.sessions.get(&m) {
                        Some(h) => {
                            effs.push(Effect::Deliver { handle: *h, text: text.clone() });
                        },
                        None => {},
                    }
                    j = j + 1;
                }
                proof {
                    assert(members@.subrange(0, members@.len() as int) =~= members@);
                }
                effs
            },
        }
    }

    /// Join `ses_id` to `pub_id`'s subscription set if that set exists and
    /// confirm to the joiner; otherwise report failure and create nothing.
    /// Either notice is addressed to `ses_id`'s registered handle and is
    /// skipped if the joiner is no longer registered.
    pub fn handle_join(&mut self, msg: Join) -> (effs: Vec<Effect>)
        requires
            old(self).wf(),
        ensures
            final(self).wf(),
            final(self).spec_sessions() == old(self).spec_sessions(),
            final(self).spec_visitors() == old(self).spec_visitors(),
            forall|q: u64| #[trigger]
                final(self).spec_subs().spec_has_key(q) == old(self).spec_subs().spec_has_key(q),
            final(self).spec_subs().spec_keys() == old(self).spec_subs().spec_keys(),
            forall|q: u64|
                q != msg.pub_id && old(self).spec_subs().spec_has_key(q) ==> #[trigger] final(self).spec_subs().spec_members(q) == old(self).spec_subs().spec_members(q),
            old(self).spec_subs().spec_has_key(msg.pub_id) ==> final(self).spec_subs().spec_members(
                msg.pub_id,
            ) == if old(self).spec_subs().spec_members(msg.pub_id).contains(msg.ses_id) {
                old(self).spec_subs().spec_members(msg.pub_id)
            } else {
                old(self).spec_subs().spec_members(msg.pub_id).push(msg.ses_id)
            },
            ({
                let wanted: Seq<char> = if old(self).spec_subs().spec_has_key(msg.pub_id) {
                    "joined "@ + spec_dec(msg.pub_id as nat)
                } else {
                    "failed to join "@ + spec_dec(msg.pub_id as nat)
                };
                if old(self).spec_sessions().contains_key(msg.ses_id) {
                    effs@.len() == 1 && (effs@[0] matches Effect::Deliver { handle, text }
                        && handle == old(self).spec_sessions()[msg.ses_id] && text@ == wanted)
                } else {
                    effs@.len() == 0
                }
            }),
            old(self).members_registered() && old(self).spec_sessions().contains_key(msg.ses_id)
                ==> final(self).members_registered(),
    {
        let exists_key = self.subs.has_key(msg.pub_id);
        let text = if exists_key {
            self.subs.add_member(msg.pub_id, msg.ses_id);
            joined_text(msg.pub_id)
        } else {
            failed_join_text(msg.pub_id)
        };
        let mut effs: Vec<Effect> = Vec::new();
        match self.sessions.get(&msg.ses_id) {
            Some(h) => {
                effs.push(Effect::Deliver { handle: *h, text });
            },
            None => {},
        }
        proof {
            let prev = *old(self);
            if prev.members_registered() && prev.spec_sessions().contains_key(msg.ses_id) {
                assert forall|p: u64, s: u64| #[trigger] self.spec_subs().spec_member(p, s)
                    implies self.spec_sessions().contains_key(s) by {
                    assert(prev.spec_subs().spec_has_key(p));
                    if p == msg.pub_id && !prev.spec_subs().spec_members(p).contains(s) {
                        assert(s == msg.ses_id || prev.spec_subs().spec_member(p, s));
                    } else {
                        assert(prev.spec_subs().spec_member(p, s));
                    }
                };
            }
        }
        effs
    }

    /// How many connects this server has handled (observability only;
    /// wraps around at the integer limit).
    pub fn visitor_count(&self) -> (n: u64)
        ensures
            n == self.spec_visitors(),
    {
        self.visitor_count
    }

    /// A snapshot of the publisher identities that can be subscribed to, in
    /// creation order.
    pub fn handle_list_subs(&self) -> (keys: Vec<u64>)
        requires
            self.wf(),
        ensures
            keys@ == self.spec_subs().spec_keys(),
            forall|p: u64| #[trigger] keys@.contains(p) <==> self.spec_subs().spec_has_key(p),
    {
        let keys = self.subs.keys_vec();
        proof {
            assert forall|p: u64| #[trigger] keys@.contains(p) <==> self.spec_subs().spec_has_key(
                p,
            ) by {
                self.spec_subs().lemma_keys_iff(p);
            };
        }
        keys
    }
}

// ---- laws over operation sequences ----

/// The session registry after a run of publisher connects at identity `p`
/// with the given handles, applied oldest first: each connect installs its
/// handle at `p`, exactly as `handle_connect` promises of the registry.
pub open spec fn spec_run_connects(sm: Map<u64, u64>, p: u64, hs: Seq<u64>) -> Map<u64, u64>
    decreases hs.len(),
{
    if hs.len() == 0 {
        sm
    } else {
        spec_run_connects(sm, p, hs.drop_last()).insert(p, hs.last())
    }
}

/// How many of those connects found a handle already registered at `p` —
/// by `handle_connect`'s contract, exactly the number of eviction notices
/// sent over the run.
pub open spec fn spec_eviction_count(sm: Map<u64, u64>, p: u64, hs: Seq<u64>) -> nat
    decreases hs.len(),
{
    if hs.len() == 0 {
        0
    } else {
        spec_eviction_count(sm, p, hs.drop_last()) + if spec_run_connects(
            sm,
            p,
            hs.drop_last(),
        ).contains_key(p) {
            1nat
        } else {
            0nat
        }
    }
}

/// For every sequence of connects with the same publisher identity,
/// exactly one handle ends up registered at that identity — the last one —
/// and one eviction notice was owed per displaced handle: one for each
/// connect after the first, plus one for a handle registered before the
/// run began.
pub proof fn lemma_connect_sequence(sm: Map<u64, u64>, p: u64, hs: Seq<u64>)
    requires
        hs.len() > 0,
    ensures
        spec_run_connects(sm, p, hs).contains_key(p),
        spec_run_connects(sm, p, hs)[p] == hs.last(),
        spec_eviction_count(sm, p, hs) == hs.len() - 1 + if sm.contains_key(p) {
            1int
        } else {
            0int
        },
    decreases hs.len(),
{
    if hs.len() > 1 {
        lemma_connect_sequence(sm, p, hs.drop_last());
        assert(spec_eviction_count(sm, p, hs) == spec_eviction_count(sm, p, hs.drop_last())
            + 1);
    } else {
        assert(hs.drop_last().len() == 0);
        assert(spec_run_connects(sm, p, hs.drop_last()) == sm);
        assert(spec_eviction_count(sm, p, hs.drop_last()) == 0);
    }
}

/// One relay-server request, reduced to what it does to the set of
/// publisher identities that have a subscription set.
pub ghost enum BrokerOp {
    ConnectPublisher(u64),
    ConnectSubscriber,
    Disconnect(u64),
    Join { ses_id: u64, pub_id: u64 },
    Publish(u64),
}

/// What one request does to the key set of the subscription table: only a
/// publisher connect adds a key, and no request ever removes one — the
/// contracts of `handle_connect`, `handle_disconnect`, `handle_join` and
/// `handle_publish` each show exactly this step.
pub open spec fn spec_step_publishers(ks: Set<u64>, op: BrokerOp) -> Set<u64> {
    match op {
        BrokerOp::ConnectPublisher(p) => ks.insert(p),
        _ => ks,
    }
}

pub open spec fn spec_run_publishers(ks: Set<u64>, ops: Seq<BrokerOp>) -> Set<u64>
    decreases ops.len(),
{
    if ops.len() == 0 {
        ks
    } else {
        spec_step_publishers(spec_run_publishers(ks, ops.drop_last()), ops.last())
    }
}

/// Once a publisher identity has a subscription set, every later request
/// leaves it listed: the subscription table's key set grows monotonically
/// for the process lifetime.
pub proof fn lemma_publishers_monotone(ks: Set<u64>, ops: Seq<BrokerOp>, p: u64)
    requires
        ks.contains(p),
    ensures
        spec_run_publishers(ks, ops).contains(p),
    decreases ops.len(),
{
    if ops.len() > 0 {
        lemma_publishers_monotone(ks, ops.drop_last(), p);
    }
}

proof fn lemma_filter_subset(s: Seq<u64>, pred: spec_fn(u64) -> bool, x: u64)
    requires
        s.filter(pred).contains(x),
    ensures
        s.contains(x),
    decreases s.len(),
{
    reveal(Seq::filter);
    if s.len() > 0 {
        if pred(s.last()) && x == s.last() {
            assert(s[s.len() - 1] == x);
        } else {
            lemma_filter_subset(s.drop_last(), pred, x);
            let j = choose|j: int| 0 <= j < s.drop_last().len() && s.drop_last()[j] == x;
            assert(s[j] == x);
        }
    }
}

/// After a disconnect has removed `s` from every subscription set, no
/// publish addresses a delivery to `s`: fan-out targets are drawn from the
/// publisher's member set alone.
pub proof fn lemma_disconnect_stops_delivery(b: RelayServer, s: u64, p: u64)
    requires
        b.wf(),
        !b.spec_subs().spec_member(p, s),
    ensures
        !b.spec_publish_targets(p).contains(s),
{
    if b.spec_subs().spec_has_key(p) {
        let ms = b.spec_subs().spec_members(p);
        let pred = |m: u64| b.spec_sessions().contains_key(m);
        if b.spec_publish_targets(p).contains(s) {
            lemma_filter_subset(ms, pred, s);
        }
    }
}

} // verus!
