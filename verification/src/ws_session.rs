//! The per-connection protocol state machine: role negotiation, heartbeat
//! liveness, and translation of inbound text frames into relay-server
//! requests. The transport layer drives it by feeding frames and clock
//! readings in; it answers with the effects to perform.
use vstd::prelude::*;
use crate::CLIENT_TIMEOUT;
use crate::json::{
    distinct_keys, is_digit, is_ws, keys_distinct, lookup, parse_object, spec_digits_val,
    spec_lookup, spec_parse_object, spec_skip_ws, JsonValV,
};
use crate::relay_server::{Disconnect, Join, PublisherMessage, Reading, Role};
use crate::render::{chars_of, string_of_chars};

verus! {

/// Lifecycle of a session: role not yet confirmed by the relay server, in
/// normal operation, or shutting down.
#[derive(Copy, Clone, Debug, PartialEq, Eq, Structural)]
pub enum SessionState {
    Negotiating,
    Active,
    Closing,
}

/// One connected peer: its (possibly still unconfirmed) role and the time
/// it was last heard from.
pub struct WsSession {
    /// hb increment: time of the last inbound activity, in seconds.
    pub hb: u64,
    pub ses_role: Role,
    pub state: SessionState,
}

/// A request the session forwards to the relay server.
pub enum Command {
    Publish(PublisherMessage),
    Join(Join),
}

/// What the transport layer must do after handing the session a frame.
pub enum SessionEffect {
    /// Send a text frame to the peer.
    ToPeer(String),
    /// Send a liveness probe with the given payload to the peer.
    PingPeer(Vec<u8>),
    /// Echo the close handshake to the peer.
    ClosePeer,
    /// Forward a request to the relay server.
    Request(Command),
}

/// The outcome of one inbound frame.
pub struct FrameOutcome {
    pub effects: Vec<SessionEffect>,
    /// The session must terminate (then report the disconnect exactly once
    /// through `on_stopping`).
    pub stop: bool,
}

/// Decision taken on a heartbeat tick.
pub enum HbAction {
    /// Probe the peer.
    Ping,
    /// The peer has been silent past the client timeout: terminate.
    Stop,
}

/// One inbound event from the transport: a websocket frame, or the frame
/// stream reporting an error.
pub enum WsFrame {
    Ping(Vec<u8>),
    Pong,
    Text(String),
    Binary(Vec<u8>),
    Close,
    Continuation,
    Nop,
    StreamError,
}

// ---- wire command text: `<cmd> <payload>` after trimming ----

/// Scanning left from `i`, the position right after the last
/// non-whitespace character (0 if all of `s[..i]` is whitespace).
pub open spec fn spec_rskip_ws(s: Seq<char>, i: int) -> int
    decreases i,
{
    if 0 < i <= s.len() && is_ws(s[i - 1]) {
        spec_rskip_ws(s, i - 1)
    } else {
        i
    }
}

/// The text with leading and trailing whitespace removed.
pub open spec fn spec_trimmed(s: Seq<char>) -> Seq<char> {
    let b = spec_skip_ws(s, 0);
    let e = spec_rskip_ws(s, s.len() as int);
    if b <= e {
        s.subrange(b, e)
    } else {
        Seq::empty()
    }
}

/// First index at or after `i` holding a space (or the end).
pub open spec fn spec_token_end(s: Seq<char>, i: int) -> int
    decreases s.len() - i,
{
    if 0 <= i < s.len() && s[i] != ' ' {
        spec_token_end(s, i + 1)
    } else {
        i
    }
}

/// The command token: the trimmed text up to the first space.
pub open spec fn spec_cmd(s: Seq<char>) -> Seq<char> {
    let t = spec_trimmed(s);
    t.subrange(0, spec_token_end(t, 0))
}

/// The payload: everything after the first space of the trimmed text
/// (empty when there is no space).
pub open spec fn spec_payload(s: Seq<char>) -> Seq<char> {
    let t = spec_trimmed(s);
    let sp = spec_token_end(t, 0);
    if sp < t.len() {
        t.subrange(sp + 1, t.len() as int)
    } else {
        Seq::empty()
    }
}

// ---- payload semantics ----

/// The five fields a `/reading` payload must carry.
pub ghost struct ReadingFieldsV {
    pub eco2: u16,
    pub evtoc: u16,
    pub read_time: u64,
    pub start_time: u64,
    pub increment: Seq<char>,
}

/// The numeric value at `key`, if the object holds one there.
pub open spec fn num_field(prs: Seq<(Seq<char>, JsonValV)>, key: Seq<char>) -> Option<u64> {
    match spec_lookup(prs, key) {
        Some(JsonValV::Num(n)) => Some(n),
        _ => None,
    }
}

/// The string value at `key`, if the object holds one there.
pub open spec fn str_field(prs: Seq<(Seq<char>, JsonValV)>, key: Seq<char>) -> Option<Seq<char>> {
    match spec_lookup(prs, key) {
        Some(JsonValV::Str(s)) => Some(s),
        _ => None,
    }
}

/// A valid `/reading` payload: one JSON object without repeated keys whose
/// `eco2` and `evtoc` are numbers within u16, whose `read_time` and
/// `start_time` are numbers, and whose `increment` is a string. Unknown
/// keys are ignored.
pub open spec fn spec_reading_fields(s: Seq<char>) -> Option<ReadingFieldsV> {
    match spec_parse_object(s) {
        None => None,
        Some(prs) => {
            if !distinct_keys(prs) {
                None
            } else {
                let eco2 = num_field(prs, "eco2"@);
                let evtoc = num_field(prs, "evtoc"@);
                let read_time = num_field(prs, "read_time"@);
                let start_time = num_field(prs, "start_time"@);
                let increment = str_field(prs, "increment"@);
                if eco2 is Some && evtoc is Some && read_time is Some && start_time is Some
                    && increment is Some && eco2->Some_0 <= u16::MAX as u64 && evtoc->Some_0
                    <= u16::MAX as u64 {
                    Some(
                        ReadingFieldsV {
                            eco2: eco2->Some_0 as u16,
                            evtoc: evtoc->Some_0 as u16,
                            read_time: read_time->Some_0,
                            start_time: start_time->Some_0,
                            increment: increment->Some_0,
                        },
                    )
                } else {
                    None
                }
            }
        },
    }
}

/// A valid `/join` payload: one JSON object without repeated keys whose
/// `pub_id` is a number. Unknown keys are ignored.
pub open spec fn spec_join_target(s: Seq<char>) -> Option<u64> {
    match spec_parse_object(s) {
        None => None,
        Some(prs) => {
            if !distinct_keys(prs) {
                None
            } else {
                num_field(prs, "pub_id"@)
            }
        },
    }
}

/// Build a reading from a `/reading` payload, stamping it with the
/// publisher identity of the submitting session.
pub fn reading_from_payload(v: &Vec<char>, pub_id: u64) -> (r: Option<Reading>)
    ensures
        match r {
            Some(rd) => spec_reading_fields(v@) matches Some(f) && rd.pub_id == pub_id && rd.eco2
                == f.eco2 && rd.evtoc == f.evtoc && rd.read_time == f.read_time && rd.start_time
                == f.start_time && rd.increment@ == f.increment,
            None => spec_reading_fields(v@) is None,
        },
{
    match parse_object(v) {
        None => None,
        Some(prs) => {
            if !keys_distinct(&prs) {
                return None;
            }
            let eco2 = match lookup(&prs, "eco2") {
                Some(jv) => match jv {
                    crate::json::JsonValue::Num(n) => *n,
                    _ => { return None; },
                },
                None => { return None; },
            };
            let evtoc = match lookup(&prs, "evtoc") {
                Some(jv) => match jv {
                    crate::json::JsonValue::Num(n) => *n,
                    _ => { return None; },
                },
                None => { return None; },
            };
            let read_time = match lookup(&prs, "read_time") {
                Some(jv) => match jv {
                    crate::json::JsonValue::Num(n) => *n,
                    _ => { return None; },
                },
                None => { return None; },
            };
            let start_time = match lookup(&prs, "start_time") {
                Some(jv) => match jv {
                    crate::json::JsonValue::Num(n) => *n,
                    _ => { return None; },
                },
                None => { return None; },
            };
            let increment = match lookup(&prs, "increment") {
                Some(jv) => match jv {
                    crate::json::JsonValue::Str(s) => string_of_chars(s),
                    _ => { return None; },
                },
                None => { return None; },
            };
            if eco2 > u16::MAX as u64 || evtoc > u16::MAX as u64 {
                return None;
            }
            Some(
                Reading {
                    pub_id,
                    eco2: eco2 as u16,
                    evtoc: evtoc as u16,
                    read_time,
                    start_time,
                    increment,
                },
            )
        },
    }
}

/// Extract the target publisher identity from a `/join` payload.
pub fn join_target(v: &Vec<char>) -> (r: Option<u64>)
    ensures
        r == spec_join_target(v@),
{
    match parse_object(v) {
        None => None,
        Some(prs) => {
            if !keys_distinct(&prs) {
                return None;
            }
            match lookup(&prs, "pub_id") {
                Some(jv) => match jv {
                    crate::json::JsonValue::Num(n) => Some(*n),
                    _ => None,
                },
                None => None,
            }
        },
    }
}

// ---- trimming and splitting, executable ----

pub fn trim_chars(v: &Vec<char>) -> (r: Vec<char>)
    ensures
        r@ == spec_trimmed(v@),
{
    let b = crate::json::skip_ws(v, 0);
    let mut e = v.len();
    while e > 0 && crate::json::is_ws_exec(v[e - 1])
        invariant
            e <= v.len(),
            spec_rskip_ws(v@, v.len() as int) == spec_rskip_ws(v@, e as int),
        decreases e,
    {
        e = e - 1;
    }
    let mut r: Vec<char> = Vec::new();
    if b <= e {
        let mut i = b;
        while i < e
            invariant
                b <= i <= e <= v.len(),
                r@ == v@.subrange(b as int, i as int),
            decreases e - i,
        {
            r.push(v[i]);
            proof {
                assert(r@ =~= v@.subrange(b as int, i + 1 as int));
            }
            i = i + 1;
        }
    } else {
        proof {
            assert(r@ =~= spec_trimmed(v@));
        }
    }
    r
}

pub fn split_first_space(t: &Vec<char>) -> (r: (Vec<char>, Vec<char>))
    ensures
        r.0@ == t@.subrange(0, spec_token_end(t@, 0)),
        r.1@ == if spec_token_end(t@, 0) < t@.len() {
            t@.subrange(spec_token_end(t@, 0) + 1, t@.len() as int)
        } else {
            Seq::<char>::empty()
        },
{
    let mut sp: usize = 0;
    while sp < t.len() && t[sp] != ' '
        invariant
            sp <= t.len(),
            spec_token_end(t@, 0) == spec_token_end(t@, sp as int),
        decreases t.len() - sp,
    {
        sp = sp + 1;
    }
    let mut cmd: Vec<char> = Vec::new();
    let mut i: usize = 0;
    while i < sp
        invariant
            i <= sp <= t.len(),
            cmd@ == t@.subrange(0, i as int),
        decreases sp - i,
    {
        cmd.push(t[i]);
        proof {
            assert(cmd@ =~= t@.subrange(0, i + 1 as int));
        }
        i = i + 1;
    }
    let mut rest: Vec<char> = Vec::new();
    if sp < t.len() {
        let mut j = sp + 1;
        while j < t.len()
            invariant
                sp + 1 <= j <= t.len(),
                rest@ == t@.subrange(sp + 1 as int, j as int),
            decreases t.len() - j,
        {
            rest.push(t[j]);
            proof {
                assert(rest@ =~= t@.subrange(sp + 1 as int, j + 1 as int));
            }
            j = j + 1;
        }
    }
    (cmd, rest)
}

impl WsSession {
    pub fn new(ses_role: Role, now: u64) -> (s: WsSession)
        ensures
            s.ses_role == ses_role,
            s.state == SessionState::Negotiating,
            s.hb == now,
    {
        WsSession { hb: now, ses_role, state: SessionState::Negotiating }
    }

    /// The relay server confirmed the connection and assigned an identity:
    /// keep the role's tag, replace its identity, and become active.
    pub fn on_confirmed(&mut self, id: u64)
        requires
            old(self).state == SessionState::Negotiating,
        ensures
            final(self).ses_role == old(self).ses_role.spec_replace(id),
            final(self).state == SessionState::Active,
            final(self).hb == old(self).hb,
    {
        self.ses_role = self.ses_role.replace(id);
        self.state = SessionState::Active;
    }

    /// Heartbeat tick at time `now`: terminate if the peer has been silent
    /// for longer than the client timeout, otherwise probe it.
    pub fn on_hb_tick(&self, now: u64) -> (a: HbAction)
        ensures
            a is Stop <==> self.hb + CLIENT_TIMEOUT < now,
    {
        if now > CLIENT_TIMEOUT && self.hb < now - CLIENT_TIMEOUT {
            HbAction::Stop
        } else {
            HbAction::Ping
        }
    }

    /// Parse one inbound text frame: split into command token and payload,
    /// dispatch by role. The error text is the exact reply owed to the
    /// peer.
    pub fn parse_message(&self, text: &str) -> (r: Result<Command, String>)
        ensures
            ({
                let cmd = spec_cmd(text@);
                let payload = spec_payload(text@);
                match self.ses_role {
                    Role::Publisher(pub_id) => {
                        if cmd == "/reading"@ {
                            match spec_reading_fields(payload) {
                                Some(f) => r matches Ok(Command::Publish(pm)) && pm.pub_id
                                    == pub_id && pm.msg.pub_id == pub_id && pm.msg.eco2 == f.eco2
                                    && pm.msg.evtoc == f.evtoc && pm.msg.read_time == f.read_time
                                    && pm.msg.start_time == f.start_time && pm.msg.increment@
                                    == f.increment,
                                None => r matches Err(e) && e@ == "COMMAND ERROR: "@
                                    + "invalid /reading payload"@,
                            }
                        } else {
                            r matches Err(e) && e@ == "unrecognised command "@ + cmd
                        }
                    },
                    Role::Subscriber(ses_id) => {
                        if cmd == "/join"@ {
                            match spec_join_target(payload) {
                                Some(p) => r matches Ok(Command::Join(j)) && j.ses_id == ses_id
                                    && j.pub_id == p,
                                None => r matches Err(e) && e@ == "COMMAND ERROR: "@
                                    + "invalid /join payload"@,
                            }
                        } else {
                            r matches Err(e) && e@ == "unrecognised command "@ + cmd
                        }
                    },
                }
            }),
    {
        let chars = chars_of(text);
        let t = trim_chars(&chars);
        let (cmd, payload) = split_first_space(&t);
        match self.ses_role {
            Role::Publisher(pub_id) => {
                if crate::json::chars_eq_str(&cmd, "/reading") {
                    match reading_from_payload(&payload, pub_id) {
                        Some(rd) => Ok(Command::Publish(PublisherMessage { msg: rd, pub_id })),
                        None => {
                            let mut e = String::from_str("COMMAND ERROR: ");
                            e.append("invalid /reading payload");
                            Err(e)
                        },
                    }
                } else {
                    let mut e = String::from_str("unrecognised command ");
                    let cmd_text = string_of_chars(&cmd);
                    e.append(cmd_text.as_str());
                    Err(e)
                }
            },
            Role::Subscriber(ses_id) => {
                if crate::json::chars_eq_str(&cmd, "/join") {
                    match join_target(&payload) {
                        Some(p) => Ok(Command::Join(Join { ses_id, pub_id: p })),
                        None => {
                            let mut e = String::from_str("COMMAND ERROR: ");
                            e.append("invalid /join payload");
                            Err(e)
                        },
                    }
                } else {
                    let mut e = String::from_str("unrecognised command ");
                    let cmd_text = string_of_chars(&cmd);
                    e.append(cmd_text.as_str());
                    Err(e)
                }
            },
        }
    }

    /// Handle one inbound frame at time `now`. Every frame counts as
    /// activity for the liveness clock; a stream error or the close
    /// handshake asks the caller to terminate the session (and then report
    /// the disconnect through `on_stopping`). A text frame is parsed into a
    /// relay-server request, or answered with the owed error reply; the
    /// session survives malformed commands.
    pub fn on_frame(&mut self, now: u64, frame: WsFrame) -> (out: FrameOutcome)
        ensures
            final(self).ses_role == old(self).ses_role,
            final(self).state == old(self).state,
            match frame {
                WsFrame::StreamError => out.stop && out.effects@.len() == 0 && final(self).hb
                    == old(self).hb,
                WsFrame::Ping(p) => !out.stop && final(self).hb == now && out.effects@.len() == 1
                    && (out.effects@[0] matches SessionEffect::PingPeer(q) && q@ == p@),
                WsFrame::Pong => !out.stop && final(self).hb == now && out.effects@.len() == 0,
                WsFrame::Binary(_) => !out.stop && final(self).hb == now && out.effects@.len()
                    == 0,
                WsFrame::Close => out.stop && final(self).hb == now && out.effects@.len() == 1
                    && out.effects@[0] is ClosePeer,
                WsFrame::Continuation => out.stop && final(self).hb == now && out.effects@.len()
                    == 0,
                WsFrame::Nop => !out.stop && final(self).hb == now && out.effects@.len() == 0,
                WsFrame::Text(t) => !out.stop && final(self).hb == now && out.effects@.len() == 1
                    && ({
                    let cmd = spec_cmd(t@);
                    let payload = spec_payload(t@);
                    match old(self).ses_role {
                        Role::Publisher(pub_id) => {
                            if cmd == "/reading"@ {
                                match spec_reading_fields(payload) {
                                    Some(f) => out.effects@[0] matches SessionEffect::Request(
                                        Command::Publish(pm),
                                    ) && pm.pub_id == pub_id && pm.msg.pub_id == pub_id
                                        && pm.msg.eco2 == f.eco2 && pm.msg.evtoc == f.evtoc
                                        && pm.msg.read_time == f.read_time && pm.msg.start_time
                                        == f.start_time && pm.msg.increment@ == f.increment,
                                    None => out.effects@[0] matches SessionEffect::ToPeer(e) && e@
                                        == "COMMAND ERROR: "@ + "invalid /reading payload"@,
                                }
                            } else {
                                out.effects@[0] matches SessionEffect::ToPeer(e) && e@
                                    == "unrecognised command "@ + cmd
                            }
                        },
                        Role::Subscriber(ses_id) => {
                            if cmd == "/join"@ {
                                match spec_join_target(payload) {
                                    Some(p) => out.effects@[0] matches SessionEffect::Request(
                                        Command::Join(j),
                                    ) && j.ses_id == ses_id && j.pub_id == p,
                                    None => out.effects@[0] matches SessionEffect::ToPeer(e) && e@
                                        == "COMMAND ERROR: "@ + "invalid /join payload"@,
                                }
                            } else {
                                out.effects@[0] matches SessionEffect::ToPeer(e) && e@
                                    == "unrecognised command "@ + cmd
                            }
                        },
                    }
                }),
            },
    {
        let mut effects: Vec<SessionEffect> = Vec::new();
        match frame {
            WsFrame::StreamError => FrameOutcome { effects, stop: true },
            WsFrame::Ping(p) => {
                self.hb = now;
                effects.push(SessionEffect::PingPeer(p));
                FrameOutcome { effects, stop: false }
            },
            WsFrame::Pong => {
                self.hb = now;
                FrameOutcome { effects, stop: false }
            },
            WsFrame::Text(t) => {
                self.hb = now;
                match self.parse_message(t.as_str()) {
                    Ok(cmd) => effects.push(SessionEffect::Request(cmd)),
                    Err(e) => effects.push(SessionEffect::ToPeer(e)),
                }
                FrameOutcome { effects, stop: false }
            },
            WsFrame::Binary(_) => {
                self.hb = now;
                FrameOutcome { effects, stop: false }
            },
            WsFrame::Close => {
                self.hb = now;
                effects.push(SessionEffect::ClosePeer);
                FrameOutcome { effects, stop: true }
            },
            WsFrame::Continuation => {
                self.hb = now;
                FrameOutcome { effects, stop: true }
            },
            WsFrame::Nop => {
                self.hb = now;
                FrameOutcome { effects, stop: false }
            },
        }
    }

    /// The session is terminating: report the disconnect to the relay
    /// server, exactly once over the whole lifetime.
    pub fn on_stopping(&mut self) -> (r: Option<Disconnect>)
        ensures
            (*final(self), match r {
                Some(d) => Some(d.ses_id),
                None => None,
            }) == spec_stopping(*old(self)),
            final(self).ses_role == old(self).ses_role,
            final(self).hb == old(self).hb,
            final(self).state == SessionState::Closing,
            r matches Some(d) ==> d.ses_id == old(self).ses_role.spec_id(),
            (r is Some) == !(old(self).state is Closing),
    {
        if self.state == SessionState::Closing {
            None
        } else {
            self.state = SessionState::Closing;
            Some(Disconnect { ses_id: self.ses_role.id() })
        }
    }
}

/// What `on_stopping` does, as a function of the session value: the next
/// session value, and the identity whose disconnect is reported, if any.
pub open spec fn spec_stopping(s: WsSession) -> (WsSession, Option<u64>) {
    if s.state is Closing {
        (s, None)
    } else {
        (
            WsSession { state: SessionState::Closing, ..s },
            Some(s.ses_role.spec_id()),
        )
    }
}

/// The number of disconnect reports over `n` consecutive terminations of
/// the same session.
pub open spec fn spec_stop_count(s: WsSession, n: nat) -> nat
    decreases n,
{
    if n == 0 {
        0
    } else {
        let (s1, r) = spec_stopping(s);
        spec_stop_count(s1, (n - 1) as nat) + if r is Some {
            1nat
        } else {
            0nat
        }
    }
}

/// Once a session is closing, no further disconnect is ever reported.
pub proof fn lemma_no_disconnect_after_closing(s: WsSession, n: nat)
    requires
        s.state is Closing,
    ensures
        spec_stop_count(s, n) == 0,
    decreases n,
{
    if n > 0 {
        lemma_no_disconnect_after_closing(s, (n - 1) as nat);
    }
}

/// However often a terminating session is driven through `on_stopping`,
/// the relay server observes exactly one disconnect for it.
pub proof fn lemma_disconnect_exactly_once(s: WsSession, n: nat)
    requires
        !(s.state is Closing),
        n >= 1,
    ensures
        spec_stop_count(s, n) == 1,
{
    let (s1, r) = spec_stopping(s);
    lemma_no_disconnect_after_closing(s1, (n - 1) as nat);
}

/// Derive the candidate role from the optional identity token of the
/// handshake: a token that parses as an unsigned integer names a
/// publisher; no token means a subscriber (identity assigned later); a
/// malformed token fails the handshake.
pub fn role_from_auth(auth: Option<&str>) -> (r: Result<Role, String>)
    ensures
        auth is None ==> r == Result::<Role, String>::Ok(Role::Subscriber(0)),
        auth matches Some(a) ==> match spec_parse_u64_token(a@) {
            Some(id) => r == Result::<Role, String>::Ok(Role::Publisher(id)),
            None => r matches Err(e) && e@ == "couldn't parse "@ + a@,
        },
{
    match auth {
        None => Ok(Role::Subscriber(0)),
        Some(a) => {
            let chars = chars_of(a);
            match parse_u64_token(&chars) {
                Some(id) => Ok(Role::Publisher(id)),
                None => {
                    let mut e = String::from_str("couldn't parse ");
                    e.append(a);
                    Err(e)
                },
            }
        },
    }
}

/// Every character is a decimal digit.
pub open spec fn all_digits(s: Seq<char>) -> bool {
    forall|i: int| 0 <= i < s.len() ==> is_digit(s[i])
}

/// The token with an optional leading `+` removed.
pub open spec fn spec_token_body(s: Seq<char>) -> Seq<char> {
    if s.len() > 0 && s[0] == '+' {
        s.drop_first()
    } else {
        s
    }
}

/// An unsigned decimal token as std parses it: an optional leading `+`,
/// then at least one digit (leading zeros allowed), value within u64.
pub open spec fn spec_parse_u64_token(s: Seq<char>) -> Option<u64> {
    let body = spec_token_body(s);
    if body.len() > 0 && all_digits(body) && spec_digits_val(body, 0, body.len() as int)
        <= u64::MAX {
        Some(spec_digits_val(body, 0, body.len() as int) as u64)
    } else {
        None
    }
}

fn parse_u64_token(v: &Vec<char>) -> (r: Option<u64>)
    ensures
        r == spec_parse_u64_token(v@),
{
    let start: usize = if v.len() > 0 && v[0] == '+' {
        1
    } else {
        0
    };
    let ghost body = spec_token_body(v@);
    proof {
        assert(body =~= v@.subrange(start as int, v@.len() as int));
    }
    if v.len() == start {
        return None;
    }
    let mut acc: u128 = 0;
    let mut k = start;
    while k < v.len()
        invariant
            start <= k <= v.len(),
            start < v.len(),
            body == spec_token_body(v@),
            body == v@.subrange(start as int, v@.len() as int),
            forall|t: int| start <= t < k ==> is_digit(v@[t]),
            acc == spec_digits_val(body, 0, k - start),
            acc <= u64::MAX,
        decreases v.len() - k,
    {
        let c = v[k];
        let u = c as u32;
        if u < 48 || u > 57 {
            proof {
                assert(body[k - start] == v@[k as int]);
                assert(!is_digit(body[k - start]));
                assert(0 <= k - start < body.len());
                assert(!all_digits(body));
            }
            return None;
        }
        let d = (u - 48) as u128;
        acc = acc * 10 + d;
        proof {
            assert(body[k - start] == v@[k as int]);
            assert(spec_digits_val(body, 0, k + 1 - start) == spec_digits_val(body, 0, k - start)
                * 10 + crate::json::digit_val(body[k - start]));
        }
        k = k + 1;
        if acc > u64::MAX as u128 {
            proof {
                assert(acc == spec_digits_val(body, 0, k - start));
                crate::json::lemma_digits_val_monotone(body, 0, k - start, body.len() as int);
                assert(spec_digits_val(body, 0, body.len() as int) > u64::MAX);
            }
            return None;
        }
    }
    proof {
        assert forall|i: int| 0 <= i < body.len() implies is_digit(body[i]) by {
            assert(body[i] == v@[i + start]);
        };
        assert(all_digits(body));
    }
    Some(acc as u64)
}

} // verus!
