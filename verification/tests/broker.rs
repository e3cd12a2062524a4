use sensor_relay::relay_server::server::{Effect, RelayServer};
use sensor_relay::relay_server::{Connect, Disconnect, Join, PublisherMessage, Reading, Role};

fn reading(pub_id: u64) -> Reading {
    Reading {
        pub_id,
        eco2: 400,
        evtoc: 50,
        read_time: 1000,
        start_time: 900,
        increment: String::from("ConstantPower1s"),
    }
}

fn deliveries(effects: &[Effect]) -> Vec<(u64, String)> {
    let mut out = Vec::new();
    for e in effects {
        if let Effect::Deliver { handle, text } = e {
            out.push((*handle, text.clone()));
        }
    }
    out
}

fn persists(effects: &[Effect]) -> usize {
    effects
        .iter()
        .filter(|e| matches!(e, Effect::Persist { .. }))
        .count()
}

#[test]
fn publisher_connect_registers_and_keeps_identity() {
    let mut srv = RelayServer::new();
    let (id, effects) = srv.handle_connect(Connect { ses_role: Role::Publisher(7), addr: 100 });
    assert_eq!(id, 7);
    assert!(effects.is_empty());
}

#[test]
fn reconnect_evicts_prior_handle_exactly_once() {
    let mut srv = RelayServer::new();
    let (_, first) = srv.handle_connect(Connect { ses_role: Role::Publisher(7), addr: 100 });
    assert!(first.is_empty());
    let (id, second) = srv.handle_connect(Connect { ses_role: Role::Publisher(7), addr: 200 });
    assert_eq!(id, 7);
    let notices = deliveries(&second);
    assert_eq!(notices.len(), 1);
    assert_eq!(notices[0].0, 100);
    assert_eq!(notices[0].1, "disconnected");
    let (_, third) = srv.handle_connect(Connect { ses_role: Role::Publisher(7), addr: 300 });
    let notices = deliveries(&third);
    assert_eq!(notices.len(), 1);
    assert_eq!(notices[0].0, 200);
}

#[test]
fn publisher_listed_even_after_disconnect() {
    let mut srv = RelayServer::new();
    srv.handle_connect(Connect { ses_role: Role::Publisher(5), addr: 1 });
    assert_eq!(srv.handle_list_subs(), vec![5]);
    srv.handle_disconnect(Disconnect { ses_id: 5 });
    assert_eq!(srv.handle_list_subs(), vec![5]);
    srv.handle_connect(Connect { ses_role: Role::Publisher(9), addr: 2 });
    assert_eq!(srv.handle_list_subs(), vec![5, 9]);
}

#[test]
fn join_before_first_connect_fails_and_creates_nothing() {
    let mut srv = RelayServer::new();
    let (sid, _) = srv.handle_connect(Connect { ses_role: Role::Subscriber(0), addr: 11 });
    let effects = srv.handle_join(Join { ses_id: sid, pub_id: 9 });
    let notices = deliveries(&effects);
    assert_eq!(notices.len(), 1);
    assert_eq!(notices[0].0, 11);
    assert_eq!(notices[0].1, "failed to join 9");
    assert!(srv.handle_list_subs().is_empty());
    // once the publisher connects, the same join succeeds
    srv.handle_connect(Connect { ses_role: Role::Publisher(9), addr: 12 });
    let effects = srv.handle_join(Join { ses_id: sid, pub_id: 9 });
    let notices = deliveries(&effects);
    assert_eq!(notices.len(), 1);
    assert_eq!(notices[0].1, "joined 9");
    let effects = srv.handle_publish(PublisherMessage { msg: reading(9), pub_id: 9 });
    let notices = deliveries(&effects);
    assert_eq!(notices.len(), 1);
    assert_eq!(notices[0].0, 11);
}

#[test]
fn disconnect_removes_subscriber_from_every_set() {
    let mut srv = RelayServer::new();
    srv.handle_connect(Connect { ses_role: Role::Publisher(1), addr: 10 });
    srv.handle_connect(Connect { ses_role: Role::Publisher(2), addr: 20 });
    let (sid, _) = srv.handle_connect(Connect { ses_role: Role::Subscriber(0), addr: 30 });
    srv.handle_join(Join { ses_id: sid, pub_id: 1 });
    srv.handle_join(Join { ses_id: sid, pub_id: 2 });
    srv.handle_disconnect(Disconnect { ses_id: sid });
    for p in [1u64, 2u64] {
        let effects = srv.handle_publish(PublisherMessage { msg: reading(p), pub_id: p });
        assert_eq!(persists(&effects), 1);
        assert!(deliveries(&effects).is_empty());
    }
}

#[test]
fn publish_unknown_publisher_is_dropped_entirely() {
    let srv = RelayServer::new();
    let effects = srv.handle_publish(PublisherMessage { msg: reading(77), pub_id: 77 });
    assert_eq!(persists(&effects), 0);
    assert!(deliveries(&effects).is_empty());
    assert!(effects.is_empty());
}

#[test]
fn publish_persists_once_and_reaches_joined_subscriber() {
    let mut srv = RelayServer::new();
    srv.handle_connect(Connect { ses_role: Role::Publisher(42), addr: 1 });
    let (sid, _) = srv.handle_connect(Connect { ses_role: Role::Subscriber(0), addr: 2 });
    srv.handle_join(Join { ses_id: sid, pub_id: 42 });
    let effects = srv.handle_publish(PublisherMessage { msg: reading(42), pub_id: 42 });
    assert_eq!(persists(&effects), 1);
    match &effects[0] {
        Effect::Persist { reading } => {
            assert_eq!(reading.pub_id, 42);
            assert_eq!(reading.eco2, 400);
        },
        _ => panic!("first effect must be the persistence request"),
    }
    let notices = deliveries(&effects);
    assert_eq!(notices.len(), 1);
    assert_eq!(notices[0].0, 2);
    for needle in ["42", "400", "50", "1000", "900", "ConstantPower1s"] {
        assert!(notices[0].1.contains(needle), "rendering misses {}", needle);
    }
}

#[test]
fn duplicate_join_still_confirms_but_delivers_once() {
    let mut srv = RelayServer::new();
    srv.handle_connect(Connect { ses_role: Role::Publisher(3), addr: 1 });
    let (sid, _) = srv.handle_connect(Connect { ses_role: Role::Subscriber(0), addr: 2 });
    let first = srv.handle_join(Join { ses_id: sid, pub_id: 3 });
    let second = srv.handle_join(Join { ses_id: sid, pub_id: 3 });
    assert_eq!(deliveries(&first)[0].1, "joined 3");
    assert_eq!(deliveries(&second)[0].1, "joined 3");
    let effects = srv.handle_publish(PublisherMessage { msg: reading(3), pub_id: 3 });
    assert_eq!(deliveries(&effects).len(), 1);
}

#[test]
fn every_connect_counts_a_visitor() {
    let mut srv = RelayServer::new();
    assert_eq!(srv.visitor_count(), 0);
    srv.handle_connect(Connect { ses_role: Role::Publisher(1), addr: 1 });
    srv.handle_connect(Connect { ses_role: Role::Subscriber(0), addr: 2 });
    srv.handle_connect(Connect { ses_role: Role::Publisher(1), addr: 3 });
    assert_eq!(srv.visitor_count(), 3);
}

#[test]
fn disconnect_of_unknown_identity_is_a_no_op() {
    let mut srv = RelayServer::new();
    srv.handle_connect(Connect { ses_role: Role::Publisher(1), addr: 10 });
    srv.handle_disconnect(Disconnect { ses_id: 999 });
    assert_eq!(srv.handle_list_subs(), vec![1]);
    let effects = srv.handle_publish(PublisherMessage { msg: reading(1), pub_id: 1 });
    assert_eq!(persists(&effects), 1);
}
