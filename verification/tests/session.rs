use sensor_relay::relay_server::{Role};
use sensor_relay::ws_session::{
    role_from_auth, Command, HbAction, SessionEffect, SessionState, WsFrame, WsSession,
};
use sensor_relay::CLIENT_TIMEOUT;

#[test]
fn reading_command_parses_into_publish_request() {
    let ses = WsSession::new(Role::Publisher(42), 0);
    let r = ses.parse_message(
        "/reading {\"eco2\": 400, \"evtoc\": 50, \"read_time\": 1000, \"start_time\": 900, \"increment\": \"ConstantPower1s\"}",
    );
    match r {
        Ok(Command::Publish(pm)) => {
            assert_eq!(pm.pub_id, 42);
            assert_eq!(pm.msg.pub_id, 42);
            assert_eq!(pm.msg.eco2, 400);
            assert_eq!(pm.msg.evtoc, 50);
            assert_eq!(pm.msg.read_time, 1000);
            assert_eq!(pm.msg.start_time, 900);
            assert_eq!(pm.msg.increment, "ConstantPower1s");
        },
        _ => panic!("expected a publish request"),
    }
}

#[test]
fn join_command_parses_into_join_request() {
    let ses = WsSession::new(Role::Subscriber(17), 0);
    let r = ses.parse_message("/join {\"pub_id\": 42}");
    match r {
        Ok(Command::Join(j)) => {
            assert_eq!(j.ses_id, 17);
            assert_eq!(j.pub_id, 42);
        },
        _ => panic!("expected a join request"),
    }
}

#[test]
fn unrecognised_command_is_reported() {
    let ses = WsSession::new(Role::Subscriber(17), 0);
    match ses.parse_message("/frobnicate {}") {
        Err(e) => assert_eq!(e, "unrecognised command /frobnicate"),
        _ => panic!("expected an error"),
    }
}

#[test]
fn command_under_wrong_role_is_unrecognised() {
    let ses = WsSession::new(Role::Publisher(42), 0);
    match ses.parse_message("/join {\"pub_id\": 1}") {
        Err(e) => assert_eq!(e, "unrecognised command /join"),
        _ => panic!("expected an error"),
    }
    let ses = WsSession::new(Role::Subscriber(5), 0);
    match ses.parse_message("/reading {}") {
        Err(e) => assert_eq!(e, "unrecognised command /reading"),
        _ => panic!("expected an error"),
    }
}

#[test]
fn malformed_payload_reports_command_error() {
    let ses = WsSession::new(Role::Publisher(42), 0);
    match ses.parse_message("/reading {\"eco2\": }") {
        Err(e) => assert_eq!(e, "COMMAND ERROR: invalid /reading payload"),
        _ => panic!("expected an error"),
    }
    // eco2 beyond the sensor's range
    match ses.parse_message(
        "/reading {\"eco2\": 70000, \"evtoc\": 50, \"read_time\": 1, \"start_time\": 1, \"increment\": \"Idle\"}",
    ) {
        Err(e) => assert_eq!(e, "COMMAND ERROR: invalid /reading payload"),
        _ => panic!("expected an error"),
    }
    let ses = WsSession::new(Role::Subscriber(1), 0);
    match ses.parse_message("/join {\"pub_id\": \"nope\"}") {
        Err(e) => assert_eq!(e, "COMMAND ERROR: invalid /join payload"),
        _ => panic!("expected an error"),
    }
}

#[test]
fn heartbeat_stops_only_past_timeout() {
    let ses = WsSession::new(Role::Subscriber(1), 100);
    assert!(matches!(ses.on_hb_tick(100 + CLIENT_TIMEOUT), HbAction::Ping));
    assert!(matches!(ses.on_hb_tick(100 + CLIENT_TIMEOUT + 1), HbAction::Stop));
}

#[test]
fn timed_out_session_reports_one_disconnect() {
    let mut ses = WsSession::new(Role::Publisher(8), 0);
    ses.on_confirmed(8);
    assert!(matches!(ses.on_hb_tick(CLIENT_TIMEOUT + 1), HbAction::Stop));
    let first = ses.on_stopping();
    assert_eq!(first.map(|d| d.ses_id), Some(8));
    let second = ses.on_stopping();
    assert!(second.is_none());
}

#[test]
fn confirmation_replaces_identity_and_keeps_tag() {
    let mut ses = WsSession::new(Role::Subscriber(0), 0);
    assert_eq!(ses.state, SessionState::Negotiating);
    ses.on_confirmed(12345);
    assert_eq!(ses.state, SessionState::Active);
    assert!(matches!(ses.ses_role, Role::Subscriber(12345)));
}

#[test]
fn inbound_frames_refresh_the_liveness_clock() {
    let mut ses = WsSession::new(Role::Subscriber(1), 0);
    ses.on_confirmed(1);
    let out = ses.on_frame(50, WsFrame::Ping(b"x".to_vec()));
    assert!(!out.stop);
    assert!(matches!(&out.effects[..], [SessionEffect::PingPeer(p)] if p == b"x"));
    assert_eq!(ses.hb, 50);
    let out = ses.on_frame(60, WsFrame::Pong);
    assert!(!out.stop && out.effects.is_empty());
    assert_eq!(ses.hb, 60);
    assert!(matches!(ses.on_hb_tick(60 + CLIENT_TIMEOUT), HbAction::Ping));
}

#[test]
fn close_and_errors_stop_the_session() {
    let mut ses = WsSession::new(Role::Subscriber(1), 0);
    let out = ses.on_frame(5, WsFrame::Close);
    assert!(out.stop);
    assert!(matches!(&out.effects[..], [SessionEffect::ClosePeer]));
    let mut ses = WsSession::new(Role::Subscriber(1), 0);
    let out = ses.on_frame(5, WsFrame::StreamError);
    assert!(out.stop && out.effects.is_empty());
    let mut ses = WsSession::new(Role::Subscriber(1), 0);
    let out = ses.on_frame(5, WsFrame::Continuation);
    assert!(out.stop && out.effects.is_empty());
}

#[test]
fn text_frame_yields_request_or_reply() {
    let mut ses = WsSession::new(Role::Subscriber(9), 0);
    let out = ses.on_frame(1, WsFrame::Text(String::from("/join {\"pub_id\": 4}")));
    assert!(!out.stop);
    assert!(matches!(
        &out.effects[..],
        [SessionEffect::Request(Command::Join(j))] if j.ses_id == 9 && j.pub_id == 4
    ));
    let out = ses.on_frame(2, WsFrame::Text(String::from("nonsense")));
    assert!(matches!(
        &out.effects[..],
        [SessionEffect::ToPeer(e)] if e == "unrecognised command nonsense"
    ));
}

#[test]
fn auth_token_decides_the_candidate_role() {
    assert!(matches!(role_from_auth(None), Ok(Role::Subscriber(0))));
    assert!(matches!(role_from_auth(Some("811")), Ok(Role::Publisher(811))));
    assert!(matches!(role_from_auth(Some("+5")), Ok(Role::Publisher(5))));
    assert!(matches!(role_from_auth(Some("007")), Ok(Role::Publisher(7))));
    match role_from_auth(Some("abc")) {
        Err(e) => assert_eq!(e, "couldn't parse abc"),
        _ => panic!("expected an error"),
    }
    match role_from_auth(Some("99999999999999999999")) {
        Err(e) => assert_eq!(e, "couldn't parse 99999999999999999999"),
        _ => panic!("expected an error"),
    }
    assert!(matches!(
        role_from_auth(Some("18446744073709551615")),
        Ok(Role::Publisher(u64::MAX))
    ));
}

#[test]
fn role_replace_keeps_the_tag() {
    assert!(matches!(Role::Publisher(1).replace(9), Role::Publisher(9)));
    assert!(matches!(Role::Subscriber(1).replace(9), Role::Subscriber(9)));
    assert_eq!(Role::Publisher(4).id(), 4);
    assert_eq!(Role::Subscriber(6).id(), 6);
}
