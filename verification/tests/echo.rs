use sensor_relay::sensor_websocket::{EchoEffect, SensorWebsocket, CLIENT_TIMEOUT};
use sensor_relay::ws_session::WsFrame;

#[test]
fn echo_endpoint_answers_and_echoes() {
    let mut ws = SensorWebsocket::new(0);
    let out = ws.on_frame(1, WsFrame::Ping(b"p".to_vec()));
    assert!(!out.stop);
    assert!(matches!(&out.effects[..], [EchoEffect::Pong(p)] if p == b"p"));
    assert_eq!(ws.hb, 1);
    let out = ws.on_frame(2, WsFrame::Text(String::from("data")));
    assert!(matches!(&out.effects[..], [EchoEffect::Text(t)] if t == "data"));
    let out = ws.on_frame(3, WsFrame::Binary(vec![1, 2]));
    assert!(matches!(&out.effects[..], [EchoEffect::Binary(b)] if b == &vec![1, 2]));
    let out = ws.on_frame(4, WsFrame::Close);
    assert!(out.stop);
    assert!(matches!(&out.effects[..], [EchoEffect::Close]));
}

#[test]
fn echo_endpoint_times_out_quickly() {
    let ws = SensorWebsocket::new(100);
    assert!(!ws.on_hb_tick(100 + CLIENT_TIMEOUT));
    assert!(ws.on_hb_tick(100 + CLIENT_TIMEOUT + 1));
}
