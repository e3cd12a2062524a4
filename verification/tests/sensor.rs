use sensor_relay::cli_client::format_command;
use sensor_relay::db::model::{ascending_of, DbReading, NewReading};
use sensor_relay::relay_server::{PublisherMessage, Reading, Role};
use sensor_relay::sensor_client::{
    fake_reading, reading_frame, CurrentMode, MeasurementMode, SessionClient, TakeReading,
};
use sensor_relay::ws_session::{Command, WsSession};

#[test]
fn mode_labels_and_periods_are_exact() {
    assert_eq!(MeasurementMode::Idle.label(), "Idle");
    assert_eq!(MeasurementMode::ConstantPower250ms.label(), "ConstantPower250ms");
    assert_eq!(MeasurementMode::ConstantPower1s.label(), "ConstantPower1s");
    assert_eq!(MeasurementMode::PulseHeating10s.label(), "PulseHeating10s");
    assert_eq!(MeasurementMode::LowPowerPulseHeating60s.label(), "LowPowerPulseHeating60s");
    assert_eq!(MeasurementMode::ConstantPower250ms.millis(), 250);
    assert_eq!(MeasurementMode::ConstantPower1s.millis(), 1000);
    assert_eq!(MeasurementMode::PulseHeating10s.millis(), 10000);
    assert_eq!(MeasurementMode::LowPowerPulseHeating60s.millis(), 60000);
    assert_eq!(MeasurementMode::Idle.millis(), u64::MAX);
}

#[test]
fn stale_reading_requests_are_dropped() {
    let mut cli = SessionClient::new();
    assert!(cli.mode_to_millis().is_none());
    let t1 = cli.on_current_mode(CurrentMode { inc: MeasurementMode::ConstantPower1s });
    assert_eq!(t1.version, 1);
    assert_eq!(cli.mode_to_millis(), Some(1000));
    // reading scheduled under version 1 fires while still current
    let next = cli.on_take_reading(t1);
    assert!(matches!(next, Some((t, 1000)) if t.version == 1));
    // the mode changes; the old schedule is now stale
    let t2 = cli.on_current_mode(CurrentMode { inc: MeasurementMode::PulseHeating10s });
    assert_eq!(t2.version, 2);
    assert!(cli.on_take_reading(TakeReading { version: 1 }).is_none());
    assert!(matches!(cli.on_take_reading(t2), Some((_, 10000))));
}

#[test]
fn reading_frame_round_trips_through_the_session_parser() {
    let rd = sensor_relay::sensor_client::Reading {
        eco2: 400,
        evtoc: 50,
        read_time: 1000,
        start_time: 900,
        increment: MeasurementMode::ConstantPower1s.label(),
    };
    let frame = reading_frame(&rd);
    assert_eq!(
        frame,
        "/reading {\"eco2\": 400, \"evtoc\": 50, \"read_time\": 1000, \"start_time\": 900, \"increment\": \"ConstantPower1s\"}"
    );
    let ses = WsSession::new(Role::Publisher(811), 0);
    match ses.parse_message(&frame) {
        Ok(Command::Publish(pm)) => {
            assert_eq!(pm.pub_id, 811);
            assert_eq!(pm.msg.eco2, 400);
            assert_eq!(pm.msg.evtoc, 50);
            assert_eq!(pm.msg.read_time, 1000);
            assert_eq!(pm.msg.start_time, 900);
            assert_eq!(pm.msg.increment, "ConstantPower1s");
        },
        _ => panic!("the sensor's own frame must parse"),
    }
}

#[test]
fn fake_reading_is_derived_from_the_clock() {
    let rd = fake_reading(70000, 900, MeasurementMode::ConstantPower1s);
    assert_eq!(rd.eco2, (70000u64 % 65536) as u16);
    assert_eq!(rd.evtoc, ((70000u64 % 65536) / 2) as u16);
    assert_eq!(rd.read_time, 70000);
    assert_eq!(rd.start_time, 900);
    assert_eq!(rd.increment, "ConstantPower1s");
}

#[test]
fn new_reading_row_casts_the_fields() {
    let msg = PublisherMessage {
        pub_id: 42,
        msg: Reading {
            pub_id: 42,
            eco2: 400,
            evtoc: 50,
            read_time: 1000,
            start_time: 900,
            increment: String::from("ConstantPower1s"),
        },
    };
    let row = NewReading::from_message(msg);
    assert_eq!(row.publisher_id, 42);
    assert_eq!(row.eco2, 400);
    assert_eq!(row.evtoc, 50);
    assert_eq!(row.read_time, 1000);
    assert_eq!(row.start_time, 900);
    assert_eq!(row.increment, "ConstantPower1s");
}

#[test]
fn query_answers_are_reversed_into_ascending_order() {
    let row = |id: i32, t: i64| DbReading {
        id,
        publisher_id: 1,
        eco2: 0,
        evtoc: 0,
        read_time: t,
        start_time: 0,
        increment: String::new(),
    };
    let newest_first = vec![row(3, 30), row(2, 20), row(1, 10)];
    let asc = ascending_of(newest_first);
    let times: Vec<i64> = asc.iter().map(|r| r.read_time).collect();
    assert_eq!(times, vec![10, 20, 30]);
}

#[test]
fn console_join_line_becomes_the_wire_command() {
    assert_eq!(format_command("/join 42"), Some(String::from("/join { \"pub_id\": 42 }")));
    assert_eq!(format_command("  /join 7\n"), Some(String::from("/join { \"pub_id\": 7 }")));
    assert_eq!(format_command("hello"), None);
    // the produced command is accepted by a subscriber session
    let cmd = format_command("/join 42").unwrap();
    let ses = WsSession::new(Role::Subscriber(5), 0);
    match ses.parse_message(&cmd) {
        Ok(Command::Join(j)) => {
            assert_eq!(j.ses_id, 5);
            assert_eq!(j.pub_id, 42);
        },
        _ => panic!("the console command must parse"),
    }
}
