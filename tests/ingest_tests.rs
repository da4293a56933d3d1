use otus_tokio_devices::ingest::{classify, handle_chunk, handle_text, HandlerError, SensorData};
use otus_tokio_devices::message::SocketMessage;
use otus_tokio_devices::reading::DecodeError;
use otus_tokio_devices::power::Power;
use otus_tokio_devices::socket::Socket;
use otus_tokio_devices::station::{App, KeyPress};
use otus_tokio_devices::temperature::Temperature;
use otus_tokio_devices::termometer::Termometer;

#[test]
fn classify_payloads() {
    assert_eq!(classify("Socket 21.5 W"), Ok(SensorData::Power(21_500)));
    assert_eq!(classify("Socket  1500 W"), Ok(SensorData::Power(1_500_000)));
    assert_eq!(classify("Termometer 21.5 C"), Ok(SensorData::Temperature(21_500)));
    assert_eq!(classify("Termometer 21 C"), Ok(SensorData::Temperature(21_000)));
    assert_eq!(classify("Socket -x- W"), Ok(SensorData::Unknown));
    assert_eq!(classify("hello"), Ok(SensorData::Unknown));
    assert_eq!(classify(""), Ok(SensorData::Unknown));
}

#[test]
fn classify_unreadable_number_is_error() {
    assert_eq!(classify("Socket \u{0662} W"), Err(DecodeError::InvalidNumber));
    assert_eq!(classify("Termometer 1.\u{0662} C"), Err(DecodeError::InvalidNumber));
    assert_eq!(classify("Socket 99999999999999999999 W"), Err(DecodeError::InvalidNumber));
}

#[test]
fn handle_chunk_unreadable_number_is_error_without_reply() {
    assert!(matches!(
        handle_chunk("Socket 99999999999999999999 W".as_bytes()),
        Err(HandlerError::InvalidNumber)
    ));
    assert!(matches!(
        handle_chunk("Termometer \u{0663}\u{0664} C".as_bytes()),
        Err(HandlerError::InvalidNumber)
    ));
    assert!(matches!(
        handle_text("Socket 1.5\u{0966}"),
        Err(HandlerError::InvalidNumber)
    ));
}

#[test]
fn handle_chunk_decodes_bytes() {
    let h = handle_chunk(b"Socket 21.5 W").unwrap();
    assert_eq!(h.data, SensorData::Power(21_500));
    assert!(h.reply.is_none());
    let h = handle_chunk(b"Termometer 36.6 C\n").unwrap();
    assert_eq!(h.data, SensorData::Temperature(36_600));
}

#[test]
fn handle_chunk_replaces_invalid_utf8() {
    let h = handle_chunk(&[b'h', 0xff, b'i']).unwrap();
    assert_eq!(h.data, SensorData::Unknown);
    assert_eq!(h.reply.unwrap(), "Ok: h\u{fffd}i\n");
    // an invalid byte after the number leaves the reading intact
    let h = handle_chunk(&[b'S', b'o', b'c', b'k', b'e', b't', b' ', b'9', 0xc3]).unwrap();
    assert_eq!(h.data, SensorData::Power(9_000));
}

#[test]
fn handle_chunk_empty_is_connection_error() {
    assert!(matches!(handle_chunk(&[]), Err(HandlerError::ConnectionError)));
}

#[test]
fn unknown_payload_is_acknowledged() {
    let h = handle_text("ping").unwrap();
    assert_eq!(h.data, SensorData::Unknown);
    assert_eq!(h.reply.unwrap(), "Ok: ping\n");
}

#[test]
fn payloads_do_not_mix() {
    let payloads = ["Socket 600 W", "Termometer 20 C", "Socket 700.5 W", "noise"];
    let expected = [
        SensorData::Power(600_000),
        SensorData::Temperature(20_000),
        SensorData::Power(700_500),
        SensorData::Unknown,
    ];
    for (p, e) in payloads.iter().zip(expected.iter()) {
        assert_eq!(handle_chunk(p.as_bytes()).unwrap().data, *e);
    }
}

#[test]
fn app_applies_readings() {
    let mut app = App::new(
        Termometer::new(Temperature::new(0)),
        Socket::new(Power::new(0)),
    );
    assert!(app.is_running());
    assert_eq!(app.messages().len(), 2);
    app.process_sensor_data(&SensorData::Temperature(21_500));
    assert_eq!(app.termometer().temperature().get(), 21_500);
    app.process_sensor_data(&SensorData::Power(1_500_000));
    assert_eq!(app.socket().power().get(), 1_500_000);
    app.process_sensor_data(&SensorData::Power(100_000));
    assert_eq!(app.socket().power().get(), 1_500_000);
    app.process_sensor_data(&SensorData::Unknown);
    let m = app.messages();
    assert_eq!(m.len(), 6);
    assert_eq!(m[2], "Temperature set to 21.5");
    assert_eq!(m[3], "Power set to 1500");
    assert_eq!(m[4], "Power set to 100");
    assert_eq!(m[5], "Unknown data received.");
    app.quit();
    assert!(!app.is_running());
}

#[test]
fn socket_message_text() {
    assert_eq!(SocketMessage::from_text("0"), Some(SocketMessage::Off));
    assert_eq!(SocketMessage::from_text("  42\n"), Some(SocketMessage::Value(42)));
    assert_eq!(SocketMessage::from_text("+255"), Some(SocketMessage::Value(255)));
    assert_eq!(SocketMessage::from_text("007"), Some(SocketMessage::Value(7)));
    assert_eq!(SocketMessage::from_text("256"), None);
    assert_eq!(SocketMessage::from_text("1000000"), None);
    assert_eq!(SocketMessage::from_text("-1"), None);
    assert_eq!(SocketMessage::from_text("+"), None);
    assert_eq!(SocketMessage::from_text("   "), None);
    assert_eq!(SocketMessage::from_text("4 2"), None);
    assert_eq!(SocketMessage::Off.to_text(), "0");
    assert_eq!(SocketMessage::Value(200).to_text(), "200");
}

#[test]
fn quit_keys() {
    let new_app = || App::new(Termometer::default(), Socket::default());
    let mut app = new_app();
    app.on_key_event(false, KeyPress::Char('x'));
    app.on_key_event(false, KeyPress::Char('c'));
    app.on_key_event(true, KeyPress::Other);
    assert!(app.is_running());
    app.on_key_event(false, KeyPress::Char('q'));
    assert!(!app.is_running());
    let mut app = new_app();
    app.on_key_event(false, KeyPress::Esc);
    assert!(!app.is_running());
    let mut app = new_app();
    app.on_key_event(true, KeyPress::Char('C'));
    assert!(!app.is_running());
}
