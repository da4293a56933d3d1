use otus_tokio_devices::power::Power;
use otus_tokio_devices::reading::DecodeError;
use otus_tokio_devices::socket::Socket;

#[test]
fn positive_f32_in_string() {
    let message = "Socket 21.5 W";

    let socket = Socket::from_str(message);

    assert!(socket.is_ok(), "Looks like string has been parsed well");
    assert!(socket.unwrap().power().get() == 21_500, "Power is correct");
}

#[test]
fn positive_u32_in_message() {
    let message = "Socket  1500 W";

    let result = Socket::from_str(message);

    assert!(result.is_ok(), "Looks like string has been parsed well");
    assert!(result.unwrap().power().get() == 1_500_000, "Power is correct");
}

#[test]
fn negative_missing_temperature() {
    let message = "Socket -x- W";

    let result = Socket::from_str(message);

    assert!(!result.is_ok(), "Got an error");
}

#[test]
fn socket_missing_number_is_no_match() {
    assert_eq!(Socket::from_str("Socket -x- W"), Err(DecodeError::NoMatch));
    assert_eq!(Socket::from_str("Socket"), Err(DecodeError::NoMatch));
    assert_eq!(Socket::from_str("Socket12 W"), Err(DecodeError::NoMatch));
    assert_eq!(Socket::from_str(" Socket 12 W"), Err(DecodeError::NoMatch));
    assert_eq!(Socket::from_str("Termometer 12 C"), Err(DecodeError::NoMatch));
    assert_eq!(Socket::from_str(""), Err(DecodeError::NoMatch));
}

#[test]
fn socket_number_too_large_is_invalid() {
    assert_eq!(
        Socket::from_str("Socket 99999999999999999999 W"),
        Err(DecodeError::InvalidNumber)
    );
    assert_eq!(
        Socket::from_str("Socket 9223372036854776 W"),
        Err(DecodeError::InvalidNumber)
    );
    let largest = Socket::from_str("Socket 9223372036854775.807 W").unwrap();
    assert_eq!(largest.power().get(), i64::MAX);
}

#[test]
fn socket_grammar_details() {
    // tabs and other white space separate keyword and number
    assert_eq!(Socket::from_str("Socket\t\t7").unwrap().power().get(), 7_000);
    assert_eq!(Socket::from_str("Socket\u{3000}7").unwrap().power().get(), 7_000);
    // a point without digits after it ends the number
    assert_eq!(Socket::from_str("Socket 7. W").unwrap().power().get(), 7_000);
    // fraction digits past the third are dropped
    assert_eq!(Socket::from_str("Socket 1.23456 W").unwrap().power().get(), 1_234);
    assert_eq!(Socket::from_str("Socket 0.05").unwrap().power().get(), 50);
    // trailing text is ignored
    assert_eq!(Socket::from_str("Socket 12abc").unwrap().power().get(), 12_000);
}

#[test]
fn socket_encode_writes_plain_value() {
    assert_eq!(Socket::new(Power::new(21_500)).encode(), "Socket 21.5 W");
    assert_eq!(Socket::new(Power::new(1_500_000)).encode(), "Socket 1500 W");
    assert_eq!(Socket::new(Power::new(1_250)).encode(), "Socket 1.25 W");
    assert_eq!(Socket::new(Power::new(5)).encode(), "Socket 0.005 W");
    assert_eq!(Socket::default().encode(), "Socket 0 W");
}

#[test]
fn socket_round_trip() {
    for v in [0i64, 500_000, 512_500, 1_999_999, 2_000_000, 21_500, 7] {
        let s = Socket::new(Power::new(v));
        assert_eq!(Socket::from_str(&s.encode()), Ok(s));
    }
}

#[test]
fn power_set_bounds() {
    let mut p = Power::new(1_000_000);
    p.set(Power::MIN_POWER);
    assert_eq!(p.get(), 500_000);
    p.set(Power::MAX_POWER);
    assert_eq!(p.get(), 2_000_000);
    p.set(Power::MIN_POWER - 1);
    assert_eq!(p.get(), 2_000_000);
    p.set(Power::MAX_POWER + 1);
    assert_eq!(p.get(), 2_000_000);
    p.set(1_500_000);
    assert_eq!(p.get(), 1_500_000);
}

#[test]
fn power_ratio() {
    let low = Power::ratio(Power::MIN_POWER);
    assert_eq!((low.numerator, low.denominator), (0, 1_500_000));
    let high = Power::ratio(Power::MAX_POWER);
    assert_eq!(high.numerator, high.denominator);
    let below = Power::ratio(100_000);
    assert_eq!(below.numerator, 0);
    let mid = Power::ratio(1_250_000);
    assert_eq!((mid.numerator, mid.denominator), (750_000, 1_500_000));
    let above = Power::ratio(2_500_000);
    assert_eq!(above.numerator, 2_000_000);
}

#[test]
fn power_text() {
    assert_eq!(Power::new(1_500_000).to_text(), "1500");
    assert_eq!(Power::new(512_500).to_text(), "512.5");
    assert_eq!(Power::new(-2_500).to_text(), "-2.5");
    assert_eq!(Power::default().get(), 0);
}

#[test]
fn socket_power_mut_changes_socket() {
    let mut s = Socket::default();
    s.power_mut().set(600_000);
    assert_eq!(s.power().get(), 600_000);
}
