use otus_tokio_devices::reading::DecodeError;
use otus_tokio_devices::socket::Socket;
use otus_tokio_devices::termometer::Termometer;
use otus_tokio_devices::text::is_decimal;
use regex::Regex;

#[test]
fn decimal_class_is_regex_digit_class() {
    let re = Regex::new(r"^\d$").unwrap();
    let mut buf = [0u8; 4];
    let mut count = 0;
    for c in (0..=0x10ffffu32).filter_map(char::from_u32) {
        let expected = re.is_match(c.encode_utf8(&mut buf));
        assert_eq!(is_decimal(c), expected, "U+{:04X}", c as u32);
        if expected {
            count += 1;
        }
    }
    assert_eq!(count, 760);
}

#[test]
fn unicode_digits_are_invalid_numbers() {
    assert_eq!(Socket::from_str("Socket \u{0662}"), Err(DecodeError::InvalidNumber));
    assert_eq!(Socket::from_str("Socket 1.\u{0662}"), Err(DecodeError::InvalidNumber));
    assert_eq!(Socket::from_str("Socket 1.2\u{0663} W"), Err(DecodeError::InvalidNumber));
    assert_eq!(Socket::from_str("Socket 1\u{ff11} W"), Err(DecodeError::InvalidNumber));
    assert_eq!(
        Termometer::from_str("Termometer \u{0662} C"),
        Err(DecodeError::InvalidNumber)
    );
    assert_eq!(
        Termometer::from_str("Termometer 21.\u{0966} C"),
        Err(DecodeError::InvalidNumber)
    );
    // a point followed by something other than a digit ends the number
    assert_eq!(Socket::from_str("Socket 1.x").unwrap().power().get(), 1_000);
}

#[test]
fn grammar_agrees_with_regex_on_shape() {
    let re = Regex::new(r"^Socket(\s)+(\d+(\.\d+)?)").unwrap();
    let samples = [
        "Socket 21.5 W",
        "Socket  1500 W",
        "Socket -x- W",
        "Socket \u{0662}",
        "Socket\u{2003}7",
        "Socket 1.\u{0662}",
        "Socket7",
        "socket 7",
        "Socket 7.",
        "Socket \u{00bd}",
        "Socket \u{00b2}",
    ];
    for s in samples {
        let matched = re.is_match(s);
        let r = Socket::from_str(s);
        assert_eq!(matched, r != Err(DecodeError::NoMatch), "{:?}", s);
    }
}
