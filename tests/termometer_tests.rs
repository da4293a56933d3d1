use otus_tokio_devices::reading::DecodeError;
use otus_tokio_devices::temperature::Temperature;
use otus_tokio_devices::termometer::Termometer;

#[test]
fn test_positive_f32_in_string() {
    let message = "Termometer 21.5 C";

    let termometer = Termometer::from_str(message);

    assert!(termometer.is_ok(), "Looks like string has been parsed well");
    assert!(
        termometer.unwrap().temperature().get() == 21_500,
        "Temperature is correct"
    );
}

#[test]
fn test_positive_u32_in_message() {
    let message = "Termometer 21 C";

    let termometer = Termometer::from_str(message);

    assert!(termometer.is_ok(), "Looks like string has been parsed well");
    assert!(
        termometer.unwrap().temperature().get() == 21_000,
        "Temperature is correct"
    );
}

#[test]
fn test_negative_missing_temperature() {
    let message = "Termometer x C";

    let termometer = Termometer::from_str(message);

    assert!(!termometer.is_ok(), "Got an error");
}

#[test]
fn termometer_errors() {
    assert_eq!(Termometer::from_str("Termometer x C"), Err(DecodeError::NoMatch));
    assert_eq!(Termometer::from_str("Thermometer 21 C"), Err(DecodeError::NoMatch));
    assert_eq!(Termometer::from_str("Termometer -3 C"), Err(DecodeError::NoMatch));
    assert_eq!(
        Termometer::from_str("Termometer 10000000000000000 C"),
        Err(DecodeError::InvalidNumber)
    );
}

#[test]
fn termometer_encode_writes_three_decimals() {
    assert_eq!(Termometer::new(Temperature::new(21_500)).encode(), "Termometer 21.500 C");
    assert_eq!(Termometer::new(Temperature::new(0)).encode(), "Termometer 0.000 C");
    assert_eq!(Termometer::new(Temperature::new(100_000)).encode(), "Termometer 100.000 C");
    assert_eq!(Termometer::new(Temperature::new(7)).encode(), "Termometer 0.007 C");
}

#[test]
fn termometer_round_trip() {
    for v in [0i64, 500, 21_500, 36_600, 99_999, 100_000] {
        let t = Termometer::new(Temperature::new(v));
        assert_eq!(Termometer::from_str(&t.encode()), Ok(t));
    }
}

#[test]
fn temperature_set_bounds() {
    let mut t = Temperature::new(50_000);
    t.set(Temperature::MIN_TEMPERATURE);
    assert_eq!(t.get(), 0);
    t.set(Temperature::MAX_TEMPERATURE);
    assert_eq!(t.get(), 100_000);
    t.set(Temperature::MIN_TEMPERATURE - 1);
    assert_eq!(t.get(), 100_000);
    t.set(Temperature::MAX_TEMPERATURE + 1);
    assert_eq!(t.get(), 100_000);
    t.set(36_600);
    assert_eq!(t.get(), 36_600);
}

#[test]
fn temperature_ratio() {
    let low = Temperature::ratio(Temperature::MIN_TEMPERATURE);
    assert_eq!((low.numerator, low.denominator), (0, 100_000));
    let high = Temperature::ratio(Temperature::MAX_TEMPERATURE);
    assert_eq!(high.numerator, high.denominator);
    let below = Temperature::ratio(-5_000);
    assert_eq!(below.numerator, 0);
    let quarter = Temperature::ratio(25_000);
    assert_eq!(quarter.numerator, 25_000);
}

#[test]
fn temperature_text() {
    assert_eq!(Temperature::new(21_500).to_text(), "21.500");
    assert_eq!(Temperature::new(-1_250).to_text(), "-1.250");
    assert_eq!(Temperature::new(i64::MIN).to_text(), "-9223372036854775.808");
    assert_eq!(Temperature::default().get(), 0);
}

#[test]
fn termometer_temperature_mut_changes_termometer() {
    let mut t = Termometer::default();
    t.temperature_mut().set(42_000);
    assert_eq!(t.temperature().get(), 42_000);
    t.temperature_mut().set(142_000);
    assert_eq!(t.temperature().get(), 42_000);
}
