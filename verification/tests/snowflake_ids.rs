use hurry::snowflake::{parse_i64, ParseIntError, Snowflake, EPOCH_MILLIS};
use std::num::IntErrorKind;
use std::time::Duration;

fn kind_of(e: &std::num::ParseIntError) -> ParseIntError {
    match e.kind() {
        IntErrorKind::Empty => ParseIntError::Empty,
        IntErrorKind::InvalidDigit => ParseIntError::InvalidDigit,
        IntErrorKind::PosOverflow => ParseIntError::PosOverflow,
        IntErrorKind::NegOverflow => ParseIntError::NegOverflow,
        _ => panic!("unexpected kind"),
    }
}

#[test]
fn parse_plain_and_signed_numbers() {
    assert_eq!(parse_i64(b"0"), Ok(0));
    assert_eq!(parse_i64(b"123"), Ok(123));
    assert_eq!(parse_i64(b"+7"), Ok(7));
    assert_eq!(parse_i64(b"-5"), Ok(-5));
    assert_eq!(parse_i64(b"-0"), Ok(0));
    assert_eq!(parse_i64(b"007"), Ok(7));
}

#[test]
fn parse_limits_of_i64() {
    assert_eq!(parse_i64(b"9223372036854775807"), Ok(i64::MAX));
    assert_eq!(parse_i64(b"-9223372036854775808"), Ok(i64::MIN));
    assert_eq!(parse_i64(b"9223372036854775808"), Err(ParseIntError::PosOverflow));
    assert_eq!(parse_i64(b"-9223372036854775809"), Err(ParseIntError::NegOverflow));
}

#[test]
fn parse_each_error_kind() {
    assert_eq!(parse_i64(b""), Err(ParseIntError::Empty));
    assert_eq!(parse_i64(b"-"), Err(ParseIntError::InvalidDigit));
    assert_eq!(parse_i64(b"+"), Err(ParseIntError::InvalidDigit));
    assert_eq!(parse_i64(b"12a"), Err(ParseIntError::InvalidDigit));
    assert_eq!(parse_i64(b" 1"), Err(ParseIntError::InvalidDigit));
    assert_eq!(parse_i64(b"+-1"), Err(ParseIntError::InvalidDigit));
    assert_eq!(parse_i64(b"99999999999999999999x"), Err(ParseIntError::PosOverflow));
    assert_eq!(parse_i64(b"-99999999999999999999x"), Err(ParseIntError::NegOverflow));
}

#[test]
fn parse_agrees_with_std() {
    let cases = [
        "", "0", "1", "-1", "+1", "-", "+", "--1", "++1", "1-", "12 ", "١", "é1", "1é",
        "9223372036854775806", "9223372036854775807", "9223372036854775808",
        "-9223372036854775807", "-9223372036854775808", "-9223372036854775809",
        "123456789012345678901234567890", "12345678901234567890a", "1234567890123456a",
        "000000000000000000000000000042", "-000000000000000000000000000042",
    ];
    for c in cases.iter() {
        let ours = parse_i64(c.as_bytes());
        let theirs = c.parse::<i64>().map_err(|e| kind_of(&e));
        assert_eq!(ours, theirs, "input {:?}", c);
    }
}

#[test]
fn try_from_string() {
    assert_eq!(
        Snowflake::try_from("7156070048988135427".to_string()),
        Ok(Snowflake(7156070048988135427))
    );
    assert_eq!(Snowflake::try_from("abc".to_string()), Err(ParseIntError::InvalidDigit));
    assert_eq!(Snowflake::try_from(String::new()), Err(ParseIntError::Empty));
}

#[test]
fn to_string_is_decimal() {
    assert_eq!(Snowflake(0).to_string(), "0");
    assert_eq!(Snowflake(-42).to_string(), "-42");
    assert_eq!(Snowflake(7156070048988135428).to_string(), "7156070048988135428");
    assert_eq!(Snowflake(i64::MIN).to_string(), "-9223372036854775808");
}

#[test]
fn law_decimal_text_roundtrip() {
    for v in [0i64, 1, -1, 9, 10, -10, 123456789, i64::MAX, i64::MIN, 7156070048988135429] {
        let text = Snowflake(v).to_string();
        assert_eq!(Snowflake::try_from(text), Ok(Snowflake(v)));
    }
}

#[test]
fn creation_time_of_identifiers() {
    assert_eq!(Snowflake(0).created_at_millis(), EPOCH_MILLIS as u128);
    assert_eq!(Snowflake(1 << 22).created_at_millis(), EPOCH_MILLIS as u128 + 1);
    assert_eq!(Snowflake((1000 << 22) | 4095).created_at_millis(), EPOCH_MILLIS as u128 + 1000);
    assert_eq!(
        Snowflake(-1).created_at_millis(),
        u64::MAX as u128 + EPOCH_MILLIS as u128
    );
    assert_eq!(
        Snowflake(0).created_at_timestamp(),
        Duration::from_millis(1707168386)
    );
    let id = Snowflake(7156070048988135427);
    let expected = Duration::from_millis((id.0 >> 22) as u64) + Duration::from_millis(1707168386);
    assert_eq!(id.created_at_timestamp(), expected);
    let negative = Snowflake(-(1 << 40));
    let expected = Duration::from_millis((negative.0 >> 22) as u64) + Duration::from_millis(1707168386);
    assert_eq!(negative.created_at_timestamp(), expected);
}

#[test]
fn generated_identifiers_differ() {
    let mut generator = Snowflake::id_generator();
    let a = Snowflake::generate(&mut generator);
    let b = Snowflake::generate(&mut generator);
    assert_ne!(a, b);
    assert_eq!((a.0 >> 12) & 0x3ff, 0);
}

#[test]
fn generator_counter_fills_low_bits() {
    let mut generator = Snowflake::id_generator();
    let a = Snowflake::generate(&mut generator);
    let b = Snowflake::generate(&mut generator);
    let c = Snowflake::generate(&mut generator);
    assert_eq!(a.0 & 0x3f_ffff, 1);
    assert_eq!(b.0 & 0x3f_ffff, 2);
    assert_eq!(c.0 & 0x3f_ffff, 3);
}

#[test]
fn law_consecutive_ids_differ_concrete() {
    let mut generator = Snowflake::id_generator();
    let mut previous = Snowflake::generate(&mut generator);
    for _ in 0..5000 {
        let next = Snowflake::generate(&mut generator);
        assert_ne!(previous, next);
        assert_eq!((next.0 >> 12) & 0x3ff, 0);
        previous = next;
    }
}

#[test]
fn error_messages_match_std() {
    for c in ["", "x", "99999999999999999999", "-99999999999999999999"] {
        let ours = parse_i64(c.as_bytes()).unwrap_err();
        let theirs = c.parse::<i64>().unwrap_err();
        assert_eq!(ours.message(), theirs.to_string());
    }
}

#[test]
fn time_bits_change_only_when_the_counter_wraps() {
    let mut generator = Snowflake::id_generator();
    let first = Snowflake::generate(&mut generator);
    let mut previous = first;
    for n in 2..=4096 {
        let next = Snowflake::generate(&mut generator);
        assert_eq!(next.0 & 0xfff, n % 4096);
        if n % 4096 != 0 {
            assert_eq!(next.0 >> 22, previous.0 >> 22);
        } else {
            assert_ne!(next.0 >> 22, previous.0 >> 22);
        }
        previous = next;
    }
    assert!(first.0 >> 22 >= 0);
}

#[test]
fn law_created_at_of_generated_concrete() {
    let mut generator = Snowflake::id_generator();
    let id = Snowflake::generate(&mut generator);
    let now = std::time::SystemTime::now()
        .duration_since(std::time::UNIX_EPOCH)
        .unwrap()
        .as_millis();
    let made = id.created_at_millis();
    assert!(made <= now && now - made < 60_000, "made {} now {}", made, now);
}
