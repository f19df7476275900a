use rusticsearch::{DateTime, Json, Term};

fn datetime_from(text: &str) -> DateTime {
    let parsed = text.parse::<chrono::DateTime<chrono::Utc>>().unwrap();
    DateTime { seconds: parsed.timestamp(), nanos: parsed.timestamp_subsec_nanos() }
}

#[test]
fn test_string_to_bytes() {
    let term = Term::String("foo".to_string());

    assert_eq!(term.to_bytes(), vec![102, 111, 111])
}

#[test]
fn test_hiragana_string_to_bytes() {
    let term = Term::String("こんにちは".to_string());

    assert_eq!(
        term.to_bytes(),
        vec![227, 129, 147, 227, 130, 147, 227, 129, 171, 227, 129, 161, 227, 129, 175]
    )
}

#[test]
fn test_blank_string_to_bytes() {
    let term = Term::String("".to_string());

    assert_eq!(term.to_bytes(), vec![])
}

#[test]
fn test_boolean_true_to_bytes() {
    let term = Term::Boolean(true);

    // 116 = 't' in ASCII
    assert_eq!(term.to_bytes(), vec![116])
}

#[test]
fn test_boolean_false_to_bytes() {
    let term = Term::Boolean(false);

    // 102 = 'f' in ASCII
    assert_eq!(term.to_bytes(), vec![102])
}

#[test]
fn test_i64_to_bytes() {
    let term = Term::I64(123);

    assert_eq!(term.to_bytes(), vec![0, 0, 0, 0, 0, 0, 0, 123])
}

#[test]
fn test_negative_i64_to_bytes() {
    let term = Term::I64(-123);

    assert_eq!(term.to_bytes(), vec![255, 255, 255, 255, 255, 255, 255, 133])
}

#[test]
fn test_u64_to_bytes() {
    let term = Term::U64(123);

    assert_eq!(term.to_bytes(), vec![0, 0, 0, 0, 0, 0, 0, 123])
}

#[test]
fn test_datetime_to_bytes() {
    let date = datetime_from("2016-07-23T16:15:00+01:00");
    let term = Term::DateTime(date);

    assert_eq!(term.to_bytes(), vec![0, 5, 56, 79, 3, 191, 101, 0])
}

#[test]
fn test_datetime_with_microseconds_to_bytes() {
    let mut date = datetime_from("2016-07-23T16:15:00+01:00");
    date.nanos = 123123123;
    let term = Term::DateTime(date);

    // This is exactly 123123 higher than the result of "test_datetime_to_bytes"
    assert_eq!(term.to_bytes(), vec![0, 5, 56, 79, 3, 193, 69, 243])
}

#[test]
fn test_datetime_with_different_timezone_to_bytes() {
    let date = datetime_from("2016-07-23T16:15:00+02:00");
    let term = Term::DateTime(date);

    // This is exactly 3_600_000_000 lower than the result of "test_datetime_to_bytes"
    assert_eq!(term.to_bytes(), vec![0, 5, 56, 78, 45, 43, 193, 0])
}

#[test]
fn test_encoding_same_term_twice_is_identical() {
    let a = Term::String("determinism".to_string());
    assert_eq!(a.to_bytes(), a.to_bytes());
    let b = Term::I64(-99);
    assert_eq!(b.to_bytes(), b.to_bytes());
    let c = Term::DateTime(datetime_from("2016-07-23T16:15:00+01:00"));
    assert_eq!(c.to_bytes(), c.to_bytes());
}

#[test]
fn test_nonnegative_i64_encoding_orders_lexicographically() {
    let pairs = [(0i64, 1i64), (1, 2), (5, 1000), (255, 256), (0, i64::MAX)];
    for (x, y) in pairs {
        assert!(Term::I64(x).to_bytes() < Term::I64(y).to_bytes());
    }
}

#[test]
fn test_negative_i64_encodes_greater_than_nonnegative() {
    // The documented limitation: byte order does not match numeric order
    // across the sign boundary.
    assert!(Term::I64(-1).to_bytes() > Term::I64(1).to_bytes());
    assert!(Term::I64(-123).to_bytes() > Term::I64(i64::MAX).to_bytes());
}

#[test]
fn test_u64_encoding_orders_lexicographically() {
    assert!(Term::U64(123).to_bytes() < Term::U64(124).to_bytes());
    assert!(Term::U64(255).to_bytes() < Term::U64(256).to_bytes());
}

#[test]
fn test_from_json_scalars() {
    assert_eq!(
        Term::from_json(&Json::String("abc".to_string())),
        Some(Term::String("abc".to_string()))
    );
    assert_eq!(Term::from_json(&Json::Boolean(true)), Some(Term::Boolean(true)));
    assert_eq!(Term::from_json(&Json::I64(-5)), Some(Term::I64(-5)));
    assert_eq!(Term::from_json(&Json::U64(5)), Some(Term::U64(5)));
    assert_eq!(Term::from_json(&Json::Null), None);
    assert_eq!(Term::from_json(&Json::Float("1.5".to_string())), None);
    assert_eq!(Term::from_json(&Json::Array(vec![])), None);
}

#[test]
fn test_as_json_renders_datetime_as_rfc3339() {
    let term = Term::DateTime(datetime_from("2016-07-23T16:15:00+01:00"));
    match term.as_json() {
        Json::String(s) => assert_eq!(s, "2016-07-23T15:15:00+00:00"),
        other => panic!("expected a string, got {:?}", other),
    }
}

#[test]
fn test_extreme_integer_encodings() {
    assert_eq!(Term::U64(u64::MAX).to_bytes(), vec![255u8; 8]);
    assert_eq!(Term::U64(0).to_bytes(), vec![0u8; 8]);
    assert_eq!(Term::I64(i64::MAX).to_bytes(), vec![127, 255, 255, 255, 255, 255, 255, 255]);
    assert_eq!(Term::I64(i64::MIN).to_bytes(), vec![128, 0, 0, 0, 0, 0, 0, 0]);
}
