use birthday_bot::models::{Date, User};
use birthday_bot::record::{DeserializeError, Field, Record};

fn sample_user() -> User {
    User {
        id: 42,
        birth: Date { day: 15, month: 3 },
        last_greeted_timestamp: 1234567890,
        chat_id: -100200300,
        username: "bob".to_string(),
    }
}

#[test]
fn serialize_renders_every_attribute() {
    let r = sample_user().serialize();
    assert_eq!(r.user_id.as_deref(), Some("42"));
    assert_eq!(r.birth_day.as_deref(), Some("15"));
    assert_eq!(r.birth_month.as_deref(), Some("3"));
    assert_eq!(r.last_ts.as_deref(), Some("1234567890"));
    assert_eq!(r.chat_id.as_deref(), Some("-100200300"));
    assert_eq!(r.user_name.as_deref(), Some("bob"));
}

#[test]
fn serialized_record_round_trips() {
    let u = sample_user();
    let back = User::deserialize(u.serialize()).unwrap();
    assert_eq!(back.id, u.id);
    assert_eq!(back.birth, u.birth);
    assert_eq!(back.last_greeted_timestamp, u.last_greeted_timestamp);
    assert_eq!(back.chat_id, u.chat_id);
    assert_eq!(back.username, u.username);
}

#[test]
fn extreme_values_round_trip() {
    let u = User {
        id: i64::MIN,
        birth: Date { day: 29, month: 2 },
        last_greeted_timestamp: u64::MAX,
        chat_id: i64::MAX,
        username: String::new(),
    };
    let back = User::deserialize(u.serialize()).unwrap();
    assert_eq!(back.id, u.id);
    assert_eq!(back.birth, u.birth);
    assert_eq!(back.last_greeted_timestamp, u.last_greeted_timestamp);
    assert_eq!(back.chat_id, u.chat_id);
    assert_eq!(back.username, u.username);
}

fn full_record() -> Record {
    Record {
        user_id: Some("42".to_string()),
        birth_day: Some("15".to_string()),
        birth_month: Some("3".to_string()),
        last_ts: Some("0".to_string()),
        chat_id: Some("42".to_string()),
        user_name: Some("bob".to_string()),
    }
}

#[test]
fn deserialize_reports_missing_attributes() {
    let r = Record { user_id: None, ..full_record() };
    assert_eq!(User::deserialize(r).unwrap_err(), DeserializeError::Missing(Field::UserId));
    let r = Record { birth_day: None, ..full_record() };
    assert_eq!(User::deserialize(r).unwrap_err(), DeserializeError::Missing(Field::BirthDay));
    let r = Record { birth_month: None, ..full_record() };
    assert_eq!(User::deserialize(r).unwrap_err(), DeserializeError::Missing(Field::BirthMonth));
    let r = Record { last_ts: None, ..full_record() };
    assert_eq!(User::deserialize(r).unwrap_err(), DeserializeError::Missing(Field::LastTs));
    let r = Record { chat_id: None, ..full_record() };
    assert_eq!(User::deserialize(r).unwrap_err(), DeserializeError::Missing(Field::ChatId));
}

#[test]
fn deserialize_reports_unparseable_attributes() {
    let r = Record { user_id: Some("forty-two".to_string()), ..full_record() };
    assert_eq!(User::deserialize(r).unwrap_err(), DeserializeError::Invalid(Field::UserId));
    let r = Record { birth_day: Some("256".to_string()), ..full_record() };
    assert_eq!(User::deserialize(r).unwrap_err(), DeserializeError::Invalid(Field::BirthDay));
    let r = Record { last_ts: Some("-1".to_string()), ..full_record() };
    assert_eq!(User::deserialize(r).unwrap_err(), DeserializeError::Invalid(Field::LastTs));
}

#[test]
fn deserialize_defaults_a_missing_handle() {
    let r = Record { user_name: None, ..full_record() };
    let u = User::deserialize(r).unwrap();
    assert_eq!(u.username, "unknown");
}

#[test]
fn deserialize_keeps_stored_values() {
    let u = User::deserialize(full_record()).unwrap();
    assert_eq!(u.id, 42);
    assert_eq!(u.birth, Date { day: 15, month: 3 });
    assert_eq!(u.last_greeted_timestamp, 0);
    assert_eq!(u.chat_id, 42);
    assert_eq!(u.username, "bob");
}
