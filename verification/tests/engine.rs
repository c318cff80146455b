use birthday_bot::models::{Date, User};
use birthday_bot::register::{register, RegisterError};
use birthday_bot::sweep::{find_due, greeting_text, SweepState, COOLDOWN_SECS};

fn user(id: i64, day: u8, month: u8, last: u64) -> User {
    User {
        id,
        birth: Date { day, month },
        last_greeted_timestamp: last,
        chat_id: id,
        username: format!("user{}", id),
    }
}

#[test]
fn register_rejects_missing_sender() {
    let r = register(None, 7, Some("bob".to_string()), "15.03");
    assert_eq!(r.unwrap_err(), RegisterError::MissingIdentity);
}

#[test]
fn register_rejects_missing_handle() {
    let r = register(Some(42), 7, None, "15.03");
    assert_eq!(r.unwrap_err(), RegisterError::MissingIdentity);
}

#[test]
fn register_rejects_bad_date_text() {
    for text in ["", "15", "31.02", "15.03.1990", "a.b"] {
        let r = register(Some(42), 7, Some("bob".to_string()), text);
        assert_eq!(r.unwrap_err(), RegisterError::InvalidDate);
    }
}

#[test]
fn register_builds_a_fresh_record() {
    let u = register(Some(42), 7, Some("bob".to_string()), "15.03").unwrap();
    assert_eq!(u.id, 42);
    assert_eq!(u.chat_id, 7);
    assert_eq!(u.birth, Date { day: 15, month: 3 });
    assert_eq!(u.last_greeted_timestamp, 0);
    assert_eq!(u.username, "bob");
}

#[test]
fn register_twice_builds_the_same_record() {
    let a = register(Some(42), 7, Some("bob".to_string()), "15.03").unwrap();
    let b = register(Some(42), 7, Some("bob".to_string()), "15.03").unwrap();
    assert_eq!(a.id, b.id);
    assert_eq!(a.chat_id, b.chat_id);
    assert_eq!(a.birth, b.birth);
    assert_eq!(a.last_greeted_timestamp, b.last_greeted_timestamp);
    assert_eq!(a.username, b.username);
}

#[test]
fn find_due_filters_on_birthday_and_cooldown() {
    let today = Date { day: 15, month: 3 };
    let snapshot = vec![
        user(1, 15, 3, 0),     // due
        user(2, 15, 3, 1000),  // cool-down not yet elapsed at now = 500
        user(3, 16, 3, 0),     // wrong day
        user(4, 15, 4, 0),     // wrong month
        user(5, 15, 3, 500),   // marker exactly now: due
    ];
    let due = find_due(snapshot, today, 500);
    let ids: Vec<i64> = due.iter().map(|u| u.id).collect();
    assert_eq!(ids, vec![1, 5]);
}

#[test]
fn find_due_excludes_future_marker_includes_elapsed() {
    let t = 7777;
    let today = Date { day: 1, month: 6 };
    let u = user(9, 1, 6, t);
    let before = find_due(vec![u], today, t - 1);
    assert!(before.is_empty());
    let u = user(9, 1, 6, t);
    let at = find_due(vec![u], today, t);
    assert_eq!(at.len(), 1);
    assert_eq!(at[0].id, 9);
}

#[test]
fn greeting_text_names_the_user() {
    assert_eq!(greeting_text("bob"), "Happy birthday, @bob");
}

#[test]
fn failed_send_leaves_user_eligible() {
    let today = Date { day: 15, month: 3 };
    let now = 1000;
    let snapshot = vec![user(1, 15, 3, 0), user(2, 15, 3, 0)];
    let mut st = SweepState::start(snapshot, today, now);
    assert_eq!(st.pending.len(), 2);

    // The send to the first target fails: no write, id reported.
    let first = st.next_greeting().unwrap();
    assert_eq!(first.chat_id, 1);
    st.record_failure();

    // The send to the second target succeeds: its marker advances.
    let second = st.next_greeting().unwrap();
    assert_eq!(second.chat_id, 2);
    let written = st.record_success(now);
    assert_eq!(written.id, 2);
    assert_eq!(written.last_greeted_timestamp, now + COOLDOWN_SECS);

    assert!(st.next_greeting().is_none());
    assert_eq!(st.sent, 1);
    assert_eq!(st.failed, vec![1]);

    // The failed user is still due on the next sweep; the greeted one not.
    let next_snapshot = vec![user(1, 15, 3, 0), written];
    let due = find_due(next_snapshot, today, now);
    assert_eq!(due.len(), 1);
    assert_eq!(due[0].id, 1);
}

#[test]
fn registered_birthday_greeted_once_per_day() {
    // Register user 42 with date text "15.03".
    let u = register(Some(42), 4242, Some("bob".to_string()), "15.03").unwrap();

    // The due-set query for (day 15, month 3) at now = 0 returns the user.
    let today = Date { day: 15, month: 3 };
    let due = find_due(vec![u], today, 0);
    assert_eq!(due.len(), 1);
    assert_eq!(due[0].id, 42);

    // The sweep sends one greeting to the registered chat and advances the
    // marker by about a day.
    let mut st = SweepState::start(due, today, 0);
    let g = st.next_greeting().unwrap();
    assert_eq!(g.chat_id, 4242);
    assert_eq!(g.text, "Happy birthday, @bob");
    let written = st.record_success(0);
    assert_eq!(written.last_greeted_timestamp, COOLDOWN_SECS);
    assert_eq!(st.sent, 1);
    assert!(st.failed.is_empty());
    assert!(st.next_greeting().is_none());

    // A second sweep moments later finds an empty due set for user 42.
    let again = find_due(vec![written], today, 0);
    assert!(again.is_empty());
}
