//! The registration handler: turns an inbound register command plus sender
//! identity into a user record ready to upsert into the store.

use vstd::prelude::*;
use vstd::map::*;
use crate::date_text::{parse_date, spec_parse_date};
use crate::models::User;

verus! {

/// Why a registration was rejected. No state is mutated on rejection.
#[derive(Clone, Copy, PartialEq, Eq, Structural, Debug)]
pub enum RegisterError {
    /// The invoking message lacks a resolvable sender identity or a public
    /// handle.
    MissingIdentity,
    /// The date text does not denote a real calendar date.
    InvalidDate,
}

/// What `register` returns: a fresh record with the cool-down marker at
/// zero, or the first reason to reject, checking the sender, then the date
/// text, then the handle.
pub open spec fn spec_register(
    sender: Option<i64>,
    chat_id: i64,
    username: Option<String>,
    date_text: Seq<char>,
) -> Result<User, RegisterError> {
    match sender {
        None => Err(RegisterError::MissingIdentity),
        Some(user_id) => match spec_parse_date(date_text) {
            None => Err(RegisterError::InvalidDate),
            Some(birth) => match username {
                None => Err(RegisterError::MissingIdentity),
                Some(name) => Ok(
                    User {
                        id: user_id,
                        birth,
                        last_greeted_timestamp: 0,
                        chat_id,
                        username: name,
                    },
                ),
            },
        },
    }
}

/// Validates a registration and builds the record to store.
///
/// On success the caller upserts the result into the store; re-registration
/// replaces the prior record wholesale, resetting the cool-down marker to
/// zero. On failure nothing is to be written.
pub fn register(
    sender: Option<i64>,
    chat_id: i64,
    username: Option<String>,
    date_text: &str,
) -> (r: Result<User, RegisterError>)
    ensures
        r == spec_register(sender, chat_id, username, date_text@),
{
    let user_id = match sender {
        None => {
            return Err(RegisterError::MissingIdentity);
        },
        Some(id) => id,
    };
    let birth = match parse_date(date_text) {
        None => {
            return Err(RegisterError::InvalidDate);
        },
        Some(d) => d,
    };
    let name = match username {
        None => {
            return Err(RegisterError::MissingIdentity);
        },
        Some(n) => n,
    };
    Ok(User { id: user_id, birth, last_greeted_timestamp: 0, chat_id, username: name })
}

/// The store, modelled as a map from user id to record; a put is a full
/// upsert keyed on the id: last write wins, no partial update.
pub open spec fn store_upsert(store: Map<int, User>, u: User) -> Map<int, User> {
    store.insert(u.id as int, u)
}

/// Registering is idempotent: `spec_register` depends on its arguments
/// alone, so two identical calls build the identical record, and upserting
/// that record twice leaves the store exactly as upserting it once does.
pub proof fn lemma_register_idempotent(
    store: Map<int, User>,
    sender: Option<i64>,
    chat_id: i64,
    username: Option<String>,
    date_text: Seq<char>,
)
    ensures
        spec_register(sender, chat_id, username, date_text) matches Ok(u) ==> store_upsert(
            store_upsert(store, u),
            u,
        ) == store_upsert(store, u),
{
    match spec_register(sender, chat_id, username, date_text) {
        Ok(u) => {
            assert(store_upsert(store_upsert(store, u), u) =~= store_upsert(store, u));
        },
        Err(_) => {},
    }
}

} // verus!
