//! The persisted form of a user record and its (de)serialization.
//!
//! The store keeps one record per user, every field rendered as a decimal
//! string. Reconstruction checks each required field and reports the first
//! failure; a missing display name falls back to a placeholder, as a record
//! may predate that field.

use vstd::prelude::*;
use crate::digits::{
    dec_digits, dec_digits_int, format_i64, format_u64, lemma_i64_round_trip,
    lemma_u64_round_trip, lemma_u8_round_trip, parse_i64_digits, parse_u64_digits,
    parse_u8_digits, spec_parse_i64, spec_parse_u64, spec_parse_u8,
};
use crate::models::{Date, User, UserV};

verus! {

/// A stored user record as the store hands it back: each attribute an
/// optional string.
pub struct Record {
    pub user_id: Option<String>,
    pub birth_day: Option<String>,
    pub birth_month: Option<String>,
    pub last_ts: Option<String>,
    pub chat_id: Option<String>,
    pub user_name: Option<String>,
}

/// The mathematical value of a `Record`.
#[verifier::ext_equal]
pub ghost struct RecordV {
    pub user_id: Option<Seq<char>>,
    pub birth_day: Option<Seq<char>>,
    pub birth_month: Option<Seq<char>>,
    pub last_ts: Option<Seq<char>>,
    pub chat_id: Option<Seq<char>>,
    pub user_name: Option<Seq<char>>,
}

/// The view of an optional string.
pub open spec fn opt_text(f: Option<String>) -> Option<Seq<char>> {
    match f {
        Some(s) => Some(s@),
        None => None,
    }
}

impl View for Record {
    type V = RecordV;

    open spec fn view(&self) -> RecordV {
        RecordV {
            user_id: opt_text(self.user_id),
            birth_day: opt_text(self.birth_day),
            birth_month: opt_text(self.birth_month),
            last_ts: opt_text(self.last_ts),
            chat_id: opt_text(self.chat_id),
            user_name: opt_text(self.user_name),
        }
    }
}

/// A required attribute of a stored record.
#[derive(Clone, Copy, PartialEq, Eq, Structural, Debug)]
pub enum Field {
    UserId,
    BirthDay,
    BirthMonth,
    LastTs,
    ChatId,
}

/// Why a stored record could not be reconstructed into a `User`.
#[derive(Clone, Copy, PartialEq, Eq, Structural, Debug)]
pub enum DeserializeError {
    /// The attribute is absent.
    Missing(Field),
    /// The attribute is present but does not parse as the field's number.
    Invalid(Field),
}

/// The record a user serializes to: every attribute present, in decimal.
pub open spec fn spec_serialize(u: UserV) -> RecordV {
    RecordV {
        user_id: Some(dec_digits_int(u.id)),
        birth_day: Some(dec_digits(u.birth.day as nat)),
        birth_month: Some(dec_digits(u.birth.month as nat)),
        last_ts: Some(dec_digits(u.last_greeted_at)),
        chat_id: Some(dec_digits_int(u.chat_id)),
        user_name: Some(u.username),
    }
}

/// The user a record reconstructs to, or the first failure, checking the
/// required attributes in a fixed order.
pub open spec fn spec_deserialize(r: RecordV) -> Result<UserV, DeserializeError> {
    match r.user_id {
        None => Err(DeserializeError::Missing(Field::UserId)),
        Some(id_text) => match spec_parse_i64(id_text) {
            None => Err(DeserializeError::Invalid(Field::UserId)),
            Some(id) => match r.birth_day {
                None => Err(DeserializeError::Missing(Field::BirthDay)),
                Some(day_text) => match spec_parse_u8(day_text) {
                    None => Err(DeserializeError::Invalid(Field::BirthDay)),
                    Some(day) => match r.birth_month {
                        None => Err(DeserializeError::Missing(Field::BirthMonth)),
                        Some(month_text) => match spec_parse_u8(month_text) {
                            None => Err(DeserializeError::Invalid(Field::BirthMonth)),
                            Some(month) => match r.last_ts {
                                None => Err(DeserializeError::Missing(Field::LastTs)),
                                Some(ts_text) => match spec_parse_u64(ts_text) {
                                    None => Err(DeserializeError::Invalid(Field::LastTs)),
                                    Some(last) => match r.chat_id {
                                        None => Err(DeserializeError::Missing(Field::ChatId)),
                                        Some(chat_text) => match spec_parse_i64(chat_text) {
                                            None => Err(DeserializeError::Invalid(Field::ChatId)),
                                            Some(chat) => Ok(
                                                UserV {
                                                    id: id as int,
                                                    chat_id: chat as int,
                                                    birth: Date { day, month },
                                                    last_greeted_at: last as nat,
                                                    username: match r.user_name {
                                                        Some(name) => name,
                                                        None => "unknown"@,
                                                    },
                                                },
                                            ),
                                        },
                                    },
                                },
                            },
                        },
                    },
                },
            },
        },
    }
}

impl User {
    /// Renders this user as a full record, every attribute present.
    pub fn serialize(&self) -> (r: Record)
        ensures
            r@ == spec_serialize(self@),
    {
        let r = Record {
            user_id: Some(format_i64(self.id)),
            birth_day: Some(format_u64(self.birth.day as u64)),
            birth_month: Some(format_u64(self.birth.month as u64)),
            last_ts: Some(format_u64(self.last_greeted_timestamp)),
            chat_id: Some(format_i64(self.chat_id)),
            user_name: Some(self.username.clone()),
        };
        proof {
            assert(r@ =~= spec_serialize(self@));
        }
        r
    }

    /// Reconstructs a user from a stored record, reporting the first
    /// absent or unparseable required attribute.
    pub fn deserialize(r: Record) -> (res: Result<User, DeserializeError>)
        ensures
            match res {
                Ok(u) => spec_deserialize(r@) == Ok::<UserV, DeserializeError>(u@),
                Err(e) => spec_deserialize(r@) == Err::<UserV, DeserializeError>(e),
            },
    {
        let Record { user_id, birth_day, birth_month, last_ts, chat_id, user_name } = r;
        let id = match user_id {
            None => {
                return Err(DeserializeError::Missing(Field::UserId));
            },
            Some(t) => match parse_i64_digits(t.as_str()) {
                None => {
                    return Err(DeserializeError::Invalid(Field::UserId));
                },
                Some(v) => v,
            },
        };
        let day = match birth_day {
            None => {
                return Err(DeserializeError::Missing(Field::BirthDay));
            },
            Some(t) => match parse_u8_digits(t.as_str()) {
                None => {
                    return Err(DeserializeError::Invalid(Field::BirthDay));
                },
                Some(v) => v,
            },
        };
        let month = match birth_month {
            None => {
                return Err(DeserializeError::Missing(Field::BirthMonth));
            },
            Some(t) => match parse_u8_digits(t.as_str()) {
                None => {
                    return Err(DeserializeError::Invalid(Field::BirthMonth));
                },
                Some(v) => v,
            },
        };
        let last = match last_ts {
            None => {
                return Err(DeserializeError::Missing(Field::LastTs));
            },
            Some(t) => match parse_u64_digits(t.as_str()) {
                None => {
                    return Err(DeserializeError::Invalid(Field::LastTs));
                },
                Some(v) => v,
            },
        };
        let chat = match chat_id {
            None => {
                return Err(DeserializeError::Missing(Field::ChatId));
            },
            Some(t) => match parse_i64_digits(t.as_str()) {
                None => {
                    return Err(DeserializeError::Invalid(Field::ChatId));
                },
                Some(v) => v,
            },
        };
        let username = match user_name {
            Some(name) => name,
            None => String::from_str("unknown"),
        };
        Ok(User { id, birth: Date { day, month }, last_greeted_timestamp: last, chat_id: chat, username })
    }
}

/// A serialized user always reconstructs to exactly the same value: the
/// store's round trip loses nothing.
pub proof fn lemma_record_round_trip(u: UserV)
    requires
        i64::MIN <= u.id <= i64::MAX,
        i64::MIN <= u.chat_id <= i64::MAX,
        u.last_greeted_at <= u64::MAX,
    ensures
        spec_deserialize(spec_serialize(u)) == Ok::<UserV, DeserializeError>(u),
{
    lemma_i64_round_trip(u.id as i64);
    lemma_u8_round_trip(u.birth.day);
    lemma_u8_round_trip(u.birth.month);
    lemma_u64_round_trip(u.last_greeted_at as u64);
    lemma_i64_round_trip(u.chat_id as i64);
    assert(spec_deserialize(spec_serialize(u)).unwrap() =~= u);
}

} // verus!
