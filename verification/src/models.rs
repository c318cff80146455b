//! The data model: a registered user and the calendar date of their
//! birthday.

use vstd::prelude::*;

verus! {

/// A day-of-month and month pair; the year is not tracked, since greetings
/// recur annually.
#[derive(Clone, Copy, PartialEq, Eq, Structural, Debug)]
pub struct Date {
    pub day: u8,
    pub month: u8,
}

/// The length of each month in the reference year used for validation.
///
/// The reference year is a leap year, so February has 29 days: a Feb 29
/// registration is accepted, and matches only when the sweep itself runs
/// with `today == Feb 29`.
pub open spec fn days_in_month(month: nat) -> nat {
    if month == 2 {
        29
    } else if month == 4 || month == 6 || month == 9 || month == 11 {
        30
    } else {
        31
    }
}

impl Date {
    /// The day/month pair denotes a date that exists in the reference
    /// calendar year.
    pub open spec fn is_valid(self) -> bool {
        1 <= self.month <= 12 && 1 <= self.day <= days_in_month(self.month as nat)
    }

    /// Decides `is_valid`.
    pub fn check_valid(&self) -> (r: bool)
        ensures
            r == self.is_valid(),
    {
        let max_day: u8 = if self.month == 2 {
            29
        } else if self.month == 4 || self.month == 6 || self.month == 9 || self.month == 11 {
            30
        } else {
            31
        };
        1 <= self.month && self.month <= 12 && 1 <= self.day && self.day <= max_day
    }
}

/// The mathematical value of a stored user record.
pub ghost struct UserV {
    pub id: int,
    pub chat_id: int,
    pub birth: Date,
    pub last_greeted_at: nat,
    pub username: Seq<char>,
}

/// One registered chat participant.
///
/// `last_greeted_timestamp` is the earliest moment (seconds since the
/// epoch) at which the user may be greeted again; zero until the first
/// greeting.
#[derive(Debug)]
pub struct User {
    pub id: i64,
    pub birth: Date,
    pub last_greeted_timestamp: u64,
    pub chat_id: i64,
    pub username: String,
}

impl View for User {
    type V = UserV;

    open spec fn view(&self) -> UserV {
        UserV {
            id: self.id as int,
            chat_id: self.chat_id as int,
            birth: self.birth,
            last_greeted_at: self.last_greeted_timestamp as nat,
            username: self.username@,
        }
    }
}

} // verus!
