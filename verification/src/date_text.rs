//! The date validator: parses free-form text of the shape `DD.MM` into a
//! `Date`, rejecting anything that does not denote a real calendar date.

use vstd::prelude::*;
use crate::digits::{
    dec_digits, is_digit_char, lemma_dec_digits_wf, lemma_u8_round_trip, spec_parse_u8,
    format_u64, parse_u8_digits,
};
use crate::models::Date;

verus! {

/// `s` contains exactly one `.`, at index `p`.
pub open spec fn lone_dot_at(s: Seq<char>, p: int) -> bool {
    &&& 0 <= p < s.len()
    &&& s[p] == '.'
    &&& forall|q: int| 0 <= q < s.len() && q != p ==> s[q] != '.'
}

/// The date denoted by a day token and a month token, if both are digit
/// runs forming a real date.
pub open spec fn parse_day_month(day_text: Seq<char>, month_text: Seq<char>) -> Option<Date> {
    match (spec_parse_u8(day_text), spec_parse_u8(month_text)) {
        (Some(d), Some(m)) => {
            let date = Date { day: d, month: m };
            if date.is_valid() {
                Some(date)
            } else {
                None
            }
        },
        _ => None,
    }
}

/// What `parse_date` returns: the input must consist of exactly two
/// tokens separated by a single `.`, each a non-empty digit run, and the
/// two values must form a real calendar date.
pub open spec fn spec_parse_date(s: Seq<char>) -> Option<Date> {
    if exists|p: int| lone_dot_at(s, p) {
        let p = choose|p: int| lone_dot_at(s, p);
        parse_day_month(s.take(p), s.skip(p + 1))
    } else {
        None
    }
}

/// With the single `.` located, `spec_parse_date` splits exactly there.
pub proof fn lemma_parse_date_split(s: Seq<char>, p: int)
    requires
        lone_dot_at(s, p),
    ensures
        spec_parse_date(s) == parse_day_month(s.take(p), s.skip(p + 1)),
{
    let q = choose|q: int| lone_dot_at(s, q);
    if q != p {
        assert(s[q] != '.');
    }
}

/// Parses and validates a birth-date string of the shape `DD.MM`.
pub fn parse_date(s: &str) -> (r: Option<Date>)
    ensures
        r == spec_parse_date(s@),
{
    let n = s.unicode_len();
    let mut i: usize = 0;
    let mut dot_pos: usize = 0;
    let mut seen: bool = false;
    while i < n
        invariant
            n == s@.len(),
            0 <= i <= n,
            !seen ==> forall|q: int| 0 <= q < i ==> s@[q] != '.',
            seen ==> 0 <= dot_pos < i && s@[dot_pos as int] == '.',
            seen ==> forall|q: int| 0 <= q < i && q != dot_pos ==> s@[q] != '.',
        decreases n - i,
    {
        if s.get_char(i) == '.' {
            if seen {
                proof {
                    assert forall|p: int| !lone_dot_at(s@, p) by {
                        if p == dot_pos {
                            assert(s@[i as int] == '.');
                        } else {
                            assert(s@[dot_pos as int] == '.');
                        }
                    }
                }
                return None;
            }
            seen = true;
            dot_pos = i;
        }
        i += 1;
    }
    if !seen {
        proof {
            assert forall|p: int| !lone_dot_at(s@, p) by {
                if 0 <= p < s@.len() {
                    assert(s@[p] != '.');
                }
            }
        }
        return None;
    }
    proof {
        assert(lone_dot_at(s@, dot_pos as int));
        lemma_parse_date_split(s@, dot_pos as int);
    }
    let day_text = s.substring_char(0, dot_pos);
    let month_text = s.substring_char(dot_pos + 1, n);
    proof {
        assert(day_text@ =~= s@.take(dot_pos as int));
        assert(month_text@ =~= s@.skip(dot_pos as int + 1));
    }
    let day = match parse_u8_digits(day_text) {
        Some(d) => d,
        None => {
            return None;
        },
    };
    let month = match parse_u8_digits(month_text) {
        Some(m) => m,
        None => {
            return None;
        },
    };
    let date = Date { day, month };
    if date.check_valid() {
        Some(date)
    } else {
        None
    }
}

/// The canonical text of a date, with the same `.` delimiter the parser
/// expects.
pub open spec fn spec_format_date(d: Date) -> Seq<char> {
    dec_digits(d.day as nat) + seq!['.'] + dec_digits(d.month as nat)
}

/// Renders a date as `day.month` in decimal.
pub fn format_date(d: Date) -> (r: String)
    ensures
        r@ == spec_format_date(d),
{
    proof {
        reveal_strlit(".");
    }
    let mut r = format_u64(d.day as u64);
    r.append(".");
    let month_digits = format_u64(d.month as u64);
    r.append(month_digits.as_str());
    proof {
        assert(r@ =~= spec_format_date(d));
    }
    r
}

/// A date the validator accepts is always a real calendar date: no
/// partially valid value is ever produced.
pub proof fn lemma_parse_date_valid(s: Seq<char>)
    ensures
        spec_parse_date(s) matches Some(d) ==> d.is_valid(),
{
}

/// Formatting a valid date and re-parsing it yields the same date back.
pub proof fn lemma_date_round_trip(d: Date)
    requires
        d.is_valid(),
    ensures
        spec_parse_date(spec_format_date(d)) == Some(d),
{
    let s = spec_format_date(d);
    let day_digits = dec_digits(d.day as nat);
    let month_digits = dec_digits(d.month as nat);
    let p = day_digits.len() as int;
    lemma_dec_digits_wf(d.day as nat);
    lemma_dec_digits_wf(d.month as nat);
    assert(!is_digit_char('.'));
    assert forall|q: int| 0 <= q < s.len() && q != p implies s[q] != '.' by {
        if q < p {
            assert(is_digit_char(day_digits[q]));
        } else {
            assert(is_digit_char(month_digits[q - p - 1]));
        }
    }
    assert(lone_dot_at(s, p));
    lemma_parse_date_split(s, p);
    assert(s.take(p) =~= day_digits);
    assert(s.skip(p + 1) =~= month_digits);
    lemma_u8_round_trip(d.day);
    lemma_u8_round_trip(d.month);
}

} // verus!
