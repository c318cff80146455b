//! Decimal text: parsing and formatting of the unsigned and signed integers
//! that appear in date text and in persisted records.
//!
//! Only plain digit runs are accepted (no sign other than a single leading
//! `-` for signed values, no surrounding whitespace); leading zeros are
//! allowed, as they are harmless and round-trips never produce them.

use vstd::prelude::*;

verus! {

/// `c` is one of the ten decimal digit characters.
pub open spec fn is_digit_char(c: char) -> bool {
    '0' as u32 <= c as u32 <= '9' as u32
}

/// The numeric value of a digit character.
pub open spec fn digit_value(c: char) -> nat {
    (c as u32 - '0' as u32) as nat
}

/// Every character of `s` is a decimal digit.
pub open spec fn all_digit_chars(s: Seq<char>) -> bool {
    forall|i: int| 0 <= i < s.len() ==> is_digit_char(s[i])
}

/// The number denoted by a run of digit characters, most significant first.
pub open spec fn digits_value(s: Seq<char>) -> nat
    decreases s.len(),
{
    if s.len() == 0 {
        0
    } else {
        digits_value(s.drop_last()) * 10 + digit_value(s.last())
    }
}

/// The digit character for a value below ten.
pub open spec fn digit_char(d: nat) -> char {
    if d == 0 {
        '0'
    } else if d == 1 {
        '1'
    } else if d == 2 {
        '2'
    } else if d == 3 {
        '3'
    } else if d == 4 {
        '4'
    } else if d == 5 {
        '5'
    } else if d == 6 {
        '6'
    } else if d == 7 {
        '7'
    } else if d == 8 {
        '8'
    } else {
        '9'
    }
}

/// The canonical decimal rendering of `n`: no sign, no leading zeros
/// (except the single digit of zero itself).
pub open spec fn dec_digits(n: nat) -> Seq<char>
    decreases n,
{
    if n < 10 {
        seq![digit_char(n)]
    } else {
        dec_digits(n / 10).push(digit_char(n % 10))
    }
}

/// The canonical decimal rendering of a possibly negative integer.
pub open spec fn dec_digits_int(v: int) -> Seq<char> {
    if v >= 0 {
        dec_digits(v as nat)
    } else {
        seq!['-'] + dec_digits((-v) as nat)
    }
}

/// What `parse_u64_digits` returns: the value of a non-empty digit run,
/// when it fits in a `u64`.
pub open spec fn spec_parse_u64(s: Seq<char>) -> Option<u64> {
    if s.len() > 0 && all_digit_chars(s) && digits_value(s) <= u64::MAX {
        Some(digits_value(s) as u64)
    } else {
        None
    }
}

/// What `parse_u8_digits` returns: the value of a non-empty digit run,
/// when it fits in a `u8`.
pub open spec fn spec_parse_u8(s: Seq<char>) -> Option<u8> {
    if s.len() > 0 && all_digit_chars(s) && digits_value(s) <= u8::MAX {
        Some(digits_value(s) as u8)
    } else {
        None
    }
}

/// What `parse_i64_digits` returns: an optional leading `-` followed by a
/// non-empty digit run, when the signed value fits in an `i64`.
pub open spec fn spec_parse_i64(s: Seq<char>) -> Option<i64> {
    if s.len() > 0 && s[0] == '-' {
        let mag = s.skip(1);
        if mag.len() > 0 && all_digit_chars(mag) && digits_value(mag) <= 0x8000_0000_0000_0000 {
            Some((-(digits_value(mag) as int)) as i64)
        } else {
            None
        }
    } else if s.len() > 0 && all_digit_chars(s) && digits_value(s) <= i64::MAX {
        Some(digits_value(s) as i64)
    } else {
        None
    }
}

/// Extending a digit run by one character multiplies its value by ten and
/// adds the new digit.
pub proof fn lemma_digits_value_take_step(s: Seq<char>, i: int)
    requires
        0 <= i < s.len(),
    ensures
        digits_value(s.take(i + 1)) == digits_value(s.take(i)) * 10 + digit_value(s[i]),
{
    assert(s.take(i + 1).drop_last() =~= s.take(i));
    assert(s.take(i + 1).last() == s[i]);
}

/// The value of a digit run never shrinks as the run grows.
pub proof fn lemma_digits_value_step_grows(s: Seq<char>, i: int)
    requires
        0 <= i < s.len(),
    ensures
        digits_value(s.take(i + 1)) >= digits_value(s.take(i)),
{
    lemma_digits_value_take_step(s, i);
    assert(digits_value(s.take(i)) * 10 >= digits_value(s.take(i)));
}

/// Parses a non-empty run of decimal digits into a `u64`.
pub fn parse_u64_digits(s: &str) -> (r: Option<u64>)
    ensures
        r == spec_parse_u64(s@),
{
    let n = s.unicode_len();
    if n == 0 {
        return None;
    }
    let mut i: usize = 0;
    let mut acc: u64 = 0;
    let mut big: bool = false;
    while i < n
        invariant
            n == s@.len(),
            0 <= i <= n,
            forall|j: int| 0 <= j < i ==> is_digit_char(s@[j]),
            !big ==> acc == digits_value(s@.take(i as int)),
            big ==> digits_value(s@.take(i as int)) > u64::MAX,
        decreases n - i,
    {
        let c = s.get_char(i);
        if !('0' as u32 <= c as u32 && c as u32 <= '9' as u32) {
            assert(!is_digit_char(s@[i as int]));
            return None;
        }
        let d: u64 = (c as u32 - '0' as u32) as u64;
        proof {
            lemma_digits_value_take_step(s@, i as int);
        }
        if big {
            proof {
                lemma_digits_value_step_grows(s@, i as int);
            }
        } else {
            match acc.checked_mul(10) {
                Some(m) => match m.checked_add(d) {
                    Some(v) => {
                        acc = v;
                    },
                    None => {
                        big = true;
                    },
                },
                None => {
                    big = true;
                    assert(digits_value(s@.take(i as int)) * 10 + digit_value(s@[i as int])
                        > u64::MAX);
                },
            }
        }
        i += 1;
    }
    proof {
        assert(s@.take(n as int) =~= s@);
    }
    if big {
        None
    } else {
        Some(acc)
    }
}

/// Parses a non-empty run of decimal digits into a `u8`.
pub fn parse_u8_digits(s: &str) -> (r: Option<u8>)
    ensures
        r == spec_parse_u8(s@),
{
    match parse_u64_digits(s) {
        Some(v) => {
            if v <= u8::MAX as u64 {
                Some(v as u8)
            } else {
                None
            }
        },
        None => {
            proof {
                if s@.len() > 0 && all_digit_chars(s@) {
                    lemma_digits_value_at_least(s@);
                }
            }
            None
        },
    }
}

/// A digit run worth more than `u64::MAX` is also worth more than `u8::MAX`.
proof fn lemma_digits_value_at_least(s: Seq<char>)
    ensures
        digits_value(s) > u64::MAX ==> digits_value(s) > u8::MAX,
{
}

/// Parses an optional `-` sign followed by a non-empty digit run into an
/// `i64`.
pub fn parse_i64_digits(s: &str) -> (r: Option<i64>)
    ensures
        r == spec_parse_i64(s@),
{
    let n = s.unicode_len();
    if n == 0 {
        return None;
    }
    if s.get_char(0) == '-' {
        let mag_text = s.substring_char(1, n);
        proof {
            assert(mag_text@ =~= s@.skip(1));
        }
        match parse_u64_digits(mag_text) {
            Some(m) => {
                if m < 0x8000_0000_0000_0000 {
                    Some(-(m as i64))
                } else if m == 0x8000_0000_0000_0000 {
                    Some(i64::MIN)
                } else {
                    None
                }
            },
            None => None,
        }
    } else {
        match parse_u64_digits(s) {
            Some(v) => {
                if v <= i64::MAX as u64 {
                    Some(v as i64)
                } else {
                    None
                }
            },
            None => None,
        }
    }
}

/// The one-character string for a digit value.
fn digit_str(d: u8) -> (r: &'static str)
    requires
        d < 10,
    ensures
        r@ == seq![digit_char(d as nat)],
{
    proof {
        reveal_strlit("0");
        reveal_strlit("1");
        reveal_strlit("2");
        reveal_strlit("3");
        reveal_strlit("4");
        reveal_strlit("5");
        reveal_strlit("6");
        reveal_strlit("7");
        reveal_strlit("8");
        reveal_strlit("9");
    }
    match d {
        0 => "0",
        1 => "1",
        2 => "2",
        3 => "3",
        4 => "4",
        5 => "5",
        6 => "6",
        7 => "7",
        8 => "8",
        _ => "9",
    }
}

/// Renders `n` in decimal, most significant digit first, no leading zeros.
pub fn format_u64(n: u64) -> (r: String)
    ensures
        r@ == dec_digits(n as nat),
    decreases n,
{
    if n < 10 {
        let r = digit_str(n as u8);
        r.to_owned()
    } else {
        let mut r = format_u64(n / 10);
        r.append(digit_str((n % 10) as u8));
        proof {
            assert(dec_digits((n / 10) as nat).push(digit_char((n % 10) as nat)) =~= dec_digits(
                (n / 10) as nat,
            ) + seq![digit_char((n % 10) as nat)]);
        }
        r
    }
}

/// Renders `v` in decimal, with a leading `-` when negative.
pub fn format_i64(v: i64) -> (r: String)
    ensures
        r@ == dec_digits_int(v as int),
{
    if v >= 0 {
        format_u64(v as u64)
    } else {
        let mag: u64 = ((-(v + 1)) as u64) + 1;
        proof {
            reveal_strlit("-");
        }
        let mut r = String::from_str("-");
        let digits = format_u64(mag);
        r.append(digits.as_str());
        proof {
            assert(r@ =~= seq!['-'] + dec_digits((-(v as int)) as nat));
        }
        r
    }
}

/// The digit characters carry the values they denote.
pub proof fn lemma_digit_char_value(d: nat)
    requires
        d < 10,
    ensures
        is_digit_char(digit_char(d)),
        digit_value(digit_char(d)) == d,
{
}

/// Every character of a canonical rendering is a digit, and there is at
/// least one of them.
pub proof fn lemma_dec_digits_wf(n: nat)
    ensures
        dec_digits(n).len() >= 1,
        all_digit_chars(dec_digits(n)),
    decreases n,
{
    if n < 10 {
        assert(is_digit_char(digit_char(n)));
    } else {
        lemma_dec_digits_wf(n / 10);
        assert(is_digit_char(digit_char(n % 10)));
        assert(forall|i: int|
            0 <= i < dec_digits(n).len() ==> is_digit_char(dec_digits(n)[i]));
    }
}

/// Parsing the canonical rendering of `n` yields `n` back.
pub proof fn lemma_dec_digits_value(n: nat)
    ensures
        digits_value(dec_digits(n)) == n,
    decreases n,
{
    if n < 10 {
        lemma_digit_char_value(n);
        assert(dec_digits(n).drop_last() =~= Seq::<char>::empty());
        assert(digits_value(dec_digits(n).drop_last()) == 0);
    } else {
        lemma_dec_digits_value(n / 10);
        lemma_digit_char_value(n % 10);
        assert(dec_digits(n).drop_last() =~= dec_digits(n / 10));
        assert(digits_value(dec_digits(n)) == digits_value(dec_digits(n).drop_last()) * 10
            + digit_value(dec_digits(n).last()));
        vstd::arithmetic::div_mod::lemma_fundamental_div_mod(n as int, 10);
    }
}

/// Formatting then parsing is the identity on `u64`.
pub proof fn lemma_u64_round_trip(n: u64)
    ensures
        spec_parse_u64(dec_digits(n as nat)) == Some(n),
{
    lemma_dec_digits_wf(n as nat);
    lemma_dec_digits_value(n as nat);
}

/// Formatting then parsing is the identity on `u8`.
pub proof fn lemma_u8_round_trip(n: u8)
    ensures
        spec_parse_u8(dec_digits(n as nat)) == Some(n),
{
    lemma_dec_digits_wf(n as nat);
    lemma_dec_digits_value(n as nat);
}

/// Formatting then parsing is the identity on `i64`.
pub proof fn lemma_i64_round_trip(v: i64)
    ensures
        spec_parse_i64(dec_digits_int(v as int)) == Some(v),
{
    if v >= 0 {
        lemma_dec_digits_wf(v as nat);
        lemma_dec_digits_value(v as nat);
        assert(!is_digit_char('-'));
        assert(dec_digits_int(v as int)[0] != '-');
    } else {
        let mag = (-(v as int)) as nat;
        lemma_dec_digits_wf(mag);
        lemma_dec_digits_value(mag);
        assert(dec_digits_int(v as int)[0] == '-');
        assert(dec_digits_int(v as int).skip(1) =~= dec_digits(mag));
    }
}

} // verus!
