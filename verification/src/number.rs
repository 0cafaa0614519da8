//! Decimal integers in text.
//!
//! An unsigned number is an optional `+` and one or more ASCII digits; a
//! signed one may start with `-` instead. Nothing else is a number: no
//! white space, no other sign, no digit outside ASCII, and no value that the
//! integer type cannot hold.

use vstd::prelude::*;
use vstd::slice::slice_subrange;

verus! {

/// An ASCII decimal digit.
pub open spec fn is_digit(c: char) -> bool {
    '0' <= c && c <= '9'
}

/// The value of a digit; 0 for any other character.
pub open spec fn digit_value(c: char) -> nat {
    if is_digit(c) {
        (c as u32 - '0' as u32) as nat
    } else {
        0
    }
}

/// Every character of `s` is a digit.
pub open spec fn all_digits(s: Seq<char>) -> bool {
    forall|i: int| 0 <= i < s.len() ==> is_digit(#[trigger] s[i])
}

/// The number that the digits of `s` write in base ten.
pub open spec fn decimal_value(s: Seq<char>) -> nat
    decreases s.len(),
{
    if s.len() == 0 {
        0
    } else {
        decimal_value(s.drop_last()) * 10 + digit_value(s.last())
    }
}

/// `s` begins with the sign `sign`.
pub open spec fn has_sign(s: Seq<char>, sign: char) -> bool {
    s.len() > 0 && s[0] == sign
}

/// The `u32` that `s` writes, where it writes one.
pub open spec fn parsed_u32(s: Seq<char>) -> Option<u32> {
    let digits = if has_sign(s, '+') {
        s.drop_first()
    } else {
        s
    };
    if digits.len() > 0 && all_digits(digits) && decimal_value(digits) <= u32::MAX {
        Some(decimal_value(digits) as u32)
    } else {
        None
    }
}

/// The `i32` that `s` writes, where it writes one.
pub open spec fn parsed_i32(s: Seq<char>) -> Option<i32> {
    let digits = if has_sign(s, '+') || has_sign(s, '-') {
        s.drop_first()
    } else {
        s
    };
    let value = if has_sign(s, '-') {
        -(decimal_value(digits) as int)
    } else {
        decimal_value(digits) as int
    };
    if digits.len() > 0 && all_digits(digits) && i32::MIN <= value <= i32::MAX {
        Some(value as i32)
    } else {
        None
    }
}

/// The digit that writes `d`, a number below ten.
pub open spec fn digit_char(d: nat) -> char {
    "0123456789"@[d as int]
}

/// The digits that write `n` in base ten, without a zero in front.
pub open spec fn decimal_digits(n: nat) -> Seq<char>
    decreases n,
{
    if n < 10 {
        seq![digit_char(n)]
    } else {
        decimal_digits(n / 10).push(digit_char(n % 10))
    }
}

/// A digit character is a digit, and has the value that it writes.
pub proof fn lemma_digit_char(d: nat)
    requires
        d < 10,
    ensures
        is_digit(digit_char(d)),
        digit_value(digit_char(d)) == d,
{
    reveal_strlit("0123456789");
}

/// What `decimal_digits` writes reads back as the number written.
pub proof fn lemma_decimal_digits_read_back(n: nat)
    ensures
        decimal_digits(n).len() > 0,
        all_digits(decimal_digits(n)),
        decimal_value(decimal_digits(n)) == n,
    decreases n,
{
    let digits = decimal_digits(n);
    if n < 10 {
        lemma_digit_char(n);
        assert(digits.drop_last() == Seq::<char>::empty());
        assert(decimal_value(digits.drop_last()) == 0);
    } else {
        lemma_decimal_digits_read_back(n / 10);
        lemma_digit_char(n % 10);
        let front = decimal_digits(n / 10);
        assert(digits.drop_last() == front);
        assert forall|i: int| 0 <= i < digits.len() implies is_digit(#[trigger] digits[i]) by {
            if i < front.len() {
                assert(digits[i] == front[i]);
            }
        }
    }
}

/// The digits read so far never write more than all of them do.
pub proof fn lemma_decimal_value_grows(s: Seq<char>, k: int)
    requires
        0 <= k <= s.len(),
    ensures
        decimal_value(s.take(k)) <= decimal_value(s),
    decreases s.len() - k,
{
    if k == s.len() {
        assert(s.take(k) == s);
    } else {
        let t = s.drop_last();
        assert(t.take(k) == s.take(k));
        lemma_decimal_value_grows(t, k);
    }
}

/// The number that the digits of `s` write, where all are digits and the
/// number is at most `limit`.
fn read_digits(s: &[char], limit: u64) -> (value: Option<u64>)
    requires
        limit <= 0xffff_ffff,
    ensures
        match value {
            Some(v) => all_digits(s@) && v == decimal_value(s@) && v <= limit,
            None => !all_digits(s@) || decimal_value(s@) > limit,
        },
{
    let mut value: u64 = 0;
    let mut i: usize = 0;
    while i < s.len()
        invariant
            i <= s.len(),
            limit <= 0xffff_ffff,
            all_digits(s@.take(i as int)),
            value == decimal_value(s@.take(i as int)),
            value <= limit,
        decreases s.len() - i,
    {
        let c = s[i];
        if !('0' <= c && c <= '9') {
            return None;
        }
        let digit: u64 = (c as u32 - '0' as u32) as u64;
        proof {
            let read = s@.take(i + 1);
            assert(read.drop_last() == s@.take(i as int));
            assert(read.last() == c);
            assert forall|j: int| 0 <= j < read.len() implies is_digit(#[trigger] read[j]) by {
                if j < i {
                    assert(read[j] == s@.take(i as int)[j]);
                }
            }
        }
        value = value * 10 + digit;
        if value > limit {
            proof {
                lemma_decimal_value_grows(s@, i + 1);
            }
            return None;
        }
        i += 1;
    }
    assert(s@.take(i as int) == s@);
    Some(value)
}

/// The `u32` that `s` writes, where it writes one.
pub fn parse_u32(s: &[char]) -> (value: Option<u32>)
    ensures
        value == parsed_u32(s@),
{
    let digits = if s.len() > 0 && s[0] == '+' {
        slice_subrange(s, 1, s.len())
    } else {
        s
    };
    if digits.len() == 0 {
        return None;
    }
    match read_digits(digits, 0xffff_ffff) {
        Some(v) => Some(v as u32),
        None => None,
    }
}

/// The `i32` that `s` writes, where it writes one.
pub fn parse_i32(s: &[char]) -> (value: Option<i32>)
    ensures
        value == parsed_i32(s@),
{
    let negative = s.len() > 0 && s[0] == '-';
    let digits = if s.len() > 0 && (s[0] == '+' || s[0] == '-') {
        slice_subrange(s, 1, s.len())
    } else {
        s
    };
    if digits.len() == 0 {
        return None;
    }
    if negative {
        match read_digits(digits, 0x8000_0000) {
            Some(v) => Some((0 - v as i64) as i32),
            None => None,
        }
    } else {
        match read_digits(digits, 0x7fff_ffff) {
            Some(v) => Some(v as i32),
            None => None,
        }
    }
}

/// The digit that writes `d`.
fn digit_of(d: usize) -> (c: char)
    requires
        d < 10,
    ensures
        c == digit_char(d as nat),
{
    proof {
        reveal_strlit("0123456789");
    }
    let digits: [char; 10] = ['0', '1', '2', '3', '4', '5', '6', '7', '8', '9'];
    digits[d]
}

/// The digits that write `n` in base ten.
pub fn decimal_text(n: usize) -> (text: String)
    ensures
        text@ == decimal_digits(n as nat),
{
    let mut low_first: Vec<char> = Vec::new();
    let mut rest: usize = n;
    while rest >= 10
        invariant
            decimal_digits(n as nat) == decimal_digits(rest as nat) + low_first@.reverse(),
        decreases rest,
    {
        let digit = digit_of(rest % 10);
        proof {
            let grown = low_first@.push(digit);
            assert(grown.reverse() == seq![digit] + low_first@.reverse());
            assert(decimal_digits(rest as nat) == decimal_digits((rest / 10) as nat).push(digit));
            assert(decimal_digits((rest / 10) as nat).push(digit) + low_first@.reverse()
                == decimal_digits((rest / 10) as nat) + grown.reverse());
        }
        low_first.push(digit);
        rest = rest / 10;
    }
    let mut text = String::new();
    text.push(digit_of(rest));
    let mut i: usize = low_first.len();
    while i > 0
        invariant
            i <= low_first.len(),
            text@ == decimal_digits(rest as nat) + low_first@.reverse().take(low_first.len() - i),
        decreases i,
    {
        i -= 1;
        proof {
            let turned = low_first@.reverse();
            let k = low_first.len() - i - 1;
            assert(turned.take(k + 1) == turned.take(k).push(turned[k]));
            assert(turned[k] == low_first@[i as int]);
        }
        text.push(low_first[i]);
    }
    assert(low_first@.reverse().take(low_first.len() as int) == low_first@.reverse());
    text
}

} // verus!
