//! Small integers written in decimal digits.

use crate::text::to_chars;
use vstd::prelude::*;

verus! {

/// Whether `c` is one of the digits `0` to `9`.
pub open spec fn is_digit(c: char) -> bool {
    '0' <= c <= '9'
}

/// The number that a digit stands for.
pub open spec fn digit_value(c: char) -> nat {
    (c as u32 - '0' as u32) as nat
}

/// Whether `s` holds digits only.
pub open spec fn all_digits(s: Seq<char>) -> bool {
    forall|i: int| 0 <= i < s.len() ==> is_digit(#[trigger] s[i])
}

/// The number that a run of digits stands for, the empty run for zero.
pub open spec fn decimal(digits: Seq<char>) -> nat
    decreases digits.len(),
{
    if digits.len() == 0 {
        0
    } else {
        10 * decimal(digits.drop_last()) + digit_value(digits.last())
    }
}

/// The integer that `s` stands for: an optional sign, `+` or (where `signed`)
/// `-`, and then one digit or more. Leading zeros are accepted.
pub open spec fn integer_of(s: Seq<char>, signed: bool) -> Option<int> {
    let negative = signed && s.len() > 0 && s.first() == '-';
    let digits = if s.len() > 0 && (s.first() == '+' || negative) {
        s.drop_first()
    } else {
        s
    };
    if digits.len() > 0 && all_digits(digits) {
        Some(
            if negative {
                -(decimal(digits) as int)
            } else {
                decimal(digits) as int
            },
        )
    } else {
        None
    }
}

/// The unsigned byte that `s` stands for, if it stands for one.
pub open spec fn u8_of(s: Seq<char>) -> Option<u8> {
    match integer_of(s, false) {
        Some(value) => if value <= u8::MAX {
            Some(value as u8)
        } else {
            None
        },
        None => None,
    }
}

/// The signed byte that `s` stands for, if it stands for one.
pub open spec fn i8_of(s: Seq<char>) -> Option<i8> {
    match integer_of(s, true) {
        Some(value) => if i8::MIN <= value <= i8::MAX {
            Some(value as i8)
        } else {
            None
        },
        None => None,
    }
}

/// The bound at which `magnitude` stops counting.
pub const MAGNITUDE_CAP: u32 = 1000;

/// `value`, or the cap where `value` is above it.
pub open spec fn capped(value: nat) -> nat {
    if value <= MAGNITUDE_CAP {
        value
    } else {
        MAGNITUDE_CAP as nat
    }
}

/// Reads `chars[from..]` as a run of digits: its number, held at the cap where
/// it is larger, or nothing where the run is empty or holds something else.
pub fn magnitude(chars: &Vec<char>, from: usize) -> (result: Option<u32>)
    requires
        from <= chars.len(),
    ensures
        match result {
            Some(value) => {
                &&& from < chars.len()
                &&& all_digits(chars@.skip(from as int))
                &&& value == capped(decimal(chars@.skip(from as int)))
            },
            None => from == chars.len() || !all_digits(chars@.skip(from as int)),
        },
{
    if from == chars.len() {
        return None;
    }
    let mut value: u32 = 0;
    let mut i: usize = from;
    while i < chars.len()
        invariant
            from <= i <= chars.len(),
            all_digits(chars@.subrange(from as int, i as int)),
            value == capped(decimal(chars@.subrange(from as int, i as int))),
        decreases chars.len() - i,
    {
        let c = chars[i];
        if c < '0' || c > '9' {
            assert(chars@.skip(from as int)[i - from] == c);
            return None;
        }
        let digit = c as u32 - '0' as u32;
        proof {
            let next = chars@.subrange(from as int, i + 1);
            assert(next.drop_last() =~= chars@.subrange(from as int, i as int));
            assert(next.last() == c);
        }
        value = if value >= MAGNITUDE_CAP {
            MAGNITUDE_CAP
        } else if value * 10 + digit > MAGNITUDE_CAP {
            MAGNITUDE_CAP
        } else {
            value * 10 + digit
        };
        i += 1;
    }
    assert(chars@.subrange(from as int, i as int) =~= chars@.skip(from as int));
    Some(value)
}

/// Reads a text as an unsigned byte, as `str::parse::<u8>` does.
pub fn parse_u8(s: &str) -> (result: Option<u8>)
    ensures
        result == u8_of(s@),
{
    let chars = to_chars(s);
    let from: usize = if chars.len() > 0 && chars[0] == '+' {
        1
    } else {
        0
    };
    proof {
        assert(chars@.skip(0) =~= chars@);
        assert(chars@.skip(1) =~= chars@.drop_first());
    }
    match magnitude(&chars, from) {
        Some(value) => if value <= 255 {
            Some(value as u8)
        } else {
            None
        },
        None => None,
    }
}

/// Reads a text as a signed byte, as `str::parse::<i8>` does.
pub fn parse_i8(s: &str) -> (result: Option<i8>)
    ensures
        result == i8_of(s@),
{
    let chars = to_chars(s);
    let negative = chars.len() > 0 && chars[0] == '-';
    let from: usize = if chars.len() > 0 && (chars[0] == '+' || negative) {
        1
    } else {
        0
    };
    proof {
        assert(chars@.skip(0) =~= chars@);
        assert(chars@.skip(1) =~= chars@.drop_first());
    }
    match magnitude(&chars, from) {
        Some(value) => if negative {
            if value <= 128 {
                Some((0 - value as i32) as i8)
            } else {
                None
            }
        } else {
            if value <= 127 {
                Some(value as i8)
            } else {
                None
            }
        },
        None => None,
    }
}

} // verus!
