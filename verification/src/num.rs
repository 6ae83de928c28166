//! Decimal parsing of the refresh interval: an optional leading plus sign
//! followed by digits, scanned left to right with overflow detection.

use vstd::prelude::*;

verus! {

/// Why a numeric literal was rejected.
#[derive(Clone, Copy, Debug, PartialEq, Eq, Structural)]
pub enum NumError {
    /// The literal was empty.
    Empty,
    /// A character was not a decimal digit.
    InvalidDigit,
    /// The value does not fit in the target type.
    PosOverflow,
}

/// The message shown for a rejected numeric literal.
pub open spec fn num_error_text(e: NumError) -> Seq<char> {
    match e {
        NumError::Empty => "cannot parse integer from empty string"@,
        NumError::InvalidDigit => "invalid digit found in string"@,
        NumError::PosOverflow => "number too large to fit in target type"@,
    }
}

/// Returns the message shown for a rejected numeric literal.
pub fn num_error_message(e: &NumError) -> (r: &'static str)
    ensures
        r@ == num_error_text(*e),
{
    match e {
        NumError::Empty => "cannot parse integer from empty string",
        NumError::InvalidDigit => "invalid digit found in string",
        NumError::PosOverflow => "number too large to fit in target type",
    }
}

pub open spec fn is_digit(c: char) -> bool {
    48 <= c as int <= 57
}

pub open spec fn digit_val(c: char) -> int {
    c as int - 48
}

/// Scans digits left to right onto an accumulator; the first offending
/// character decides between an invalid digit and an overflow.
pub open spec fn scan_digits(s: Seq<char>, acc: u64) -> Result<u64, NumError>
    decreases s.len(),
{
    if s.len() == 0 {
        Ok(acc)
    } else if !is_digit(s[0]) {
        Err(NumError::InvalidDigit)
    } else if acc * 10 + digit_val(s[0]) > u64::MAX {
        Err(NumError::PosOverflow)
    } else {
        scan_digits(s.drop_first(), (acc * 10 + digit_val(s[0])) as u64)
    }
}

/// The value of a non-negative decimal literal: an optional leading `+`,
/// then at least one digit, rejected when it exceeds the target type.
pub open spec fn u64_from_chars(s: Seq<char>) -> Result<u64, NumError> {
    if s.len() == 0 {
        Err(NumError::Empty)
    } else {
        let d = if s[0] == '+' {
            s.drop_first()
        } else {
            s
        };
        if d.len() == 0 {
            Err(NumError::InvalidDigit)
        } else {
            scan_digits(d, 0)
        }
    }
}

/// Parses a non-negative decimal literal.
pub fn parse_u64(s: &str) -> (r: Result<u64, NumError>)
    ensures
        r == u64_from_chars(s@),
{
    let len = s.unicode_len();
    if len == 0 {
        return Err(NumError::Empty);
    }
    let start: usize = if s.get_char(0) == '+' {
        1
    } else {
        0
    };
    if start == len {
        return Err(NumError::InvalidDigit);
    }
    let ghost d = if s@[0] == '+' {
        s@.drop_first()
    } else {
        s@
    };
    proof {
        assert(d =~= s@.skip(start as int));
    }
    let mut acc: u64 = 0;
    let mut i: usize = start;
    while i < len
        invariant
            len == s@.len(),
            start <= i <= len,
            d == s@.skip(start as int),
            d.len() > 0,
            u64_from_chars(s@) == scan_digits(d, 0),
            scan_digits(d, 0) == scan_digits(s@.skip(i as int), acc),
        decreases len - i,
    {
        let c = s.get_char(i);
        let c32 = c as u32;
        proof {
            assert(s@.skip(i as int)[0] == s@[i as int]);
        }
        if c32 < 48 || c32 > 57 {
            return Err(NumError::InvalidDigit);
        }
        let dig = (c32 - 48) as u64;
        let stepped = match acc.checked_mul(10) {
            Some(p) => p.checked_add(dig),
            None => None,
        };
        match stepped {
            None => {
                return Err(NumError::PosOverflow);
            },
            Some(next) => {
                proof {
                    assert(s@.skip(i as int).drop_first() =~= s@.skip(i as int + 1));
                }
                acc = next;
                i += 1;
            },
        }
    }
    proof {
        assert(s@.skip(len as int) =~= Seq::<char>::empty());
    }
    Ok(acc)
}

} // verus!
