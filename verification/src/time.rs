//! Points in time, in whole seconds since the Unix epoch, and when a paste
//! expires.

use crate::text::{chars_of, same_text};
use vstd::prelude::*;

verus! {

/// Why no expiry could be settled.
#[derive(Debug, Clone, Copy, PartialEq, Eq, Structural)]
pub enum ExpiryError {
    /// The request's `expires` is neither `never` nor a timestamp.
    Malformed,
    /// The time to live, added to the present, is no timestamp any more.
    OutOfRange,
}

/// The number that a string of decimal digits denotes.
pub open spec fn decimal_value(digits: Seq<char>) -> int
    decreases digits.len(),
{
    if digits.len() == 0 {
        0
    } else {
        decimal_value(digits.drop_last()) * 10 + (digits.last() as int - '0' as int)
    }
}

/// Whether every character is a decimal digit.
pub open spec fn all_digits(text: Seq<char>) -> bool {
    forall|i: int| 0 <= i < text.len() ==> '0' <= #[trigger] text[i] <= '9'
}

/// The integer that a text denotes: decimal digits, at least one, after an
/// optional sign.
pub open spec fn parsed_integer(text: Seq<char>) -> Option<int> {
    let signed = text.len() > 0 && (text[0] == '-' || text[0] == '+');
    let digits = if signed {
        text.skip(1)
    } else {
        text
    };
    if digits.len() == 0 || !all_digits(digits) {
        None
    } else if signed && text[0] == '-' {
        Some(-decimal_value(digits))
    } else {
        Some(decimal_value(digits))
    }
}

/// The timestamp that a text denotes: its integer, where that fits.
pub open spec fn parsed_timestamp(text: Seq<char>) -> Option<i64> {
    match parsed_integer(text) {
        Some(v) => if i64::MIN <= v <= i64::MAX {
            Some(v as i64)
        } else {
            None
        },
        None => None,
    }
}

proof fn lemma_decimal_value_grows(digits: Seq<char>, k: int)
    requires
        all_digits(digits),
        0 <= k <= digits.len(),
    ensures
        0 <= decimal_value(digits.take(k)) <= decimal_value(digits),
    decreases digits.len() - k,
{
    if k == digits.len() {
        assert(digits.take(k) =~= digits);
        lemma_decimal_value_nonnegative(digits);
    } else {
        lemma_decimal_value_grows(digits, k + 1);
        let longer = digits.take(k + 1);
        assert(longer.drop_last() =~= digits.take(k));
        assert(longer.last() == digits[k]);
        lemma_decimal_value_nonnegative(digits.take(k));
    }
}

proof fn lemma_decimal_value_nonnegative(digits: Seq<char>)
    requires
        all_digits(digits),
    ensures
        0 <= decimal_value(digits),
    decreases digits.len(),
{
    if digits.len() > 0 {
        lemma_decimal_value_nonnegative(digits.drop_last());
        assert(digits.last() == digits[digits.len() - 1]);
    }
}

/// Reads a timestamp: an integer in decimal digits with an optional sign,
/// within the range of `i64`.
#[verifier::loop_isolation(false)]
pub fn parse_timestamp(text: &str) -> (r: Option<i64>)
    ensures
        r == parsed_timestamp(text@),
{
    let chars = chars_of(text);
    let len = chars.len();
    let negative = len > 0 && chars[0] == '-';
    let start: usize = if len > 0 && (chars[0] == '-' || chars[0] == '+') {
        1
    } else {
        0
    };
    if start == len {
        return None;
    }
    let ghost digits = text@.skip(start as int);
    proof {
        assert(text@.skip(0) =~= text@);
    }
    let mut value: i128 = 0;
    let mut i: usize = start;
    assert(digits.take(0).len() == 0);
    while i < len
        invariant
            start <= i <= len,
            len == chars@.len(),
            chars@ == text@,
            digits == text@.skip(start as int),
            all_digits(digits.take(i - start)),
            value == decimal_value(digits.take(i - start)),
            0 <= value <= 0x8000_0000_0000_0000,
        decreases len - i,
    {
        let c = chars[i];
        proof {
            assert(digits[i - start] == c);
            assert(digits.take(i - start + 1).drop_last() =~= digits.take(i - start));
            assert(digits.take(i - start + 1).last() == c);
        }
        if c < '0' || c > '9' {
            assert(!all_digits(digits));
            return None;
        }
        value = value * 10 + (c as u32 - '0' as u32) as i128;
        proof {
            let longer = digits.take(i - start + 1);
            assert forall|j: int| 0 <= j < longer.len() implies '0' <= #[trigger] longer[j]
                <= '9' by {
                if j < i - start {
                    assert(longer[j] == digits.take(i - start)[j]);
                }
            }
        }
        assert(value == decimal_value(digits.take(i - start + 1)));
        if value > 0x8000_0000_0000_0000 {
            proof {
                if all_digits(digits) {
                    lemma_decimal_value_grows(digits, i - start + 1);
                    assert(decimal_value(digits) > 0x8000_0000_0000_0000);
                }
            }
            return None;
        }
        i = i + 1;
    }
    proof {
        assert(digits.take(len - start) =~= digits);
        assert(all_digits(digits));
        assert(value == decimal_value(digits));
    }
    if negative {
        Some((-value) as i64)
    } else if value > i64::MAX as i128 {
        None
    } else {
        Some(value as i64)
    }
}

/// When a paste expires, given the request's `expires`, the present and the
/// time to live: never for `never`, at the timestamp that `expires` holds,
/// and without `expires` one time to live from now.
pub open spec fn expiry_of(expires: Option<Seq<char>>, now: i64, ttl: i64) -> Result<
    Option<i64>,
    ExpiryError,
> {
    match expires {
        Some(text) => if text == "never"@ {
            Ok(None)
        } else {
            match parsed_timestamp(text) {
                Some(at) => Ok(Some(at)),
                None => Err(ExpiryError::Malformed),
            }
        },
        None => if i64::MIN <= now + ttl <= i64::MAX {
            Ok(Some((now + ttl) as i64))
        } else {
            Err(ExpiryError::OutOfRange)
        },
    }
}

/// Settles when a paste expires; `None` is never.
pub fn expiry(expires: Option<&str>, now: i64, ttl: i64) -> (r: Result<Option<i64>, ExpiryError>)
    ensures
        r == expiry_of(
            match expires {
                Some(text) => Some(text@),
                None => None,
            },
            now,
            ttl,
        ),
{
    match expires {
        Some(text) => {
            if same_text(chars_of(text).as_slice(), chars_of("never").as_slice()) {
                Ok(None)
            } else {
                match parse_timestamp(text) {
                    Some(at) => Ok(Some(at)),
                    None => Err(ExpiryError::Malformed),
                }
            }
        },
        None => match now.checked_add(ttl) {
            Some(at) => Ok(Some(at)),
            None => Err(ExpiryError::OutOfRange),
        },
    }
}

/// `chrono::Utc::now` and its `timestamp`: the present, in seconds since the
/// epoch. Nothing is claimed of a clock's reading.
#[verifier::external_body]
pub(crate) fn unix_now() -> i64 {
    chrono::Utc::now().timestamp()
}

} // verus!
