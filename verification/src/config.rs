use crate::error::Error;
use vstd::prelude::*;

verus! {

/// An ASCII decimal digit.
pub open spec fn is_ascii_digit(b: u8) -> bool {
    48 <= b <= 57
}

/// The number an all-digit byte sequence spells, most significant first.
pub open spec fn digits_value(s: Seq<u8>) -> nat
    decreases s.len(),
{
    if s.len() == 0 {
        0
    } else {
        digits_value(s.drop_last()) * 10 + (s.last() - 48) as nat
    }
}

/// Nothing but ASCII digits.
pub open spec fn all_digits(s: Seq<u8>) -> bool {
    forall|i: int| 0 <= i < s.len() ==> is_ascii_digit(#[trigger] s[i])
}

/// The digit run of a decimal numeral: what follows an optional leading
/// plus sign.
pub open spec fn decimal_digits(s: Seq<u8>) -> Seq<u8> {
    if s.len() > 0 && s[0] == 43 {
        s.drop_first()
    } else {
        s
    }
}

/// An unsigned decimal number, optionally with a leading plus sign: at least
/// one digit, nothing else. `None` when the bytes spell no such number.
pub open spec fn spec_decimal(s: Seq<u8>) -> Option<nat> {
    if decimal_digits(s).len() >= 1 && all_digits(decimal_digits(s)) {
        Some(digits_value(decimal_digits(s)))
    } else {
        None
    }
}

/// A longer run of digits never spells a smaller number.
proof fn lemma_digits_prefix_le(s: Seq<u8>, k: int)
    requires
        0 <= k <= s.len(),
        forall|i: int| 0 <= i < s.len() ==> is_ascii_digit(#[trigger] s[i]),
    ensures
        digits_value(s.subrange(0, k)) <= digits_value(s),
    decreases s.len() - k,
{
    if k == s.len() {
        assert(s.subrange(0, k) =~= s);
    } else {
        lemma_digits_prefix_le(s, k + 1);
        let p = s.subrange(0, k + 1);
        assert(p.drop_last() =~= s.subrange(0, k));
        assert(digits_value(s.subrange(0, k)) <= digits_value(p));
    }
}

/// Caller-facing configuration: the size of the read buffer that frames
/// packets before they reach the codec.
#[derive(Debug, PartialEq, Eq, Structural, Clone, Copy)]
pub struct Config {
    pub buffer_length: usize,
}

impl Config {
    /// Builds the configuration from the raw bytes of the buffer-length
    /// setting, where one is present: an unsigned decimal number, optionally
    /// with a leading plus sign. With none the length defaults to 65535; a
    /// present value that spells no such number, or one the machine cannot
    /// hold, is a hard `ParseError`, never a silent default.
    pub fn new(raw: Option<Vec<u8>>) -> (r: Result<Self, Error>)
        ensures
            match raw {
                None => r matches Ok(c) && c.buffer_length == 65535,
                Some(bytes) => match spec_decimal(bytes@) {
                    Some(n) => if n <= usize::MAX {
                        r matches Ok(c) && c.buffer_length == n
                    } else {
                        r matches Err(e) && e == Error::ParseError
                    },
                    None => r matches Err(e) && e == Error::ParseError,
                },
            },
    {
        let bytes = match raw {
            Some(b) => b,
            None => {
                return Ok(Config { buffer_length: 65535 });
            },
        };
        let start: usize = if bytes.len() > 0 && bytes[0] == 43 {
            1
        } else {
            0
        };
        let ghost digits = bytes@.subrange(start as int, bytes@.len() as int);
        proof {
            if start == 1 {
                assert(bytes@.drop_first() =~= digits);
            } else {
                assert(bytes@ =~= digits);
            }
        }
        if bytes.len() == start {
            return Err(Error::ParseError);
        }
        let mut value: usize = 0;
        let mut i: usize = start;
        while i < bytes.len()
            invariant
                start <= i <= bytes@.len(),
                start <= 1,
                raw == Some(bytes),
                (start == 1 && bytes@.len() > 0 && bytes@[0] == 43) || (start == 0 && !(
                bytes@.len() > 0 && bytes@[0] == 43)),
                bytes@.len() > start,
                digits == bytes@.subrange(start as int, bytes@.len() as int),
                digits.len() >= 1,
                start == 1 ==> bytes@.drop_first() == digits,
                start == 0 ==> bytes@ == digits,
                forall|j: int| start <= j < i ==> is_ascii_digit(#[trigger] bytes@[j]),
                value == digits_value(bytes@.subrange(start as int, i as int)),
            decreases bytes@.len() - i,
        {
            let b = bytes[i];
            if b < 48 || b > 57 {
                proof {
                    let d2 = if bytes@.len() > 0 && bytes@[0] == 43 {
                        bytes@.drop_first()
                    } else {
                        bytes@
                    };
                    assert(d2 == digits);
                    assert(digits[i - start] == bytes@[i as int]);
                    assert(!is_ascii_digit(digits[i - start]));
                    assert(spec_decimal(bytes@) is None);
                }
                return Err(Error::ParseError);
            }
            let digit = (b - 48) as usize;
            let next = match value.checked_mul(10) {
                Some(m) => m.checked_add(digit),
                None => None,
            };
            value = match next {
                Some(v) => v,
                None => {
                    proof {
                        let p = bytes@.subrange(start as int, i as int + 1);
                        assert(p.drop_last() =~= bytes@.subrange(start as int, i as int));
                        assert(digits_value(p) > usize::MAX);
                        if all_digits(digits) {
                            assert(p =~= digits.subrange(0, i - start + 1));
                            lemma_digits_prefix_le(digits, i - start + 1);
                            assert(digits_value(digits) > usize::MAX);
                        }
                        assert(match spec_decimal(bytes@) {
                            Some(n) => n > usize::MAX,
                            None => true,
                        });
                    }
                    return Err(Error::ParseError);
                },
            };
            proof {
                let p = bytes@.subrange(start as int, i as int + 1);
                assert(p.drop_last() =~= bytes@.subrange(start as int, i as int));
            }
            i = i + 1;
        }
        proof {
            assert(bytes@.subrange(start as int, i as int) =~= digits);
        }
        Ok(Config { buffer_length: value })
    }
}

} // verus!
