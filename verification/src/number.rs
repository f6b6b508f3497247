//! Decimal digits, and the identifiers that the site writes as signed
//! decimal numbers.

use vstd::prelude::*;
use crate::text::chars_of;

verus! {

/// Whether `c` is one of the decimal digits `0` to `9`.
pub open spec fn is_digit(c: char) -> bool {
    '0' <= c <= '9'
}

/// The value of the decimal digit `c`.
pub open spec fn digit_value(c: char) -> nat
    recommends
        is_digit(c),
{
    (c as u32 - '0' as u32) as nat
}

/// Whether `s` holds decimal digits only.
pub open spec fn all_digits(s: Seq<char>) -> bool {
    forall|i: int| 0 <= i < s.len() ==> is_digit(#[trigger] s[i])
}

/// The number that the decimal digits `s` write.
pub open spec fn digits_value(s: Seq<char>) -> nat
    decreases s.len(),
{
    if s.len() == 0 {
        0
    } else {
        digits_value(s.drop_last()) * 10 + digit_value(s.last())
    }
}

/// Whether `s` starts with a sign.
pub open spec fn has_sign(s: Seq<char>) -> bool {
    s.len() > 0 && (s[0] == '-' || s[0] == '+')
}

/// `s` without its sign.
pub open spec fn unsigned_part(s: Seq<char>) -> Seq<char> {
    if has_sign(s) {
        s.drop_first()
    } else {
        s
    }
}

/// The integer that `s` writes: an optional `+` or `-`, then one or more
/// decimal digits, and nothing else.
pub open spec fn int_of(s: Seq<char>) -> Option<int> {
    let body = unsigned_part(s);
    if body.len() > 0 && all_digits(body) {
        if s[0] == '-' {
            Some(-(digits_value(body) as int))
        } else {
            Some(digits_value(body) as int)
        }
    } else {
        None
    }
}

/// The identifier that `s` writes: the integer of [`int_of`], where it
/// fits 32 bits.
pub open spec fn i32_of(s: Seq<char>) -> Option<i32> {
    match int_of(s) {
        Some(v) => if i32::MIN <= v <= i32::MAX {
            Some(v as i32)
        } else {
            None
        },
        None => None,
    }
}

/// Reads an identifier: an optional sign and decimal digits. Anything else
/// in the text, whitespace too, and a value beyond 32 bits give `None`.
pub fn parse_i32(s: &str) -> (r: Option<i32>)
    ensures
        r == i32_of(s@),
{
    let chars = chars_of(s);
    let n = chars.len();
    let signed = n > 0 && (chars[0] == '-' || chars[0] == '+');
    let negative = n > 0 && chars[0] == '-';
    let start: usize = if signed {
        1
    } else {
        0
    };
    let ghost body = unsigned_part(s@);
    proof {
        assert(body == chars@.subrange(start as int, n as int));
    }
    if start == n {
        return None;
    }
    let mut value: i64 = 0;
    let mut over = false;
    let mut i: usize = start;
    proof {
        assert(body.take(0) == Seq::<char>::empty());
    }
    while i < n
        invariant
            start <= i <= n,
            n == chars.len(),
            body == chars@.subrange(start as int, n as int),
            body == unsigned_part(s@),
            all_digits(body.take(i - start)),
            0 <= value <= 0x8000_0000,
            !over ==> value == digits_value(body.take(i - start)),
            over ==> digits_value(body.take(i - start)) > 0x8000_0000,
        decreases n - i,
    {
        let c = chars[i];
        proof {
            let now = body.take(i + 1 - start);
            assert(now.drop_last() == body.take(i - start));
            assert(now.last() == c);
            assert(body[i - start] == c);
        }
        if !('0' <= c && c <= '9') {
            proof {
                assert(!is_digit(body[i - start]));
            }
            return None;
        }
        proof {
            let now = body.take(i + 1 - start);
            assert forall|k: int| 0 <= k < now.len() implies is_digit(#[trigger] now[k]) by {
                if k < now.len() - 1 {
                    assert(now[k] == body.take(i - start)[k]);
                }
            }
        }
        let d: i64 = (c as u32 - '0' as u32) as i64;
        if !over {
            let next: i64 = value * 10 + d;
            if next > 0x8000_0000 {
                over = true;
            } else {
                value = next;
            }
        }
        i += 1;
    }
    proof {
        assert(body.take(n - start) == body);
    }
    if over {
        None
    } else if negative {
        Some((-value) as i32)
    } else if value <= 0x7fff_ffff {
        Some(value as i32)
    } else {
        None
    }
}

} // verus!
