//! Parsing of the `min` / `max` query parameters. A malformed value is
//! rejected at the boundary, before any upstream work, with an error
//! distinct from an upstream failure.

use vstd::prelude::*;

use crate::model::Threshold;

verus! {

/// A query parameter that should have been a signed integer was not.
#[derive(Clone, Copy, Debug, PartialEq, Eq)]
pub enum QueryError {
    MalformedParam,
}

/// ASCII decimal digit, `'0'` through `'9'`.
pub open spec fn is_ascii_digit(b: u8) -> bool {
    48 <= b <= 57
}

pub open spec fn all_digits(s: Seq<u8>) -> bool {
    forall|i: int| 0 <= i < s.len() ==> is_ascii_digit(#[trigger] s[i])
}

/// The number denoted by a sequence of ASCII digits, most significant
/// first.
pub open spec fn digits_value(s: Seq<u8>) -> int
    decreases s.len(),
{
    if s.len() == 0 {
        0
    } else {
        digits_value(s.drop_last()) * 10 + (s.last() - 48)
    }
}

/// Whether the literal starts with an ASCII sign, `'+'` or `'-'`.
pub open spec fn has_sign(s: Seq<u8>) -> bool {
    s.len() > 0 && (s[0] == 43 || s[0] == 45)
}

/// The digit portion of a literal: everything after the sign, if any.
pub open spec fn digits_of(s: Seq<u8>) -> Seq<u8> {
    if has_sign(s) {
        s.skip(1)
    } else {
        s
    }
}

/// A signed decimal integer literal: an optional sign followed by at
/// least one digit, and nothing else.
pub open spec fn is_int_literal(s: Seq<u8>) -> bool {
    digits_of(s).len() > 0 && all_digits(digits_of(s))
}

/// The value a well-formed literal denotes.
pub open spec fn int_literal_value(s: Seq<u8>) -> int {
    if s.len() > 0 && s[0] == 45 {
        -digits_value(digits_of(s))
    } else {
        digits_value(digits_of(s))
    }
}

/// A digit string denotes a non-negative number.
proof fn lemma_digits_value_nonneg(s: Seq<u8>)
    requires
        all_digits(s),
    ensures
        digits_value(s) >= 0,
    decreases s.len(),
{
    if s.len() > 0 {
        let a = s.drop_last();
        assert forall|i: int| 0 <= i < a.len() implies is_ascii_digit(#[trigger] a[i]) by {
            assert(a[i] == s[i]);
        }
        lemma_digits_value_nonneg(a);
    }
}

/// Consuming more digits never decreases the denoted number: the value
/// of a prefix is at most the value of the whole digit string.
proof fn lemma_digits_value_prefix_le(s: Seq<u8>, i: int)
    requires
        all_digits(s),
        0 <= i <= s.len(),
    ensures
        digits_value(s.take(i)) <= digits_value(s),
    decreases s.len(),
{
    if i == s.len() {
        assert(s.take(i) =~= s);
    } else {
        let a = s.drop_last();
        assert forall|j: int| 0 <= j < a.len() implies is_ascii_digit(#[trigger] a[j]) by {
            assert(a[j] == s[j]);
        }
        assert(s.take(i) =~= a.take(i));
        lemma_digits_value_prefix_le(a, i);
        lemma_digits_value_nonneg(a);
    }
}

/// Parse an ASCII signed decimal literal as an `i32`. Returns `None`
/// exactly when the bytes are not a well-formed literal or the denoted
/// value does not fit in an `i32`.
pub fn parse_i32(s: &[u8]) -> (r: Option<i32>)
    ensures
        r is Some <==> is_int_literal(s@) && i32::MIN <= int_literal_value(s@) <= i32::MAX,
        r matches Some(v) ==> v as int == int_literal_value(s@),
{
    let n = s.len();
    if n == 0 {
        return None;
    }
    let first = s[0];
    let neg = first == 45;
    let start: usize = if neg || first == 43 {
        1
    } else {
        0
    };
    if start >= n {
        // A bare sign with no digits.
        return None;
    }
    let mut acc: u64 = 0;
    let mut i: usize = start;
    while i < n
        invariant
            start <= i <= n,
            n == s@.len(),
            0 < n,
            neg == (s@[0] == 45),
            start as int == (if has_sign(s@) {
                1int
            } else {
                0int
            }),
            all_digits(s@.subrange(start as int, i as int)),
            acc == digits_value(s@.subrange(start as int, i as int)),
            acc <= 2147483648,
        decreases n - i,
    {
        let b = s[i];
        if b < 48 || b > 57 {
            proof {
                if is_int_literal(s@) {
                    assert(is_ascii_digit(digits_of(s@)[i - start as int]));
                    assert(digits_of(s@)[i - start as int] == s@[i as int]);
                }
            }
            return None;
        }
        acc = acc * 10 + ((b - 48) as u64);
        proof {
            let prev = s@.subrange(start as int, i as int);
            let cur = s@.subrange(start as int, i as int + 1);
            assert(cur =~= prev.push(s@[i as int]));
            assert(cur.drop_last() =~= prev);
        }
        if acc > 2147483648 {
            proof {
                if is_int_literal(s@) && i32::MIN <= int_literal_value(s@) <= i32::MAX {
                    let ds = digits_of(s@);
                    let cur = s@.subrange(start as int, i as int + 1);
                    assert(cur =~= ds.take(i as int + 1 - start as int));
                    lemma_digits_value_prefix_le(ds, i as int + 1 - start as int);
                    assert(digits_value(ds) >= acc > 2147483648);
                    assert(false);
                }
            }
            return None;
        }
        i = i + 1;
    }
    proof {
        assert(s@.subrange(start as int, n as int) =~= digits_of(s@));
        assert(is_int_literal(s@));
    }
    if neg {
        if acc == 2147483648 {
            Some(i32::MIN)
        } else {
            Some(-(acc as i32))
        }
    } else {
        if acc > 2147483647 {
            proof {
                assert(int_literal_value(s@) == acc > i32::MAX);
            }
            None
        } else {
            Some(acc as i32)
        }
    }
}

/// True when the parameter, if present, is a well-formed `i32` literal.
pub open spec fn param_valid(p: Option<&[u8]>) -> bool {
    p matches Some(s) ==> is_int_literal(s@) && i32::MIN <= int_literal_value(s@) <= i32::MAX
}

/// The bound a well-formed parameter contributes to a [`Threshold`].
pub open spec fn param_bound(p: Option<&[u8]>) -> Option<int> {
    match p {
        Some(s) => Some(int_literal_value(s@)),
        None => None,
    }
}

/// Parse the optional `min` / `max` query parameters into a
/// [`Threshold`]. Succeeds exactly when every parameter that is present
/// is a well-formed `i32` literal; a malformed one is rejected with
/// [`QueryError::MalformedParam`] and no threshold is produced.
pub fn parse_threshold(min: Option<&[u8]>, max: Option<&[u8]>) -> (r: Result<Threshold, QueryError>)
    ensures
        r is Ok <==> param_valid(min) && param_valid(max),
        r matches Ok(t) ==> {
            &&& (match param_bound(min) {
                Some(v) => t.min matches Some(got) && got as int == v,
                None => t.min is None,
            })
            &&& (match param_bound(max) {
                Some(v) => t.max matches Some(got) && got as int == v,
                None => t.max is None,
            })
        },
        r is Err ==> r == Err::<Threshold, QueryError>(QueryError::MalformedParam),
{
    let parsed_min = match min {
        Some(bytes) => match parse_i32(bytes) {
            Some(v) => Some(v),
            None => {
                return Err(QueryError::MalformedParam);
            },
        },
        None => None,
    };
    let parsed_max = match max {
        Some(bytes) => match parse_i32(bytes) {
            Some(v) => Some(v),
            None => {
                return Err(QueryError::MalformedParam);
            },
        },
        None => None,
    };
    Ok(Threshold { min: parsed_min, max: parsed_max })
}

} // verus!
