//! Decimal integer parsing for the range and target grammars.
//!
//! Accepts exactly what the standard decimal parse accepts: an optional
//! sign, then one or more ASCII digits, with the value in range for the
//! type.  Anything else — an empty string, a bare sign, a stray character,
//! an out-of-range value — is rejected.

use vstd::prelude::*;

verus! {

/// `c` is an ASCII decimal digit.
pub open spec fn is_digit(c: char) -> bool {
    48 <= c as u32 <= 57
}

/// The value of one ASCII decimal digit.
pub open spec fn digit_val(c: char) -> int {
    c as u32 - 48
}

/// The value of a digit string, most significant digit first.
pub open spec fn digits_val(s: Seq<char>) -> int
    decreases s.len(),
{
    if s.len() == 0 {
        0
    } else {
        digits_val(s.drop_last()) * 10 + digit_val(s.last())
    }
}

/// Every character of `s` is an ASCII decimal digit.
pub open spec fn all_digits(s: Seq<char>) -> bool {
    forall|i: int| 0 <= i < s.len() ==> is_digit(#[trigger] s[i])
}

/// The digits of a decimal string after its optional sign.
pub open spec fn unsigned_part(s: Seq<char>) -> Seq<char> {
    if s.len() > 0 && (s[0] == '-' || s[0] == '+') {
        s.drop_first()
    } else {
        s
    }
}

/// The string carries a minus sign.
pub open spec fn is_negative(s: Seq<char>) -> bool {
    s.len() > 0 && s[0] == '-'
}

/// What parsing a signed 64-bit decimal accepts and returns.
pub open spec fn parse_i64_spec(s: Seq<char>) -> Option<i64> {
    let d = unsigned_part(s);
    let v = if is_negative(s) {
        -digits_val(d)
    } else {
        digits_val(d)
    };
    if d.len() > 0 && all_digits(d) && i64::MIN <= v <= i64::MAX {
        Option::Some(v as i64)
    } else {
        Option::None
    }
}

/// What parsing an unsigned 64-bit decimal accepts and returns: as the
/// signed form, but a minus sign is rejected.
pub open spec fn parse_u64_spec(s: Seq<char>) -> Option<u64> {
    let d = unsigned_part(s);
    if d.len() > 0 && all_digits(d) && !is_negative(s) && digits_val(d) <= u64::MAX {
        Option::Some(digits_val(d) as u64)
    } else {
        Option::None
    }
}

proof fn lemma_digits_val_nonneg(s: Seq<char>)
    requires
        all_digits(s),
    ensures
        digits_val(s) >= 0,
    decreases s.len(),
{
    if s.len() > 0 {
        assert(forall|i: int| 0 <= i < s.drop_last().len() ==> is_digit(#[trigger] s.drop_last()[i]));
        lemma_digits_val_nonneg(s.drop_last());
    }
}

/// A digit string is worth at least any of its prefixes.
proof fn lemma_digits_val_mono(s: Seq<char>, j: int)
    requires
        all_digits(s),
        0 <= j <= s.len(),
    ensures
        digits_val(s) >= digits_val(s.take(j)),
    decreases s.len() - j,
{
    if j == s.len() {
        assert(s.take(j) =~= s);
    } else {
        assert(s.take(j + 1).drop_last() =~= s.take(j));
        assert(s.take(j + 1).last() == s[j]);
        assert(forall|i: int| 0 <= i < s.take(j).len() ==> is_digit(#[trigger] s.take(j)[i]));
        lemma_digits_val_nonneg(s.take(j));
        assert(digits_val(s.take(j + 1)) == digits_val(s.take(j)) * 10 + digit_val(s[j]));
        assert(digits_val(s.take(j)) * 10 >= digits_val(s.take(j)));
        lemma_digits_val_mono(s, j + 1);
    }
}

/// Parse a signed 64-bit decimal integer.
pub fn parse_i64(s: &str) -> (r: Option<i64>)
    ensures
        r == parse_i64_spec(s@),
{
    let n = s.unicode_len();
    if n == 0 {
        return None;
    }
    let c0 = s.get_char(0);
    let neg = c0 == '-';
    let start: usize = if c0 == '-' || c0 == '+' {
        1
    } else {
        0
    };
    let ghost d = unsigned_part(s@);
    proof {
        assert(d =~= s@.subrange(start as int, n as int));
    }
    if n == start {
        return None;
    }
    let limit: u64 = if neg {
        9223372036854775808
    } else {
        9223372036854775807
    };
    let mut mag: u64 = 0;
    let mut i: usize = start;
    while i < n
        invariant
            start <= i <= n,
            start < n,
            n == s@.len(),
            d == unsigned_part(s@),
            d == s@.subrange(start as int, n as int),
            d.len() == n - start,
            neg == is_negative(s@),
            all_digits(d.take(i - start)),
            mag == digits_val(d.take(i - start)),
            mag <= limit,
            limit == if neg {
                9223372036854775808u64
            } else {
                9223372036854775807u64
            },
        decreases n - i,
    {
        let c = s.get_char(i);
        let cv = c as u32;
        if cv < 48 || cv > 57 {
            proof {
                assert(d[i - start] == c);
                assert(!all_digits(d));
            }
            return None;
        }
        let dv = (cv - 48) as u64;
        proof {
            assert(d.take(i - start + 1).drop_last() =~= d.take(i - start));
            assert(d.take(i - start + 1).last() == c);
        }
        let stepped = match mag.checked_mul(10) {
            Some(x) => x.checked_add(dv),
            None => None,
        };
        let next = match stepped {
            Some(y) => if y <= limit {
                y
            } else {
                proof {
                    overflow_rejected(d, i - start, neg, limit as int);
                }
                return None;
            },
            None => {
                proof {
                    overflow_rejected(d, i - start, neg, limit as int);
                }
                return None;
            },
        };
        mag = next;
        i = i + 1;
    }
    proof {
        assert(d.take(i - start) =~= d);
        lemma_digits_val_nonneg(d);
    }
    if neg {
        if mag == 9223372036854775808 {
            Some(i64::MIN)
        } else {
            Some(-(mag as i64))
        }
    } else {
        Some(mag as i64)
    }
}

/// Once the magnitude passes the limit for the sign, the whole string is
/// out of range (or not all digits), so the parse rejects it.
proof fn overflow_rejected(d: Seq<char>, j: int, neg: bool, limit: int)
    requires
        0 <= j < d.len(),
        all_digits(d.take(j)),
        is_digit(d[j]),
        digits_val(d.take(j)) * 10 + digit_val(d[j]) > limit,
        limit == if neg {
            0x8000_0000_0000_0000int
        } else {
            0x7fff_ffff_ffff_ffffint
        },
    ensures
        all_digits(d) ==> !(neg ==> -digits_val(d) >= i64::MIN) || !(!neg ==> digits_val(d)
            <= i64::MAX),
{
    if all_digits(d) {
        assert(d.take(j + 1).drop_last() =~= d.take(j));
        assert(d.take(j + 1).last() == d[j]);
        lemma_digits_val_mono(d, j + 1);
    }
}

/// Parse an unsigned 64-bit decimal integer.
pub fn parse_u64(s: &str) -> (r: Option<u64>)
    ensures
        r == parse_u64_spec(s@),
{
    let n = s.unicode_len();
    if n == 0 {
        return None;
    }
    let c0 = s.get_char(0);
    if c0 == '-' {
        return None;
    }
    let start: usize = if c0 == '+' {
        1
    } else {
        0
    };
    let ghost d = unsigned_part(s@);
    proof {
        assert(d =~= s@.subrange(start as int, n as int));
    }
    if n == start {
        return None;
    }
    let mut mag: u64 = 0;
    let mut i: usize = start;
    while i < n
        invariant
            start <= i <= n,
            start < n,
            n == s@.len(),
            d == unsigned_part(s@),
            d == s@.subrange(start as int, n as int),
            d.len() == n - start,
            !is_negative(s@),
            all_digits(d.take(i - start)),
            mag == digits_val(d.take(i - start)),
        decreases n - i,
    {
        let c = s.get_char(i);
        let cv = c as u32;
        if cv < 48 || cv > 57 {
            proof {
                assert(d[i - start] == c);
                assert(!all_digits(d));
            }
            return None;
        }
        let dv = (cv - 48) as u64;
        proof {
            assert(d.take(i - start + 1).drop_last() =~= d.take(i - start));
            assert(d.take(i - start + 1).last() == c);
        }
        let stepped = match mag.checked_mul(10) {
            Some(x) => x.checked_add(dv),
            None => None,
        };
        match stepped {
            Some(y) => {
                mag = y;
            },
            None => {
                proof {
                    if all_digits(d) {
                        assert(d.take(i - start + 1).drop_last() =~= d.take(i - start));
                        lemma_digits_val_mono(d, i - start + 1);
                    }
                }
                return None;
            },
        }
        i = i + 1;
    }
    proof {
        assert(d.take(i - start) =~= d);
    }
    Some(mag)
}

} // verus!
