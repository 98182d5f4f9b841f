//! Decimal integer parsing for the `exit` builtin: an optional sign, then
//! digits, accepted exactly when the value fits a 32-bit signed integer.

use vstd::prelude::*;

verus! {

/// A decimal digit.
pub open spec fn is_digit(c: char) -> bool {
    '0' <= c && c <= '9'
}

/// The numeric value of one digit.
pub open spec fn digit_val(c: char) -> int {
    c as int - '0' as int
}

/// Every character is a decimal digit.
pub open spec fn all_digits(s: Seq<char>) -> bool {
    forall|i: int| 0 <= i < s.len() ==> is_digit(#[trigger] s[i])
}

/// The value of a digit string, most significant digit first.
pub open spec fn digits_value(s: Seq<char>) -> int
    decreases s.len(),
{
    if s.len() == 0 {
        0
    } else {
        digits_value(s.take(s.len() - 1)) * 10 + digit_val(s[s.len() - 1])
    }
}

/// A digit string's value is never negative.
pub proof fn lemma_digits_value_nonneg(s: Seq<char>)
    requires
        all_digits(s),
    ensures
        digits_value(s) >= 0,
    decreases s.len(),
{
    if s.len() > 0 {
        assert(all_digits(s.take(s.len() - 1))) by {
            assert forall|i: int| 0 <= i < s.len() - 1 implies is_digit(
                #[trigger] s.take(s.len() - 1)[i],
            ) by {
                assert(s.take(s.len() - 1)[i] == s[i]);
            }
        }
        lemma_digits_value_nonneg(s.take(s.len() - 1));
    }
}

/// Dropping trailing digits never increases the value.
pub proof fn lemma_digits_value_mono(s: Seq<char>, i: int)
    requires
        all_digits(s),
        0 <= i <= s.len(),
    ensures
        digits_value(s.take(i)) <= digits_value(s),
    decreases s.len(),
{
    if i == s.len() {
        assert(s.take(i) =~= s);
    } else {
        let head = s.take(s.len() - 1);
        assert(all_digits(head)) by {
            assert forall|k: int| 0 <= k < head.len() implies is_digit(#[trigger] head[k]) by {
                assert(head[k] == s[k]);
            }
        }
        lemma_digits_value_mono(head, i);
        assert(head.take(i) =~= s.take(i));
        lemma_digits_value_nonneg(head);
        assert(digits_value(s) == digits_value(head) * 10 + digit_val(s[s.len() - 1]));
        assert(digit_val(s[s.len() - 1]) >= 0);
        assert(digits_value(head) * 10 >= digits_value(head));
    }
}

/// What `"…".parse::<i32>()` accepts and yields: an optional `+` or `-`
/// sign, then one or more digits, valid exactly when the signed value fits
/// 32 bits.
pub open spec fn i32_parse_spec(s: Seq<char>) -> Option<int> {
    let neg = s.len() > 0 && s[0] == '-';
    let ds = if s.len() > 0 && (s[0] == '-' || s[0] == '+') {
        s.skip(1)
    } else {
        s
    };
    if ds.len() > 0 && all_digits(ds) {
        let v = if neg {
            -digits_value(ds)
        } else {
            digits_value(ds)
        };
        if -2147483648 <= v <= 2147483647 {
            Some(v)
        } else {
            None
        }
    } else {
        None
    }
}

/// Parses a decimal 32-bit integer, accepting exactly what `i32_parse_spec`
/// accepts.
pub fn parse_i32(s: &str) -> (r: Option<i32>)
    ensures
        match i32_parse_spec(s@) {
            Some(v) => r is Some && r->Some_0 as int == v,
            None => r is None,
        },
{
    let len = s.unicode_len();
    if len == 0 {
        return None;
    }
    let c0 = s.get_char(0);
    let neg: bool = c0 == '-';
    let start: usize = if c0 == '-' || c0 == '+' {
        1
    } else {
        0
    };
    let ghost ds = if start == 1 {
        s@.skip(1)
    } else {
        s@
    };
    proof {
        assert(ds.len() == len - start);
        assert(forall|k: int| 0 <= k < ds.len() ==> #[trigger] ds[k] == s@[k + start]);
        assert(ds.take(0) =~= Seq::<char>::empty());
    }
    if start >= len {
        // a bare sign: no digits
        return None;
    }
    let mut acc: u64 = 0;
    let mut i: usize = start;
    while i < len
        invariant
            start <= i <= len,
            len == s@.len(),
            start == 0 || start == 1,
            (start == 1) == (s@[0] == '-' || s@[0] == '+'),
            neg == (s@[0] == '-'),
            ds == (if start == 1 {
                s@.skip(1)
            } else {
                s@
            }),
            ds.len() == len - start,
            ds.len() > 0,
            forall|k: int| 0 <= k < ds.len() ==> #[trigger] ds[k] == s@[k + start],
            all_digits(ds.take(i - start)),
            acc as int == digits_value(ds.take(i - start)),
            acc <= 2147483648u64,
        decreases len - i,
    {
        let c = s.get_char(i);
        if !('0' <= c && c <= '9') {
            proof {
                assert(ds[i - start] == s@[i as int]);
                assert(!all_digits(ds)) by {
                    assert(!is_digit(ds[i - start]));
                }
            }
            return None;
        }
        let d: u64 = ((c as u32) - ('0' as u32)) as u64;
        let next: u64 = acc * 10 + d;
        proof {
            let k = i - start;
            assert(ds.take(k + 1).take(k) =~= ds.take(k));
            assert(ds.take(k + 1)[k] == ds[k]);
            assert(ds[k] == s@[i as int]);
            assert(digits_value(ds.take(k + 1)) == digits_value(ds.take(k)) * 10 + digit_val(
                ds[k],
            ));
            assert(d as int == digit_val(ds[k]));
            assert(all_digits(ds.take(k + 1))) by {
                assert forall|j: int| 0 <= j < k + 1 implies is_digit(
                    #[trigger] ds.take(k + 1)[j],
                ) by {
                    if j < k {
                        assert(ds.take(k + 1)[j] == ds.take(k)[j]);
                    }
                }
            }
        }
        if next > 2147483648 {
            // too large in magnitude for either sign
            proof {
                if all_digits(ds) {
                    lemma_digits_value_mono(ds, i - start + 1);
                    assert(digits_value(ds) >= next as int);
                }
            }
            return None;
        }
        acc = next;
        i = i + 1;
    }
    proof {
        assert(ds.take(i - start) =~= ds);
        assert(acc as int == digits_value(ds));
    }
    if neg {
        if acc == 2147483648 {
            Some(i32::MIN)
        } else {
            Some(-(acc as i32))
        }
    } else {
        if acc > 2147483647 {
            None
        } else {
            Some(acc as i32)
        }
    }
}

} // verus!
