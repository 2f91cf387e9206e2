//! Decimal numbers as text: reading a `u64` from a string field and
//! printing one into a query string.

use vstd::prelude::*;

use crate::error::HampterError;
use crate::json::{is_json_digit, digit_val, lemma_digits_grow, spec_digits};
use crate::unicode::str_to_chars;

verus! {

/// The decimal digits of `n`, most significant first.
pub open spec fn spec_dec_digits(n: nat) -> Seq<char>
    decreases n,
{
    if n < 10 {
        seq![(('0' as u32) + n as u32) as char]
    } else {
        spec_dec_digits(n / 10).push((('0' as u32) + (n % 10) as u32) as char)
    }
}

/// Appends the decimal digits of `n`.
pub fn push_dec_digits(out: &mut String, n: u64)
    ensures
        final(out)@ == old(out)@ + spec_dec_digits(n as nat),
    decreases n,
{
    if n < 10 {
        let d: u32 = ('0' as u32) + (n as u32);
        match char::from_u32(d) {
            Some(c) => {
                out.push(c);
                proof {
                    assert(final(out)@ =~= old(out)@ + spec_dec_digits(n as nat));
                }
            },
            None => {
                proof {
                    assert(false);
                }
            },
        }
    } else {
        push_dec_digits(out, n / 10);
        let d: u32 = ('0' as u32) + ((n % 10) as u32);
        match char::from_u32(d) {
            Some(c) => {
                out.push(c);
                proof {
                    assert(final(out)@ =~= old(out)@ + spec_dec_digits(n as nat));
                }
            },
            None => {
                proof {
                    assert(false);
                }
            },
        }
    }
}

/// The decimal text of `n`.
pub fn u64_to_string(n: u64) -> (r: String)
    ensures
        r@ == spec_dec_digits(n as nat),
{
    let mut out = String::new();
    push_dec_digits(&mut out, n);
    proof {
        assert(out@ =~= spec_dec_digits(n as nat));
    }
    out
}

/// The `u64` a string denotes: an optional leading plus sign, then one or
/// more decimal digits reaching the end of the string, denoting a value
/// that fits; anything else is nothing.
pub open spec fn spec_u64_from_string(s: Seq<char>) -> Option<u64> {
    let t = if s.len() > 0 && s[0] == '+' {
        s.skip(1)
    } else {
        s
    };
    let r = spec_digits(t, 0, 0);
    if t.len() == 0 || r.1 != t.len() || r.0 > u64::MAX {
        None
    } else {
        Some(r.0 as u64)
    }
}

/// Reads a whole string as a decimal `u64`, as the chat-count and
/// follower-count fields carry one; a malformed or overflowing value is a
/// `DecodeError`.
pub fn u64_from_string(s: &str) -> (r: Result<u64, HampterError>)
    ensures
        r matches Ok(v) ==> spec_u64_from_string(s@) == Some(v),
        r is Err ==> spec_u64_from_string(s@) is None && r == Err::<u64, HampterError>(
            HampterError::DecodeError,
        ),
{
    let chars = str_to_chars(s);
    let ghost whole = chars@;
    let start: usize = if chars.len() > 0 && chars[0] == '+' {
        1
    } else {
        0
    };
    let ghost t = if whole.len() > 0 && whole[0] == '+' {
        whole.skip(1)
    } else {
        whole
    };
    proof {
        assert(t =~= whole.subrange(start as int, whole.len() as int));
    }
    if chars.len() == start {
        return Err(HampterError::DecodeError);
    }
    let mut acc: u64 = 0;
    let mut k: usize = start;
    while k < chars.len()
        invariant
            chars@ == s@,
            start <= k <= chars@.len(),
            start < chars@.len(),
            start == (if chars@.len() > 0 && chars@[0] == '+' {
                1int
            } else {
                0int
            }),
            t == (if s@.len() > 0 && s@[0] == '+' {
                s@.skip(1)
            } else {
                s@
            }),
            t == chars@.subrange(start as int, chars@.len() as int),
            forall|j: int| 0 <= j < k - start ==> is_json_digit(t[j]),
            spec_digits(t, 0, 0) == spec_digits(t, k - start, acc as nat),
        decreases chars@.len() - k,
    {
        let c = chars[k];
        if !('0' <= c && c <= '9') {
            proof {
                let ti = k - start;
                assert(t[ti] == chars@[k as int]);
                assert(!is_json_digit(t[ti]));
                assert(spec_digits(t, ti, acc as nat) == (acc as nat, ti));
                assert(spec_u64_from_string(s@) is None);
            }
            return Err(HampterError::DecodeError);
        }
        let d: u64 = (c as u32 - '0' as u32) as u64;
        if acc > (u64::MAX - d) / 10 {
            proof {
                let ti = k - start;
                assert(t[ti] == c);
                assert(digit_val(t[ti]) == d as int);
                assert(acc * 10 + d > u64::MAX) by {
                    let q = (u64::MAX - d) / 10;
                    assert(u64::MAX - d == q * 10 + (u64::MAX - d) % 10);
                    assert(acc >= q + 1);
                    assert(acc * 10 >= (q + 1) * 10) by (nonlinear_arith)
                        requires
                            acc >= q + 1,
                    ;
                };
                assert(spec_digits(t, ti, acc as nat) == spec_digits(
                    t,
                    ti + 1,
                    (acc * 10 + digit_val(t[ti])) as nat,
                ));
                lemma_digits_grow(t, ti + 1, (acc * 10 + digit_val(t[ti])) as nat);
                assert(spec_digits(t, 0, 0).0 > u64::MAX);
            }
            return Err(HampterError::DecodeError);
        }
        acc = acc * 10 + d;
        k = k + 1;
    }
    proof {
        assert(spec_digits(t, t.len() as int, acc as nat) == (acc as nat, t.len() as int));
    }
    Ok(acc)
}

} // verus!
