//! Text primitives the lowering engine needs: string-slice equality and
//! parsing of decimal integer text.  Both are implemented and verified
//! here, character by character.

use vstd::prelude::*;
use vstd::string::StrSliceExecFns;

verus! {

/// Character-sequence equality of two string slices.
#[verifier::loop_isolation(false)]
pub fn str_eq(a: &str, b: &str) -> (r: bool)
    ensures
        r == (a@ == b@),
{
    let a_len = a.unicode_len();
    let b_len = b.unicode_len();
    if a_len != b_len {
        proof {
            assert(a@ != b@);
        }
        return false;
    }
    let mut i: usize = 0;
    while i < a_len
        invariant
            a_len == a@.len(),
            a_len == b@.len(),
            i <= a_len,
            forall|k: int| 0 <= k < i ==> a@[k] == b@[k],
        decreases a_len - i,
    {
        if a.get_char(i) != b.get_char(i) {
            proof {
                assert(a@[i as int] != b@[i as int]);
            }
            return false;
        }
        i += 1;
    }
    proof {
        assert(a@ =~= b@);
    }
    true
}

/// An ASCII decimal digit.
pub open spec fn is_digit_char(ch: char) -> bool {
    '0' <= ch && ch <= '9'
}

pub open spec fn digit_val(ch: char) -> int {
    ch as int - '0' as int
}

pub open spec fn all_digits(s: Seq<char>) -> bool {
    forall|k: int| 0 <= k < s.len() ==> is_digit_char(#[trigger] s[k])
}

/// The value of a run of decimal digits, most significant first.
pub open spec fn digits_val(s: Seq<char>) -> int
    decreases s.len(),
{
    if s.len() == 0 {
        0
    } else {
        digits_val(s.drop_last()) * 10 + digit_val(s.last())
    }
}

/// The value `s` denotes as a decimal `i64`: an optional single `+` or `-`
/// sign followed by one or more ASCII digits, rejected when any other
/// character appears or the value falls outside the `i64` range.
pub open spec fn spec_parse_i64(s: Seq<char>) -> Option<i64> {
    let negative = s.len() > 0 && s[0] == '-';
    let digits = if s.len() > 0 && (s[0] == '-' || s[0] == '+') {
        s.drop_first()
    } else {
        s
    };
    if digits.len() == 0 || !all_digits(digits) {
        None
    } else {
        let value = if negative {
            -digits_val(digits)
        } else {
            digits_val(digits)
        };
        if i64::MIN <= value && value <= i64::MAX {
            Some(value as i64)
        } else {
            None
        }
    }
}

proof fn lemma_digits_val_nonneg(s: Seq<char>)
    requires
        all_digits(s),
    ensures
        digits_val(s) >= 0,
    decreases s.len(),
{
    if s.len() > 0 {
        assert(all_digits(s.drop_last()));
        lemma_digits_val_nonneg(s.drop_last());
        assert(is_digit_char(s.last()));
    }
}

/// A run of digits is worth at least any of its prefixes.
proof fn lemma_digits_val_prefix_le(s: Seq<char>, k: int)
    requires
        all_digits(s),
        0 <= k <= s.len(),
    ensures
        digits_val(s.take(k)) <= digits_val(s),
    decreases s.len(),
{
    if k == s.len() {
        assert(s.take(k) =~= s);
    } else {
        assert(all_digits(s.drop_last()));
        assert(s.take(k) =~= s.drop_last().take(k));
        lemma_digits_val_prefix_le(s.drop_last(), k);
        lemma_digits_val_nonneg(s.drop_last());
        assert(is_digit_char(s.last()));
    }
}

/// Parses decimal integer text: an optional single sign followed by one
/// or more ASCII digits, within the `i64` range.
#[verifier::loop_isolation(false)]
pub fn parse_i64_str(s: &str) -> (r: Option<i64>)
    ensures
        r == spec_parse_i64(s@),
{
    let n = s.unicode_len();
    if n == 0 {
        return None;
    }
    let first = s.get_char(0);
    let negative = first == '-';
    let start: usize = if first == '-' || first == '+' {
        1
    } else {
        0
    };
    let ghost digits = if first == '-' || first == '+' {
        s@.drop_first()
    } else {
        s@
    };
    proof {
        assert(digits =~= s@.subrange(start as int, n as int));
    }
    if n == start {
        return None;
    }
    // the magnitude may reach 2^63 for the most negative value
    let cap: u64 = if negative {
        9223372036854775808
    } else {
        9223372036854775807
    };
    let mut mag: u64 = 0;
    let mut i = start;
    while i < n
        invariant
            n == s@.len(),
            start <= i <= n,
            start <= 1,
            digits =~= s@.subrange(start as int, n as int),
            forall|k: int| start <= k < i ==> is_digit_char(#[trigger] s@[k]),
            mag == digits_val(s@.subrange(start as int, i as int)),
            mag <= cap,
            cap == (if negative { 9223372036854775808u64 } else { 9223372036854775807u64 }),
        decreases n - i,
    {
        let ch = s.get_char(i);
        let code = ch as u32;
        if code < 48 || code > 57 {
            proof {
                assert(('0' as u32) == 48 && ('9' as u32) == 57);
                assert(!is_digit_char(s@[i as int]));
                assert(digits[i - start as int] == s@[i as int]);
                assert(!all_digits(digits));
            }
            return None;
        }
        let d = (code - 48) as u64;
        proof {
            assert(('0' as u32) == 48);
            assert(is_digit_char(s@[i as int]));
            assert(d == digit_val(s@[i as int]));
        }
        if mag > (cap - d) / 10 {
            proof {
                // the value scanned so far already exceeds the cap, and a
                // run of digits is worth at least any of its prefixes
                assert(mag * 10 + d > cap) by (nonlinear_arith)
                    requires
                        mag > (cap - d) / 10,
                        d <= 9,
                        cap >= d,
                ;
                let scanned = s@.subrange(start as int, i + 1);
                assert(scanned.drop_last() =~= s@.subrange(start as int, i as int));
                assert(scanned.last() == s@[i as int]);
                assert(digits_val(scanned) == mag * 10 + d);
                if all_digits(digits) {
                    assert(scanned =~= digits.take(i + 1 - start));
                    lemma_digits_val_prefix_le(digits, i + 1 - start);
                    assert(digits_val(digits) > cap);
                }
            }
            return None;
        }
        proof {
            assert(mag * 10 + d <= cap) by (nonlinear_arith)
                requires
                    mag <= (cap - d) / 10,
                    d <= 9,
                    cap >= d,
            ;
            let scanned = s@.subrange(start as int, i + 1);
            assert(scanned.drop_last() =~= s@.subrange(start as int, i as int));
            assert(scanned.last() == s@[i as int]);
        }
        mag = mag * 10 + d;
        i += 1;
    }
    proof {
        assert(s@.subrange(start as int, n as int) =~= digits);
        assert(all_digits(digits));
        assert(mag == digits_val(digits));
    }
    if negative {
        if mag == 9223372036854775808 {
            Some(i64::MIN)
        } else {
            Some(-(mag as i64))
        }
    } else {
        Some(mag as i64)
    }
}

} // verus!
