//! Pure interpretation of what the media-control probe reports: textual
//! fields are normalised (an empty reading counts as absent) and the
//! microsecond-scale track length is brought down to whole seconds.
use vstd::prelude::*;

verus! {

/// An empty textual reading from the probe means "no value"; anything
/// else is kept as-is.
pub fn clean_field(s: String) -> (r: Option<String>)
    ensures
        match r {
            Option::None => s@.len() == 0,
            Option::Some(v) => s@.len() > 0 && v@ == s@,
        },
{
    if s.as_str().unicode_len() == 0 {
        Option::None
    } else {
        Option::Some(s)
    }
}

/// The probe reports track length in microseconds; presence records work
/// in whole seconds (truncating).
pub fn micros_to_secs(us: u64) -> (r: u64)
    ensures
        r == us / 1000000,
{
    us / 1000000
}

/// A decimal digit.
pub open spec fn is_dec_digit(c: char) -> bool {
    48 <= c as int <= 57
}

/// The numeric value of one decimal digit.
pub open spec fn digit_val(c: char) -> int {
    c as int - 48
}

/// The value of a string of decimal digits, most significant first.
pub open spec fn dec_val(s: Seq<char>) -> int
    decreases s.len(),
{
    if s.len() == 0 {
        0
    } else {
        dec_val(s.drop_last()) * 10 + digit_val(s.last())
    }
}

/// Whether every character is a decimal digit.
pub open spec fn all_dec_digits(s: Seq<char>) -> bool {
    forall|i: int| 0 <= i < s.len() ==> is_dec_digit(#[trigger] s[i])
}

/// What a whole-number probe reading means: an optional leading plus
/// sign, then at least one decimal digit and nothing else, with a value
/// that fits; anything else is no reading.
pub open spec fn spec_parse_u64(s: Seq<char>) -> Option<u64> {
    let digits = if s.len() > 0 && s[0] == '+' {
        s.skip(1)
    } else {
        s
    };
    if digits.len() > 0 && all_dec_digits(digits) && dec_val(digits) <= u64::MAX {
        Option::Some(dec_val(digits) as u64)
    } else {
        Option::None
    }
}

proof fn lemma_dec_val_nonneg(s: Seq<char>)
    requires
        all_dec_digits(s),
    ensures
        dec_val(s) >= 0,
    decreases s.len(),
{
    if s.len() > 0 {
        assert forall|i: int| 0 <= i < s.drop_last().len() implies is_dec_digit(
            #[trigger] s.drop_last()[i],
        ) by {
            assert(s.drop_last()[i] == s[i]);
        }
        lemma_dec_val_nonneg(s.drop_last());
    }
}

proof fn lemma_dec_val_take_step(s: Seq<char>, i: int)
    requires
        0 <= i < s.len(),
    ensures
        dec_val(s.take(i + 1)) == dec_val(s.take(i)) * 10 + digit_val(s[i]),
{
    assert(s.take(i + 1).drop_last() =~= s.take(i));
    assert(s.take(i + 1).last() == s[i]);
}

proof fn lemma_dec_val_prefix_bound(s: Seq<char>, i: int)
    requires
        0 <= i <= s.len(),
        all_dec_digits(s),
    ensures
        dec_val(s.take(i)) <= dec_val(s),
    decreases s.len() - i,
{
    if i == s.len() {
        assert(s.take(i) =~= s);
    } else {
        lemma_dec_val_take_step(s, i);
        assert(is_dec_digit(s[i]));
        assert forall|j: int| 0 <= j < s.take(i + 1).len() implies is_dec_digit(
            #[trigger] s.take(i + 1)[j],
        ) by {
            assert(s.take(i + 1)[j] == s[j]);
        }
        lemma_dec_val_nonneg(s.take(i + 1));
        lemma_dec_val_nonneg(s.take(i));
        lemma_dec_val_prefix_bound(s, i + 1);
    }
}

/// Parse a whole-number probe reading, exactly as `spec_parse_u64`
/// says: an optional leading plus sign, then decimal digits only, with
/// a value that fits in the result type.
pub fn parse_u64(s: &str) -> (r: Option<u64>)
    ensures
        r == spec_parse_u64(s@),
{
    let n = s.unicode_len();
    let has_sign: bool = n > 0 && s.get_char(0) == '+';
    let start: usize = if has_sign {
        1
    } else {
        0
    };
    let ghost digits = if has_sign {
        s@.skip(1)
    } else {
        s@
    };
    if n == start {
        return None;
    }
    let mut val: u64 = 0;
    let mut i: usize = start;
    proof {
        assert(digits.take(0) =~= Seq::<char>::empty());
    }
    while i < n
        invariant
            start <= i <= n,
            n == s@.len(),
            start == if has_sign {
                1int
            } else {
                0int
            },
            has_sign == (s@.len() > 0 && s@[0] == '+'),
            digits == if has_sign {
                s@.skip(1)
            } else {
                s@
            },
            digits.len() == n - start,
            forall|k: int| 0 <= k < digits.len() ==> digits[k] == s@[k + start],
            all_dec_digits(digits.take(i - start)),
            0 <= dec_val(digits.take(i - start)) <= u64::MAX,
            val == dec_val(digits.take(i - start)),
        decreases n - i,
    {
        let c = s.get_char(i);
        let cu = c as u32;
        if cu < 48 || cu > 57 {
            proof {
                assert(digits[i - start] == s@[i as int]);
                assert(!is_dec_digit(digits[i - start]));
            }
            return None;
        }
        let d = (cu - 48) as u64;
        proof {
            assert(digits[i - start] == s@[i as int]);
            assert(is_dec_digit(digits[i - start]));
            lemma_dec_val_take_step(digits, i - start);
        }
        if val > (u64::MAX - d) / 10 {
            proof {
                assert(val * 10 + d > u64::MAX) by (nonlinear_arith)
                    requires
                        val > (u64::MAX - d) / 10,
                        d <= 9,
                ;
                if all_dec_digits(digits) {
                    lemma_dec_val_prefix_bound(digits, i - start + 1);
                }
            }
            return None;
        }
        proof {
            assert(val * 10 + d <= u64::MAX) by (nonlinear_arith)
                requires
                    val <= (u64::MAX - d) / 10,
                    d <= 9,
            ;
        }
        val = val * 10 + d;
        proof {
            assert forall|j: int| 0 <= j < digits.take(i - start + 1).len() implies is_dec_digit(
                #[trigger] digits.take(i - start + 1)[j],
            ) by {
                assert(digits.take(i - start + 1)[j] == digits[j]);
            }
        }
        i += 1;
    }
    proof {
        assert(digits.take(n - start) =~= digits);
    }
    Some(val)
}

} // verus!
