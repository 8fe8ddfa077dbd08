//! Canonical decimal text: rendering integers and reading them back.
use vstd::prelude::*;

use crate::error::{decimal_spec, digit_char, push_decimal};
use crate::text::push_char;

verus! {

/// A decimal digit character.
pub open spec fn is_digit(c: char) -> bool {
    '0' <= c && c <= '9'
}

/// The value of a digit character.
pub open spec fn digit_value(c: char) -> nat {
    (c as nat - '0' as nat) as nat
}

/// The value of a string of digits, most significant first.
pub open spec fn digits_value(s: Seq<char>) -> nat
    decreases s.len(),
{
    if s.len() == 0 {
        0
    } else {
        digits_value(s.drop_last()) * 10 + digit_value(s.last())
    }
}

/// Canonical decimal text: digits only, no leading zero (but `0` itself).
pub open spec fn canonical_decimal(s: Seq<char>) -> bool {
    &&& s.len() > 0
    &&& forall|k: int| 0 <= k < s.len() ==> is_digit(#[trigger] s[k])
    &&& (s.len() > 1 ==> s[0] != '0')
}

/// The text of a signed integer: a minus sign before negative values.
pub open spec fn signed_decimal_spec(n: int) -> Seq<char> {
    if n < 0 {
        seq!['-'] + decimal_spec((-n) as nat)
    } else {
        decimal_spec(n as nat)
    }
}

pub proof fn lemma_digit_char(d: nat)
    requires
        d < 10,
    ensures
        is_digit(digit_char(d)),
        digit_value(digit_char(d)) == d,
        d != 0 ==> digit_char(d) != '0',
{
}

/// `decimal_spec` is canonical and reads back as its value.
pub proof fn lemma_decimal_canonical(n: nat)
    ensures
        canonical_decimal(decimal_spec(n)),
        digits_value(decimal_spec(n)) == n,
        decimal_spec(n).len() >= 1,
    decreases n,
{
    if n < 10 {
        lemma_digit_char(n);
        let s = decimal_spec(n);
        assert(s =~= seq![digit_char(n)]);
        assert(s.drop_last() =~= Seq::<char>::empty());
        assert forall|k: int| 0 <= k < s.len() implies is_digit(#[trigger] s[k]) by {
            assert(s[k] == digit_char(n));
        }
        assert(digits_value(s) == digits_value(s.drop_last()) * 10 + digit_value(s.last()));
    } else {
        lemma_decimal_canonical(n / 10);
        lemma_digit_char(n % 10);
        let s = decimal_spec(n);
        let t = decimal_spec(n / 10);
        assert(s.drop_last() =~= t);
        assert forall|k: int| 0 <= k < s.len() implies is_digit(#[trigger] s[k]) by {
            if k < t.len() {
                assert(s[k] == t[k]);
            }
        }
        assert(s[0] == t[0]);
        if n / 10 < 10 {
            assert(n / 10 != 0);
            lemma_digit_char(n / 10);
            assert(t =~= seq![digit_char(n / 10)]);
        } else {
            lemma_decimal_canonical(n / 10 / 10);
            assert(t.len() >= 2);
        }
        assert(s.last() == digit_char(n % 10));
        assert(digits_value(s) == digits_value(t) * 10 + digit_value(s.last()));
        assert(n == (n / 10) * 10 + n % 10);
    }
}

/// A canonical decimal text is the rendering of its value.
pub proof fn lemma_canonical_is_decimal(s: Seq<char>)
    requires
        canonical_decimal(s),
    ensures
        decimal_spec(digits_value(s)) == s,
    decreases s.len(),
{
    if s.len() == 1 {
        assert(digits_value(s.drop_last()) == 0);
        let d = digit_value(s[0]);
        assert(d < 10);
        assert(digit_char(d) == s[0]);
        assert(decimal_spec(d) =~= s);
    } else {
        let t = s.drop_last();
        assert(canonical_decimal(t)) by {
            assert forall|k: int| 0 <= k < t.len() implies is_digit(#[trigger] t[k]) by {
                assert(t[k] == s[k]);
            }
            assert(t[0] == s[0]);
        }
        lemma_canonical_is_decimal(t);
        let v = digits_value(s);
        let vt = digits_value(t);
        let d = digit_value(s.last());
        assert(is_digit(s.last()));
        assert(d < 10);
        assert(v == vt * 10 + d);
        // t has no leading zero and more than one digit, or is one non-zero
        // digit: its value is positive, so v >= 10.
        assert(vt > 0) by {
            lemma_leading_positive(t);
        }
        assert(v / 10 == vt);
        assert(v % 10 == d);
        assert(digit_char(d) == s.last());
        assert(decimal_spec(v) =~= decimal_spec(vt).push(digit_char(d)));
        assert(s =~= t.push(s.last()));
    }
}

/// A canonical decimal text that does not start with `0` has a positive value.
pub proof fn lemma_leading_positive(s: Seq<char>)
    requires
        canonical_decimal(s),
        s[0] != '0',
    ensures
        digits_value(s) > 0,
    decreases s.len(),
{
    if s.len() == 1 {
        assert(digits_value(s.drop_last()) == 0);
    } else {
        let t = s.drop_last();
        assert(canonical_decimal(t)) by {
            assert forall|k: int| 0 <= k < t.len() implies is_digit(#[trigger] t[k]) by {
                assert(t[k] == s[k]);
            }
            assert(t[0] == s[0]);
        }
        lemma_leading_positive(t);
    }
}

/// Two values with the same rendering are equal.
pub proof fn lemma_decimal_injective(a: nat, b: nat)
    requires
        decimal_spec(a) == decimal_spec(b),
    ensures
        a == b,
{
    lemma_decimal_canonical(a);
    lemma_decimal_canonical(b);
}

/// Read canonical decimal text that fits in a `u64`: `Some(n)` exactly when
/// `s` is the rendering of `n`.
pub fn parse_decimal(s: &[char]) -> (r: Option<u64>)
    ensures
        match r {
            Some(n) => decimal_spec(n as nat) == s@,
            None => forall|n: u64| decimal_spec(n as nat) != s@,
        },
{
    if s.len() == 0 || (s.len() > 1 && s[0] == '0') {
        proof {
            assert forall|n: u64| decimal_spec(n as nat) != s@ by {
                lemma_decimal_canonical(n as nat);
            }
        }
        return None;
    }
    let mut v: u64 = 0;
    let mut i: usize = 0;
    while i < s.len()
        invariant
            i <= s.len(),
            s@.len() > 0,
            forall|k: int| 0 <= k < i ==> is_digit(#[trigger] s@[k]),
            v == digits_value(s@.take(i as int)),
        decreases s.len() - i,
    {
        let c = s[i];
        if !('0' <= c && c <= '9') {
            proof {
                assert forall|n: u64| decimal_spec(n as nat) != s@ by {
                    lemma_decimal_canonical(n as nat);
                    if decimal_spec(n as nat) == s@ {
                        assert(is_digit(s@[i as int]));
                    }
                }
            }
            return None;
        }
        let d = (c as u32 - '0' as u32) as u64;
        proof {
            assert(s@.take(i + 1).drop_last() =~= s@.take(i as int));
            assert(s@.take(i + 1).last() == c);
        }
        if v > (u64::MAX - d) / 10 {
            proof {
                assert(digits_value(s@.take(i + 1)) > u64::MAX);
                assert forall|n: u64| decimal_spec(n as nat) != s@ by {
                    if decimal_spec(n as nat) == s@ {
                        lemma_decimal_canonical(n as nat);
                        lemma_prefix_value_bounded(s@, (i + 1) as int);
                    }
                }
            }
            return None;
        }
        v = v * 10 + d;
        i = i + 1;
    }
    proof {
        assert(s@.take(s@.len() as int) =~= s@);
        assert(canonical_decimal(s@));
        lemma_canonical_is_decimal(s@);
    }
    Some(v)
}

/// A prefix of a digit string has no larger value than the whole.
pub proof fn lemma_prefix_value_bounded(s: Seq<char>, k: int)
    requires
        0 <= k <= s.len(),
        forall|j: int| 0 <= j < s.len() ==> is_digit(#[trigger] s[j]),
    ensures
        digits_value(s.take(k)) <= digits_value(s),
    decreases s.len() - k,
{
    if k < s.len() {
        let t = s.take(k + 1);
        assert(t.drop_last() =~= s.take(k));
        assert(is_digit(t.last()));
        lemma_prefix_value_bounded(s, k + 1);
    } else {
        assert(s.take(k) =~= s);
    }
}

/// Append the text of a signed integer.
pub fn push_signed(s: &mut String, n: i64)
    ensures
        final(s)@ == old(s)@ + signed_decimal_spec(n as int),
{
    if n < 0 {
        push_char(s, '-');
        let m: u64 = ((-(n + 1)) as u64) + 1;
        push_decimal(s, m);
        proof {
            assert(s@ =~= old(s)@ + (seq!['-'] + decimal_spec((-n) as nat)));
        }
    } else {
        push_decimal(s, n as u64);
    }
}

} // verus!
