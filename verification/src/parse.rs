//! Decimal numbers as `str::parse` reads them for unsigned integer types.

use vstd::prelude::*;

verus! {

/// Whether every character of `d` is an ASCII digit.
pub open spec fn all_digits(d: Seq<char>) -> bool {
    forall|i: int| 0 <= i < d.len() ==> '0' <= #[trigger] d[i] <= '9'
}

/// The value of the decimal digits `d`.
pub open spec fn digits_value(d: Seq<char>) -> int
    decreases d.len(),
{
    if d.len() == 0 {
        0
    } else {
        digits_value(d.drop_last()) * 10 + (d.last() as int - '0' as int)
    }
}

/// The digits of `s` after an optional leading `+`.
pub open spec fn unsigned_digits(s: Seq<char>) -> Seq<char> {
    if s.len() > 0 && s[0] == '+' {
        s.drop_first()
    } else {
        s
    }
}

/// The value `s` stands for as an unsigned decimal number of at most `max`:
/// an optional `+`, then at least one digit and nothing else.
pub open spec fn spec_parse_unsigned(s: Seq<char>, max: int) -> Option<int> {
    let d = unsigned_digits(s);
    if d.len() > 0 && all_digits(d) && digits_value(d) <= max {
        Some(digits_value(d))
    } else {
        None
    }
}

proof fn lemma_digits_value_grows(d: Seq<char>, k: int)
    requires
        all_digits(d),
        0 <= k <= d.len(),
    ensures
        digits_value(d.take(k)) <= digits_value(d),
        0 <= digits_value(d.take(k)),
    decreases d.len() - k,
{
    if k < d.len() {
        lemma_digits_value_grows(d, k + 1);
        let t = d.take(k + 1);
        assert(t.drop_last() =~= d.take(k));
        assert(t.last() == d[k]);
        lemma_digits_value_nonneg(d.take(k));
    } else {
        assert(d.take(k) =~= d);
        lemma_digits_value_nonneg(d);
    }
}

proof fn lemma_digits_value_nonneg(d: Seq<char>)
    requires
        all_digits(d),
    ensures
        digits_value(d) >= 0,
    decreases d.len(),
{
    if d.len() > 0 {
        assert(all_digits(d.drop_last()));
        lemma_digits_value_nonneg(d.drop_last());
    }
}

/// Reads `s` as an unsigned decimal number of at most `max`, as
/// `str::parse` does for an unsigned integer type whose largest value is `max`.
pub fn parse_unsigned(s: &str, max: u64) -> (r: Option<u64>)
    ensures
        r is None <==> spec_parse_unsigned(s@, max as int) is None,
        r matches Some(v) ==> v <= max && spec_parse_unsigned(s@, max as int) == Some(v as int),
{
    let len = s.unicode_len();
    let mut i: usize = 0;
    if len > 0 && s.get_char(0) == '+' {
        i = 1;
    }
    let start = i;
    let ghost d = unsigned_digits(s@);
    assert(d =~= s@.subrange(start as int, s@.len() as int));
    if start == len {
        return None;
    }
    let mut v: u64 = 0;
    while i < len
        invariant
            len == s@.len(),
            start <= i <= len,
            start < len,
            d == s@.subrange(start as int, s@.len() as int),
            d == unsigned_digits(s@),
            all_digits(d.take(i - start)),
            v == digits_value(d.take(i - start)),
            v <= max,
        decreases len - i,
    {
        let c = s.get_char(i);
        assert(c == d[i - start]);
        if c < '0' || c > '9' {
            assert(!all_digits(d));
            return None;
        }
        let digit = (c as u64) - ('0' as u64);
        let ghost t = d.take(i - start + 1);
        proof {
            assert(t.drop_last() =~= d.take(i - start));
            assert(t.last() == c);
            assert(all_digits(t));
        }
        if digit > max || v > (max - digit) / 10 {
            proof {
                if digit > max {
                    assert(v * 10 + digit > max) by (nonlinear_arith)
                        requires
                            v >= 0,
                            digit > max,
                    ;
                } else {
                    assert(v * 10 + digit > max) by (nonlinear_arith)
                        requires
                            v > (max - digit) / 10,
                            digit <= max,
                    ;
                }
                assert(digits_value(t) > max);
                lemma_until_invalid_or_larger(d, i - start + 1, max as int);
            }
            return None;
        }
        assert(v * 10 + digit <= max) by (nonlinear_arith)
            requires
                v <= (max - digit) / 10,
                digit <= max,
        ;
        v = v * 10 + digit;
        i = i + 1;
    }
    assert(d.take(len - start) =~= d);
    Some(v)
}

/// Once a prefix of the digits exceeds `max`, no digit string extending it
/// stays within `max`.
proof fn lemma_until_invalid_or_larger(d: Seq<char>, k: int, max: int)
    requires
        0 <= k <= d.len(),
        all_digits(d.take(k)),
        digits_value(d.take(k)) > max,
    ensures
        !(all_digits(d) && digits_value(d) <= max),
{
    if all_digits(d) {
        lemma_digits_value_grows(d, k);
    }
}

} // verus!
