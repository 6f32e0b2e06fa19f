use vstd::prelude::*;

verus! {

pub open spec fn is_digit(c: char) -> bool {
    '0' as int <= c as int <= '9' as int
}

pub open spec fn digit_value(c: char) -> nat {
    (c as int - '0' as int) as nat
}

/// The value of a string of decimal digits.
pub open spec fn digits_value(d: Seq<char>) -> nat
    decreases d.len(),
{
    if d.len() == 0 {
        0
    } else {
        digits_value(d.drop_last()) * 10 + digit_value(d.last())
    }
}

pub open spec fn all_digits(d: Seq<char>) -> bool {
    forall|i: int| 0 <= i < d.len() ==> is_digit(#[trigger] d[i])
}

/// The digits of an unsigned decimal literal: an optional leading `+` is dropped.
pub open spec fn unsigned_digits(s: Seq<char>) -> Seq<char> {
    if s.len() > 0 && s[0] == '+' {
        s.drop_first()
    } else {
        s
    }
}

/// The value of an unsigned decimal literal (an optional `+`, then at least
/// one ASCII digit) when it is at most `max`; what Rust's `str::parse` gives
/// for unsigned integer types.
pub open spec fn parse_unsigned(s: Seq<char>, max: nat) -> Option<nat> {
    let d = unsigned_digits(s);
    if d.len() > 0 && all_digits(d) && digits_value(d) <= max {
        Some(digits_value(d))
    } else {
        None
    }
}

proof fn lemma_digits_value_grows(d: Seq<char>, i: int, j: int)
    requires
        0 <= i <= j <= d.len(),
    ensures
        digits_value(d.take(i)) <= digits_value(d.take(j)),
    decreases j - i,
{
    if i < j {
        lemma_digits_value_grows(d, i, j - 1);
        assert(d.take(j).drop_last() =~= d.take(j - 1));
    }
}

proof fn lemma_overflow_step(v: nat, dg: nat, max: nat)
    requires
        dg <= 9,
        dg <= max,
        v > (max - dg) as nat / 10,
    ensures
        v * 10 + dg > max,
{
    assert(v * 10 + dg > max) by (nonlinear_arith)
        requires
            dg <= max,
            v > (max - dg) as nat / 10,
    ;
}

/// Parses `chars[from..to]` as an unsigned decimal literal of at most `max`.
pub fn parse_unsigned_range(chars: &[char], from: usize, to: usize, max: u64) -> (r: Option<u64>)
    requires
        from <= to <= chars@.len(),
    ensures
        r == (match parse_unsigned(chars@.subrange(from as int, to as int), max as nat) {
            Some(v) => Some(v as u64),
            None => None,
        }),
{
    let ghost s = chars@.subrange(from as int, to as int);
    let mut start = from;
    if from < to && chars[from] == '+' {
        start = from + 1;
    }
    let ghost d = chars@.subrange(start as int, to as int);
    assert(d =~= unsigned_digits(s));
    if start == to {
        return None;
    }
    let mut value: u64 = 0;
    let mut i = start;
    while i < to
        invariant
            from <= start <= i <= to <= chars@.len(),
            d == chars@.subrange(start as int, to as int),
            d == unsigned_digits(chars@.subrange(from as int, to as int)),
            all_digits(d.take(i - start)),
            value as nat == digits_value(d.take(i - start)),
            value <= max,
        decreases to - i,
    {
        let c = chars[i];
        assert(c == d[i - start]);
        assert(d.take(i - start + 1).drop_last() =~= d.take(i - start));
        if !(c >= '0' && c <= '9') {
            assert(!is_digit(d[i - start]));
            assert(!all_digits(d));
            return None;
        }
        let dg = (c as u32 - '0' as u32) as u64;
        assert(dg as nat == digit_value(c));
        assert(digits_value(d.take(i - start + 1)) == value * 10 + dg);
        if dg > max || value > (max - dg) / 10 {
            proof {
                if dg <= max {
                    lemma_overflow_step(value as nat, dg as nat, max as nat);
                }
                lemma_digits_value_grows(d, i - start + 1, d.len() as int);
                assert(d.take(d.len() as int) =~= d);
                assert(digits_value(d) > max);
            }
            return None;
        }
        proof {
            assert((max - dg) / 10 * 10 + dg <= max) by (nonlinear_arith)
                requires
                    dg <= max,
            ;
            assert(value * 10 + dg <= max) by (nonlinear_arith)
                requires
                    value <= (max - dg) / 10,
                    (max - dg) / 10 * 10 + dg <= max,
            ;
        }
        value = value * 10 + dg;
        i = i + 1;
        assert forall|k: int| 0 <= k < i - start implies is_digit(#[trigger] d.take(i - start)[k]) by {
            if k < i - start - 1 {
                assert(d.take(i - start)[k] == d.take(i - start - 1)[k]);
            }
        }
    }
    assert(d.take(d.len() as int) =~= d);
    Some(value)
}

} // verus!
