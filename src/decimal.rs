use vstd::prelude::*;

verus! {

/// An ASCII decimal digit.
pub open spec fn is_digit(c: char) -> bool {
    '0' <= c && c <= '9'
}

/// Every character of `s` is a decimal digit.
pub open spec fn all_digits(s: Seq<char>) -> bool {
    forall|i: int| 0 <= i < s.len() ==> is_digit(#[trigger] s[i])
}

/// The number that a run of decimal digits spells, most significant digit first.
pub open spec fn digits_value(s: Seq<char>) -> nat
    decreases s.len(),
{
    if s.len() == 0 {
        0
    } else {
        digits_value(s.drop_last()) * 10 + (s.last() as nat - '0' as nat) as nat
    }
}

/// The value of a non-empty run of decimal digits, or `None` when `s` is anything else.
pub open spec fn unsigned_value(s: Seq<char>) -> Option<int> {
    if s.len() > 0 && all_digits(s) {
        Some(digits_value(s) as int)
    } else {
        None
    }
}

/// The integer that `s` writes in decimal: an optional `+` (or `-`, where `signed`)
/// followed by one or more digits, with nothing else around them.
pub open spec fn decimal_value(s: Seq<char>, signed: bool) -> Option<int> {
    if s.len() > 0 && s[0] == '+' {
        unsigned_value(s.drop_first())
    } else if signed && s.len() > 0 && s[0] == '-' {
        match unsigned_value(s.drop_first()) {
            Some(v) => Some(-v),
            None => None,
        }
    } else {
        unsigned_value(s)
    }
}

/// What standard parsing of `s` into an integer type with range `[lo, hi]` gives:
/// the written value when it lies in the range, `None` otherwise.
pub open spec fn integer_in_range(s: Seq<char>, signed: bool, lo: int, hi: int) -> Option<int> {
    match decimal_value(s, signed) {
        Some(v) => if lo <= v <= hi {
            Some(v)
        } else {
            None
        },
        None => None,
    }
}

proof fn lemma_digits_value_push(s: Seq<char>, c: char)
    ensures
        digits_value(s.push(c)) == digits_value(s) * 10 + (c as nat - '0' as nat) as nat,
{
    assert(s.push(c).drop_last() =~= s);
}

/// Parses `s[from..]` as a run of decimal digits whose value may not exceed `bound`.
/// Returns the value, or `None` when the run is empty, holds another character,
/// or is larger than `bound`.
fn digits_up_to(s: &str, from: usize, bound: u128) -> (r: Option<u128>)
    requires
        from <= s@.len(),
    ensures
        r == (match unsigned_value(s@.subrange(from as int, s@.len() as int)) {
            Some(v) => if v <= bound {
                Some(v as u128)
            } else {
                None
            },
            None => None,
        }),
{
    let n = s.unicode_len();
    if from == n {
        return None;
    }
    let ghost digits = s@.subrange(from as int, n as int);
    let mut value: u128 = 0;
    let mut i: usize = from;
    while i < n
        invariant
            from <= i <= n,
            n == s@.len(),
            digits == s@.subrange(from as int, n as int),
            all_digits(s@.subrange(from as int, i as int)),
            value as nat == digits_value(s@.subrange(from as int, i as int)),
            value <= bound,
        decreases n - i,
    {
        let c = s.get_char(i);
        proof {
            lemma_digits_value_push(s@.subrange(from as int, i as int), c);
            assert(s@.subrange(from as int, i as int).push(c) =~= s@.subrange(
                from as int,
                i + 1,
            ));
        }
        if !('0' <= c && c <= '9') {
            assert(!all_digits(digits)) by {
                assert(digits[i - from] == c);
            }
            return None;
        }
        let d = (c as u32 - '0' as u32) as u128;
        let next = match value.checked_mul(10) {
            Some(t) => t.checked_add(d),
            None => None,
        };
        match next {
            Some(v) if v <= bound => {
                value = v;
            },
            _ => {
                proof {
                    lemma_too_large(s@, from as int, i as int + 1, bound as nat);
                }
                return None;
            },
        }
        i = i + 1;
    }
    assert(s@.subrange(from as int, n as int) =~= digits);
    Some(value)
}

/// Once a prefix of a digit run exceeds `bound`, the whole run does too.
proof fn lemma_too_large(s: Seq<char>, from: int, i: int, bound: nat)
    requires
        0 <= from < i <= s.len(),
        all_digits(s.subrange(from, i)),
        digits_value(s.subrange(from, i)) > bound,
    ensures
        match unsigned_value(s.subrange(from, s.len() as int)) {
            Some(v) => v > bound,
            None => true,
        },
    decreases s.len() - i,
{
    if i < s.len() {
        lemma_digits_value_push(s.subrange(from, i), s[i]);
        assert(s.subrange(from, i).push(s[i]) =~= s.subrange(from, i + 1));
        if is_digit(s[i]) {
            assert(all_digits(s.subrange(from, i + 1))) by {
                assert forall|k: int| 0 <= k < i + 1 - from implies is_digit(
                    #[trigger] s.subrange(from, i + 1)[k],
                ) by {
                    if k < i - from {
                        assert(s.subrange(from, i + 1)[k] == s.subrange(from, i)[k]);
                    }
                }
            }
            lemma_too_large(s, from, i + 1, bound);
        } else {
            assert(s.subrange(from, s.len() as int)[i - from] == s[i]);
        }
    }
}

/// Parses `s` as standard integer parsing does for a type whose values run from
/// `-neg_max` to `pos_max`: the result is `(negative, magnitude)`.
pub fn parse_integer(s: &str, signed: bool, pos_max: u128, neg_max: u128) -> (r: Option<
    (bool, u128),
>)
    ensures
        r == (match integer_in_range(s@, signed, -(neg_max as int), pos_max as int) {
            Some(v) => Some((v < 0, if v < 0 {
                (-v) as u128
            } else {
                v as u128
            })),
            None => None,
        }),
{
    let n = s.unicode_len();
    if n > 0 && s.get_char(0) == '+' {
        assert(s@.subrange(1, n as int) =~= s@.drop_first());
        match digits_up_to(s, 1, pos_max) {
            Some(m) => Some((false, m)),
            None => None,
        }
    } else if signed && n > 0 && s.get_char(0) == '-' {
        assert(s@.subrange(1, n as int) =~= s@.drop_first());
        match digits_up_to(s, 1, neg_max) {
            Some(m) => Some((m > 0, m)),
            None => None,
        }
    } else {
        assert(s@.subrange(0, n as int) =~= s@);
        match digits_up_to(s, 0, pos_max) {
            Some(m) => Some((false, m)),
            None => None,
        }
    }
}

} // verus!
