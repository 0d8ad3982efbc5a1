use vstd::prelude::*;
use crate::decimal::{decimal_value, digits_value, is_digit, all_digits, parse_integer};

verus! {

/// Nanoseconds in one second.
pub const NANOS_PER_SEC: u32 = 1_000_000_000;

/// A span of time: whole seconds and the nanoseconds beyond them.
#[derive(Clone, Copy, Debug, PartialEq, Eq)]
pub struct Duration {
    secs: u64,
    nanos: u32,
}

/// The model of a `Duration`: its whole seconds and the nanoseconds beyond them.
pub struct DurationView {
    pub secs: nat,
    pub nanos: nat,
}

impl View for Duration {
    type V = DurationView;

    closed spec fn view(&self) -> DurationView {
        DurationView { secs: self.secs as nat, nanos: self.nanos as nat }
    }
}

impl Duration {
    /// A duration is well formed when its nanoseconds stay under one second.
    pub closed spec fn wf(self) -> bool {
        self.nanos < NANOS_PER_SEC
    }

    /// The duration of `secs` whole seconds.
    pub fn from_secs(secs: u64) -> (r: Duration)
        ensures
            r.wf(),
            r@ == (DurationView { secs: secs as nat, nanos: 0 }),
    {
        Duration { secs, nanos: 0 }
    }

    /// The duration of `secs` seconds and `nanos` nanoseconds; whole seconds in
    /// `nanos` are carried over into the seconds.
    pub fn new(secs: u64, nanos: u32) -> (r: Duration)
        requires
            secs + nanos / NANOS_PER_SEC <= u64::MAX,
        ensures
            r.wf(),
            r@ == (DurationView {
                secs: (secs + nanos / NANOS_PER_SEC) as nat,
                nanos: (nanos % NANOS_PER_SEC) as nat,
            }),
    {
        Duration { secs: secs + (nanos / NANOS_PER_SEC) as u64, nanos: nanos % NANOS_PER_SEC }
    }

    /// The whole seconds of the duration.
    pub fn as_secs(&self) -> (r: u64)
        ensures
            r as nat == self@.secs,
    {
        self.secs
    }

    /// The nanoseconds beyond the whole seconds.
    pub fn subsec_nanos(&self) -> (r: u32)
        ensures
            r as nat == self@.nanos,
    {
        self.nanos
    }
}

/// The seconds that a unit character stands for: `s`, `m`, `h` and `d`.
pub open spec fn unit_seconds(c: char) -> Option<nat> {
    if c == 's' {
        Some(1)
    } else if c == 'm' {
        Some(60)
    } else if c == 'h' {
        Some(3600)
    } else if c == 'd' {
        Some(86400)
    } else {
        None
    }
}

/// The whole seconds that duration text stands for: a magnitude in decimal followed
/// by one unit character. `None` where the text has no such shape, or where the
/// seconds do not fit in a `u64`.
pub open spec fn duration_seconds(text: Seq<char>) -> Option<nat> {
    if text.len() == 0 {
        None
    } else {
        match (decimal_value(text.drop_last(), false), unit_seconds(text.last())) {
            (Some(n), Some(u)) => if n * u <= u64::MAX {
                Some((n * u) as nat)
            } else {
                None
            },
            _ => None,
        }
    }
}

/// Reads duration text such as `15s`, `10m`, `10h` or `2d` as whole seconds.
pub fn parse_duration(text: &str) -> (r: Option<Duration>)
    ensures
        match duration_seconds(text@) {
            Some(n) => r.is_some() && r.unwrap().wf() && r.unwrap()@ == (DurationView {
                secs: n,
                nanos: 0,
            }),
            None => r.is_none(),
        },
{
    let len = text.unicode_len();
    if len == 0 {
        return None;
    }
    let magnitude_text = text.substring_char(0, len - 1);
    let unit = text.get_char(len - 1);
    assert(magnitude_text@ =~= text@.drop_last());
    let magnitude = match parse_integer(magnitude_text, false, u64::MAX as u128, 0) {
        Some((_, m)) => m as u64,
        None => {
            proof {
                if let (Some(v), Some(u)) = (
                    decimal_value(text@.drop_last(), false),
                    unit_seconds(text@.last()),
                ) {
                    assert(v * u >= v) by (nonlinear_arith)
                        requires
                            v >= 0,
                            u >= 1,
                    ;
                }
            }
            return None;
        },
    };
    let scale: u64 = if unit == 's' {
        1
    } else if unit == 'm' {
        60
    } else if unit == 'h' {
        3600
    } else if unit == 'd' {
        86400
    } else {
        return None;
    };
    match magnitude.checked_mul(scale) {
        Some(secs) => Some(Duration::from_secs(secs)),
        None => None,
    }
}

/// The decimal digits of `n`, most significant first, with no leading zeros.
pub open spec fn decimal_text(n: nat) -> Seq<char>
    decreases n,
{
    if n < 10 {
        seq![digit_char(n)]
    } else {
        decimal_text(n / 10).push(digit_char(n % 10))
    }
}

/// The digit character for `d` below ten.
pub open spec fn digit_char(d: nat) -> char {
    ((d + '0' as nat) as u32) as char
}

proof fn lemma_decimal_text_value(n: nat)
    ensures
        decimal_text(n).len() > 0,
        all_digits(decimal_text(n)),
        digits_value(decimal_text(n)) == n,
        decimal_text(n)[0] != '+',
    decreases n,
{
    if n >= 10 {
        lemma_decimal_text_value(n / 10);
        let prefix = decimal_text(n / 10);
        assert(decimal_text(n).drop_last() =~= prefix);
        assert(digit_char(n % 10) as nat == n % 10 + '0' as nat);
        assert((n / 10) * 10 + n % 10 == n) by (nonlinear_arith);
        assert(decimal_text(n).last() == digit_char(n % 10));
        assert(digits_value(decimal_text(n)) == digits_value(prefix) * 10 + n % 10);
        assert(decimal_text(n)[0] == prefix[0]);
        assert forall|i: int| 0 <= i < decimal_text(n).len() implies is_digit(
            #[trigger] decimal_text(n)[i],
        ) by {
            if i < prefix.len() {
                assert(decimal_text(n)[i] == prefix[i]);
            }
        }
    } else {
        assert(decimal_text(n).drop_last() =~= Seq::<char>::empty());
        assert(digit_char(n) as nat == n + '0' as nat);
        assert(digits_value(decimal_text(n)) == digits_value(Seq::<char>::empty()) * 10 + n);
    }
}

/// Writing a count `n` in decimal and appending a unit character gives duration text
/// that reads back as exactly `n` times the unit's seconds, whenever that fits in a
/// `u64`.
pub proof fn lemma_duration_round_trip(n: nat, unit: char)
    requires
        unit_seconds(unit).is_some(),
        n * unit_seconds(unit).unwrap() <= u64::MAX,
    ensures
        duration_seconds(decimal_text(n).push(unit)) == Some(
            (n * unit_seconds(unit).unwrap()) as nat,
        ),
{
    lemma_decimal_text_value(n);
    let text = decimal_text(n).push(unit);
    assert(text.drop_last() =~= decimal_text(n));
}

} // verus!
