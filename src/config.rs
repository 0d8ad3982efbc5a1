use vstd::prelude::*;
use crate::decimal::{integer_in_range, parse_integer};
use crate::duration::{duration_seconds, parse_duration, Duration, DurationView};
use crate::environment::{lookup, Environment};

verus! {

/// What `str::to_uppercase` gives for a text.
pub uninterp spec fn upper_of(s: Seq<char>) -> Seq<char>;

/// What `str::to_lowercase` gives for a text.
pub uninterp spec fn lower_of(s: Seq<char>) -> Seq<char>;

/// Relies on `str::to_uppercase`: the full Unicode upper-case mapping, which depends
/// on the characters alone.
#[verifier::external_body]
fn to_upper(s: &str) -> (r: String)
    ensures
        r@ == upper_of(s@),
{
    s.to_uppercase()
}

/// Relies on `str::to_lowercase`: the full Unicode lower-case mapping, which depends
/// on the characters alone.
#[verifier::external_body]
fn to_lower(s: &str) -> (r: String)
    ensures
        r@ == lower_of(s@),
{
    s.to_lowercase()
}

/// The model of an optional value.
pub open spec fn view_of<T: View>(o: Option<T>) -> Option<T::V> {
    match o {
        Some(x) => Some(x@),
        None => None,
    }
}

/// The model of an optional text.
pub open spec fn text_of(o: Option<String>) -> Option<Seq<char>> {
    match o {
        Some(s) => Some(s@),
        None => None,
    }
}

/// What a typed read gives for the raw text of a variable (`None` where it is not
/// set): the parsed value, or else the default.
pub open spec fn resolved<V>(
    value: Option<Seq<char>>,
    parsed: spec_fn(Seq<char>) -> Option<V>,
    default: Option<V>,
) -> Option<V> {
    match value {
        None => default,
        Some(text) => match parsed(text) {
            Some(v) => Some(v),
            None => default,
        },
    }
}

/// What a typed read of the variable `name` gives in `vars`: the name is upper-cased
/// before it is looked up.
pub open spec fn typed_lookup<V>(
    vars: Map<Seq<char>, Seq<char>>,
    name: Seq<char>,
    parsed: spec_fn(Seq<char>) -> Option<V>,
    default: Option<V>,
) -> Option<V> {
    resolved(lookup(vars, upper_of(name)), parsed, default)
}

/// A type that an environment variable can be read as, with a fallback value.
pub trait EnvConfig: Sized + View {
    /// The value that the text of a set variable stands for, or `None` where the
    /// text does not parse as this type.
    spec fn parsed(text: Seq<char>) -> Option<Self::V>;

    /// Parses the text of a set variable.
    fn parse(text: &str) -> (r: Option<Self>)
        ensures
            view_of(r) == Self::parsed(text@),
    ;

    /// The typed value of a variable's raw text (`None` where it is not set):
    /// `default` where it is not set or does not parse.
    fn from_value(value: Option<String>, default: Option<Self>) -> (r: Option<Self>)
        ensures
            view_of(r) == resolved(text_of(value), |t| Self::parsed(t), view_of(default)),
    {
        match value {
            None => default,
            Some(text) => match Self::parse(text.as_str()) {
                Some(v) => Some(v),
                None => default,
            },
        }
    }

    /// Reads the variable `env_var`, upper-cased, from `env` as this type:
    /// `default` where it is not set or does not parse.
    fn get(env: &Environment, env_var: &str, default: Option<Self>) -> (r: Option<Self>)
        ensures
            view_of(r) == typed_lookup(env@, env_var@, |t| Self::parsed(t), view_of(default)),
    {
        let key = to_upper(env_var);
        let value = env.var(key.as_str());
        Self::from_value(value, default)
    }
}

/// The lower-cased texts that read as `true`.
pub open spec fn is_truthy(lowered: Seq<char>) -> bool {
    lowered == "1"@ || lowered == "true"@ || lowered == "t"@
}

impl EnvConfig for bool {
    /// A set variable is `true` when its lower-cased text is `1`, `true` or `t`, and
    /// `false` for any other text: it never falls back to the default.
    open spec fn parsed(text: Seq<char>) -> Option<bool> {
        Some(is_truthy(lower_of(text)))
    }

    fn parse(text: &str) -> (r: Option<bool>) {
        let lower = to_lower(text);
        let one = "1".to_owned();
        let word = "true".to_owned();
        let letter = "t".to_owned();
        Some(lower == one || lower == word || lower == letter)
    }
}

impl EnvConfig for String {
    /// A set variable's text, unchanged.
    open spec fn parsed(text: Seq<char>) -> Option<Seq<char>> {
        Some(text)
    }

    fn parse(text: &str) -> (r: Option<String>) {
        Some(text.to_owned())
    }
}

impl EnvConfig for Duration {
    /// Duration text: a decimal count followed by `s`, `m`, `h` or `d`.
    open spec fn parsed(text: Seq<char>) -> Option<DurationView> {
        match duration_seconds(text) {
            Some(n) => Some(DurationView { secs: n, nanos: 0 }),
            None => None,
        }
    }

    fn parse(text: &str) -> (r: Option<Duration>) {
        parse_duration(text)
    }
}

/// The magnitude `m` with the given sign, as an `i128`.
fn signed_value(negative: bool, m: u128) -> (r: i128)
    requires
        negative ==> 1 <= m <= i128::MAX + 1,
        !negative ==> m <= i128::MAX,
    ensures
        r == (if negative {
            -(m as int)
        } else {
            m as int
        }),
{
    if negative {
        -((m - 1) as i128) - 1
    } else {
        m as i128
    }
}

impl EnvConfig for u8 {
    /// Standard decimal parsing: an optional `+`, digits, and a value in range.
    open spec fn parsed(text: Seq<char>) -> Option<u8> {
        match integer_in_range(text, false, 0, u8::MAX as int) {
            Some(v) => Some(v as u8),
            None => None,
        }
    }

    fn parse(text: &str) -> (r: Option<u8>) {
        match parse_integer(text, false, u8::MAX as u128, 0) {
            Some((_, m)) => Some(m as u8),
            None => None,
        }
    }
}

impl EnvConfig for u16 {
    /// Standard decimal parsing: an optional `+`, digits, and a value in range.
    open spec fn parsed(text: Seq<char>) -> Option<u16> {
        match integer_in_range(text, false, 0, u16::MAX as int) {
            Some(v) => Some(v as u16),
            None => None,
        }
    }

    fn parse(text: &str) -> (r: Option<u16>) {
        match parse_integer(text, false, u16::MAX as u128, 0) {
            Some((_, m)) => Some(m as u16),
            None => None,
        }
    }
}

impl EnvConfig for u32 {
    /// Standard decimal parsing: an optional `+`, digits, and a value in range.
    open spec fn parsed(text: Seq<char>) -> Option<u32> {
        match integer_in_range(text, false, 0, u32::MAX as int) {
            Some(v) => Some(v as u32),
            None => None,
        }
    }

    fn parse(text: &str) -> (r: Option<u32>) {
        match parse_integer(text, false, u32::MAX as u128, 0) {
            Some((_, m)) => Some(m as u32),
            None => None,
        }
    }
}

impl EnvConfig for u64 {
    /// Standard decimal parsing: an optional `+`, digits, and a value in range.
    open spec fn parsed(text: Seq<char>) -> Option<u64> {
        match integer_in_range(text, false, 0, u64::MAX as int) {
            Some(v) => Some(v as u64),
            None => None,
        }
    }

    fn parse(text: &str) -> (r: Option<u64>) {
        match parse_integer(text, false, u64::MAX as u128, 0) {
            Some((_, m)) => Some(m as u64),
            None => None,
        }
    }
}

impl EnvConfig for u128 {
    /// Standard decimal parsing: an optional `+`, digits, and a value in range.
    open spec fn parsed(text: Seq<char>) -> Option<u128> {
        match integer_in_range(text, false, 0, u128::MAX as int) {
            Some(v) => Some(v as u128),
            None => None,
        }
    }

    fn parse(text: &str) -> (r: Option<u128>) {
        match parse_integer(text, false, u128::MAX, 0) {
            Some((_, m)) => Some(m),
            None => None,
        }
    }
}

impl EnvConfig for usize {
    /// Standard decimal parsing: an optional `+`, digits, and a value in range.
    open spec fn parsed(text: Seq<char>) -> Option<usize> {
        match integer_in_range(text, false, 0, usize::MAX as int) {
            Some(v) => Some(v as usize),
            None => None,
        }
    }

    fn parse(text: &str) -> (r: Option<usize>) {
        match parse_integer(text, false, usize::MAX as u128, 0) {
            Some((_, m)) => Some(m as usize),
            None => None,
        }
    }
}

impl EnvConfig for i8 {
    /// Standard decimal parsing: an optional sign, digits, and a value in range.
    open spec fn parsed(text: Seq<char>) -> Option<i8> {
        match integer_in_range(text, true, i8::MIN as int, i8::MAX as int) {
            Some(v) => Some(v as i8),
            None => None,
        }
    }

    fn parse(text: &str) -> (r: Option<i8>) {
        match parse_integer(text, true, i8::MAX as u128, i8::MAX as u128 + 1) {
            Some((negative, m)) => Some(signed_value(negative, m) as i8),
            None => None,
        }
    }
}

impl EnvConfig for i16 {
    /// Standard decimal parsing: an optional sign, digits, and a value in range.
    open spec fn parsed(text: Seq<char>) -> Option<i16> {
        match integer_in_range(text, true, i16::MIN as int, i16::MAX as int) {
            Some(v) => Some(v as i16),
            None => None,
        }
    }

    fn parse(text: &str) -> (r: Option<i16>) {
        match parse_integer(text, true, i16::MAX as u128, i16::MAX as u128 + 1) {
            Some((negative, m)) => Some(signed_value(negative, m) as i16),
            None => None,
        }
    }
}

impl EnvConfig for i32 {
    /// Standard decimal parsing: an optional sign, digits, and a value in range.
    open spec fn parsed(text: Seq<char>) -> Option<i32> {
        match integer_in_range(text, true, i32::MIN as int, i32::MAX as int) {
            Some(v) => Some(v as i32),
            None => None,
        }
    }

    fn parse(text: &str) -> (r: Option<i32>) {
        match parse_integer(text, true, i32::MAX as u128, i32::MAX as u128 + 1) {
            Some((negative, m)) => Some(signed_value(negative, m) as i32),
            None => None,
        }
    }
}

impl EnvConfig for i64 {
    /// Standard decimal parsing: an optional sign, digits, and a value in range.
    open spec fn parsed(text: Seq<char>) -> Option<i64> {
        match integer_in_range(text, true, i64::MIN as int, i64::MAX as int) {
            Some(v) => Some(v as i64),
            None => None,
        }
    }

    fn parse(text: &str) -> (r: Option<i64>) {
        match parse_integer(text, true, i64::MAX as u128, i64::MAX as u128 + 1) {
            Some((negative, m)) => Some(signed_value(negative, m) as i64),
            None => None,
        }
    }
}

impl EnvConfig for i128 {
    /// Standard decimal parsing: an optional sign, digits, and a value in range.
    open spec fn parsed(text: Seq<char>) -> Option<i128> {
        match integer_in_range(text, true, i128::MIN as int, i128::MAX as int) {
            Some(v) => Some(v as i128),
            None => None,
        }
    }

    fn parse(text: &str) -> (r: Option<i128>) {
        match parse_integer(text, true, i128::MAX as u128, i128::MAX as u128 + 1) {
            Some((negative, m)) => Some(signed_value(negative, m)),
            None => None,
        }
    }
}

impl EnvConfig for isize {
    /// Standard decimal parsing: an optional sign, digits, and a value in range.
    open spec fn parsed(text: Seq<char>) -> Option<isize> {
        match integer_in_range(text, true, isize::MIN as int, isize::MAX as int) {
            Some(v) => Some(v as isize),
            None => None,
        }
    }

    fn parse(text: &str) -> (r: Option<isize>) {
        match parse_integer(text, true, isize::MAX as u128, isize::MAX as u128 + 1) {
            Some((negative, m)) => Some(signed_value(negative, m) as isize),
            None => None,
        }
    }
}

/// A variable that the environment does not hold reads as the default as it was
/// passed, and as nothing where no default was passed, whatever the type.
pub proof fn lemma_absent_gives_default<T: EnvConfig>(
    vars: Map<Seq<char>, Seq<char>>,
    name: Seq<char>,
    default: T::V,
)
    requires
        !vars.dom().contains(upper_of(name)),
    ensures
        typed_lookup(vars, name, |t| T::parsed(t), Some(default)) == Some(default),
        typed_lookup(vars, name, |t| T::parsed(t), None) == None::<T::V>,
{
}

/// Reading the same variable twice, from the same environment and with the same
/// default, gives equal results.
pub proof fn lemma_lookup_repeatable<T: EnvConfig>(
    vars: Map<Seq<char>, Seq<char>>,
    name: Seq<char>,
    default: Option<T::V>,
    first: Option<T::V>,
    second: Option<T::V>,
)
    requires
        first == typed_lookup(vars, name, |t| T::parsed(t), default),
        second == typed_lookup(vars, name, |t| T::parsed(t), default),
    ensures
        first == second,
{
}

/// A set variable reads as a boolean whatever the default: `true` for the texts
/// `1`, `true` and `t` in any case, `false` for every other text.
pub proof fn lemma_bool_ignores_default(
    vars: Map<Seq<char>, Seq<char>>,
    name: Seq<char>,
    default: Option<bool>,
)
    requires
        vars.dom().contains(upper_of(name)),
    ensures
        typed_lookup(vars, name, |t| bool::parsed(t), default) == Some(
            is_truthy(lower_of(vars[upper_of(name)])),
        ),
{
}

} // verus!
