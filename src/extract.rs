//! Typed readings of collected raw values.
use vstd::prelude::*;
use crate::decimal::{Decimal, decimal_text, lemma_pow10_positive, pow10, times_pow10};
use crate::json::{JsonValue, key_lookup, get_by_key};

verus! {

/// The value an optional reference points to.
pub open spec fn deref_opt(v: Option<&JsonValue>) -> Option<JsonValue> {
    match v {
        Some(x) => Some(*x),
        None => None,
    }
}

/// The characters of an optional text.
pub open spec fn opt_view(s: Option<String>) -> Option<Seq<char>> {
    match s {
        Some(t) => Some(t@),
        None => None,
    }
}

/// A text value.
pub open spec fn string_value(v: Option<JsonValue>) -> Option<Seq<char>> {
    match v {
        Some(JsonValue::Str(s)) => Some(s@),
        _ => None,
    }
}

/// A number value read as an exact decimal.
pub open spec fn decimal_value(v: Option<JsonValue>) -> Option<Decimal> {
    match v {
        Some(JsonValue::Number(t)) => match decimal_text(t@) {
            Some((m, s)) => Some(Decimal { mantissa: m as i128, scale: s as i32 }),
            None => None,
        },
        _ => None,
    }
}

/// A number value that is a whole, non-negative number fitting a `u64`.
pub open spec fn count_value(v: Option<JsonValue>) -> Option<u64> {
    match v {
        Some(JsonValue::Number(t)) => match decimal_text(t@) {
            Some((m, s)) => if s <= 0 && m >= 0 && m * pow10((-s) as nat) <= u64::MAX {
                Some((m * pow10((-s) as nat)) as u64)
            } else {
                None
            },
            None => None,
        },
        _ => None,
    }
}

/// A boolean value.
pub open spec fn bool_value(v: Option<JsonValue>) -> Option<bool> {
    match v {
        Some(JsonValue::Bool(b)) => Some(b),
        _ => None,
    }
}

/// The entry `key` of an object value.
pub open spec fn nested_value(v: Option<JsonValue>, key: Seq<char>) -> Option<JsonValue> {
    match v {
        Some(x) => key_lookup(x, key),
        None => None,
    }
}

/// Reads a text value.
pub fn as_string(v: Option<&JsonValue>) -> (r: Option<String>)
    ensures
        opt_view(r) == string_value(deref_opt(v)),
{
    match v {
        Some(JsonValue::Str(s)) => Some(s.clone()),
        _ => None,
    }
}

/// Reads a number value as an exact decimal.
pub fn as_decimal(v: Option<&JsonValue>) -> (r: Option<Decimal>)
    ensures
        r == decimal_value(deref_opt(v)),
{
    match v {
        Some(JsonValue::Number(t)) => Decimal::parse(t.as_str()),
        _ => None,
    }
}

/// Reads a number value that is a whole, non-negative number fitting a `u64`.
pub fn as_count(v: Option<&JsonValue>) -> (r: Option<u64>)
    ensures
        r == count_value(deref_opt(v)),
{
    match v {
        Some(JsonValue::Number(t)) => match Decimal::parse(t.as_str()) {
            Some(d) => {
                if d.scale > 0 || d.mantissa < 0 {
                    return None;
                }
                let k = (-(d.scale as i64)) as usize;
                if d.mantissa == 0 {
                    assert(d.mantissa * pow10(k as nat) == 0) by (nonlinear_arith)
                        requires
                            d.mantissa == 0,
                    ;
                    return Some(0);
                }
                proof {
                    lemma_pow10_positive(k as nat);
                    assert(d.mantissa * pow10(k as nat) > 0) by (nonlinear_arith)
                        requires
                            d.mantissa > 0,
                            pow10(k as nat) >= 1,
                    ;
                }
                match times_pow10(d.mantissa, k) {
                    Some(x) => if x <= u64::MAX as i128 {
                        Some(x as u64)
                    } else {
                        None
                    },
                    None => None,
                }
            },
            None => None,
        },
        _ => None,
    }
}

/// Reads a boolean value.
pub fn as_bool(v: Option<&JsonValue>) -> (r: Option<bool>)
    ensures
        r == bool_value(deref_opt(v)),
{
    match v {
        Some(JsonValue::Bool(b)) => Some(*b),
        _ => None,
    }
}

/// The entry `key` of an object value.
pub fn nested<'a>(v: Option<&'a JsonValue>, key: &str) -> (r: Option<&'a JsonValue>)
    ensures
        deref_opt(r) == nested_value(deref_opt(v), key@),
{
    match v {
        Some(x) => get_by_key(x, Some(key)),
        None => None,
    }
}

} // verus!
