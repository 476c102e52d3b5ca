//! Lenient readings of wire values: true-ish values and number-ish values.
use vstd::prelude::*;
use crate::value::Value;
use crate::numtext::{signed_in, parse_signed};
use crate::json_text::{json_text, dump_json};

verus! {

/// True-ish values: a non-zero number, a string that starts with `t` or
/// `T`, or `true`.
pub open spec fn truthy(v: Value) -> bool {
    match v {
        Value::Number(_, mantissa, _) => mantissa != 0,
        Value::Str(s) => s@.len() > 0 && (s@[0] == 't' || s@[0] == 'T'),
        Value::Bool(b) => b,
        _ => false,
    }
}

/// The integer a value stands for: a whole number within the range of
/// `i64`, or a string that Rust reads as an `i64`.
pub open spec fn int_value(v: Value) -> Option<int> {
    match v {
        Value::Number(positive, mantissa, exponent) => {
            if exponent != 0 {
                None
            } else if positive && mantissa <= i64::MAX {
                Some(mantissa as int)
            } else if !positive && mantissa <= i64::MAX + 1 {
                Some(-(mantissa as int))
            } else {
                None
            }
        },
        Value::Str(s) => signed_in(s@),
        _ => None,
    }
}

/// We support a variety of true-ish values: a non-zero number, a string
/// that starts with "t" or "T", or `true`. False otherwise.
pub fn json_bool(value: &Value) -> (r: bool)
    ensures
        r == truthy(*value),
{
    match value {
        Value::Number(_, mantissa, _) => *mantissa != 0,
        Value::Str(s) => {
            let t = s.as_str();
            t.unicode_len() > 0 && (t.get_char(0) == 't' || t.get_char(0) == 'T')
        },
        Value::Bool(b) => *b,
        _ => false,
    }
}

/// Translates a number-ish value into a signed integer; an error names
/// the value where it cannot.
pub fn json_int(value: &Value) -> (r: Result<i64, String>)
    ensures
        match r {
            Ok(n) => int_value(*value) == Some(n as int),
            Err(e) => int_value(*value) is None && e@ == "Invalid int value: "@ + json_text(*value),
        },
{
    let found = match value {
        Value::Number(positive, mantissa, exponent) => {
            if *exponent != 0 {
                None
            } else if *positive && *mantissa <= i64::MAX as u64 {
                Some(*mantissa as i64)
            } else if !*positive && *mantissa <= i64::MAX as u64 {
                Some(-(*mantissa as i64))
            } else if !*positive && *mantissa == 9223372036854775808u64 {
                Some(i64::MIN)
            } else {
                None
            }
        },
        Value::Str(s) => parse_signed(s.as_str()),
        _ => None,
    };
    match found {
        Some(n) => Ok(n),
        None => Err("Invalid int value: ".to_owned().concat(dump_json(value).as_str())),
    }
}

} // verus!
