//! Json text to and from wire values, through the `json` crate.
use vstd::prelude::*;
use crate::value::Value;
use vstd::utf8::encode_utf8;

verus! {

/// The `json` crate's value tree, carried through opaque.
#[verifier::external_type_specification]
#[verifier::external_body]
pub struct ExJsonValue(json::JsonValue);

/// The value that the `json` crate reads from a text, or `None` where the
/// text is not json.
pub uninterp spec fn parsed_json(text: Seq<char>) -> Option<Value>;

/// The compact json text that the `json` crate writes for a value.
pub uninterp spec fn json_text(v: Value) -> Seq<char>;

/// Longest run of ascii digits that a text given to the `json` reader may
/// hold. The reader counts a number's decimal exponent in an `i16`, one
/// step down per fraction digit, so a longer run of fraction digits would
/// overflow it.
pub const MAX_DIGIT_RUN: usize = 32767;

/// An ascii digit byte.
pub open spec fn is_digit_byte(b: u8) -> bool {
    48 <= b <= 57
}

/// The length of the run of digit bytes that ends just before position `i`.
pub open spec fn run_before(b: Seq<u8>, i: int) -> nat
    decreases i,
{
    if i <= 0 || i > b.len() || !is_digit_byte(b[i - 1]) {
        0
    } else {
        run_before(b, i - 1) + 1
    }
}

/// The utf-8 bytes of `text` hold no run of more than `MAX_DIGIT_RUN` digits.
pub open spec fn readable(text: Seq<char>) -> bool {
    forall|i: int| 0 <= i <= encode_utf8(text).len() ==> #[trigger] run_before(encode_utf8(text), i) <= MAX_DIGIT_RUN
}

/// What reading `text` as json gives: the `json` crate's tree where the
/// text is readable, else `None`.
pub open spec fn read_json_result(text: Seq<char>) -> Option<Value> {
    if readable(text) {
        parsed_json(text)
    } else {
        None
    }
}

/// Whether `text` is safe to hand to the `json` reader.
pub fn is_readable(text: &str) -> (r: bool)
    ensures
        r == readable(text@),
{
    let b = text.as_bytes();
    let ghost e = encode_utf8(text@);
    let mut run: usize = 0;
    let mut i: usize = 0;
    while i < b.len()
        invariant
            b@ == e,
            e == encode_utf8(text@),
            i <= b@.len(),
            run == run_before(e, i as int),
            forall|j: int| 0 <= j <= i ==> #[trigger] run_before(e, j) <= MAX_DIGIT_RUN,
        decreases b.len() - i,
    {
        let c = b[i];
        if 48 <= c && c <= 57 {
            if run >= MAX_DIGIT_RUN {
                assert(run_before(e, i + 1) > MAX_DIGIT_RUN);
                return false;
            }
            run = run + 1;
        } else {
            run = 0;
        }
        i = i + 1;
    }
    true
}

/// Reads `text` as json, refusing texts that the `json` reader cannot
/// take safely.
pub fn read_json(text: &str) -> (r: Option<Value>)
    ensures
        r == read_json_result(text@),
{
    if is_readable(text) {
        parse_json(text)
    } else {
        None
    }
}

/// Relies on `json::parse`: the tree it reads depends on the text alone.
/// It panics, where integer overflow is checked, on a run of fraction
/// digits too long for its `i16` exponent; `readable` rules those out.
#[verifier::external_body]
fn parse_json(text: &str) -> (r: Option<Value>)
    requires
        readable(text@),
    ensures
        r == parsed_json(text@),
{
    json::parse(text).ok().map(from_json)
}

/// Relies on `json::JsonValue::dump`: the text it writes depends on the
/// tree alone.
#[verifier::external_body]
pub(crate) fn dump_json(v: &Value) -> (r: String)
    ensures
        r@ == json_text(*v),
{
    to_json(v).dump()
}

/// The `json` crate's tree as a wire value, variant for variant, for
/// `parse_json`. Relies on `json::number::Number::as_parts` for the sign,
/// mantissa and exponent of a number.
#[verifier::external_body]
fn from_json(j: json::JsonValue) -> Value {
    match j {
        json::JsonValue::Null => Value::Null,
        json::JsonValue::Short(s) => Value::Str(s.as_str().to_string()),
        json::JsonValue::String(s) => Value::Str(s),
        json::JsonValue::Number(n) => {
            let (positive, mantissa, exponent) = n.as_parts();
            Value::Number(positive, mantissa, exponent)
        },
        json::JsonValue::Boolean(b) => Value::Bool(b),
        json::JsonValue::Object(o) => Value::Object(
            o.iter().map(|(k, v)| (k.to_string(), from_json(v.clone()))).collect(),
        ),
        json::JsonValue::Array(a) => Value::Array(a.into_iter().map(from_json).collect()),
    }
}

/// A wire value as the `json` crate's tree, variant for variant, for
/// `dump_json`. Relies on `json::number::Number::from_parts` to build a
/// number from its sign, mantissa and exponent.
#[verifier::external_body]
fn to_json(v: &Value) -> json::JsonValue {
    match v {
        Value::Null => json::JsonValue::Null,
        Value::Bool(b) => json::JsonValue::Boolean(*b),
        Value::Number(p, m, e) => json::JsonValue::Number(json::number::Number::from_parts(*p, *m, *e)),
        Value::Str(s) => json::JsonValue::String(s.clone()),
        Value::Array(a) => json::JsonValue::Array(a.iter().map(to_json).collect()),
        Value::Object(f) => {
            let mut o = json::object::Object::new();
            f.iter().for_each(|(k, x)| o.insert(k, to_json(x)));
            json::JsonValue::Object(o)
        },
    }
}

} // verus!
