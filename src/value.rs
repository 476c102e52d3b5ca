//! Dynamic values carried on the wire: a tree of nulls, booleans,
//! numbers, strings, arrays and objects.
use vstd::prelude::*;

verus! {

/// A wire value. A number is held as json text reads it: its sign, its
/// decimal mantissa and its decimal exponent (`-12.5` is `(false, 125, -1)`).
/// An object keeps its keys in the order they were written.
#[derive(Debug)]
pub enum Value {
    Null,
    Bool(bool),
    Number(bool, u64, i16),
    Str(String),
    Array(Vec<Value>),
    Object(Vec<(String, Value)>),
}

/// The value stored under `key` in a list of object fields: the first
/// field with that key, as a json reader finds it.
pub open spec fn lookup(fields: Seq<(String, Value)>, key: Seq<char>) -> Option<Value>
    decreases fields.len(),
{
    if fields.len() == 0 {
        None
    } else if fields[0].0@ == key {
        Some(fields[0].1)
    } else {
        lookup(fields.drop_first(), key)
    }
}

/// The field of `v` under `key`, where `v` is an object.
pub open spec fn field_of(v: Value, key: Seq<char>) -> Option<Value> {
    match v {
        Value::Object(fields) => lookup(fields@, key),
        _ => None,
    }
}

/// The text of `v`, where `v` is a string.
pub open spec fn text_of(v: Option<Value>) -> Option<Seq<char>> {
    match v {
        Some(Value::Str(s)) => Some(s@),
        _ => None,
    }
}

/// A non-negative integer number with no exponent, as its value.
pub open spec fn whole_of(v: Option<Value>) -> Option<u64> {
    match v {
        Some(Value::Number(positive, mantissa, exponent)) => {
            if positive && exponent == 0 {
                Some(mantissa)
            } else {
                None
            }
        },
        _ => None,
    }
}

/// The number value of `n`.
pub open spec fn whole(n: u64) -> Value {
    Value::Number(true, n, 0)
}

/// The fields that remain once the first field under `key` is taken out.
pub open spec fn without_key(fields: Seq<(String, Value)>, key: Seq<char>) -> Seq<(String, Value)>
    decreases fields.len(),
{
    if fields.len() == 0 {
        fields
    } else if fields[0].0@ == key {
        fields.drop_first()
    } else {
        seq![fields[0]] + without_key(fields.drop_first(), key)
    }
}

/// Taking out one key leaves every other key's value in place.
pub proof fn lemma_lookup_without(fields: Seq<(String, Value)>, key: Seq<char>, other: Seq<char>)
    requires
        key != other,
    ensures
        lookup(without_key(fields, key), other) == lookup(fields, other),
    decreases fields.len(),
{
    if fields.len() > 0 && fields[0].0@ != key {
        lemma_lookup_without(fields.drop_first(), key, other);
        let w = seq![fields[0]] + without_key(fields.drop_first(), key);
        assert(w[0] == fields[0]);
        assert(w.drop_first() =~= without_key(fields.drop_first(), key));
    }
}

/// Takes the value under `key` out of an object's fields.
pub fn take_field(fields: &mut Vec<(String, Value)>, key: &String) -> (r: Option<Value>)
    ensures
        r == lookup(old(fields)@, key@),
        final(fields)@ == without_key(old(fields)@, key@),
{
    let ghost orig = fields@;
    let mut i: usize = 0;
    proof {
        assert(orig.subrange(0, orig.len() as int) =~= orig);
        assert(orig.subrange(0, 0) =~= Seq::<(String, Value)>::empty());
    }
    while i < fields.len()
        invariant
            fields@ == orig,
            orig == old(fields)@,
            i <= orig.len(),
            lookup(orig, key@) == lookup(orig.subrange(i as int, orig.len() as int), key@),
            without_key(orig, key@) == orig.subrange(0, i as int) + without_key(
                orig.subrange(i as int, orig.len() as int),
                key@,
            ),
        decreases orig.len() - i,
    {
        let ghost rest = orig.subrange(i as int, orig.len() as int);
        proof {
            assert(rest.drop_first() =~= orig.subrange(i + 1, orig.len() as int));
        }
        if fields[i].0 == *key {
            let (_, v) = fields.remove(i);
            assert(v == orig[i as int].1);
            proof {
                assert(rest[0] == orig[i as int]);
                assert(lookup(rest, key@) == Some(rest[0].1));
                assert(without_key(rest, key@) == rest.drop_first());
                assert(fields@ =~= orig.subrange(0, i as int) + rest.drop_first());
            }
            assert(Some(v) == lookup(orig, key@));
            assert(fields@ == without_key(orig, key@));
            return Some(v);
        }
        proof {
            assert(orig.subrange(0, i + 1) =~= orig.subrange(0, i as int) + seq![orig[i as int]]);
            assert(without_key(rest, key@) == seq![rest[0]] + without_key(rest.drop_first(), key@));
            assert(orig.subrange(0, i as int) + (seq![rest[0]] + without_key(rest.drop_first(), key@))
                =~= orig.subrange(0, i + 1) + without_key(rest.drop_first(), key@));
        }
        i = i + 1;
    }
    proof {
        assert(orig.subrange(0, orig.len() as int) =~= orig);
        assert(orig.subrange(orig.len() as int, orig.len() as int).len() == 0);
        assert(orig + Seq::<(String, Value)>::empty() =~= orig);
    }
    None
}

} // verus!
