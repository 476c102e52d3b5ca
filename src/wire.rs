//! Envelopes as json text, the form they take on the bus.
use vstd::prelude::*;
use crate::message::{TransportMessage, encode_envelope, decode_envelope, envelope_encoded, envelope_decodes, holds_envelope};
use crate::json_text::{json_text, read_json_result, read_json, dump_json};

verus! {

/// The json text of an envelope.
pub fn envelope_text(tm: TransportMessage) -> (r: String)
    ensures
        exists|v| envelope_encoded(v, tm) && r@ == json_text(v),
{
    let ghost t = tm;
    let v = encode_envelope(tm);
    let r = dump_json(&v);
    assert(envelope_encoded(v, t));
    r
}

/// The envelope that a json text holds; `None` where it is not json or
/// holds no envelope.
pub fn envelope_from_text(text: &str) -> (r: Option<TransportMessage>)
    ensures
        match read_json_result(text@) {
            Some(v) => match r {
                Some(tm) => envelope_decodes(v, tm),
                None => !holds_envelope(v),
            },
            None => r is None,
        },
{
    match read_json(text) {
        Some(v) => decode_envelope(v),
        None => None,
    }
}

} // verus!
