//! The line classification probe.
//!
//! Before full decoding is attempted, a raw line is probed: it passes when it
//! parses as a JSON object whose `time` field is an integer. The probe is
//! deliberately minimal — a line may pass it and still fail full decoding,
//! which is then a hard error rather than a skip.

use vstd::prelude::*;

use crate::json::{json_fields, lookup, parse_json_object, spec_lookup, JsonValue, JsonValueV};

verus! {

/// True when a line parses as a JSON object with an integer `time` field.
pub open spec fn spec_probe(s: Seq<char>) -> bool {
    match json_fields(s) {
        Some(fs) => match spec_lookup(fs, "time"@) {
            Some(JsonValueV::Int(_)) => true,
            _ => false,
        },
        None => false,
    }
}

/// The classification probe: decides whether a raw line is plausibly a log
/// record, by attempting to read only its timestamp.
pub fn looks_like_log_line(line: &str) -> (r: bool)
    ensures
        r == spec_probe(line@),
{
    match parse_json_object(line) {
        Some(fields) => match lookup(&fields, "time") {
            Some(JsonValue::Int(_)) => true,
            _ => false,
        },
        None => false,
    }
}

} // verus!
