//! Parsing of the script-based query payloads.
//!
//! EDID metadata and the brightness fallback both work by submitting a
//! script to a command-line query engine, which answers with JSON text:
//! an array of records, a single record, or nothing usable. What a
//! payload's records hold is a function of the text alone, so the
//! serde_json extractions carry named results: the record count and the
//! per-record field values. The tolerance policy — an array yields one
//! candidate per record, a lone object one, anything else none, and
//! every missing field falls back to an empty or zero default — is
//! decided and proved here, over those names.

use vstd::prelude::*;
use crate::edid::EdidEntry;
use crate::text::{is_ascii_ws, lemma_skip_ws_at, skip_ws};
use vstd::string::StringSliceAdditionalSpecFns;

verus! {

/// Number of elements of the payload when it is a JSON array; `None`
/// for any other payload (a lone object, a scalar, or text that is not
/// JSON).
pub uninterp spec fn payload_array_len_of(s: Seq<char>) -> Option<int>;

/// Whether the payload is a single JSON object.
pub uninterp spec fn payload_is_object_of(s: Seq<char>) -> bool;

/// Text of the named field of the payload's record at `idx`: an
/// array's records are its elements and a lone object is record 0.
/// `None` when there is no such record, no such field, or the field is
/// not textual.
pub uninterp spec fn payload_str_field_of(s: Seq<char>, idx: int, name: Seq<char>) -> Option<
    Seq<char>,
>;

/// Unsigned value of the named field of the payload's record at `idx`,
/// under the same record addressing.
pub uninterp spec fn payload_u64_field_of(s: Seq<char>, idx: int, name: Seq<char>) -> Option<u64>;

/// Boolean value of the named field of the payload's record at `idx`,
/// under the same record addressing.
pub uninterp spec fn payload_bool_field_of(s: Seq<char>, idx: int, name: Seq<char>) -> Option<
    bool,
>;

/// Relies on serde_json::from_str and Value::as_array: the element
/// count when the payload parses as an array.
#[verifier::external_body]
fn payload_array_len(raw: &str) -> (r: Option<usize>)
    ensures
        (match payload_array_len_of(raw@) {
            Some(n) => r is Some && r->0 == n,
            None => r is None,
        }),
{
    let v: serde_json::Value = match serde_json::from_str(raw) {
        Ok(v) => v,
        Err(_) => {
            return None;
        },
    };
    v.as_array().map(|a| a.len())
}

/// Relies on serde_json::from_str and Value::is_object: whether the
/// payload parses as a single object.
#[verifier::external_body]
fn payload_is_object(raw: &str) -> (r: bool)
    ensures
        r == payload_is_object_of(raw@),
{
    match serde_json::from_str::<serde_json::Value>(raw) {
        Ok(v) => v.is_object(),
        Err(_) => false,
    }
}

/// Relies on serde_json::from_str, Value::get and Value::as_str: the
/// named text field of the record at `idx`.
#[verifier::external_body]
fn payload_str_field(raw: &str, idx: usize, name: &str) -> (r: Option<String>)
    ensures
        (match payload_str_field_of(raw@, idx as int, name@) {
            Some(t) => r is Some && r->0@ == t,
            None => r is None,
        }),
{
    let v: serde_json::Value = match serde_json::from_str(raw) {
        Ok(v) => v,
        Err(_) => {
            return None;
        },
    };
    let rec = match &v {
        serde_json::Value::Array(a) => a.get(idx),
        serde_json::Value::Object(_) => std::slice::from_ref(&v).get(idx),
        _ => None,
    };
    rec.and_then(|x| x.get(name)).and_then(|x| x.as_str()).map(|s| s.to_owned())
}

/// Relies on serde_json::from_str, Value::get and Value::as_u64: the
/// named unsigned field of the record at `idx`.
#[verifier::external_body]
fn payload_u64_field(raw: &str, idx: usize, name: &str) -> (r: Option<u64>)
    ensures
        r == payload_u64_field_of(raw@, idx as int, name@),
{
    let v: serde_json::Value = match serde_json::from_str(raw) {
        Ok(v) => v,
        Err(_) => {
            return None;
        },
    };
    let rec = match &v {
        serde_json::Value::Array(a) => a.get(idx),
        serde_json::Value::Object(_) => std::slice::from_ref(&v).get(idx),
        _ => None,
    };
    rec.and_then(|x| x.get(name)).and_then(|x| x.as_u64())
}

/// Relies on serde_json::from_str, Value::get and Value::as_bool: the
/// named boolean field of the record at `idx`.
#[verifier::external_body]
fn payload_bool_field(raw: &str, idx: usize, name: &str) -> (r: Option<bool>)
    ensures
        r == payload_bool_field_of(raw@, idx as int, name@),
{
    let v: serde_json::Value = match serde_json::from_str(raw) {
        Ok(v) => v,
        Err(_) => {
            return None;
        },
    };
    let rec = match &v {
        serde_json::Value::Array(a) => a.get(idx),
        serde_json::Value::Object(_) => std::slice::from_ref(&v).get(idx),
        _ => None,
    };
    rec.and_then(|x| x.get(name)).and_then(|x| x.as_bool())
}

/// Number of candidate records a payload denotes: an array's element
/// count, one for a lone object, zero otherwise.
pub open spec fn spec_payload_record_count(s: Seq<char>) -> int {
    match payload_array_len_of(s) {
        Some(n) => n,
        None => if payload_is_object_of(s) {
            1
        } else {
            0
        },
    }
}

/// The named text field of a record, with the empty string standing in
/// when it is missing or not textual.
pub open spec fn spec_str_or_empty(f: Option<Seq<char>>, v: Seq<char>) -> bool {
    match f {
        Some(t) => v == t,
        None => v.len() == 0,
    }
}

/// The named unsigned field of a record as a `u32`, with zero standing
/// in when it is missing, not numeric, or too large.
pub open spec fn spec_u32_or_zero(f: Option<u64>) -> u32 {
    match f {
        Some(x) => if x <= 0xFFFF_FFFF {
            x as u32
        } else {
            0
        },
        None => 0,
    }
}

/// The named unsigned field of a record as an optional `u32`; values
/// that do not fit are treated as absent.
pub open spec fn spec_u32_opt(f: Option<u64>) -> Option<u32> {
    match f {
        Some(x) => if x <= 0xFFFF_FFFF {
            Some(x as u32)
        } else {
            None
        },
        None => None,
    }
}

/// The candidate the record at `idx` of payload `s` denotes, field by
/// field, defaults included.
pub open spec fn spec_edid_entry_at(s: Seq<char>, idx: int, e: EdidEntry) -> bool {
    &&& spec_str_or_empty(payload_str_field_of(s, idx, "Manufacturer"@), e.manufacturer@)
    &&& spec_str_or_empty(payload_str_field_of(s, idx, "Model"@), e.model@)
    &&& spec_str_or_empty(payload_str_field_of(s, idx, "SerialNumber"@), e.serial@)
    &&& spec_str_or_empty(payload_str_field_of(s, idx, "ProductCodeId"@), e.product_code@)
    &&& e.week_of_manufacture == spec_u32_or_zero(
        payload_u64_field_of(s, idx, "WeekOfManufacture"@),
    )
    &&& e.year_of_manufacture == spec_u32_or_zero(
        payload_u64_field_of(s, idx, "YearOfManufacture"@),
    )
    &&& (match payload_str_field_of(s, idx, "InstanceName"@) {
        Some(t) => e.instance_name is Some && e.instance_name->0@ == t,
        None => e.instance_name is None,
    })
    &&& e.video_output_technology == spec_u32_opt(
        payload_u64_field_of(s, idx, "VideoOutputTechnology"@),
    )
    &&& e.active == payload_bool_field_of(s, idx, "Active"@)
}

fn str_field(raw: &str, idx: usize, name: &str) -> (r: String)
    ensures
        spec_str_or_empty(payload_str_field_of(raw@, idx as int, name@), r@),
{
    match payload_str_field(raw, idx, name) {
        Some(s) => s,
        None => String::new(),
    }
}

fn u32_field(raw: &str, idx: usize, name: &str) -> (r: u32)
    ensures
        r == spec_u32_or_zero(payload_u64_field_of(raw@, idx as int, name@)),
{
    match payload_u64_field(raw, idx, name) {
        Some(x) => {
            if x <= 0xFFFF_FFFF {
                x as u32
            } else {
                0
            }
        },
        None => 0,
    }
}

fn u32_field_opt(raw: &str, idx: usize, name: &str) -> (r: Option<u32>)
    ensures
        r == spec_u32_opt(payload_u64_field_of(raw@, idx as int, name@)),
{
    match payload_u64_field(raw, idx, name) {
        Some(x) => {
            if x <= 0xFFFF_FFFF {
                Some(x as u32)
            } else {
                None
            }
        },
        None => None,
    }
}

/// Reads the record at `idx` of a payload, defaulting every missing
/// field.
fn entry_from_payload(raw: &str, idx: usize) -> (r: EdidEntry)
    ensures
        spec_edid_entry_at(raw@, idx as int, r),
{
    EdidEntry {
        manufacturer: str_field(raw, idx, "Manufacturer"),
        model: str_field(raw, idx, "Model"),
        serial: str_field(raw, idx, "SerialNumber"),
        product_code: str_field(raw, idx, "ProductCodeId"),
        week_of_manufacture: u32_field(raw, idx, "WeekOfManufacture"),
        year_of_manufacture: u32_field(raw, idx, "YearOfManufacture"),
        instance_name: payload_str_field(raw, idx, "InstanceName"),
        video_output_technology: u32_field_opt(raw, idx, "VideoOutputTechnology"),
        active: payload_bool_field(raw, idx, "Active"),
    }
}

/// Parses a raw metadata payload into the candidate pool: an array
/// yields one candidate per record, a single object yields one, and
/// anything else — including text that is not JSON — yields an empty
/// pool. Every candidate's fields are the payload's, with defaults
/// where a field is absent.
pub fn parse_edid_payload(raw: &str) -> (r: Vec<EdidEntry>)
    ensures
        r@.len() == spec_payload_record_count(raw@),
        forall|i: int| 0 <= i < r@.len() ==> spec_edid_entry_at(raw@, i, #[trigger] r@[i]),
{
    let count: usize = match payload_array_len(raw) {
        Some(n) => n,
        None => {
            if payload_is_object(raw) {
                1
            } else {
                0
            }
        },
    };
    let mut out: Vec<EdidEntry> = Vec::new();
    let mut i: usize = 0;
    while i < count
        invariant
            i <= count,
            out@.len() == i,
            forall|k: int| 0 <= k < i ==> spec_edid_entry_at(raw@, k, #[trigger] out@[k]),
        decreases count - i,
    {
        out.push(entry_from_payload(raw, i));
        i = i + 1;
    }
    out
}

/// Whether a set-brightness script run reported success: its output,
/// past any leading whitespace, starts with `OK` (79, 75). Anything
/// else — including empty output — counts as failure.
pub open spec fn spec_wmi_set_succeeded(out: Seq<u8>) -> bool {
    let t = skip_ws(out);
    t.len() >= 2 && t[0] == 79 && t[1] == 75
}

/// Judges the output of the set-brightness fallback script.
pub fn wmi_set_succeeded(out: &str) -> (r: bool)
    ensures
        r == spec_wmi_set_succeeded(out.spec_bytes()),
{
    let b = out.as_bytes();
    let mut i: usize = 0;
    while i < b.len() && (b[i] == 32 || b[i] == 9 || b[i] == 13 || b[i] == 10)
        invariant
            i <= b@.len(),
            forall|k: int| 0 <= k < i ==> is_ascii_ws(#[trigger] b@[k]),
        decreases b@.len() - i,
    {
        i = i + 1;
    }
    proof {
        lemma_skip_ws_at(b@, i as int);
    }
    if b.len() >= 2 && i <= b.len() - 2 {
        assert(skip_ws(b@)[0] == b@[i as int]);
        assert(skip_ws(b@)[1] == b@[i + 1]);
        b[i] == 79 && b[i + 1] == 75
    } else {
        false
    }
}

/// Reads the brightness-fallback payload: the record's `Current` field
/// holds the active instance's 8-bit brightness. A missing record,
/// missing field, or a value past `u32` yields nothing, and the caller
/// moves to the next fallback.
pub fn parse_wmi_brightness(raw: &str) -> (r: Option<u32>)
    ensures
        r == spec_u32_opt(payload_u64_field_of(raw@, 0, "Current"@)),
{
    u32_field_opt(raw, 0, "Current")
}

} // verus!
