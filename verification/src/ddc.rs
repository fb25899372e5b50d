//! DDC/CI decision layer: brightness mapping and its WMI fallback
//! chain, input-source code mapping with read-back verification, power
//! codes, and capability-string trimming. The VCP transactions
//! themselves are the caller's device edge; every function here works
//! on the values those transactions carry.

use vstd::prelude::*;
use vstd::string::StringSliceAdditionalSpecFns;
use crate::displays::{BrightnessInfo, ControlError};
use crate::text::{
    ascii_lower, bytes_eq, dec_val, hex_val, is_dec_digit, is_hex_digit, lower_seq, parse_u32_dec,
    parse_u32_hex, prefix_to, trim_at_byte, utf8_lossy, utf8_lossy_of,
};

verus! {

/// The brightness value a percentage maps to on a monitor's own
/// `min..max` span, with rounding.
pub open spec fn spec_brightness_target(min: u32, max: u32, percent: u32) -> int {
    let pct = if percent > 100 {
        100int
    } else {
        percent as int
    };
    min + ((max - min) * pct + 50) / 100
}

/// Maps a 0..100 percentage onto a monitor's brightness span; larger
/// percentages clamp to 100 first. The result always lands inside the
/// span.
pub fn brightness_target_value(min: u32, max: u32, percent: u32) -> (r: u32)
    requires
        min <= max,
    ensures
        r == spec_brightness_target(min, max, percent),
        min <= r <= max,
{
    let pct: u64 = if percent > 100 {
        100
    } else {
        percent as u64
    };
    let span: u64 = (max - min) as u64;
    proof {
        assert(span * pct <= span * 100) by (nonlinear_arith)
            requires
                0 <= span,
                0 <= pct <= 100,
        ;
        assert((span * pct + 50) / 100 <= (span * 100 + 50) / 100) by (nonlinear_arith)
            requires
                span * pct <= span * 100,
        ;
        assert((span * 100 + 50) / 100 == span) by (nonlinear_arith);
        assert(span * 100 + 50 <= u64::MAX) by (nonlinear_arith)
            requires
                0 <= span <= u32::MAX,
        ;
    }
    let v: u64 = (span * pct + 50) / 100;
    min + (v as u32)
}

/// Brightness triple reported through the WMI fallback path, which
/// yields one 8-bit percentage on a fixed 0..100 span.
pub open spec fn spec_wmi_brightness(current: u32) -> BrightnessInfo {
    BrightnessInfo { min: 0, current: if current > 100 {
        100
    } else {
        current
    }, max: 100 }
}

/// Builds the brightness triple for a WMI percentage reading.
pub fn wmi_brightness_info(current: u32) -> (r: BrightnessInfo)
    ensures
        r == spec_wmi_brightness(current),
        r.wf(),
{
    BrightnessInfo { min: 0, current: if current > 100 {
        100
    } else {
        current
    }, max: 100 }
}

/// What stands in when the DDC/CI strategy fails: the WMI percentage
/// when that strategy answered, else the conservative 0/50/100 default.
pub open spec fn spec_fallback_brightness(wmi: Option<u32>) -> BrightnessInfo {
    match wmi {
        Some(c) => spec_wmi_brightness(c),
        None => BrightnessInfo { min: 0, current: 50, max: 100 },
    }
}

/// The brightness a read reports after the fallback chain: a DDC/CI
/// triple with a coherent span wins (its current value clamped into the
/// span), else a WMI percentage on the 0..100 span, else the
/// conservative default — the caller's UI must always have something to
/// render.
pub open spec fn spec_resolve_brightness(ddc: Option<BrightnessInfo>, wmi: Option<u32>)
    -> BrightnessInfo {
    match ddc {
        Some(b) => {
            if b.min <= b.max {
                BrightnessInfo {
                    min: b.min,
                    current: if b.current < b.min {
                        b.min
                    } else if b.current > b.max {
                        b.max
                    } else {
                        b.current
                    },
                    max: b.max,
                }
            } else {
                spec_fallback_brightness(wmi)
            }
        },
        None => spec_fallback_brightness(wmi),
    }
}

/// Resolves a brightness read from the DDC/CI outcome and the WMI
/// fallback outcome (`None` marks a failed strategy). The result always
/// satisfies `min <= current <= max`.
pub fn resolve_brightness(ddc: Option<BrightnessInfo>, wmi: Option<u32>) -> (r: BrightnessInfo)
    ensures
        r == spec_resolve_brightness(ddc, wmi),
        r.wf(),
{
    match ddc {
        Some(b) => {
            if b.min <= b.max {
                return BrightnessInfo {
                    min: b.min,
                    current: if b.current < b.min {
                        b.min
                    } else if b.current > b.max {
                        b.max
                    } else {
                        b.current
                    },
                    max: b.max,
                };
            }
        },
        None => {},
    }
    match wmi {
        Some(c) => wmi_brightness_info(c),
        None => BrightnessInfo { min: 0, current: 50, max: 100 },
    }
}

/// The brightness a one-step adjustment lands on: the current value
/// moved by `delta` and clamped into the span.
pub open spec fn spec_next_brightness(info: BrightnessInfo, delta: i32) -> int {
    let next = info.current + delta;
    if next < info.min {
        info.min as int
    } else if next > info.max {
        info.max as int
    } else {
        next
    }
}

/// Steps a brightness reading by `delta`, clamped into the monitor's
/// span, as the all-displays hotkey adjustment does per display.
pub fn next_brightness(info: BrightnessInfo, delta: i32) -> (r: u32)
    requires
        info.wf(),
    ensures
        r == spec_next_brightness(info, delta),
        info.min <= r <= info.max,
{
    let next: i64 = (info.current as i64) + (delta as i64);
    if next < info.min as i64 {
        info.min
    } else if next > info.max as i64 {
        info.max
    } else {
        next as u32
    }
}

/// Concludes a brightness write after its fallback chain: the DDC/CI
/// write is tried first and the WMI write only on its failure, so the
/// operation succeeds exactly when either strategy did; with both
/// failed, the error propagates.
pub fn conclude_set_brightness(ddc_ok: bool, wmi_ok: bool) -> (r: Result<(), ControlError>)
    ensures
        r is Ok <==> (ddc_ok || wmi_ok),
        r is Err ==> r->Err_0 == ControlError::HardwareFailure,
{
    if ddc_ok || wmi_ok {
        Ok(())
    } else {
        Err(ControlError::HardwareFailure)
    }
}

/// Decides one display's step of the all-displays brightness sweep: a
/// write is due exactly when the clamped step lands away from the
/// current value, and the written value is exactly that clamp.
pub fn plan_brightness_step(info: BrightnessInfo, delta: i32) -> (r: Option<u32>)
    requires
        info.wf(),
    ensures
        r is Some <==> spec_next_brightness(info, delta) != info.current,
        r is Some ==> r->0 == spec_next_brightness(info, delta) && info.min <= r->0 <= info.max,
{
    let next = next_brightness(info, delta);
    if next != info.current {
        Some(next)
    } else {
        None
    }
}

/// The VCP input-source code an input request denotes, over the
/// lower-cased request bytes: a fixed label table first, then a raw
/// hexadecimal (`0x` prefixed) or decimal code.
pub open spec fn spec_input_code(s: Seq<u8>) -> Option<u32> {
    if s == "vga".spec_bytes() {
        Some(0x01u32)
    } else if s == "dvi".spec_bytes() {
        Some(0x03u32)
    } else if s == "dvi2".spec_bytes() {
        Some(0x04u32)
    } else if s == "dp".spec_bytes() || s == "displayport".spec_bytes() {
        Some(0x0Fu32)
    } else if s == "dp2".spec_bytes() || s == "displayport2".spec_bytes() {
        Some(0x10u32)
    } else if s == "hdmi".spec_bytes() || s == "hdmi1".spec_bytes() {
        Some(0x11u32)
    } else if s == "hdmi2".spec_bytes() {
        Some(0x12u32)
    } else if s == "usbc".spec_bytes() || s == "usb-c".spec_bytes() || s
        == "typec".spec_bytes() {
        // vendor-specific code several USB-C monitors use
        Some(0x1Bu32)
    } else if s.len() >= 2 && s[0] == 48 && s[1] == 120 {
        // "0x" prefix: a raw hexadecimal code
        let rest = s.subrange(2, s.len() as int);
        if rest.len() > 0 && (forall|i: int| 0 <= i < rest.len() ==> is_hex_digit(
            #[trigger] rest[i],
        )) && hex_val(rest) <= u32::MAX {
            Some(hex_val(rest) as u32)
        } else {
            None
        }
    } else if s.len() > 0 && (forall|i: int| 0 <= i < s.len() ==> is_dec_digit(#[trigger] s[i]))
        && dec_val(s) <= u32::MAX {
        Some(dec_val(s) as u32)
    } else {
        None
    }
}

/// Maps an input-source request (a label such as `hdmi`, or a raw
/// hexadecimal or decimal code) to the VCP code to write; unmapped
/// requests are rejected before any device call.
pub fn parse_input_source(input: &str) -> (r: Result<u32, ControlError>)
    ensures
        r is Ok <==> spec_input_code(lower_seq(input.spec_bytes())) is Some,
        r is Ok ==> Some(r->Ok_0) == spec_input_code(lower_seq(input.spec_bytes())),
        r is Err ==> r->Err_0 == ControlError::UnknownInputSource,
{
    let lowered = ascii_lower(input.as_bytes());
    proof {
        assert(lowered@ =~= lower_seq(input.spec_bytes()));
    }
    let s: &[u8] = lowered.as_slice();
    if bytes_eq(s, "vga".as_bytes()) {
        Ok(0x01)
    } else if bytes_eq(s, "dvi".as_bytes()) {
        Ok(0x03)
    } else if bytes_eq(s, "dvi2".as_bytes()) {
        Ok(0x04)
    } else if bytes_eq(s, "dp".as_bytes()) || bytes_eq(s, "displayport".as_bytes()) {
        Ok(0x0F)
    } else if bytes_eq(s, "dp2".as_bytes()) || bytes_eq(s, "displayport2".as_bytes()) {
        Ok(0x10)
    } else if bytes_eq(s, "hdmi".as_bytes()) || bytes_eq(s, "hdmi1".as_bytes()) {
        Ok(0x11)
    } else if bytes_eq(s, "hdmi2".as_bytes()) {
        Ok(0x12)
    } else if bytes_eq(s, "usbc".as_bytes()) || bytes_eq(s, "usb-c".as_bytes()) || bytes_eq(
        s,
        "typec".as_bytes(),
    ) {
        Ok(0x1B)
    } else if s.len() >= 2 && s[0] == 48 && s[1] == 120 {
        let rest: &[u8] = &s[2..s.len()];
        match parse_u32_hex(rest) {
            Some(v) => Ok(v),
            None => Err(ControlError::UnknownInputSource),
        }
    } else {
        match parse_u32_dec(s) {
            Some(v) => Ok(v),
            None => Err(ControlError::UnknownInputSource),
        }
    }
}

/// Human-readable label for a known VCP input-source code; callers
/// render unknown codes numerically.
pub fn input_source_label(code: u32) -> (r: Option<String>)
    ensures
        r is Some <==> (code == 0x01 || code == 0x03 || code == 0x04 || code == 0x0F || code
            == 0x10 || code == 0x11 || code == 0x12 || code == 0x1B),
        code == 0x01 ==> r->0@ == "VGA"@,
        code == 0x03 ==> r->0@ == "DVI"@,
        code == 0x04 ==> r->0@ == "DVI 2"@,
        code == 0x0F ==> r->0@ == "DisplayPort"@,
        code == 0x10 ==> r->0@ == "DisplayPort 2"@,
        code == 0x11 ==> r->0@ == "HDMI"@,
        code == 0x12 ==> r->0@ == "HDMI 2"@,
        code == 0x1B ==> r->0@ == "USB-C"@,
{
    if code == 0x01 {
        Some("VGA".to_owned())
    } else if code == 0x03 {
        Some("DVI".to_owned())
    } else if code == 0x04 {
        Some("DVI 2".to_owned())
    } else if code == 0x0F {
        Some("DisplayPort".to_owned())
    } else if code == 0x10 {
        Some("DisplayPort 2".to_owned())
    } else if code == 0x11 {
        Some("HDMI".to_owned())
    } else if code == 0x12 {
        Some("HDMI 2".to_owned())
    } else if code == 0x1B {
        Some("USB-C".to_owned())
    } else {
        None
    }
}

/// Judges an input-source write from its read-back: the operation
/// succeeded exactly when the monitor reports the requested code back.
/// A differing read-back is a hard error — a silent no-op would
/// otherwise be indistinguishable from success — and a failed read-back
/// counts as a failed device call.
pub fn conclude_set_input_source(requested: u32, readback: Option<u32>) -> (r: Result<
    (),
    ControlError,
>)
    ensures
        r is Ok <==> readback == Some(requested),
        readback is Some && readback != Some(requested) ==> r->Err_0
            == ControlError::InputReadbackMismatch,
        readback is None ==> r->Err_0 == ControlError::HardwareFailure,
{
    match readback {
        None => Err(ControlError::HardwareFailure),
        Some(v) => {
            if v == requested {
                Ok(())
            } else {
                Err(ControlError::InputReadbackMismatch)
            }
        },
    }
}

/// VCP power-state value to write: 0x01 turns the panel on, 0x05 is
/// the hard power-off state.
pub fn power_vcp_value(on: bool) -> (r: u32)
    ensures
        r == (if on {
            1u32
        } else {
            5u32
        }),
{
    if on {
        0x01
    } else {
        0x05
    }
}

/// Interprets a power read. No physical-monitor handle at all means "no
/// DDC/CI support" (`None`), so callers can default internal displays
/// to enabled; with a handle, a failed VCP read means the panel is
/// asleep (powered off), and a value reads as on exactly for the VCP
/// "on" state 0x01.
pub fn interpret_power_read(handle_found: bool, value: Option<u32>) -> (r: Option<bool>)
    ensures
        r is Some <==> handle_found,
        handle_found && value is None ==> r == Some(false),
        handle_found && value is Some ==> r == Some(value->0 == 1u32),
{
    if !handle_found {
        None
    } else {
        match value {
            None => Some(false),
            Some(v) => Some(v == 1),
        }
    }
}

/// Trims a raw capability buffer at its first embedded terminator and
/// decodes it for display.
pub fn capabilities_string(raw: &Vec<u8>) -> (r: String)
    ensures
        r@ == utf8_lossy_of(prefix_to(raw@, 0u8)),
{
    let trimmed = trim_at_byte(raw.as_slice(), 0);
    utf8_lossy(&trimmed)
}

} // verus!
