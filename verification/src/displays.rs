//! The unified display data model and the control-surface trait.

use vstd::prelude::*;
use vstd::string::StringSliceAdditionalSpecFns;
use crate::text::{
    dec_digits_u64, lemma_dec_digits_ascii, push_bytes, push_str_bytes, spec_dec_digits,
    utf8_lossy,
};
use crate::win_hdr::Status;

verus! {

/// One display mode: structural equality over all four fields.
#[derive(Clone, Copy, Debug, PartialEq, Eq, Structural)]
pub struct Resolution {
    pub width: u32,
    pub height: u32,
    pub bits_per_pixel: u32,
    pub refresh_hz: u32,
}

/// One selectable DPI step, as a percentage of the 96-DPI baseline
/// (125 stands for a 1.25 scale factor).
#[derive(Clone, Copy, Debug, PartialEq, Eq, Structural)]
pub struct ScaleInfo {
    pub percent: u32,
    pub is_recommended: bool,
}

/// Brightness triple; `min <= current <= max` holds on every successful read.
#[derive(Clone, Copy, Debug, PartialEq, Eq, Structural)]
pub struct BrightnessInfo {
    pub min: u32,
    pub current: u32,
    pub max: u32,
}

impl BrightnessInfo {
    /// The invariant every successful brightness read satisfies.
    pub open spec fn wf(self) -> bool {
        self.min <= self.current <= self.max
    }
}

/// The unified per-display record, rebuilt from scratch on every
/// enumeration pass.
#[derive(Clone, Debug)]
pub struct DisplayInfo {
    pub device_name: String,
    pub friendly_name: String,
    pub is_primary: bool,
    pub position_x: i32,
    pub position_y: i32,
    /// Orientation in degrees: 0, 90, 180 or 270.
    pub orientation: u32,
    pub current: Resolution,
    pub modes: Vec<Resolution>,
    pub max_native: Resolution,
    pub model: String,
    pub serial: String,
    pub manufacturer: String,
    pub year_of_manufacture: u32,
    pub week_of_manufacture: u32,
    pub connection: String,
    pub built_in: bool,
    pub active: bool,
    /// Whether the monitor is powered on.
    pub enabled: bool,
    /// Current DPI scale as a percentage of the 96-DPI baseline.
    pub scale_percent: u32,
    pub scales: Vec<ScaleInfo>,
    pub hdr_status: Status,
    /// Whether DDC/CI input switching (VCP 0x60) appears supported.
    pub supports_input_switch: Option<bool>,
}

/// What every assembled display record satisfies: its mode list holds
/// its current mode, without duplicates, and its orientation is a
/// quarter-turn angle.
pub open spec fn display_wf(d: DisplayInfo) -> bool {
    &&& d.modes@.contains(d.current)
    &&& (forall|a: int, b: int| 0 <= a < b < d.modes@.len() ==> d.modes@[a] != d.modes@[b])
    &&& (d.orientation == 0 || d.orientation == 90 || d.orientation == 180 || d.orientation
        == 270)
}

/// Why a control operation was refused, following the layer's error
/// taxonomy: a missing device, a protocol the panel does not implement,
/// a parameter rejected before any device call, or a write the monitor
/// silently ignored.
#[derive(Clone, Copy, Debug, PartialEq, Eq, Structural)]
pub enum ControlError {
    /// No monitor handle or device matches the given name.
    NotFound,
    /// A 0-based monitor index past the current listing.
    MonitorIndexNotFound { idx: usize },
    /// The device does not implement the protocol the operation needs.
    UnsupportedProtocol,
    /// Orientation degrees other than 0, 90, 180 or 270.
    InvalidOrientation,
    /// No advertised mode matches the requested resolution.
    UnsupportedResolution,
    /// The requested scale percentage is not a ladder entry.
    ScaleNotInLadder,
    /// The requested scale percentage lies outside the supported window.
    ScaleOutOfRange,
    /// Brightness percentages above 100.
    InvalidBrightness,
    /// The input-source label or number is not recognized.
    UnknownInputSource,
    /// The monitor reported a different input source after the write.
    InputReadbackMismatch,
    /// A device call reported failure.
    HardwareFailure,
}

/// The text reported for an index past the listing: it names the index
/// and points at the listing command.
pub open spec fn spec_index_not_found_message(idx: int) -> Seq<char> {
    ("Monitor index ".spec_bytes() + spec_dec_digits(idx)
        + " not found. Use --list to see available monitors.".spec_bytes()).map_values(
        |b: u8| b as char,
    )
}

impl ControlError {
    /// The text `message` reports for each cause.
    pub open spec fn spec_message(self) -> Seq<char> {
        match self {
            ControlError::NotFound => "Monitor handle not found"@,
            ControlError::MonitorIndexNotFound { idx } => spec_index_not_found_message(idx as int),
            ControlError::UnsupportedProtocol => "Operation unsupported by this monitor"@,
            ControlError::InvalidOrientation => "Orientation must be 0, 90, 180, or 270 degrees"@,
            ControlError::UnsupportedResolution => "Requested resolution not supported"@,
            ControlError::ScaleNotInLadder => "Unsupported DPI scale percentage"@,
            ControlError::ScaleOutOfRange => "DPI scale outside the supported range for this display"@,
            ControlError::InvalidBrightness => "Brightness must be between 0 and 100"@,
            ControlError::UnknownInputSource => "Unrecognized input source"@,
            ControlError::InputReadbackMismatch => "Monitor ignored the input source change"@,
            ControlError::HardwareFailure => "Device call failed"@,
        }
    }

    /// A human-readable cause, suitable for the shell to display.
    pub fn message(&self) -> (r: String)
        ensures
            r@ == self.spec_message(),
    {
        match self {
            ControlError::NotFound => "Monitor handle not found".to_owned(),
            ControlError::MonitorIndexNotFound { idx } => {
                let mut bytes: Vec<u8> = Vec::new();
                push_str_bytes(&mut bytes, "Monitor index ");
                let digits = dec_digits_u64(*idx as u64);
                push_bytes(&mut bytes, digits.as_slice());
                push_str_bytes(&mut bytes, " not found. Use --list to see available monitors.");
                proof {
                    reveal_strlit("Monitor index ");
                    reveal_strlit(" not found. Use --list to see available monitors.");
                    vstd::string::is_ascii_spec_bytes("Monitor index ");
                    vstd::string::is_ascii_spec_bytes(
                        " not found. Use --list to see available monitors.",
                    );
                    lemma_dec_digits_ascii(*idx as int);
                    let h = "Monitor index ".spec_bytes();
                    let d = spec_dec_digits(*idx as int);
                    let t = " not found. Use --list to see available monitors.".spec_bytes();
                    assert(bytes@ =~= h + d + t);
                    assert forall|i: int| 0 <= i < bytes@.len() implies bytes@[i] < 128 by {
                        if i < h.len() {
                            assert(bytes@[i] == h[i]);
                        } else if i < h.len() + d.len() {
                            assert(bytes@[i] == d[i - h.len()]);
                        } else {
                            assert(bytes@[i] == t[i - h.len() - d.len()]);
                        }
                    }
                }
                let r = utf8_lossy(&bytes);
                proof {
                    assert(r@ =~= spec_index_not_found_message(*idx as int));
                }
                r
            },
            ControlError::UnsupportedProtocol => "Operation unsupported by this monitor".to_owned(),
            ControlError::InvalidOrientation => "Orientation must be 0, 90, 180, or 270 degrees".to_owned(),
            ControlError::UnsupportedResolution => "Requested resolution not supported".to_owned(),
            ControlError::ScaleNotInLadder => "Unsupported DPI scale percentage".to_owned(),
            ControlError::ScaleOutOfRange => "DPI scale outside the supported range for this display".to_owned(),
            ControlError::InvalidBrightness => "Brightness must be between 0 and 100".to_owned(),
            ControlError::UnknownInputSource => "Unrecognized input source".to_owned(),
            ControlError::InputReadbackMismatch => "Monitor ignored the input source change".to_owned(),
            ControlError::HardwareFailure => "Device call failed".to_owned(),
        }
    }
}

/// The control surface over one backend, keyed by stable device names.
/// Records are rebuilt on every listing call — nothing is cached, so a
/// caller that needs a fresh view re-enumerates.
pub trait Displays {
    /// Lists the attached displays as unified records.
    fn get_all_monitors(&self) -> (r: Result<Vec<DisplayInfo>, ControlError>)
        ensures
            r is Ok ==> forall|k: int|
                0 <= k < r->Ok_0@.len() ==> display_wf(#[trigger] r->Ok_0@[k]),
    ;

    /// Lists only the device names, in the same order as the full
    /// listing, for hot-path callers.
    fn get_all_monitors_short(&self) -> (r: Result<Vec<String>, ControlError>);

    /// Applies an advertised mode of the given size (and refresh rate,
    /// when one is asked for).
    fn set_monitor_resolution(
        &self,
        device_name: String,
        width: u32,
        height: u32,
        refresh_hz: Option<u32>,
    ) -> (r: Result<(), ControlError>);

    /// Rotates the display to the given quarter-turn angle.
    fn set_monitor_orientation(&self, device_name: String, orientation_degrees: u32) -> (r: Result<
        (),
        ControlError,
    >);

    /// Reads brightness; a successful read always satisfies
    /// `min <= current <= max`.
    fn get_monitor_brightness(&self, device_name: String) -> (r: Result<
        BrightnessInfo,
        ControlError,
    >)
        ensures
            r is Ok ==> r->Ok_0.wf(),
    ;

    /// Writes brightness as a 0..100 percentage of the monitor's span.
    fn set_monitor_brightness(&self, device_name: String, percent: u32) -> (r: Result<
        (),
        ControlError,
    >);

    /// Applies a DPI scale percentage from the fixed ladder.
    fn set_monitor_scale(&self, device_name: String, scale_percent: u32) -> (r: Result<
        (),
        ControlError,
    >);

    /// Turns advanced color on or off for the display.
    fn enable_hdr(&self, device_name: String, enable: bool) -> (r: Result<(), ControlError>);

    /// Switches the monitor's input source, verifying the write by
    /// read-back.
    fn set_monitor_input_source(&self, device_name: String, input: String) -> (r: Result<
        (),
        ControlError,
    >);

    /// Reads the monitor's current input source as a label or number.
    fn get_monitor_input_source(&self, device_name: String) -> (r: Result<String, ControlError>);

    /// Reads the monitor's DDC/CI capability string.
    fn get_monitor_ddc_caps(&self, device_name: String) -> (r: Result<String, ControlError>);

    /// Reads the panel's power state. `Some(false)` reports a panel
    /// whose DDC/CI channel did not answer (most often asleep), while
    /// `None` reports a monitor without DDC/CI support at all, so
    /// callers can default internal displays to enabled.
    fn get_monitor_power(&self, device_name: String) -> (r: Result<Option<bool>, ControlError>);

    /// Powers the panel on or off through its VCP power control.
    fn set_monitor_power(&self, device_name: String, power_on: bool) -> (r: Result<
        (),
        ControlError,
    >);
}

/// Position of the display with this device name in a listing, if any;
/// the earliest when several match.
pub fn find_display_index(monitors: &Vec<DisplayInfo>, device_name: &String) -> (r: Option<usize>)
    ensures
        r is Some ==> r->0 < monitors@.len() && monitors@[r->0 as int].device_name@
            == device_name@,
        r is Some ==> forall|k: int|
            0 <= k < r->0 ==> (#[trigger] monitors@[k]).device_name@ != device_name@,
        r is None ==> forall|k: int|
            0 <= k < monitors@.len() ==> (#[trigger] monitors@[k]).device_name@ != device_name@,
{
    let mut i: usize = 0;
    while i < monitors.len()
        invariant
            i <= monitors@.len(),
            forall|k: int|
                0 <= k < i ==> (#[trigger] monitors@[k]).device_name@ != device_name@,
        decreases monitors@.len() - i,
    {
        if monitors[i].device_name.eq(device_name) {
            return Some(i);
        }
        i = i + 1;
    }
    None
}

} // verus!
