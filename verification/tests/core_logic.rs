//! Text helpers, mode selection, scale ladder and DDC decision tests.

use windisplay::ddc::{
    brightness_target_value, capabilities_string, conclude_set_brightness,
    conclude_set_input_source, input_source_label, interpret_power_read, next_brightness,
    parse_input_source, plan_brightness_step, power_vcp_value, resolve_brightness,
    wmi_brightness_info,
};
use windisplay::displays::{BrightnessInfo, ControlError, Resolution};
use windisplay::modes::{
    build_mode_list, mode_list_contains, orientation_from_code, plan_orientation_change,
    select_change_mode, select_native_mode, OrientationPlan,
};
use windisplay::scale::{
    ladder_at, ladder_index, persisted_dpi, plan_set_scale, scale_options_from_packet,
    scale_percent_from_dpi, select_scale_subkey,
};
use windisplay::text::{
    ascii_lower, bytes_eq, contains_bytes, find_byte, parse_u32_dec, parse_u32_hex, trim_at_byte,
};

fn res(w: u32, h: u32, bpp: u32, hz: u32) -> Resolution {
    Resolution {
        width: w,
        height: h,
        bits_per_pixel: bpp,
        refresh_hz: hz,
    }
}

#[test]
fn lowercases_ascii_only() {
    assert_eq!(ascii_lower(b"MONITOR\\Del1234"), b"monitor\\del1234".to_vec());
    assert_eq!(ascii_lower(b"hdmi-2 @60Hz"), b"hdmi-2 @60hz".to_vec());
}

#[test]
fn substring_search() {
    assert!(contains_bytes(b"monitor\\del1234\\x", b"del1234"));
    assert!(!contains_bytes(b"monitor", b"display"));
    assert!(contains_bytes(b"abc", b""));
    assert!(!contains_bytes(b"ab", b"abc"));
    assert!(bytes_eq(b"vga", b"vga"));
    assert!(!bytes_eq(b"vga", b"dvi"));
}

#[test]
fn numeric_parsing() {
    assert_eq!(parse_u32_dec(b"17"), Some(17));
    assert_eq!(parse_u32_dec(b"4294967295"), Some(u32::MAX));
    assert_eq!(parse_u32_dec(b"4294967296"), None);
    assert_eq!(parse_u32_dec(b""), None);
    assert_eq!(parse_u32_dec(b"1x"), None);
    assert_eq!(parse_u32_hex(b"60"), Some(0x60));
    assert_eq!(parse_u32_hex(b"fF"), Some(255));
    assert_eq!(parse_u32_hex(b"100000000"), None);
    assert_eq!(parse_u32_hex(b"g1"), None);
}

#[test]
fn byte_trimming() {
    assert_eq!(trim_at_byte(b"abc\0def", 0), b"abc".to_vec());
    assert_eq!(trim_at_byte(b"abc", 0), b"abc".to_vec());
    assert_eq!(find_byte(b"a\\b", 92), Some(1));
    assert_eq!(find_byte(b"ab", 92), None);
}

#[test]
fn mode_list_holds_current_mode() {
    // the current mode is not among the advertised ones
    let advertised = vec![
        res(1920, 1080, 32, 60),
        res(1920, 1080, 32, 60),
        res(2560, 1440, 32, 60),
    ];
    let current = res(1280, 720, 32, 60);
    let list = build_mode_list(&advertised, current);
    assert_eq!(list.len(), 3);
    assert!(mode_list_contains(&list, current));
    assert!(mode_list_contains(&list, res(1920, 1080, 32, 60)));
}

#[test]
fn mode_list_deduplicates() {
    let advertised = vec![
        res(1920, 1080, 32, 60),
        res(1920, 1080, 32, 60),
        res(1920, 1080, 32, 75),
        res(1920, 1080, 32, 60),
    ];
    let current = res(1920, 1080, 32, 60);
    let list = build_mode_list(&advertised, current);
    assert_eq!(list.len(), 2);
}

#[test]
fn native_mode_prefers_registry_resolution() {
    let modes = vec![
        res(1920, 1080, 32, 60),
        res(3840, 2160, 32, 30),
        res(3840, 2160, 32, 60),
        res(2560, 1440, 32, 144),
    ];
    let current = res(1920, 1080, 32, 60);
    // preferred size present: the highest refresh of that size wins
    let native = select_native_mode(&modes, current, Some((3840, 2160)));
    assert_eq!(native, res(3840, 2160, 32, 60));
    // preferred size absent from the advertised modes: synthesized from
    // the current mode's bit depth and refresh
    let native = select_native_mode(&modes, current, Some((1234, 567)));
    assert_eq!(native, res(1234, 567, 32, 60));
    // no preferred size: the largest area wins
    let native = select_native_mode(&modes, current, None);
    assert_eq!(native, res(3840, 2160, 32, 60));
    // nothing advertised at all: the current mode stands in
    let native = select_native_mode(&Vec::new(), current, None);
    assert_eq!(native, current);
}

#[test]
fn change_mode_selection() {
    let modes = vec![
        res(1920, 1080, 32, 60),
        res(1920, 1080, 32, 144),
        res(1920, 1080, 32, 75),
        res(2560, 1440, 32, 60),
    ];
    assert_eq!(
        select_change_mode(&modes, 1920, 1080, Some(75)),
        Ok(res(1920, 1080, 32, 75))
    );
    assert_eq!(
        select_change_mode(&modes, 1920, 1080, None),
        Ok(res(1920, 1080, 32, 144))
    );
    assert_eq!(
        select_change_mode(&modes, 1920, 1080, Some(120)),
        Err(ControlError::UnsupportedResolution)
    );
    assert_eq!(
        select_change_mode(&modes, 640, 480, None),
        Err(ControlError::UnsupportedResolution)
    );
}

#[test]
fn orientation_codes() {
    assert_eq!(orientation_from_code(0), 0);
    assert_eq!(orientation_from_code(1), 90);
    assert_eq!(orientation_from_code(2), 180);
    assert_eq!(orientation_from_code(3), 270);
    assert_eq!(orientation_from_code(99), 0);
}

#[test]
fn orientation_plan_swaps_once() {
    let once = plan_orientation_change(1920, 1080, 0, 90).unwrap();
    assert_eq!(
        once,
        OrientationPlan {
            width: 1080,
            height: 1920,
            code: 1
        }
    );
    // setting the same orientation again must not swap again
    let twice = plan_orientation_change(once.width, once.height, once.code, 90).unwrap();
    assert_eq!(twice, once);
    // angles reduce modulo a full turn
    let full = plan_orientation_change(1920, 1080, 0, 360).unwrap();
    assert_eq!(full.width, 1920);
    assert_eq!(full.code, 0);
    assert_eq!(
        plan_orientation_change(1920, 1080, 0, 45),
        Err(ControlError::InvalidOrientation)
    );
}

#[test]
fn ladder_lookup() {
    assert_eq!(ladder_at(0), 100);
    assert_eq!(ladder_at(11), 500);
    assert_eq!(ladder_index(125), Some(1));
    assert_eq!(ladder_index(300), Some(7));
    assert_eq!(ladder_index(110), None);
}

#[test]
fn scale_window_ladder_entries() {
    // recommended at 125, one step down to 100 and one up to 150
    let options = scale_options_from_packet(-1, 0, 1);
    let percents: Vec<u32> = options.iter().map(|o| o.percent).collect();
    assert_eq!(percents, vec![100, 125, 150]);
    assert!(options[1].is_recommended);
    assert!(!options[0].is_recommended);
    assert!(!options[2].is_recommended);
}

#[test]
fn scale_window_clamps_and_swaps() {
    // a window reaching past the ladder top clamps to 500
    let options = scale_options_from_packet(-10, 0, 5);
    assert_eq!(options.last().unwrap().percent, 500);
    // inverted descriptors swap their ends instead of failing
    let options = scale_options_from_packet(3, 0, -1);
    assert!(!options.is_empty());
}

#[test]
fn set_scale_round_trip_window() {
    // requested percentage within the window: accepted, and present in
    // the options reported afterwards
    assert_eq!(plan_set_scale(-1, 1, 125), Ok(0));
    assert_eq!(plan_set_scale(-1, 1, 100), Ok(-1));
    assert_eq!(plan_set_scale(-1, 1, 150), Ok(1));
    let after = scale_options_from_packet(-1, 0, 1);
    assert!(after.iter().any(|o| o.percent == 125));
    // not a ladder entry: rejected before any device call
    assert_eq!(plan_set_scale(-1, 1, 999), Err(ControlError::ScaleNotInLadder));
    // a ladder entry outside the window
    assert_eq!(plan_set_scale(-1, 1, 200), Err(ControlError::ScaleOutOfRange));
}

#[test]
fn scale_set_marks_requested_recommended_when_it_is() {
    // window [100,150] with recommended 125: setting 125 succeeds and
    // the options afterwards tag 125 recommended
    assert_eq!(plan_set_scale(-1, 1, 125), Ok(0));
    let options = scale_options_from_packet(-1, 0, 1);
    let tagged: Vec<u32> = options
        .iter()
        .filter(|o| o.is_recommended)
        .map(|o| o.percent)
        .collect();
    assert_eq!(tagged, vec![125]);
}

#[test]
fn persistence_subkey_selection() {
    let path = "\\\\?\\DISPLAY#DEL1234#5&2f4c1b8a&0&UID4357#{guid}".to_owned();
    let existing = vec![
        "GSM0001_00_07E1_EC".to_owned(),
        "DEL1234_05_07E5_AB".to_owned(),
    ];
    // the manufacturer/product fragment of the path picks the matching key
    assert_eq!(select_scale_subkey(&path, &existing), Some(1));
    // no matching subkey: nothing is chosen, no key is created
    let other = vec!["GSM0001_00_07E1_EC".to_owned()];
    assert_eq!(select_scale_subkey(&path, &other), None);
    // a path without the separator carries no fragment
    assert_eq!(select_scale_subkey(&"plainpath".to_owned(), &existing), None);
}

#[test]
fn persisted_dpi_value() {
    assert_eq!(persisted_dpi(125), 120);
    assert_eq!(persisted_dpi(100), 96);
    assert_eq!(persisted_dpi(150), 144);
}

#[test]
fn scale_percent_from_dpi_reading() {
    assert_eq!(scale_percent_from_dpi(96), 100);
    assert_eq!(scale_percent_from_dpi(120), 125);
    assert_eq!(scale_percent_from_dpi(0), 100);
    assert_eq!(scale_percent_from_dpi(1), 50);
    assert_eq!(scale_percent_from_dpi(100000), 400);
}

#[test]
fn brightness_mapping_rounds_onto_span() {
    assert_eq!(brightness_target_value(0, 100, 50), 50);
    assert_eq!(brightness_target_value(10, 20, 50), 15);
    // (10 * 25 + 50) / 100 rounds 2.5 up to 3
    assert_eq!(brightness_target_value(0, 10, 25), 3);
    // requests above 100 clamp to the span's top
    assert_eq!(brightness_target_value(0, 100, 250), 100);
    assert_eq!(brightness_target_value(7, 7, 90), 7);
}

#[test]
fn brightness_read_invariant_holds() {
    let ddc = BrightnessInfo {
        min: 10,
        current: 5,
        max: 50,
    };
    let r = resolve_brightness(Some(ddc), None);
    assert!(r.min <= r.current && r.current <= r.max);
    assert_eq!(r.current, 10);
    let wmi = wmi_brightness_info(130);
    assert_eq!(
        wmi,
        BrightnessInfo {
            min: 0,
            current: 100,
            max: 100
        }
    );
}

#[test]
fn brightness_fallback_chain() {
    // DDC/CI failed (no physical-monitor handle), WMI answered 40
    let r = resolve_brightness(None, Some(40));
    assert_eq!(
        r,
        BrightnessInfo {
            min: 0,
            current: 40,
            max: 100
        }
    );
    // both strategies failed: the conservative default
    let r = resolve_brightness(None, None);
    assert_eq!(
        r,
        BrightnessInfo {
            min: 0,
            current: 50,
            max: 100
        }
    );
    // an incoherent DDC/CI span counts as a failed strategy
    let bad = BrightnessInfo {
        min: 80,
        current: 90,
        max: 20,
    };
    let r = resolve_brightness(Some(bad), Some(40));
    assert_eq!(r.current, 40);
}

#[test]
fn brightness_stepping_clamps() {
    let info = BrightnessInfo {
        min: 10,
        current: 12,
        max: 80,
    };
    assert_eq!(next_brightness(info, -5), 10);
    assert_eq!(next_brightness(info, 5), 17);
    let info = BrightnessInfo {
        min: 0,
        current: 98,
        max: 100,
    };
    assert_eq!(next_brightness(info, 5), 100);
}

#[test]
fn brightness_step_planning() {
    let info = BrightnessInfo {
        min: 0,
        current: 50,
        max: 100,
    };
    // a write is due exactly when the clamped step moves the value
    assert_eq!(plan_brightness_step(info, 5), Some(55));
    assert_eq!(plan_brightness_step(info, -5), Some(45));
    assert_eq!(plan_brightness_step(info, 0), None);
    let at_top = BrightnessInfo {
        min: 0,
        current: 100,
        max: 100,
    };
    // stepping past the top clamps back to the current value: no write
    assert_eq!(plan_brightness_step(at_top, 5), None);
    assert_eq!(plan_brightness_step(at_top, -5), Some(95));
}

#[test]
fn set_brightness_fallback_conclusion() {
    // the DDC/CI write succeeded (WMI never tried)
    assert_eq!(conclude_set_brightness(true, false), Ok(()));
    // the DDC/CI write failed, the WMI fallback succeeded
    assert_eq!(conclude_set_brightness(false, true), Ok(()));
    // both strategies failed: the error propagates
    assert_eq!(
        conclude_set_brightness(false, false),
        Err(ControlError::HardwareFailure)
    );
}

#[test]
fn input_source_parsing() {
    assert_eq!(parse_input_source("HDMI"), Ok(0x11));
    assert_eq!(parse_input_source("hdmi2"), Ok(0x12));
    assert_eq!(parse_input_source("Vga"), Ok(0x01));
    assert_eq!(parse_input_source("DisplayPort"), Ok(0x0F));
    assert_eq!(parse_input_source("usb-c"), Ok(0x1B));
    assert_eq!(parse_input_source("0x60"), Ok(0x60));
    assert_eq!(parse_input_source("17"), Ok(17));
    assert_eq!(
        parse_input_source("composite-video"),
        Err(ControlError::UnknownInputSource)
    );
    assert_eq!(parse_input_source(""), Err(ControlError::UnknownInputSource));
}

#[test]
fn input_source_labels() {
    assert_eq!(input_source_label(0x11), Some("HDMI".to_owned()));
    assert_eq!(input_source_label(0x0F), Some("DisplayPort".to_owned()));
    assert_eq!(input_source_label(0x99), None);
}

#[test]
fn input_switch_readback_is_verified() {
    // the monitor reports the requested code back: success
    assert_eq!(conclude_set_input_source(0x11, Some(0x11)), Ok(()));
    // a differing read-back is a hard error, never a silent success
    assert_eq!(
        conclude_set_input_source(0x11, Some(0x0F)),
        Err(ControlError::InputReadbackMismatch)
    );
    // a failed read-back is a failed device call
    assert_eq!(
        conclude_set_input_source(0x11, None),
        Err(ControlError::HardwareFailure)
    );
}

#[test]
fn power_codes_and_reads() {
    assert_eq!(power_vcp_value(true), 0x01);
    assert_eq!(power_vcp_value(false), 0x05);
    // no handle at all: no DDC/CI support, distinct from powered-off
    assert_eq!(interpret_power_read(false, None), None);
    // unreachable channel on a handle: asleep
    assert_eq!(interpret_power_read(true, None), Some(false));
    assert_eq!(interpret_power_read(true, Some(0x01)), Some(true));
    assert_eq!(interpret_power_read(true, Some(0x05)), Some(false));
}

#[test]
fn capability_string_trims_at_terminator() {
    let raw = b"(prot(monitor)type(lcd))\0garbage".to_vec();
    assert_eq!(capabilities_string(&raw), "(prot(monitor)type(lcd))");
    let raw = b"plain".to_vec();
    assert_eq!(capabilities_string(&raw), "plain");
}
