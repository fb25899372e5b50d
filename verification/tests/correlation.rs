//! EDID correlation, metadata parsing, HDR decisions and the assembly
//! pipeline.

use windisplay::displays::{DisplayInfo, Resolution};
use windisplay::edid::{
    built_in_code, connection_label, correlate_edid, EdidEntry, IdentityKey,
};
use windisplay::wmi::{parse_edid_payload, parse_wmi_brightness, wmi_set_succeeded};
use windisplay::win_displays::{
    build_identity_keys, conclude_enable_hdr, get_all_monitors_from, widestr_to_string, DeviceMode,
    DeviceRecord, ATTACHED_TO_DESKTOP, MIRRORING_DRIVER, PRIMARY_DEVICE,
};
use windisplay::win_hdr::{
    get_displays, get_windows_hdr_status, set_display_hdr_plan, set_hdr_status_by_index,
    set_windows_hdr_status, toggle_hdr_status, PathColorInfo, PathProbe, Status,
};
use windisplay::displays::ControlError;

fn entry(manufacturer: &str, model: &str, instance: Option<&str>) -> EdidEntry {
    EdidEntry {
        manufacturer: manufacturer.to_owned(),
        model: model.to_owned(),
        serial: String::new(),
        product_code: String::new(),
        week_of_manufacture: 0,
        year_of_manufacture: 0,
        instance_name: instance.map(|s| s.to_owned()),
        video_output_technology: None,
        active: None,
    }
}

fn key(friendly: &str, device_id: &str) -> IdentityKey {
    IdentityKey {
        friendly_name: friendly.to_owned(),
        device_id: device_id.to_owned(),
    }
}

#[test]
fn instance_identifier_match_wins() {
    let keys = vec![key("Generic Monitor", "MONITOR\\DEL1234\\7&abc")];
    let entries = vec![
        entry("AAA", "Other Screen", Some("DISPLAY\\XYZ9\\x")),
        entry("DEL", "U2720Q", Some("DISPLAY\\DEL1234\\y")),
    ];
    // the vendor/product fragment DEL1234 occurs in the device id
    let a = correlate_edid(&keys, &entries);
    assert_eq!(a, vec![Some(1)]);
}

#[test]
fn model_match_used_as_fallback() {
    let keys = vec![key("Dell U2720Q (DisplayPort)", "MONITOR\\GSM0001\\z")];
    let entries = vec![
        entry("AAA", "PA278QV", None),
        entry("DEL", "u2720q", None),
    ];
    let a = correlate_edid(&keys, &entries);
    assert_eq!(a, vec![Some(1)]);
}

#[test]
fn instance_match_preferred_over_model_match() {
    let keys = vec![key("Dell U2720Q", "MONITOR\\DEL1234\\7")];
    let entries = vec![
        // a model match in pool order before the instance match
        entry("DEL", "U2720Q", None),
        entry("DEL", "Other", Some("DISPLAY\\DEL1234\\0")),
    ];
    let a = correlate_edid(&keys, &entries);
    assert_eq!(a, vec![Some(1)]);
}

#[test]
fn enumeration_order_fallback() {
    let keys = vec![
        key("Monitor A", "MONITOR\\AAA\\1"),
        key("Monitor B", "MONITOR\\BBB\\2"),
    ];
    let entries = vec![entry("X", "X1", None), entry("Y", "Y1", None)];
    let a = correlate_edid(&keys, &entries);
    assert_eq!(a, vec![Some(0), Some(1)]);
}

#[test]
fn no_candidate_assigned_twice() {
    // three displays all matching the single candidate
    let keys = vec![
        key("Dell U2720Q", "MONITOR\\DEL1234\\1"),
        key("Dell U2720Q", "MONITOR\\DEL1234\\2"),
        key("Dell U2720Q", "MONITOR\\DEL1234\\3"),
    ];
    let entries = vec![entry("DEL", "U2720Q", Some("DISPLAY\\DEL1234\\0"))];
    let a = correlate_edid(&keys, &entries);
    assert_eq!(a, vec![Some(0), None, None]);
}

#[test]
fn empty_candidate_pool_degrades_gracefully() {
    let keys = vec![key("Monitor A", "MONITOR\\AAA\\1")];
    let a = correlate_edid(&keys, &Vec::new());
    assert_eq!(a, vec![None]);
}

#[test]
fn parses_array_payload() {
    let raw = r#"[
        {"InstanceName":"DISPLAY\\DEL1234\\5","Manufacturer":"DEL","Model":"U2720Q",
         "SerialNumber":"ABC123","WeekOfManufacture":12,"YearOfManufacture":2021,
         "VideoOutputTechnology":10,"Active":true},
        {"InstanceName":null,"Manufacturer":null,"Model":"PA278QV"}
    ]"#;
    let entries = parse_edid_payload(raw);
    assert_eq!(entries.len(), 2);
    assert_eq!(entries[0].manufacturer, "DEL");
    assert_eq!(entries[0].model, "U2720Q");
    assert_eq!(entries[0].serial, "ABC123");
    assert_eq!(entries[0].week_of_manufacture, 12);
    assert_eq!(entries[0].year_of_manufacture, 2021);
    assert_eq!(entries[0].video_output_technology, Some(10));
    assert_eq!(entries[0].active, Some(true));
    // null and missing fields fall back to defaults
    assert_eq!(entries[1].manufacturer, "");
    assert_eq!(entries[1].model, "PA278QV");
    assert_eq!(entries[1].instance_name, None);
    assert_eq!(entries[1].year_of_manufacture, 0);
}

#[test]
fn parses_single_record_payload() {
    let raw = r#"{"Manufacturer":"GSM","Model":"LG HDR 4K"}"#;
    let entries = parse_edid_payload(raw);
    assert_eq!(entries.len(), 1);
    assert_eq!(entries[0].manufacturer, "GSM");
}

#[test]
fn tolerates_unusable_payload() {
    assert!(parse_edid_payload("").is_empty());
    assert!(parse_edid_payload("not json at all").is_empty());
    assert!(parse_edid_payload("42").is_empty());
}

#[test]
fn parses_wmi_brightness_payload() {
    assert_eq!(parse_wmi_brightness(r#"{"Current":40}"#), Some(40));
    assert_eq!(parse_wmi_brightness(""), None);
    assert_eq!(parse_wmi_brightness(r#"{"Other":1}"#), None);
    assert_eq!(parse_wmi_brightness(r#"{"Current":"forty"}"#), None);
}

#[test]
fn wmi_set_output_judgement() {
    assert!(wmi_set_succeeded("OK"));
    assert!(wmi_set_succeeded("\r\n  OK\r\n"));
    assert!(!wmi_set_succeeded(""));
    assert!(!wmi_set_succeeded("   "));
    assert!(!wmi_set_succeeded("error: access denied"));
}

#[test]
fn connection_labels_and_built_in() {
    assert_eq!(connection_label(0), "VGA");
    assert_eq!(connection_label(5), "HDMI");
    assert_eq!(connection_label(10), "DisplayPort (external)");
    assert_eq!(connection_label(11), "DisplayPort (embedded)");
    assert_eq!(connection_label(0x80000000), "Internal (adapter)");
    // codes outside the table carry the numeric code
    assert_eq!(connection_label(77), "Unknown (77)");
    assert_eq!(connection_label(4294967294), "Unknown (4294967294)");
    assert!(built_in_code(6));
    assert!(built_in_code(11));
    assert!(built_in_code(13));
    assert!(built_in_code(0x80000000));
    assert!(!built_in_code(10));
}

fn record(name: &str, flags: u32) -> DeviceRecord {
    DeviceRecord {
        state_flags: flags,
        device_name: name.to_owned(),
        friendly_name: "Generic PnP Adapter".to_owned(),
        device_id: "PCI\\VEN_10DE".to_owned(),
        monitor_name: Some("Dell U2720Q".to_owned()),
        monitor_id: Some("MONITOR\\DEL1234\\7".to_owned()),
        current: Some(DeviceMode {
            width: 1920,
            height: 1080,
            bits_per_pixel: 32,
            refresh_hz: 60,
            position_x: 0,
            position_y: 0,
            orientation_code: 0,
        }),
        advertised: vec![
            Resolution { width: 1920, height: 1080, bits_per_pixel: 32, refresh_hz: 60 },
            Resolution { width: 1920, height: 1080, bits_per_pixel: 32, refresh_hz: 60 },
            Resolution { width: 2560, height: 1440, bits_per_pixel: 32, refresh_hz: 60 },
        ],
        preferred: Some((2560, 1440)),
        dpi: 120,
        scale_packet: Some((-1, 0, 1)),
    }
}

#[test]
fn assembly_skips_detached_and_mirror_devices() {
    let records = vec![
        record("\\\\.\\DISPLAY1", ATTACHED_TO_DESKTOP | PRIMARY_DEVICE),
        record("\\\\.\\DISPLAYV", ATTACHED_TO_DESKTOP | MIRRORING_DRIVER),
        record("\\\\.\\DISPLAY2", 0),
        record("\\\\.\\DISPLAY3", ATTACHED_TO_DESKTOP),
    ];
    let monitors = get_all_monitors_from(&records, &Vec::new(), &Vec::new());
    assert_eq!(monitors.len(), 2);
    assert_eq!(monitors[0].device_name, "\\\\.\\DISPLAY1");
    assert!(monitors[0].is_primary);
    assert_eq!(monitors[1].device_name, "\\\\.\\DISPLAY3");
    assert!(!monitors[1].is_primary);
}

#[test]
fn assembly_skips_unreadable_current_mode() {
    let mut broken = record("\\\\.\\DISPLAY9", ATTACHED_TO_DESKTOP);
    broken.current = None;
    let records = vec![broken, record("\\\\.\\DISPLAY1", ATTACHED_TO_DESKTOP)];
    let monitors = get_all_monitors_from(&records, &Vec::new(), &Vec::new());
    assert_eq!(monitors.len(), 1);
    assert_eq!(monitors[0].device_name, "\\\\.\\DISPLAY1");
}

#[test]
fn assembled_record_fields() {
    let records = vec![record("\\\\.\\DISPLAY1", ATTACHED_TO_DESKTOP | PRIMARY_DEVICE)];
    let entries = vec![EdidEntry {
        manufacturer: "DEL".to_owned(),
        model: "U2720Q".to_owned(),
        serial: "S1".to_owned(),
        product_code: String::new(),
        week_of_manufacture: 12,
        year_of_manufacture: 2021,
        instance_name: Some("DISPLAY\\DEL1234\\0".to_owned()),
        video_output_technology: Some(10),
        active: Some(true),
    }];
    let hdr = vec![Status::On];
    let monitors = get_all_monitors_from(&records, &entries, &hdr);
    assert_eq!(monitors.len(), 1);
    let d = &monitors[0];
    // the monitor-level name replaces the adapter string
    assert_eq!(d.friendly_name, "Dell U2720Q");
    // the current mode stands in the deduplicated list
    assert_eq!(d.modes.len(), 2);
    assert_eq!(d.current.width, 1920);
    assert!(d.modes.contains(&d.current));
    // the preferred 2560x1440 resolution is advertised, so it is native
    assert_eq!(d.max_native.width, 2560);
    // 120 DPI over the 96 baseline
    assert_eq!(d.scale_percent, 125);
    let percents: Vec<u32> = d.scales.iter().map(|s| s.percent).collect();
    assert_eq!(percents, vec![100, 125, 150]);
    // EDID metadata was correlated in
    assert_eq!(d.manufacturer, "DEL");
    assert_eq!(d.model, "U2720Q");
    assert_eq!(d.serial, "S1");
    assert_eq!(d.year_of_manufacture, 2021);
    assert_eq!(d.week_of_manufacture, 12);
    assert_eq!(d.connection, "DisplayPort (external)");
    assert!(!d.built_in);
    assert!(d.active);
    assert_eq!(d.hdr_status, Status::On);
}

#[test]
fn assembly_without_metadata_leaves_fields_empty() {
    let records = vec![record("\\\\.\\DISPLAY1", ATTACHED_TO_DESKTOP)];
    let monitors = get_all_monitors_from(&records, &Vec::new(), &Vec::new());
    let d = &monitors[0];
    assert_eq!(d.manufacturer, "");
    assert_eq!(d.model, "");
    assert_eq!(d.connection, "");
    assert!(!d.built_in);
    assert_eq!(d.hdr_status, Status::Unsupported);
}

#[test]
fn identity_keys_follow_eligible_records() {
    let records = vec![
        record("\\\\.\\DISPLAY1", ATTACHED_TO_DESKTOP),
        record("\\\\.\\DISPLAY2", 0),
    ];
    let keys = build_identity_keys(&records);
    assert_eq!(keys.len(), 1);
    assert_eq!(keys[0].friendly_name, "Dell U2720Q");
    assert_eq!(keys[0].device_id, "MONITOR\\DEL1234\\7");
}

fn path(ok: bool, info: u32) -> PathColorInfo {
    PathColorInfo {
        query_ok: ok,
        color_info: info,
    }
}

#[test]
fn hdr_status_aggregation() {
    // bit 0 = supported, bit 1 = enabled
    assert_eq!(get_windows_hdr_status(&vec![]), Status::Unsupported);
    assert_eq!(get_windows_hdr_status(&vec![path(false, 3)]), Status::Unsupported);
    assert_eq!(get_windows_hdr_status(&vec![path(true, 0)]), Status::Unsupported);
    assert_eq!(get_windows_hdr_status(&vec![path(true, 1)]), Status::Off);
    // the enable bit alone does not count on an unsupported path
    assert_eq!(get_windows_hdr_status(&vec![path(true, 2)]), Status::Unsupported);
    assert_eq!(
        get_windows_hdr_status(&vec![path(true, 1), path(true, 3)]),
        Status::On
    );
}

#[test]
fn hdr_set_plans() {
    assert_eq!(set_display_hdr_plan(path(true, 1), true), Some(1));
    assert_eq!(set_display_hdr_plan(path(true, 3), false), Some(0));
    // never issue a set on an unsupported path
    assert_eq!(set_display_hdr_plan(path(true, 0), true), None);
    assert_eq!(set_display_hdr_plan(path(false, 3), true), None);
}

#[test]
fn hdr_set_by_index() {
    let paths = vec![path(true, 1), path(true, 0)];
    assert_eq!(set_hdr_status_by_index(&paths, 0, true), Some(1));
    assert_eq!(set_hdr_status_by_index(&paths, 1, true), None);
    assert_eq!(set_hdr_status_by_index(&paths, 5, true), None);
}

#[test]
fn hdr_set_outcomes_take_most_on() {
    assert_eq!(set_windows_hdr_status(&vec![]), None);
    assert_eq!(set_windows_hdr_status(&vec![None, None]), None);
    assert_eq!(
        set_windows_hdr_status(&vec![None, Some(Status::Off), Some(Status::On)]),
        Some(Status::On)
    );
    assert_eq!(
        set_windows_hdr_status(&vec![Some(Status::Off), Some(Status::Unsupported)]),
        Some(Status::Off)
    );
}

#[test]
fn hdr_toggle_decisions() {
    // nothing supports advanced color: report unsupported, no device call
    assert_eq!(toggle_hdr_status(&vec![path(true, 0)]), None);
    // currently off everywhere: enable
    assert_eq!(toggle_hdr_status(&vec![path(true, 1)]), Some(true));
    // on somewhere: disable
    assert_eq!(toggle_hdr_status(&vec![path(true, 1), path(true, 3)]), Some(false));
}

fn probe(info: PathColorInfo, name_ok: bool, name: &str, base_ok: bool, tech: u32) -> PathProbe {
    PathProbe {
        color: info,
        name_query_ok: name_ok,
        friendly_name: name.to_owned(),
        base_query_ok: base_ok,
        base_output_technology: tech,
    }
}

#[test]
fn hdr_display_listing_names() {
    let probes = vec![
        probe(path(true, 3), true, "Dell U2720Q", false, 0),
        probe(path(true, 1), true, "", true, 0x80000001),
        probe(path(false, 0), false, "", false, 0),
    ];
    let displays = get_displays(&probes);
    assert_eq!(displays.len(), 3);
    assert_eq!(displays[0].name, "Dell U2720Q");
    assert_eq!(displays[0].status, Status::On);
    assert_eq!(displays[1].name, "Internal Display");
    assert_eq!(displays[1].status, Status::Off);
    assert_eq!(displays[2].name, "Unnamed");
    assert_eq!(displays[2].status, Status::Unsupported);
}

#[test]
fn enable_hdr_conclusions() {
    assert_eq!(conclude_enable_hdr(Some(Status::On)), Ok(()));
    assert_eq!(conclude_enable_hdr(Some(Status::Off)), Ok(()));
    assert_eq!(
        conclude_enable_hdr(Some(Status::Unsupported)),
        Err(ControlError::UnsupportedProtocol)
    );
    assert_eq!(conclude_enable_hdr(None), Err(ControlError::HardwareFailure));
}

#[test]
fn wide_buffer_decoding() {
    let buf: Vec<u16> = vec![68, 69, 76, 76, 0, 99, 99];
    assert_eq!(widestr_to_string(&buf), "DELL");
    let buf: Vec<u16> = vec![65, 66];
    assert_eq!(widestr_to_string(&buf), "AB");
    let buf: Vec<u16> = vec![0, 65];
    assert_eq!(widestr_to_string(&buf), "");
}

#[test]
fn display_info_is_clonable_per_pass() {
    let records = vec![record("\\\\.\\DISPLAY1", ATTACHED_TO_DESKTOP)];
    let monitors = get_all_monitors_from(&records, &Vec::new(), &Vec::new());
    let copy: DisplayInfo = monitors[0].clone();
    assert_eq!(copy.device_name, monitors[0].device_name);
}
