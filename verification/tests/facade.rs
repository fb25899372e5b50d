//! The synthetic backend, the facade trait, the hotkey sweep and the
//! command-line decisions.

use windisplay::cli::{
    check_brightness_arg, check_orientation_arg, get_device_name, plan_command, run_cli, Cli,
    CliAction, CommandPlan, Commands,
};
use windisplay::displays::{find_display_index, ControlError, Displays};
use windisplay::fake_displays::{fake_monitor_list, FakeDisplays};
use windisplay::hotkeys::adjust_brightness_all;
use windisplay::win_hdr::Status;

#[test]
fn synthetic_listing_has_four_displays() {
    let monitors = fake_monitor_list();
    assert_eq!(monitors.len(), 4);
    assert_eq!(monitors[0].device_name, "\\\\.\\DISPLAY1");
    assert_eq!(monitors[1].device_name, "\\\\.\\DISPLAY2");
    assert_eq!(monitors[2].device_name, "\\\\.\\DISPLAY3");
    assert_eq!(monitors[3].device_name, "\\\\.\\DISPLAY4");
    assert!(monitors[0].is_primary);
    assert!(!monitors[1].is_primary && !monitors[2].is_primary && !monitors[3].is_primary);
    assert_eq!(monitors[0].scale_percent, 125);
    assert_eq!(monitors[1].scale_percent, 100);
    assert_eq!(monitors[2].scale_percent, 100);
    assert_eq!(monitors[3].scale_percent, 100);
    for (i, m) in monitors.iter().enumerate() {
        assert_eq!(m.position_x, (i as i32) * 1920);
        assert_eq!(m.position_y, 0);
        assert_eq!(m.orientation, 0);
        assert_eq!(m.current.width, 1920);
        assert_eq!(m.current.height, 1080);
        // the three advertised modes, current included
        assert_eq!(m.modes.len(), 3);
        assert!(m.modes.contains(&m.current));
        let sizes: Vec<(u32, u32)> = m.modes.iter().map(|r| (r.width, r.height)).collect();
        assert_eq!(sizes, vec![(1920, 1080), (2560, 1440), (3840, 2160)]);
        assert_eq!(m.max_native.width, 3840);
        assert_eq!(m.hdr_status, Status::Unsupported);
    }
}

#[test]
fn synthetic_backend_operations() {
    let provider = FakeDisplays::new();
    let monitors = provider.get_all_monitors().unwrap();
    assert_eq!(monitors.len(), 4);
    let names = provider.get_all_monitors_short().unwrap();
    assert_eq!(names.len(), 4);
    // the name-only listing keeps the full listing's order exactly —
    // index-based target selection depends on it
    for (i, name) in names.iter().enumerate() {
        assert_eq!(name, &monitors[i].device_name);
    }
    assert_eq!(names[0], "\\\\.\\DISPLAY1");
    let b = provider
        .get_monitor_brightness("\\\\.\\DISPLAY1".to_owned())
        .unwrap();
    assert_eq!((b.min, b.current, b.max), (0, 50, 100));
    assert!(provider
        .set_monitor_resolution("\\\\.\\DISPLAY1".to_owned(), 2560, 1440, None)
        .is_ok());
    assert!(provider
        .set_monitor_orientation("\\\\.\\DISPLAY1".to_owned(), 90)
        .is_ok());
    assert!(provider
        .set_monitor_brightness("\\\\.\\DISPLAY1".to_owned(), 70)
        .is_ok());
    assert!(provider
        .set_monitor_scale("\\\\.\\DISPLAY1".to_owned(), 125)
        .is_ok());
    assert!(provider.enable_hdr("\\\\.\\DISPLAY1".to_owned(), true).is_ok());
    assert_eq!(
        provider.get_monitor_power("\\\\.\\DISPLAY1".to_owned()),
        Ok(Some(true))
    );
    assert!(provider
        .set_monitor_power("\\\\.\\DISPLAY1".to_owned(), false)
        .is_ok());
}

#[test]
fn repeated_writes_are_idempotent_on_the_synthetic_backend() {
    let provider = FakeDisplays::new();
    let first = provider.set_monitor_orientation("\\\\.\\DISPLAY1".to_owned(), 90);
    let second = provider.set_monitor_orientation("\\\\.\\DISPLAY1".to_owned(), 90);
    assert_eq!(first, second);
    let after = provider.get_all_monitors().unwrap();
    let again = provider.get_all_monitors().unwrap();
    assert_eq!(after.len(), again.len());
    assert_eq!(after[0].orientation, again[0].orientation);
}

#[test]
fn hotkey_sweep_steps_all_displays() {
    let provider = FakeDisplays::new();
    // every display reads 50, so a +5 step changes each
    assert!(adjust_brightness_all(&provider, 5));
    // a zero step changes nothing and writes nothing
    assert!(!adjust_brightness_all(&provider, 0));
}

#[test]
fn display_index_lookup() {
    let monitors = fake_monitor_list();
    assert_eq!(
        find_display_index(&monitors, &"\\\\.\\DISPLAY3".to_owned()),
        Some(2)
    );
    assert_eq!(find_display_index(&monitors, &"\\\\.\\DISPLAY9".to_owned()), None);
}

#[test]
fn cli_decides_gui_or_command() {
    assert!(matches!(run_cli(Cli { command: None }), CliAction::StartGui));
    assert!(matches!(
        run_cli(Cli {
            command: Some(Commands::Ui)
        }),
        CliAction::StartGui
    ));
    assert!(matches!(
        run_cli(Cli {
            command: Some(Commands::List)
        }),
        CliAction::Execute(Commands::List)
    ));
    assert!(matches!(
        run_cli(Cli {
            command: Some(Commands::GetBrightness { monitor_idx: 1 })
        }),
        CliAction::Execute(Commands::GetBrightness { monitor_idx: 1 })
    ));
}

#[test]
fn device_name_resolution() {
    let monitors = fake_monitor_list();
    assert_eq!(
        get_device_name(&monitors, 0),
        Ok("\\\\.\\DISPLAY1".to_owned())
    );
    assert_eq!(
        get_device_name(&monitors, 4),
        Err(ControlError::MonitorIndexNotFound { idx: 4 })
    );
}

#[test]
fn command_arguments_validated_before_any_device_call() {
    assert_eq!(check_orientation_arg(270), Ok(()));
    assert_eq!(check_orientation_arg(45), Err(ControlError::InvalidOrientation));
    // the command line accepts the exact set only, without reduction
    assert_eq!(check_orientation_arg(360), Err(ControlError::InvalidOrientation));
    assert_eq!(check_brightness_arg(100), Ok(()));
    assert_eq!(check_brightness_arg(101), Err(ControlError::InvalidBrightness));
}

#[test]
fn command_planning() {
    let monitors = fake_monitor_list();
    let plan = plan_command(Commands::List, &monitors).unwrap();
    assert!(matches!(plan, CommandPlan::List));

    let plan = plan_command(
        Commands::SetBrightness {
            monitor_idx: 1,
            percent: 70,
        },
        &monitors,
    )
    .unwrap();
    match plan {
        CommandPlan::SetBrightness {
            device_name,
            percent,
        } => {
            assert_eq!(device_name, "\\\\.\\DISPLAY2");
            assert_eq!(percent, 70);
        }
        _ => panic!("wrong plan"),
    }

    assert_eq!(
        plan_command(
            Commands::SetBrightness {
                monitor_idx: 0,
                percent: 150
            },
            &monitors
        ),
        Err(ControlError::InvalidBrightness)
    );
    assert_eq!(
        plan_command(
            Commands::SetOrientation {
                monitor_idx: 0,
                degrees: 45
            },
            &monitors
        ),
        Err(ControlError::InvalidOrientation)
    );
    assert_eq!(
        plan_command(
            Commands::SetScale {
                monitor_idx: 9,
                percent: 125
            },
            &monitors
        ),
        Err(ControlError::MonitorIndexNotFound { idx: 9 })
    );
}

#[test]
fn error_messages_are_displayable() {
    assert_eq!(
        ControlError::InvalidOrientation.message(),
        "Orientation must be 0, 90, 180, or 270 degrees"
    );
    assert_eq!(
        ControlError::InvalidBrightness.message(),
        "Brightness must be between 0 and 100"
    );
    assert!(!ControlError::NotFound.message().is_empty());
    assert!(!ControlError::InputReadbackMismatch.message().is_empty());
    // the index-miss message names the index and points at the listing
    assert_eq!(
        ControlError::MonitorIndexNotFound { idx: 3 }.message(),
        "Monitor index 3 not found. Use --list to see available monitors."
    );
    assert_eq!(
        ControlError::MonitorIndexNotFound { idx: 42 }.message(),
        "Monitor index 42 not found. Use --list to see available monitors."
    );
}
