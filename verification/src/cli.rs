//! Command-line decision layer: which invocation starts the GUI, how a
//! monitor index resolves to a device name, and which parameter checks
//! run before any device call. Argument parsing and printing stay with
//! the shell around the library.

use vstd::prelude::*;
use crate::displays::{ControlError, DisplayInfo};

verus! {

/// A parsed invocation.
pub struct Cli {
    pub command: Option<Commands>,
}

/// The commands the tool accepts. Monitor indices are 0-based and
/// resolve against a fresh listing.
pub enum Commands {
    /// List all monitors with their properties.
    List,
    /// Set the input source of a monitor.
    SetInput { monitor_idx: usize, source: String },
    /// Read the current input source of a monitor.
    GetInput { monitor_idx: usize },
    /// Apply an advertised resolution to a monitor.
    SetResolution { monitor_idx: usize, width: u32, height: u32, refresh_hz: Option<u32> },
    /// Rotate a monitor to a quarter-turn angle.
    SetOrientation { monitor_idx: usize, degrees: u32 },
    /// Set a monitor's brightness percentage.
    SetBrightness { monitor_idx: usize, percent: u32 },
    /// Read a monitor's brightness.
    GetBrightness { monitor_idx: usize },
    /// Apply a DPI scale percentage to a monitor.
    SetScale { monitor_idx: usize, percent: u32 },
    /// Turn HDR on or off for a monitor.
    SetHdr { monitor_idx: usize, enable: bool },
    /// Read a monitor's DDC/CI capability string.
    GetCaps { monitor_idx: usize },
    /// Start the GUI.
    Ui,
}

/// What an invocation does: start the GUI, or execute one command.
pub enum CliAction {
    StartGui,
    Execute(Commands),
}

/// Decides what an invocation does: no command or an explicit `Ui`
/// starts the GUI; anything else executes.
pub fn run_cli(cli: Cli) -> (r: CliAction)
    ensures
        r is StartGui <==> (cli.command is None || cli.command matches Some(Commands::Ui)),
        r matches CliAction::Execute(c) ==> Some(c) == cli.command,
{
    match cli.command {
        None => CliAction::StartGui,
        Some(Commands::Ui) => CliAction::StartGui,
        Some(command) => CliAction::Execute(command),
    }
}

/// Resolves a 0-based monitor index against a listing; indices past
/// the listing are rejected with an error that names the index.
pub fn get_device_name(monitors: &Vec<DisplayInfo>, idx: usize) -> (r: Result<
    String,
    ControlError,
>)
    ensures
        r is Ok <==> idx < monitors@.len(),
        r is Ok ==> r->Ok_0@ == monitors@[idx as int].device_name@,
        r is Err ==> r->Err_0 == (ControlError::MonitorIndexNotFound { idx }),
{
    if idx < monitors.len() {
        Ok(monitors[idx].device_name.clone())
    } else {
        Err(ControlError::MonitorIndexNotFound { idx })
    }
}

/// Checks the orientation argument as the command line does: exactly
/// 0, 90, 180 or 270 (no reduction modulo a full turn).
pub fn check_orientation_arg(degrees: u32) -> (r: Result<(), ControlError>)
    ensures
        r is Ok <==> (degrees == 0 || degrees == 90 || degrees == 180 || degrees == 270),
        r is Err ==> r->Err_0 == ControlError::InvalidOrientation,
{
    if degrees == 0 || degrees == 90 || degrees == 180 || degrees == 270 {
        Ok(())
    } else {
        Err(ControlError::InvalidOrientation)
    }
}

/// Checks the brightness argument: a percentage of at most 100.
pub fn check_brightness_arg(percent: u32) -> (r: Result<(), ControlError>)
    ensures
        r is Ok <==> percent <= 100,
        r is Err ==> r->Err_0 == ControlError::InvalidBrightness,
{
    if percent <= 100 {
        Ok(())
    } else {
        Err(ControlError::InvalidBrightness)
    }
}

/// One provider call, with its device name already resolved.
#[derive(Debug, PartialEq)]
pub enum CommandPlan {
    List,
    SetInput { device_name: String, source: String },
    GetInput { device_name: String },
    SetResolution { device_name: String, width: u32, height: u32, refresh_hz: Option<u32> },
    SetOrientation { device_name: String, degrees: u32 },
    SetBrightness { device_name: String, percent: u32 },
    GetBrightness { device_name: String },
    SetScale { device_name: String, percent: u32 },
    SetHdr { device_name: String, enable: bool },
    GetCaps { device_name: String },
}

/// Turns a command into the provider call it performs, against a fresh
/// listing: parameters are validated and the monitor index resolved
/// before any device call. Orientation and brightness arguments are
/// checked before the index, as the command line does.
pub fn plan_command(command: Commands, monitors: &Vec<DisplayInfo>) -> (r: Result<
    CommandPlan,
    ControlError,
>)
    requires
        !(command matches Commands::Ui),
    ensures
        command matches Commands::List ==> r matches Ok(CommandPlan::List),
        (match command {
            Commands::SetOrientation { monitor_idx, degrees } => {
                if !(degrees == 0 || degrees == 90 || degrees == 180 || degrees == 270) {
                    r matches Err(e) && e == ControlError::InvalidOrientation
                } else if monitor_idx >= monitors@.len() {
                    r matches Err(e) && e == (ControlError::MonitorIndexNotFound {
                        idx: monitor_idx,
                    })
                } else {
                    r matches Ok(CommandPlan::SetOrientation { device_name, degrees: d })
                        && device_name@ == monitors@[monitor_idx as int].device_name@ && d
                        == degrees
                }
            },
            Commands::SetBrightness { monitor_idx, percent } => {
                if percent > 100 {
                    r matches Err(e) && e == ControlError::InvalidBrightness
                } else if monitor_idx >= monitors@.len() {
                    r matches Err(e) && e == (ControlError::MonitorIndexNotFound {
                        idx: monitor_idx,
                    })
                } else {
                    r matches Ok(CommandPlan::SetBrightness { device_name, percent: p })
                        && device_name@ == monitors@[monitor_idx as int].device_name@ && p
                        == percent
                }
            },
            Commands::SetInput { monitor_idx, .. } => {
                if monitor_idx >= monitors@.len() {
                    r matches Err(e) && e == (ControlError::MonitorIndexNotFound {
                        idx: monitor_idx,
                    })
                } else {
                    r matches Ok(CommandPlan::SetInput { device_name, .. }) && device_name@
                        == monitors@[monitor_idx as int].device_name@
                }
            },
            Commands::GetInput { monitor_idx } => {
                if monitor_idx >= monitors@.len() {
                    r matches Err(e) && e == (ControlError::MonitorIndexNotFound {
                        idx: monitor_idx,
                    })
                } else {
                    r matches Ok(CommandPlan::GetInput { device_name }) && device_name@
                        == monitors@[monitor_idx as int].device_name@
                }
            },
            Commands::SetResolution { monitor_idx, .. } => {
                if monitor_idx >= monitors@.len() {
                    r matches Err(e) && e == (ControlError::MonitorIndexNotFound {
                        idx: monitor_idx,
                    })
                } else {
                    r matches Ok(CommandPlan::SetResolution { device_name, .. }) && device_name@
                        == monitors@[monitor_idx as int].device_name@
                }
            },
            Commands::GetBrightness { monitor_idx } => {
                if monitor_idx >= monitors@.len() {
                    r matches Err(e) && e == (ControlError::MonitorIndexNotFound {
                        idx: monitor_idx,
                    })
                } else {
                    r matches Ok(CommandPlan::GetBrightness { device_name }) && device_name@
                        == monitors@[monitor_idx as int].device_name@
                }
            },
            Commands::SetScale { monitor_idx, .. } => {
                if monitor_idx >= monitors@.len() {
                    r matches Err(e) && e == (ControlError::MonitorIndexNotFound {
                        idx: monitor_idx,
                    })
                } else {
                    r matches Ok(CommandPlan::SetScale { device_name, .. }) && device_name@
                        == monitors@[monitor_idx as int].device_name@
                }
            },
            Commands::SetHdr { monitor_idx, .. } => {
                if monitor_idx >= monitors@.len() {
                    r matches Err(e) && e == (ControlError::MonitorIndexNotFound {
                        idx: monitor_idx,
                    })
                } else {
                    r matches Ok(CommandPlan::SetHdr { device_name, .. }) && device_name@
                        == monitors@[monitor_idx as int].device_name@
                }
            },
            Commands::GetCaps { monitor_idx } => {
                if monitor_idx >= monitors@.len() {
                    r matches Err(e) && e == (ControlError::MonitorIndexNotFound {
                        idx: monitor_idx,
                    })
                } else {
                    r matches Ok(CommandPlan::GetCaps { device_name }) && device_name@
                        == monitors@[monitor_idx as int].device_name@
                }
            },
            _ => true,
        }),
{
    match command {
        Commands::List => Ok(CommandPlan::List),
        Commands::SetInput { monitor_idx, source } => {
            let device_name = get_device_name(monitors, monitor_idx)?;
            Ok(CommandPlan::SetInput { device_name, source })
        },
        Commands::GetInput { monitor_idx } => {
            let device_name = get_device_name(monitors, monitor_idx)?;
            Ok(CommandPlan::GetInput { device_name })
        },
        Commands::SetResolution { monitor_idx, width, height, refresh_hz } => {
            let device_name = get_device_name(monitors, monitor_idx)?;
            Ok(CommandPlan::SetResolution { device_name, width, height, refresh_hz })
        },
        Commands::SetOrientation { monitor_idx, degrees } => {
            check_orientation_arg(degrees)?;
            let device_name = get_device_name(monitors, monitor_idx)?;
            Ok(CommandPlan::SetOrientation { device_name, degrees })
        },
        Commands::SetBrightness { monitor_idx, percent } => {
            check_brightness_arg(percent)?;
            let device_name = get_device_name(monitors, monitor_idx)?;
            Ok(CommandPlan::SetBrightness { device_name, percent })
        },
        Commands::GetBrightness { monitor_idx } => {
            let device_name = get_device_name(monitors, monitor_idx)?;
            Ok(CommandPlan::GetBrightness { device_name })
        },
        Commands::SetScale { monitor_idx, percent } => {
            let device_name = get_device_name(monitors, monitor_idx)?;
            Ok(CommandPlan::SetScale { device_name, percent })
        },
        Commands::SetHdr { monitor_idx, enable } => {
            let device_name = get_device_name(monitors, monitor_idx)?;
            Ok(CommandPlan::SetHdr { device_name, enable })
        },
        Commands::GetCaps { monitor_idx } => {
            let device_name = get_device_name(monitors, monitor_idx)?;
            Ok(CommandPlan::GetCaps { device_name })
        },
        Commands::Ui => vstd::pervasive::unreached(),
    }
}

} // verus!
