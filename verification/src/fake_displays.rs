//! The deterministic synthetic backend: four fixed monitors, used off
//! the target OS and in development builds. Write operations accept and
//! do nothing; reads report fixed values.

use vstd::prelude::*;
use crate::displays::{
    display_wf, BrightnessInfo, ControlError, DisplayInfo, Displays, Resolution, ScaleInfo,
};
use crate::win_hdr::Status;

verus! {

/// The synthetic four-monitor backend.
pub struct FakeDisplays;

impl FakeDisplays {
    /// Creates the synthetic backend.
    pub fn new() -> (r: Self) {
        FakeDisplays
    }
}

/// The three modes every synthetic display advertises.
pub open spec fn spec_fake_modes() -> Seq<Resolution> {
    seq![
        Resolution { width: 1920, height: 1080, bits_per_pixel: 32, refresh_hz: 60 },
        Resolution { width: 2560, height: 1440, bits_per_pixel: 32, refresh_hz: 60 },
        Resolution { width: 3840, height: 2160, bits_per_pixel: 32, refresh_hz: 60 },
    ]
}

fn fake_modes() -> (r: Vec<Resolution>)
    ensures
        r@ == spec_fake_modes(),
{
    let mut v: Vec<Resolution> = Vec::new();
    v.push(Resolution { width: 1920, height: 1080, bits_per_pixel: 32, refresh_hz: 60 });
    v.push(Resolution { width: 2560, height: 1440, bits_per_pixel: 32, refresh_hz: 60 });
    v.push(Resolution { width: 3840, height: 2160, bits_per_pixel: 32, refresh_hz: 60 });
    proof {
        assert(v@ =~= spec_fake_modes());
    }
    v
}

/// The fixed listing of the synthetic backend: four displays named
/// `\\.\DISPLAY1` to `\\.\DISPLAY4` side by side, the first primary at
/// 125% scale, the rest at 100%, each advertising the same three modes
/// with 1920x1080 current.
pub fn fake_monitor_list() -> (r: Vec<DisplayInfo>)
    ensures
        r@.len() == 4,
        forall|i: int| 0 <= i < 4 ==> display_wf(#[trigger] r@[i]),
        r@[0].device_name@ == "\\\\.\\DISPLAY1"@,
        r@[1].device_name@ == "\\\\.\\DISPLAY2"@,
        r@[2].device_name@ == "\\\\.\\DISPLAY3"@,
        r@[3].device_name@ == "\\\\.\\DISPLAY4"@,
        forall|i: int| 0 <= i < 4 ==> (#[trigger] r@[i]).is_primary == (i == 0),
        forall|i: int| 0 <= i < 4 ==> (#[trigger] r@[i]).scale_percent == (if i == 0 {
            125u32
        } else {
            100u32
        }),
        forall|i: int| 0 <= i < 4 ==> (#[trigger] r@[i]).position_x == i * 1920
            && r@[i].position_y == 0,
        forall|i: int| 0 <= i < 4 ==> (#[trigger] r@[i]).current == spec_fake_modes()[0],
        forall|i: int| 0 <= i < 4 ==> (#[trigger] r@[i]).modes@ == spec_fake_modes(),
        forall|i: int| 0 <= i < 4 ==> (#[trigger] r@[i]).max_native == spec_fake_modes()[2],
        forall|i: int| 0 <= i < 4 ==> (#[trigger] r@[i]).orientation == 0,
        forall|i: int| 0 <= i < 4 ==> (#[trigger] r@[i]).hdr_status == Status::Unsupported,
{
    let mut r: Vec<DisplayInfo> = Vec::new();
    let mut i: usize = 0;
    while i < 4
        invariant
            i <= 4,
            r@.len() == i,
            forall|k: int| 0 <= k < i ==> display_wf(#[trigger] r@[k]),
            i >= 1 ==> r@[0].device_name@ == "\\\\.\\DISPLAY1"@,
            i >= 2 ==> r@[1].device_name@ == "\\\\.\\DISPLAY2"@,
            i >= 3 ==> r@[2].device_name@ == "\\\\.\\DISPLAY3"@,
            i >= 4 ==> r@[3].device_name@ == "\\\\.\\DISPLAY4"@,
            forall|k: int| 0 <= k < i ==> (#[trigger] r@[k]).is_primary == (k == 0),
            forall|k: int| 0 <= k < i ==> (#[trigger] r@[k]).scale_percent == (if k == 0 {
                125u32
            } else {
                100u32
            }),
            forall|k: int| 0 <= k < i ==> (#[trigger] r@[k]).position_x == k * 1920
                && r@[k].position_y == 0,
            forall|k: int| 0 <= k < i ==> (#[trigger] r@[k]).current == spec_fake_modes()[0],
            forall|k: int| 0 <= k < i ==> (#[trigger] r@[k]).modes@ == spec_fake_modes(),
            forall|k: int| 0 <= k < i ==> (#[trigger] r@[k]).max_native == spec_fake_modes()[2],
            forall|k: int| 0 <= k < i ==> (#[trigger] r@[k]).orientation == 0,
            forall|k: int| 0 <= k < i ==> (#[trigger] r@[k]).hdr_status == Status::Unsupported,
        decreases 4 - i,
    {
        let device_name: String = if i == 0 {
            "\\\\.\\DISPLAY1".to_owned()
        } else if i == 1 {
            "\\\\.\\DISPLAY2".to_owned()
        } else if i == 2 {
            "\\\\.\\DISPLAY3".to_owned()
        } else {
            "\\\\.\\DISPLAY4".to_owned()
        };
        let friendly_name: String = if i == 0 {
            "Fake Monitor 1".to_owned()
        } else if i == 1 {
            "Fake Monitor 2".to_owned()
        } else if i == 2 {
            "Fake Monitor 3".to_owned()
        } else {
            "Fake Monitor 4".to_owned()
        };
        let modes = fake_modes();
        let current = modes[0];
        let max_native = modes[2];
        let d = DisplayInfo {
            device_name,
            friendly_name,
            is_primary: i == 0,
            position_x: (i as i32) * 1920,
            position_y: 0,
            orientation: 0,
            current,
            modes,
            max_native,
            model: String::new(),
            serial: String::new(),
            manufacturer: String::new(),
            year_of_manufacture: 0,
            week_of_manufacture: 0,
            connection: String::new(),
            built_in: false,
            active: false,
            enabled: true,
            scale_percent: if i == 0 {
                125
            } else {
                100
            },
            scales: Vec::new(),
            hdr_status: Status::Unsupported,
            supports_input_switch: None,
        };
        r.push(d);
        i = i + 1;
    }
    r
}

impl Displays for FakeDisplays {
    fn get_all_monitors(&self) -> (r: Result<Vec<DisplayInfo>, ControlError>)
        ensures
            r is Ok,
            r->Ok_0@.len() == 4,
            r->Ok_0@[0].device_name@ == "\\\\.\\DISPLAY1"@,
            r->Ok_0@[1].device_name@ == "\\\\.\\DISPLAY2"@,
            r->Ok_0@[2].device_name@ == "\\\\.\\DISPLAY3"@,
            r->Ok_0@[3].device_name@ == "\\\\.\\DISPLAY4"@,
            forall|i: int| 0 <= i < 4 ==> (#[trigger] r->Ok_0@[i]).is_primary == (i == 0),
            forall|i: int| 0 <= i < 4 ==> (#[trigger] r->Ok_0@[i]).scale_percent == (if i == 0 {
                125u32
            } else {
                100u32
            }),
            forall|i: int| 0 <= i < 4 ==> (#[trigger] r->Ok_0@[i]).position_x == i * 1920
                && r->Ok_0@[i].position_y == 0,
            forall|i: int| 0 <= i < 4 ==> (#[trigger] r->Ok_0@[i]).current == spec_fake_modes()[0],
            forall|i: int| 0 <= i < 4 ==> (#[trigger] r->Ok_0@[i]).modes@ == spec_fake_modes(),
            forall|i: int| 0 <= i < 4 ==> (#[trigger] r->Ok_0@[i]).max_native == spec_fake_modes()[2],
            forall|i: int| 0 <= i < 4 ==> (#[trigger] r->Ok_0@[i]).orientation == 0,
            forall|i: int| 0 <= i < 4 ==> (#[trigger] r->Ok_0@[i]).hdr_status
                == Status::Unsupported,
    {
        Ok(fake_monitor_list())
    }

    fn get_all_monitors_short(&self) -> (r: Result<Vec<String>, ControlError>)
        ensures
            r is Ok,
            r->Ok_0@.len() == 4,
            // the name-only listing keeps the full listing's order
            r->Ok_0@[0]@ == "\\\\.\\DISPLAY1"@,
            r->Ok_0@[1]@ == "\\\\.\\DISPLAY2"@,
            r->Ok_0@[2]@ == "\\\\.\\DISPLAY3"@,
            r->Ok_0@[3]@ == "\\\\.\\DISPLAY4"@,
    {
        let monitors = fake_monitor_list();
        let mut names: Vec<String> = Vec::new();
        let mut i: usize = 0;
        while i < monitors.len()
            invariant
                i <= monitors@.len(),
                names@.len() == i,
                forall|k: int|
                    0 <= k < i ==> (#[trigger] names@[k])@ == monitors@[k].device_name@,
            decreases monitors@.len() - i,
        {
            names.push(monitors[i].device_name.clone());
            i = i + 1;
        }
        Ok(names)
    }

    fn set_monitor_resolution(
        &self,
        device_name: String,
        width: u32,
        height: u32,
        refresh_hz: Option<u32>,
    ) -> (r: Result<(), ControlError>)
        ensures
            r is Ok,
    {
        Ok(())
    }

    fn set_monitor_orientation(&self, device_name: String, orientation_degrees: u32) -> (r: Result<
        (),
        ControlError,
    >)
        ensures
            r is Ok,
    {
        Ok(())
    }

    fn get_monitor_brightness(&self, device_name: String) -> (r: Result<
        BrightnessInfo,
        ControlError,
    >)
        ensures
            r == Ok::<BrightnessInfo, ControlError>(BrightnessInfo { min: 0, current: 50, max: 100 }),
    {
        Ok(BrightnessInfo { min: 0, current: 50, max: 100 })
    }

    fn set_monitor_brightness(&self, device_name: String, percent: u32) -> (r: Result<
        (),
        ControlError,
    >)
        ensures
            r is Ok,
    {
        Ok(())
    }

    fn set_monitor_scale(&self, device_name: String, scale_percent: u32) -> (r: Result<
        (),
        ControlError,
    >)
        ensures
            r is Ok,
    {
        Ok(())
    }

    fn enable_hdr(&self, device_name: String, enable: bool) -> (r: Result<(), ControlError>)
        ensures
            r is Ok,
    {
        Ok(())
    }

    fn set_monitor_input_source(&self, device_name: String, input: String) -> (r: Result<
        (),
        ControlError,
    >)
        ensures
            r is Ok,
    {
        Ok(())
    }

    fn get_monitor_input_source(&self, device_name: String) -> (r: Result<String, ControlError>)
        ensures
            r is Ok,
            r->Ok_0@ == "HDMI"@,
    {
        Ok("HDMI".to_owned())
    }

    fn get_monitor_ddc_caps(&self, device_name: String) -> (r: Result<String, ControlError>)
        ensures
            r is Ok,
            r->Ok_0@.len() == 0,
    {
        Ok(String::new())
    }

    fn get_monitor_power(&self, device_name: String) -> (r: Result<Option<bool>, ControlError>)
        ensures
            r == Ok::<Option<bool>, ControlError>(Some(true)),
    {
        Ok(Some(true))
    }

    fn set_monitor_power(&self, device_name: String, power_on: bool) -> (r: Result<
        (),
        ControlError,
    >)
        ensures
            r is Ok,
    {
        Ok(())
    }
}

} // verus!
