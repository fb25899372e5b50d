//! The all-displays brightness adjustment that the global brightness
//! hotkeys trigger: iterate over a just-fetched name list, read each
//! display's brightness, and write the stepped value only when it
//! changes. Each operation owns its device access for its own duration;
//! there is no parallel fan-out.

use vstd::prelude::*;
use crate::ddc::plan_brightness_step;
use crate::displays::Displays;

verus! {

/// Steps every display's brightness by `delta` percent, clamped into
/// each monitor's own span, and reports whether any write succeeded.
/// Each display's decision is `plan_brightness_step`: a write is issued
/// exactly when the clamped step differs from the read value, and the
/// written value is exactly that clamp. Displays whose brightness
/// cannot be read or written are skipped — the sweep is best-effort,
/// and a zero step writes nothing at all.
pub fn adjust_brightness_all<D: Displays>(provider: &D, delta: i32) -> (r: bool)
    ensures
        delta == 0 ==> !r,
{
    let names = match provider.get_all_monitors_short() {
        Ok(n) => n,
        Err(e) => {
            return false;
        },
    };
    let mut any_changed = false;
    let mut i: usize = 0;
    while i < names.len()
        invariant
            delta == 0 ==> !any_changed,
        decreases names@.len() - i,
    {
        let name = names[i].clone();
        match provider.get_monitor_brightness(name.clone()) {
            Ok(info) => {
                match plan_brightness_step(info, delta) {
                    Some(next) => {
                        match provider.set_monitor_brightness(name, next) {
                            Ok(()) => {
                                any_changed = true;
                            },
                            Err(e) => {},
                        }
                    },
                    None => {},
                }
            },
            Err(e) => {},
        }
        i = i + 1;
    }
    any_changed
}

} // verus!
