//! Monitor identity and control layer.
//!
//! The crate models the decision logic of a display-control service:
//! enumerating attached displays, correlating them with EDID metadata,
//! selecting video modes, computing DPI scale ladders, decoding advanced
//! color (HDR) state, and driving DDC/CI brightness, input-source and
//! power operations. Device I/O stays outside; every function here works
//! on plain values read from the devices and is verified.

pub mod cli;
pub mod ddc;
pub mod displays;
pub mod edid;
pub mod fake_displays;
pub mod hotkeys;
pub mod modes;
pub mod scale;
pub mod text;
pub mod win_displays;
pub mod win_hdr;
pub mod wmi;
