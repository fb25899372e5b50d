//! The enumeration and assembly pipeline of the hardware backend.
//!
//! One enumeration pass walks the indexed display-device list, reads
//! each device's current mode, advertised modes, preferred resolution,
//! DPI and scale descriptor, and fetches the EDID candidate pool and
//! the per-path HDR statuses. Those reads are the caller's device edge;
//! everything that decides — which devices count, how identities
//! correlate, which modes and scales a record reports — stands here and
//! is verified.

use vstd::prelude::*;
use crate::displays::{ControlError, DisplayInfo, Resolution, ScaleInfo};
use crate::edid::{
    built_in_code, connection_label, correlate_edid, opt_idx, spec_built_in, spec_connection_label,
    spec_unknown_label, EdidEntry, IdentityKey,
};
use crate::modes::{
    build_mode_list, orientation_from_code, select_native_mode, spec_native_mode,
    spec_orientation_from_code,
};
use crate::scale::{
    scale_options_from_packet, scale_percent_from_dpi, spec_scale_options,
    spec_scale_percent_from_dpi,
};
use crate::text::{lemma_prefix_to_at, prefix_to};
use crate::win_hdr::Status;

verus! {

/// State flag: the device is attached to the desktop.
pub const ATTACHED_TO_DESKTOP: u32 = 0x1;

/// State flag: the device drives the primary display.
pub const PRIMARY_DEVICE: u32 = 0x4;

/// State flag: the device is a mirroring (software) driver.
pub const MIRRORING_DRIVER: u32 = 0x8;

/// The current device mode read for one display device.
#[derive(Clone, Copy, Debug, PartialEq, Eq, Structural)]
pub struct DeviceMode {
    pub width: u32,
    pub height: u32,
    pub bits_per_pixel: u32,
    pub refresh_hz: u32,
    pub position_x: i32,
    pub position_y: i32,
    /// Device orientation code 0..3.
    pub orientation_code: u32,
}

/// Everything one pass reads about one index of the display-device
/// enumeration.
#[derive(Clone, Debug)]
pub struct DeviceRecord {
    pub state_flags: u32,
    pub device_name: String,
    /// The adapter-level device string.
    pub friendly_name: String,
    /// The adapter-level device identifier.
    pub device_id: String,
    /// Device string of the first monitor on this device, when queried.
    pub monitor_name: Option<String>,
    /// Device identifier of the first monitor on this device.
    pub monitor_id: Option<String>,
    /// The current mode; `None` when reading it failed, which skips the
    /// device — enumeration is best-effort.
    pub current: Option<DeviceMode>,
    /// Advertised modes, in enumeration order, duplicates included.
    pub advertised: Vec<Resolution>,
    /// Registry-stored preferred width and height, when present.
    pub preferred: Option<(u32, u32)>,
    /// Effective-DPI reading; 0 when unavailable.
    pub dpi: u32,
    /// The scale descriptor (`min_rel`, `cur_rel`, `max_rel`), when the
    /// scaling query succeeded.
    pub scale_packet: Option<(i32, i32, i32)>,
}

/// A device counts when it is attached to the desktop, not a mirror
/// driver, and its current mode could be read.
pub open spec fn spec_eligible(rec: DeviceRecord) -> bool {
    &&& rec.state_flags & ATTACHED_TO_DESKTOP != 0
    &&& rec.state_flags & MIRRORING_DRIVER == 0
    &&& rec.current is Some
}

/// Positions of the eligible records, in enumeration order.
pub open spec fn eligible_indices(rs: Seq<DeviceRecord>) -> Seq<int>
    decreases rs.len(),
{
    if rs.len() == 0 {
        Seq::empty()
    } else {
        eligible_indices(rs.drop_last()) + (if spec_eligible(rs.last()) {
            seq![rs.len() - 1]
        } else {
            Seq::empty()
        })
    }
}

/// Every listed position is in range and eligible.
pub proof fn lemma_eligible_indices_props(rs: Seq<DeviceRecord>)
    ensures
        eligible_indices(rs).len() <= rs.len(),
        forall|k: int|
            0 <= k < eligible_indices(rs).len() ==> 0 <= #[trigger] eligible_indices(rs)[k]
                < rs.len() && spec_eligible(rs[eligible_indices(rs)[k]]),
    decreases rs.len(),
{
    if rs.len() > 0 {
        lemma_eligible_indices_props(rs.drop_last());
        assert forall|k: int| 0 <= k < eligible_indices(rs).len() implies 0
            <= #[trigger] eligible_indices(rs)[k] < rs.len() && spec_eligible(
            rs[eligible_indices(rs)[k]],
        ) by {
            if k < eligible_indices(rs.drop_last()).len() {
                assert(eligible_indices(rs)[k] == eligible_indices(rs.drop_last())[k]);
                assert(rs.drop_last()[eligible_indices(rs.drop_last())[k]] == rs[eligible_indices(
                    rs,
                )[k]]);
            }
        }
    }
}

/// The eligible positions of a prefix are a prefix of the whole list's.
pub proof fn lemma_eligible_indices_prefix(rs: Seq<DeviceRecord>, i: int)
    requires
        0 <= i <= rs.len(),
    ensures
        eligible_indices(rs.take(i)).len() <= eligible_indices(rs).len(),
        forall|k: int|
            0 <= k < eligible_indices(rs.take(i)).len() ==> #[trigger] eligible_indices(
                rs.take(i),
            )[k] == eligible_indices(rs)[k],
    decreases rs.len() - i,
{
    if i == rs.len() {
        assert(rs.take(i) =~= rs);
    } else {
        lemma_eligible_indices_prefix(rs, i + 1);
        assert(rs.take(i + 1).drop_last() =~= rs.take(i));
        assert(rs.take(i + 1).last() == rs[i]);
        assert(eligible_indices(rs.take(i + 1)) =~= eligible_indices(rs.take(i)) + (
        if spec_eligible(rs[i]) {
            seq![i]
        } else {
            Seq::empty()
        }));
        assert forall|k: int| 0 <= k < eligible_indices(rs.take(i)).len() implies #[trigger] eligible_indices(
            rs.take(i),
        )[k] == eligible_indices(rs)[k] by {
            assert(eligible_indices(rs.take(i))[k] == eligible_indices(rs.take(i + 1))[k]);
        }
    }
}

/// The friendly name a record reports: the monitor-level device string
/// when present and non-empty (the adapter-level string often names the
/// adapter, not the monitor), else the adapter-level one.
pub open spec fn spec_effective_friendly(rec: DeviceRecord) -> Seq<char> {
    match rec.monitor_name {
        Some(m) => if m@.len() > 0 {
            m@
        } else {
            rec.friendly_name@
        },
        None => rec.friendly_name@,
    }
}

/// The identifier used for EDID matching: the monitor-level identifier
/// when present and non-empty, else the adapter-level one.
pub open spec fn spec_effective_device_id(rec: DeviceRecord) -> Seq<char> {
    match rec.monitor_id {
        Some(m) => if m@.len() > 0 {
            m@
        } else {
            rec.device_id@
        },
        None => rec.device_id@,
    }
}

fn effective_friendly(rec: &DeviceRecord) -> (r: String)
    ensures
        r@ == spec_effective_friendly(*rec),
{
    match &rec.monitor_name {
        Some(m) => {
            if !m.as_str().is_empty() {
                m.clone()
            } else {
                rec.friendly_name.clone()
            }
        },
        None => rec.friendly_name.clone(),
    }
}

fn effective_device_id(rec: &DeviceRecord) -> (r: String)
    ensures
        r@ == spec_effective_device_id(*rec),
{
    match &rec.monitor_id {
        Some(m) => {
            if !m.as_str().is_empty() {
                m.clone()
            } else {
                rec.device_id.clone()
            }
        },
        None => rec.device_id.clone(),
    }
}

/// Builds the identity keys of the eligible records, in enumeration
/// order, for the EDID correlation.
pub fn build_identity_keys(records: &Vec<DeviceRecord>) -> (r: Vec<IdentityKey>)
    ensures
        r@.len() == eligible_indices(records@).len(),
        forall|k: int|
            0 <= k < r@.len() ==> (#[trigger] r@[k]).friendly_name@ == spec_effective_friendly(
                records@[eligible_indices(records@)[k]],
            ) && r@[k].device_id@ == spec_effective_device_id(
                records@[eligible_indices(records@)[k]],
            ),
{
    let mut r: Vec<IdentityKey> = Vec::new();
    let mut i: usize = 0;
    while i < records.len()
        invariant
            i <= records@.len(),
            r@.len() == eligible_indices(records@.take(i as int)).len(),
            forall|k: int|
                0 <= k < r@.len() ==> (#[trigger] r@[k]).friendly_name@ == spec_effective_friendly(
                    records@[eligible_indices(records@)[k]],
                ) && r@[k].device_id@ == spec_effective_device_id(
                    records@[eligible_indices(records@)[k]],
                ),
        decreases records@.len() - i,
    {
        proof {
            assert(records@.take(i + 1).drop_last() =~= records@.take(i as int));
            assert(records@.take(i + 1).last() == records@[i as int]);
            lemma_eligible_indices_prefix(records@, i + 1);
        }
        let rec = &records[i];
        let attached = rec.state_flags & ATTACHED_TO_DESKTOP != 0;
        let mirror = rec.state_flags & MIRRORING_DRIVER != 0;
        if attached && !mirror && rec.current.is_some() {
            let key = IdentityKey {
                friendly_name: effective_friendly(rec),
                device_id: effective_device_id(rec),
            };
            proof {
                assert(eligible_indices(records@.take(i + 1)) =~= eligible_indices(
                    records@.take(i as int),
                ) + seq![i as int]);
                assert(eligible_indices(records@.take(i + 1))[r@.len() as int] == i as int);
                assert(eligible_indices(records@)[r@.len() as int] == i as int);
            }
            r.push(key);
        } else {
            proof {
                assert(eligible_indices(records@.take(i + 1)) =~= eligible_indices(
                    records@.take(i as int),
                ));
            }
        }
        i = i + 1;
    }
    proof {
        assert(records@.take(records@.len() as int) =~= records@);
    }
    r
}

/// The resolution a device mode denotes.
pub open spec fn spec_resolution_of(m: DeviceMode) -> Resolution {
    Resolution {
        width: m.width,
        height: m.height,
        bits_per_pixel: m.bits_per_pixel,
        refresh_hz: m.refresh_hz,
    }
}

/// The HDR status a display at logical position `k` reports: the k-th
/// per-path status when the HDR pass covers it, else unsupported.
pub open spec fn spec_hdr_at(h: Seq<Status>, k: int) -> Status {
    if 0 <= k < h.len() {
        h[k]
    } else {
        Status::Unsupported
    }
}

/// Everything a record's display carries that does not come from the
/// EDID pool.
pub open spec fn display_core_matches(
    d: DisplayInfo,
    rec: DeviceRecord,
    h: Status,
) -> bool {
    let m = rec.current->0;
    &&& rec.current is Some
    &&& d.device_name@ == rec.device_name@
    &&& d.friendly_name@ == spec_effective_friendly(rec)
    &&& d.is_primary == (rec.state_flags & PRIMARY_DEVICE != 0)
    &&& d.position_x == m.position_x
    &&& d.position_y == m.position_y
    &&& d.orientation == spec_orientation_from_code(m.orientation_code)
    &&& d.current == spec_resolution_of(m)
    &&& (forall|a: int, b: int| 0 <= a < b < d.modes@.len() ==> d.modes@[a] != d.modes@[b])
    &&& d.modes@.contains(d.current)
    &&& (forall|x: Resolution| #[trigger] d.modes@.contains(x) <==> (rec.advertised@.contains(x)
        || x == d.current))
    &&& d.max_native == spec_native_mode(rec.advertised@, d.current, rec.preferred)
    &&& d.scale_percent == spec_scale_percent_from_dpi(rec.dpi)
    &&& (match rec.scale_packet {
        Some(p) => d.scales@ == spec_scale_options(p.0, p.2),
        None => d.scales@ == Seq::<ScaleInfo>::empty(),
    })
    &&& d.hdr_status == h
    &&& d.enabled == true
    &&& d.supports_input_switch is None
}

/// The EDID-derived fields of a display, for the candidate it was
/// assigned (or for no candidate).
pub open spec fn display_edid_matches(d: DisplayInfo, entries: Seq<EdidEntry>, a: Option<int>)
    -> bool {
    match a {
        Some(j) => {
            &&& 0 <= j < entries.len()
            &&& d.model@ == entries[j].model@
            &&& d.manufacturer@ == entries[j].manufacturer@
            &&& d.serial@ == entries[j].serial@
            &&& d.year_of_manufacture == entries[j].year_of_manufacture
            &&& d.week_of_manufacture == entries[j].week_of_manufacture
            &&& (match entries[j].video_output_technology {
                Some(c) => (match spec_connection_label(c) {
                    Some(l) => d.connection@ == l,
                    None => d.connection@ == spec_unknown_label(c),
                }) && d.built_in == spec_built_in(c),
                None => d.connection@.len() == 0 && !d.built_in,
            })
            &&& d.active == (entries[j].active == Some(true))
        },
        None => {
            &&& d.model@.len() == 0
            &&& d.manufacturer@.len() == 0
            &&& d.serial@.len() == 0
            &&& d.year_of_manufacture == 0
            &&& d.week_of_manufacture == 0
            &&& d.connection@.len() == 0
            &&& !d.built_in
            &&& !d.active
        },
    }
}

/// Assembles the display records for the eligible devices of one pass,
/// given the EDID assignment the correlator chose and the per-path HDR
/// statuses in the same logical order.
pub fn assemble_displays(
    records: &Vec<DeviceRecord>,
    entries: &Vec<EdidEntry>,
    assignment: &Vec<Option<usize>>,
    hdr: &Vec<Status>,
) -> (r: Vec<DisplayInfo>)
    requires
        assignment@.len() == eligible_indices(records@).len(),
        forall|k: int|
            0 <= k < assignment@.len() && (#[trigger] assignment@[k]) is Some ==> assignment@[k]->0
                < entries@.len(),
    ensures
        r@.len() == eligible_indices(records@).len(),
        forall|k: int|
            0 <= k < r@.len() ==> display_core_matches(
                #[trigger] r@[k],
                records@[eligible_indices(records@)[k]],
                spec_hdr_at(hdr@, k),
            ),
        forall|k: int|
            0 <= k < r@.len() ==> display_edid_matches(
                #[trigger] r@[k],
                entries@,
                opt_idx(assignment@[k]),
            ),
{
    let mut out: Vec<DisplayInfo> = Vec::new();
    let mut i: usize = 0;
    while i < records.len()
        invariant
            i <= records@.len(),
            assignment@.len() == eligible_indices(records@).len(),
            forall|k: int|
                0 <= k < assignment@.len() && (#[trigger] assignment@[k]) is Some
                    ==> assignment@[k]->0 < entries@.len(),
            out@.len() == eligible_indices(records@.take(i as int)).len(),
            forall|k: int|
                0 <= k < out@.len() ==> display_core_matches(
                    #[trigger] out@[k],
                    records@[eligible_indices(records@)[k]],
                    spec_hdr_at(hdr@, k),
                ),
            forall|k: int|
                0 <= k < out@.len() ==> display_edid_matches(
                    #[trigger] out@[k],
                    entries@,
                    opt_idx(assignment@[k]),
                ),
        decreases records@.len() - i,
    {
        proof {
            assert(records@.take(i + 1).drop_last() =~= records@.take(i as int));
            assert(records@.take(i + 1).last() == records@[i as int]);
            lemma_eligible_indices_prefix(records@, i + 1);
        }
        let rec = &records[i];
        let attached = rec.state_flags & ATTACHED_TO_DESKTOP != 0;
        let mirror = rec.state_flags & MIRRORING_DRIVER != 0;
        if attached && !mirror {
            match rec.current {
                Some(m) => {
                    proof {
                        assert(eligible_indices(records@.take(i + 1)) =~= eligible_indices(
                            records@.take(i as int),
                        ) + seq![i as int]);
                        assert(eligible_indices(records@.take(i + 1))[out@.len() as int]
                            == i as int);
                        assert(eligible_indices(records@)[out@.len() as int] == i as int);
                    }
                    let k = out.len();
                    let current = Resolution {
                        width: m.width,
                        height: m.height,
                        bits_per_pixel: m.bits_per_pixel,
                        refresh_hz: m.refresh_hz,
                    };
                    let modes = build_mode_list(&rec.advertised, current);
                    // the native choice ranges over the advertised modes
                    // alone; the current mode only lends its bit depth
                    // and refresh to the synthesized fallback
                    let max_native = select_native_mode(&rec.advertised, current, rec.preferred);
                    let orientation = orientation_from_code(m.orientation_code);
                    let scale_percent = scale_percent_from_dpi(rec.dpi);
                    let scales = match rec.scale_packet {
                        Some(p) => scale_options_from_packet(p.0, p.1, p.2),
                        None => Vec::new(),
                    };
                    let hdr_status = if k < hdr.len() {
                        hdr[k]
                    } else {
                        Status::Unsupported
                    };
                    let mut model = String::new();
                    let mut manufacturer = String::new();
                    let mut serial = String::new();
                    let mut year_of_manufacture: u32 = 0;
                    let mut week_of_manufacture: u32 = 0;
                    let mut connection = String::new();
                    let mut built_in = false;
                    let mut active = false;
                    match assignment[k] {
                        Some(j) => {
                            let e = &entries[j];
                            model = e.model.clone();
                            manufacturer = e.manufacturer.clone();
                            serial = e.serial.clone();
                            year_of_manufacture = e.year_of_manufacture;
                            week_of_manufacture = e.week_of_manufacture;
                            match e.video_output_technology {
                                Some(c) => {
                                    connection = connection_label(c);
                                    built_in = built_in_code(c);
                                },
                                None => {},
                            }
                            active = match e.active {
                                Some(b) => b,
                                None => false,
                            };
                        },
                        None => {},
                    }
                    let d = DisplayInfo {
                        device_name: rec.device_name.clone(),
                        friendly_name: effective_friendly(rec),
                        is_primary: rec.state_flags & PRIMARY_DEVICE != 0,
                        position_x: m.position_x,
                        position_y: m.position_y,
                        orientation,
                        current,
                        modes,
                        max_native,
                        model,
                        serial,
                        manufacturer,
                        year_of_manufacture,
                        week_of_manufacture,
                        connection,
                        built_in,
                        active,
                        enabled: true,
                        scale_percent,
                        scales,
                        hdr_status,
                        supports_input_switch: None,
                    };
                    out.push(d);
                },
                None => {
                    proof {
                        assert(eligible_indices(records@.take(i + 1)) =~= eligible_indices(
                            records@.take(i as int),
                        ));
                    }
                },
            }
        } else {
            proof {
                assert(eligible_indices(records@.take(i + 1)) =~= eligible_indices(
                    records@.take(i as int),
                ));
            }
        }
        i = i + 1;
    }
    proof {
        assert(records@.take(records@.len() as int) =~= records@);
    }
    out
}

/// One full assembly pass: correlates the eligible devices with the
/// EDID candidate pool and builds the unified records. Every display
/// carries its current mode in its mode list, a valid orientation, and
/// scale options computed from its descriptor; the EDID fields are
/// either empty or copied from a candidate, and no candidate is used
/// for two displays.
pub fn get_all_monitors_from(
    records: &Vec<DeviceRecord>,
    entries: &Vec<EdidEntry>,
    hdr: &Vec<Status>,
) -> (r: Vec<DisplayInfo>)
    ensures
        r@.len() == eligible_indices(records@).len() <= records@.len(),
        forall|k: int|
            0 <= k < r@.len() ==> display_core_matches(
                #[trigger] r@[k],
                records@[eligible_indices(records@)[k]],
                spec_hdr_at(hdr@, k),
            ),
        exists|a: Seq<Option<int>>|
            #![trigger a.len()]
            {
                &&& a.len() == r@.len()
                &&& (forall|k1: int, k2: int|
                    #![trigger a[k1], a[k2]]
                    0 <= k1 < k2 < a.len() && a[k1] is Some && a[k2] is Some ==> a[k1]->0
                        != a[k2]->0)
                &&& (forall|k: int|
                    0 <= k < r@.len() ==> display_edid_matches(#[trigger] r@[k], entries@, a[k]))
            },
{
    let keys = build_identity_keys(records);
    let assignment = correlate_edid(&keys, entries);
    let r = assemble_displays(records, entries, &assignment, hdr);
    proof {
        lemma_eligible_indices_props(records@);
        let a = Seq::new(assignment@.len(), |k: int| opt_idx(assignment@[k]));
        assert forall|k1: int, k2: int|
            #![trigger a[k1], a[k2]]
            0 <= k1 < k2 < a.len() && a[k1] is Some && a[k2] is Some implies a[k1]->0 != a[k2]->0 by {
            assert(assignment@[k1] is Some && assignment@[k2] is Some);
        }
        assert forall|k: int| 0 <= k < r@.len() implies display_edid_matches(
            #[trigger] r@[k],
            entries@,
            a[k],
        ) by {
            assert(a[k] == opt_idx(assignment@[k]));
        }
        assert({
            &&& a.len() == r@.len()
            &&& (forall|k1: int, k2: int|
                #![trigger a[k1], a[k2]]
                0 <= k1 < k2 < a.len() && a[k1] is Some && a[k2] is Some ==> a[k1]->0 != a[k2]->0)
            &&& (forall|k: int|
                0 <= k < r@.len() ==> display_edid_matches(#[trigger] r@[k], entries@, a[k]))
        });
    }
    r
}

/// Judges an HDR toggle for one display from the per-path set outcome:
/// a path that reports unsupported refuses the change, a path that
/// answers with a status accepts it, and no answer at all is a failed
/// device call.
pub fn conclude_enable_hdr(outcome: Option<Status>) -> (r: Result<(), ControlError>)
    ensures
        r is Ok <==> (outcome is Some && outcome->0 != Status::Unsupported),
        outcome == Some(Status::Unsupported) ==> r->Err_0 == ControlError::UnsupportedProtocol,
        outcome is None ==> r->Err_0 == ControlError::HardwareFailure,
{
    match outcome {
        Some(Status::Unsupported) => Err(ControlError::UnsupportedProtocol),
        Some(s) => Ok(()),
        None => Err(ControlError::HardwareFailure),
    }
}

/// What `String::from_utf16_lossy` yields for a UTF-16 sequence; the
/// result depends on the code units alone.
pub uninterp spec fn utf16_lossy_of(s: Seq<u16>) -> Seq<char>;

/// Relies on String::from_utf16_lossy: decodes UTF-16, replacing
/// invalid code units, as a function of the code units alone.
#[verifier::external_body]
fn utf16_lossy(v: &Vec<u16>) -> (r: String)
    ensures
        r@ == utf16_lossy_of(v@),
{
    String::from_utf16_lossy(v)
}

/// Decodes a NUL-padded UTF-16 device buffer: the code units before the
/// first NUL, decoded lossily.
pub fn widestr_to_string(buf: &[u16]) -> (r: String)
    ensures
        r@ == utf16_lossy_of(prefix_to(buf@, 0u16)),
{
    let mut i: usize = 0;
    while i < buf.len() && buf[i] != 0
        invariant
            i <= buf@.len(),
            forall|k: int| 0 <= k < i ==> buf@[k] != 0u16,
        decreases buf@.len() - i,
    {
        i = i + 1;
    }
    let mut v: Vec<u16> = Vec::new();
    let mut j: usize = 0;
    while j < i
        invariant
            i <= buf@.len(),
            j <= i,
            v@ =~= buf@.subrange(0, j as int),
        decreases i - j,
    {
        v.push(buf[j]);
        j = j + 1;
    }
    proof {
        lemma_prefix_to_at(buf@, 0u16, i as int);
    }
    utf16_lossy(&v)
}

} // verus!
